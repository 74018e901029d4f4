//! Properties of the checker and of synthesis, proved from the contracts.
use vstd::prelude::*;
use crate::circuit::{ConstraintSystem, Expression};
use crate::field::{Fe, modulus};
use crate::satisfy::{
    Violation, active, binding_check, binding_checks, check_at, copy_check, copy_checks, eval,
    gate_checks, public_checks, row_checks, violations,
};
use crate::table::{Binding, Cell, Value, WitnessTable};
use crate::wallet::{identical, laid_out, wallet_poly, wallet_run, WalletConfig};

verus! {

proof fn lemma_no_constraints(cs: ConstraintSystem, t: WitnessTable, n: int)
    requires
        cs.constraints@.len() == 0,
    ensures
        gate_checks(cs, t, n) == Seq::<Violation>::empty(),
    decreases n,
{
    if n > 0 {
        lemma_no_constraints(cs, t, n - 1);
        assert(gate_checks(cs, t, n) =~= Seq::<Violation>::empty());
    }
}

/// A circuit without gates, copy constraints or bindings is satisfied by
/// every fully assigned witness (and no public inputs).
pub proof fn lemma_vacuous(cs: ConstraintSystem, t: WitnessTable)
    requires
        cs.wf(),
        t.wf(),
        cs.constraints@.len() == 0,
        t.copies@.len() == 0,
        t.bindings@.len() == 0,
        forall|c: int, r: int| 0 <= c < t.num_advice && 0 <= r < t.rows ==> #[trigger] t.value_at(c, r) is Known,
    ensures
        violations(cs, t, Seq::<Fe>::empty()) == Seq::<Violation>::empty(),
{
    lemma_no_constraints(cs, t, t.rows as int);
    assert(violations(cs, t, Seq::<Fe>::empty()) =~= Seq::<Violation>::empty());
}

/// Laying the wallet circuit out twice on the same table with the same
/// witness gives identical tables.
pub proof fn lemma_layout_deterministic(
    config: WalletConfig,
    before: WitnessTable,
    a: WitnessTable,
    b: WitnessTable,
    value: Value,
)
    requires
        laid_out(config, before, a, value),
        laid_out(config, before, b, value),
    ensures
        identical(a, b),
{
}

/// Running the wallet circuit twice with the same witness and row count
/// gives identical constraint systems' gates and identical tables.
pub proof fn lemma_run_deterministic(
    cs1: ConstraintSystem,
    t1: WitnessTable,
    cs2: ConstraintSystem,
    t2: WitnessTable,
    rows: usize,
    value: Value,
)
    requires
        wallet_run(cs1, t1, rows, value),
        wallet_run(cs2, t2, rows, value),
    ensures
        identical(t1, t2),
        cs1.constraints@ == cs2.constraints@,
{
    assert(t1.copies@ =~= t2.copies@);
}

/// A residue minus itself is zero.
proof fn lemma_sub_self(x: nat)
    requires
        x < modulus(),
    ensures
        (x + ((0 - x) % (modulus() as int)) as nat) % modulus() == 0,
{
    let p = modulus() as int;
    if x == 0 {
        vstd::arithmetic::div_mod::lemma_fundamental_div_mod_converse(0, p, 0, 0);
    } else {
        vstd::arithmetic::div_mod::lemma_fundamental_div_mod_converse(0 - x, p, -1, p - x);
        vstd::arithmetic::div_mod::lemma_fundamental_div_mod_converse(p, p, 1, 0);
    }
}

/// The identity gate `q - q` holds at every row where it is active and
/// the queried cell is assigned, whatever the cell holds.
pub proof fn lemma_identity_gate(cs: ConstraintSystem, t: WitnessTable, row: int, j: int, column: usize, rotation: i32)
    requires
        cs.wf(),
        t.wf(),
        0 <= j < cs.constraints@.len(),
        cs.constraints@[j].poly == Expression::Sum(
            Box::new(Expression::Advice { column, rotation }),
            Box::new(Expression::Negated(Box::new(Expression::Advice { column, rotation }))),
        ),
        t.value_at(column as int, row + rotation) is Known,
    ensures
        check_at(cs, t, row, j) == Seq::<Violation>::empty(),
{
    let v = t.value_at(column as int, row + rotation);
    let f = v->Known_0;
    assert(0 <= column * t.rows + (row + rotation) < t.advice@.len()) by {
        lemma_cell_index(t, column as int, row + rotation);
    }
    assert(f.wf());
    lemma_sub_self(f.val());
    let q = Expression::Advice { column, rotation };
    assert(eval(q, t, row) == Some(f.val()));
    assert(eval(Expression::Negated(Box::new(q)), t, row) == Some(((0 - f.val()) % (modulus() as int)) as nat));
    assert(eval(cs.constraints@[j].poly, t, row) == Some(0nat));
}

proof fn lemma_cell_index(t: WitnessTable, c: int, r: int)
    requires
        t.wf(),
        0 <= c < t.num_advice,
        0 <= r < t.rows,
    ensures
        0 <= c * t.rows + r < t.advice@.len(),
{
    assert(0 <= c * t.rows + r < t.num_advice * t.rows) by (nonlinear_arith)
        requires
            0 <= c < t.num_advice,
            0 <= r < t.rows,
    ;
}

/// A copy constraint between two assigned cells is reported exactly once,
/// naming both cells, when their values differ, and not at all otherwise.
pub proof fn lemma_copy_soundness(t: WitnessTable, a: Cell, b: Cell)
    requires
        t.wf(),
        t.copies@ == seq![(a, b)],
        t.value_at(a.column as int, a.row as int) is Known,
        t.value_at(b.column as int, b.row as int) is Known,
    ensures
        !t.value_at(a.column as int, a.row as int).same(t.value_at(b.column as int, b.row as int))
            ==> copy_checks(t, 1) == seq![Violation::EqualityNotSatisfied { left: a, right: b }],
        t.value_at(a.column as int, a.row as int).same(t.value_at(b.column as int, b.row as int))
            ==> copy_checks(t, 1) == Seq::<Violation>::empty(),
{
    assert(copy_checks(t, 0) == Seq::<Violation>::empty());
    assert(copy_checks(t, 1) =~= copy_check(t, a, b));
}

/// When the copy constraints report nothing, every declared pair holds
/// two assigned cells with the same value.
pub proof fn lemma_copies_hold(t: WitnessTable, m: int)
    requires
        0 <= m <= t.copies@.len(),
        copy_checks(t, m).len() == 0,
    ensures
        forall|i: int|
            0 <= i < m ==> {
                let (a, b) = #[trigger] t.copies@[i];
                &&& t.value_at(a.column as int, a.row as int) is Known
                &&& t.value_at(a.column as int, a.row as int).same(t.value_at(b.column as int, b.row as int))
            },
    decreases m,
{
    if m > 0 {
        let (a, b) = t.copies@[m - 1];
        assert(copy_checks(t, m) == copy_checks(t, m - 1) + copy_check(t, a, b));
        lemma_copies_hold(t, m - 1);
    }
}

/// With no public inputs where bindings were declared, or more than were
/// declared, the witness is never accepted.
pub proof fn lemma_public_arity(cs: ConstraintSystem, t: WitnessTable, inputs: Seq<Fe>)
    requires
        inputs.len() != t.bindings@.len(),
    ensures
        violations(cs, t, inputs).len() > 0,
{
    let pre = gate_checks(cs, t, t.rows as int) + copy_checks(t, t.copies@.len() as int);
    assert(violations(cs, t, inputs) == pre + public_checks(t, inputs));
    assert(public_checks(t, inputs).len() == 1);
}

/// With one binding at row 0 and nothing else to check, the witness is
/// accepted against `[v]` exactly when the bound cell holds `v`.
pub proof fn lemma_public_binding(cs: ConstraintSystem, t: WitnessTable, b: Binding, v: Fe)
    requires
        cs.wf(),
        t.wf(),
        cs.constraints@.len() == 0,
        t.copies@.len() == 0,
        t.bindings@ == seq![b],
        b.row == 0,
    ensures
        (violations(cs, t, seq![v]).len() == 0) <==> (t.value_at(
            b.cell.column as int,
            b.cell.row as int,
        ) matches Value::Known(f) && f.bytes@ == v.bytes@),
{
    lemma_no_constraints(cs, t, t.rows as int);
    assert(binding_checks(t, seq![v], 0) == Seq::<Violation>::empty());
    assert(binding_checks(t, seq![v], 1) =~= binding_check(t, b, v));
    assert(violations(cs, t, seq![v]) =~= binding_check(t, b, v));
}

proof fn lemma_wallet_gates(cs: ConstraintSystem, t: WitnessTable, rows: usize, f: Fe, n: int)
    requires
        wallet_run(cs, t, rows, Value::Known(f)),
        f.wf(),
        0 <= n <= rows,
    ensures
        gate_checks(cs, t, n) == Seq::<Violation>::empty(),
    decreases n,
{
    if n > 0 {
        lemma_wallet_gates(cs, t, rows, f, n - 1);
        let r = n - 1;
        assert(row_checks(cs, t, r, 0) == Seq::<Violation>::empty());
        if r == 0 {
            assert(t.value_at(0, 0) == Value::Known(f));
            lemma_identity_gate(cs, t, 0, 0, 0, 0);
        } else {
            assert(!t.enabled_at(0, r));
            assert(!active(cs, t, 0, r));
        }
        assert(row_checks(cs, t, r, 1) =~= check_at(cs, t, r, 0));
        assert(gate_checks(cs, t, n) =~= Seq::<Violation>::empty());
    }
}

/// The wallet circuit with address `f` is satisfied with public inputs
/// `[f]`; against any other single public value it fails with exactly one
/// violation, the mismatch at row 0 of the instance column.
pub proof fn lemma_wallet(cs: ConstraintSystem, t: WitnessTable, rows: usize, f: Fe, v: Fe)
    requires
        wallet_run(cs, t, rows, Value::Known(f)),
        f.wf(),
        rows > 0,
    ensures
        violations(cs, t, seq![f]) == Seq::<Violation>::empty(),
        f.bytes@ != v.bytes@ ==> violations(cs, t, seq![v]) == seq![
            Violation::PublicInputMismatch { instance: 0, row: 0 },
        ],
{
    lemma_wallet_gates(cs, t, rows, f, rows as int);
    assert(t.value_at(0, 0) == Value::Known(f));
    let b = Binding { cell: Cell { column: 0, row: 0 }, instance: 0, row: 0 };
    assert(binding_checks(t, seq![f], 0) == Seq::<Violation>::empty());
    assert(binding_checks(t, seq![f], 1) =~= binding_check(t, b, f));
    assert(binding_checks(t, seq![v], 0) == Seq::<Violation>::empty());
    assert(binding_checks(t, seq![v], 1) =~= binding_check(t, b, v));
    assert(copy_checks(t, 0) == Seq::<Violation>::empty());
    assert(violations(cs, t, seq![f]) =~= Seq::<Violation>::empty());
    assert(violations(cs, t, seq![v]) =~= binding_check(t, b, v));
}

} // verus!
