//! Checking a witness table against the gates, copy constraints and
//! public-input bindings of a circuit, reporting every violation found.
use vstd::prelude::*;
use crate::field::{Fe, fe_of, lemma_fe_of, modulus};
use crate::circuit::{ConstraintSystem, Expression};
use crate::table::{Binding, Cell, Value, WitnessTable};

verus! {

/// One way in which a witness fails its circuit.
#[derive(Clone, Copy, Debug, PartialEq, Eq)]
pub enum Violation {
    /// An active polynomial reads a cell that holds no value.
    CellNotAssigned { gate: usize, constraint: usize, row: usize },
    /// An active polynomial evaluates to `value`, which is not zero.
    ConstraintNotSatisfied { gate: usize, constraint: usize, row: usize, value: Fe },
    /// The two cells of a copy constraint hold different values.
    EqualityNotSatisfied { left: Cell, right: Cell },
    /// A cell of a copy constraint holds no value.
    EqualityCellNotAssigned { left: Cell, right: Cell },
    /// The number of public inputs is not the number of bindings.
    PublicInputCount { expected: usize, found: usize },
    /// The cell bound to the public input at (`instance`, `row`) holds no value.
    PublicInputNotAssigned { instance: usize, row: usize },
    /// The cell bound to the public input at (`instance`, `row`) holds another value.
    PublicInputMismatch { instance: usize, row: usize },
}

/// The residue that `e` takes at `row`, or `None` where it reads an
/// unassigned cell (or a row outside the table).
pub open spec fn eval(e: Expression, t: WitnessTable, row: int) -> Option<nat>
    decreases e,
{
    match e {
        Expression::Constant(c) => Some(c.val()),
        Expression::Advice { column, rotation } => t.value_at(column as int, row + rotation).model(),
        Expression::Sum(a, b) => match (eval(*a, t, row), eval(*b, t, row)) {
            (Some(x), Some(y)) => Some((x + y) % modulus()),
            _ => None,
        },
        Expression::Product(a, b) => match (eval(*a, t, row), eval(*b, t, row)) {
            (Some(x), Some(y)) => Some((x * y) % modulus()),
            _ => None,
        },
        Expression::Negated(a) => match eval(*a, t, row) {
            Some(x) => Some(((0 - x) % (modulus() as int)) as nat),
            None => None,
        },
    }
}

/// Whether constraint `j` is switched on at `row`.
pub open spec fn active(cs: ConstraintSystem, t: WitnessTable, j: int, row: int) -> bool {
    match cs.constraints@[j].selector {
        None => true,
        Some(s) => t.enabled_at(s.index as int, row),
    }
}

/// What constraint `j` reports at `row`.
pub open spec fn check_at(cs: ConstraintSystem, t: WitnessTable, row: int, j: int) -> Seq<Violation> {
    let c = cs.constraints@[j];
    if !active(cs, t, j, row) {
        seq![]
    } else {
        match eval(c.poly, t, row) {
            None => seq![
                Violation::CellNotAssigned { gate: c.gate, constraint: j as usize, row: row as usize },
            ],
            Some(v) => if v == 0 {
                seq![]
            } else {
                seq![
                    Violation::ConstraintNotSatisfied {
                        gate: c.gate,
                        constraint: j as usize,
                        row: row as usize,
                        value: fe_of(v),
                    },
                ]
            },
        }
    }
}

/// What the first `m` constraints report at `row`, in declaration order.
pub open spec fn row_checks(cs: ConstraintSystem, t: WitnessTable, row: int, m: int) -> Seq<Violation>
    decreases m,
{
    if m <= 0 {
        seq![]
    } else {
        row_checks(cs, t, row, m - 1) + check_at(cs, t, row, m - 1)
    }
}

/// What all constraints report on the first `n` rows, row by row.
pub open spec fn gate_checks(cs: ConstraintSystem, t: WitnessTable, n: int) -> Seq<Violation>
    decreases n,
{
    if n <= 0 {
        seq![]
    } else {
        gate_checks(cs, t, n - 1) + row_checks(cs, t, n - 1, cs.constraints@.len() as int)
    }
}

/// What the copy constraint between `a` and `b` reports.
pub open spec fn copy_check(t: WitnessTable, a: Cell, b: Cell) -> Seq<Violation> {
    let (x, y) = (t.value_at(a.column as int, a.row as int), t.value_at(b.column as int, b.row as int));
    if x is Unknown || y is Unknown {
        seq![Violation::EqualityCellNotAssigned { left: a, right: b }]
    } else if !x.same(y) {
        seq![Violation::EqualityNotSatisfied { left: a, right: b }]
    } else {
        seq![]
    }
}

/// What the first `m` copy constraints report, in declaration order.
pub open spec fn copy_checks(t: WitnessTable, m: int) -> Seq<Violation>
    decreases m,
{
    if m <= 0 {
        seq![]
    } else {
        copy_checks(t, m - 1) + copy_check(t, t.copies@[m - 1].0, t.copies@[m - 1].1)
    }
}

/// What binding `b` reports against the public value `v`.
pub open spec fn binding_check(t: WitnessTable, b: Binding, v: Fe) -> Seq<Violation> {
    match t.value_at(b.cell.column as int, b.cell.row as int) {
        Value::Unknown => seq![Violation::PublicInputNotAssigned { instance: b.instance, row: b.row }],
        Value::Known(f) => if f.bytes@ != v.bytes@ {
            seq![Violation::PublicInputMismatch { instance: b.instance, row: b.row }]
        } else {
            seq![]
        },
    }
}

/// What the first `m` bindings report against `inputs`, in declaration order.
pub open spec fn binding_checks(t: WitnessTable, inputs: Seq<Fe>, m: int) -> Seq<Violation>
    decreases m,
{
    if m <= 0 {
        seq![]
    } else {
        binding_checks(t, inputs, m - 1) + binding_check(t, t.bindings@[m - 1], inputs[m - 1])
    }
}

/// The public inputs, one per binding and in the same order.
pub open spec fn public_checks(t: WitnessTable, inputs: Seq<Fe>) -> Seq<Violation> {
    if inputs.len() != t.bindings@.len() {
        seq![
            Violation::PublicInputCount {
                expected: t.bindings@.len() as usize,
                found: inputs.len() as usize,
            },
        ]
    } else {
        binding_checks(t, inputs, inputs.len() as int)
    }
}

/// Every violation of `t` against `cs` and `inputs`: the gates row by row,
/// then the copy constraints, then the public inputs.
pub open spec fn violations(cs: ConstraintSystem, t: WitnessTable, inputs: Seq<Fe>) -> Seq<Violation> {
    gate_checks(cs, t, t.rows as int) + copy_checks(t, t.copies@.len() as int) + public_checks(t, inputs)
}

/// The value of `e` at `row`.
pub fn evaluate(e: &Expression, t: &WitnessTable, row: usize) -> (r: Value)
    requires
        e.wf(),
        t.wf(),
    ensures
        r.model() == eval(*e, *t, row as int),
        r.wf(),
    decreases e,
{
    match e {
        Expression::Constant(c) => Value::Known(*c),
        Expression::Advice { column, rotation } => {
            if *rotation < 0 {
                let back = (0 - (*rotation as i64)) as usize;
                if back <= row {
                    t.get(*column, row - back)
                } else {
                    Value::Unknown
                }
            } else {
                let ahead = *rotation as usize;
                if row < t.rows && ahead < t.rows - row {
                    t.get(*column, row + ahead)
                } else {
                    Value::Unknown
                }
            }
        },
        Expression::Sum(a, b) => match (evaluate(a, t, row), evaluate(b, t, row)) {
            (Value::Known(x), Value::Known(y)) => Value::Known(x.add(&y)),
            _ => Value::Unknown,
        },
        Expression::Product(a, b) => match (evaluate(a, t, row), evaluate(b, t, row)) {
            (Value::Known(x), Value::Known(y)) => Value::Known(x.mul(&y)),
            _ => Value::Unknown,
        },
        Expression::Negated(a) => match evaluate(a, t, row) {
            Value::Known(x) => Value::Known(x.neg()),
            Value::Unknown => Value::Unknown,
        },
    }
}

/// What constraint `j` reports at `row`, appended to `out`.
fn check_constraint(cs: &ConstraintSystem, t: &WitnessTable, row: usize, j: usize, out: &mut Vec<Violation>)
    requires
        cs.wf(),
        t.wf(),
        j < cs.constraints@.len(),
    ensures
        final(out)@ == old(out)@ + check_at(*cs, *t, row as int, j as int),
{
    let c = &cs.constraints[j];
    let on = match c.selector {
        None => true,
        Some(s) => t.is_enabled(s.index, row),
    };
    if !on {
        assert(out@ =~= out@ + Seq::<Violation>::empty());
        return;
    }
    match evaluate(&c.poly, t, row) {
        Value::Unknown => {
            out.push(Violation::CellNotAssigned { gate: c.gate, constraint: j, row });
        },
        Value::Known(v) => {
            if v.is_zero() {
                assert(out@ =~= out@ + Seq::<Violation>::empty());
            } else {
                proof {
                    lemma_fe_of(v);
                }
                out.push(Violation::ConstraintNotSatisfied { gate: c.gate, constraint: j, row, value: v });
            }
        },
    }
}

/// What the copy constraint between `a` and `b` reports, appended to `out`.
fn check_copy(t: &WitnessTable, a: Cell, b: Cell, out: &mut Vec<Violation>)
    requires
        t.wf(),
    ensures
        final(out)@ == old(out)@ + copy_check(*t, a, b),
{
    let x = t.get(a.column, a.row);
    let y = t.get(b.column, b.row);
    if !x.is_known() || !y.is_known() {
        out.push(Violation::EqualityCellNotAssigned { left: a, right: b });
    } else if !x.same_as(&y) {
        out.push(Violation::EqualityNotSatisfied { left: a, right: b });
    } else {
        assert(out@ =~= out@ + Seq::<Violation>::empty());
    }
}

/// What binding `b` reports against `v`, appended to `out`.
fn check_binding(t: &WitnessTable, b: Binding, v: &Fe, out: &mut Vec<Violation>)
    requires
        t.wf(),
    ensures
        final(out)@ == old(out)@ + binding_check(*t, b, *v),
{
    match t.get(b.cell.column, b.cell.row) {
        Value::Unknown => {
            out.push(Violation::PublicInputNotAssigned { instance: b.instance, row: b.row });
        },
        Value::Known(f) => {
            if !f.equals(v) {
                out.push(Violation::PublicInputMismatch { instance: b.instance, row: b.row });
            } else {
                assert(out@ =~= out@ + Seq::<Violation>::empty());
            }
        },
    }
}

/// Checks `t` against the gates of `cs`, its own copy constraints, and the
/// public values `public_inputs` (one per binding, in binding order).
/// `Ok` exactly when there is nothing to report; otherwise every violation.
pub fn verify(cs: &ConstraintSystem, t: &WitnessTable, public_inputs: &Vec<Fe>) -> (r: Result<
    (),
    Vec<Violation>,
>)
    requires
        cs.wf(),
        t.wf(),
    ensures
        r is Ok <==> violations(*cs, *t, public_inputs@).len() == 0,
        r matches Err(v) ==> v@ == violations(*cs, *t, public_inputs@),
{
    let mut out: Vec<Violation> = Vec::new();
    let mut row: usize = 0;
    while row < t.rows
        invariant
            cs.wf(),
            t.wf(),
            row <= t.rows,
            out@ == gate_checks(*cs, *t, row as int),
        decreases t.rows - row,
    {
        let mut j: usize = 0;
        while j < cs.constraints.len()
            invariant
                cs.wf(),
                t.wf(),
                row < t.rows,
                j <= cs.constraints@.len(),
                out@ == gate_checks(*cs, *t, row as int) + row_checks(*cs, *t, row as int, j as int),
            decreases cs.constraints@.len() - j,
        {
            check_constraint(cs, t, row, j, &mut out);
            j = j + 1;
            assert(out@ =~= gate_checks(*cs, *t, row as int) + row_checks(*cs, *t, row as int, j as int));
        }
        row = row + 1;
    }
    let ghost gates = out@;
    let mut i: usize = 0;
    while i < t.copies.len()
        invariant
            t.wf(),
            i <= t.copies@.len(),
            gates == gate_checks(*cs, *t, t.rows as int),
            out@ == gates + copy_checks(*t, i as int),
        decreases t.copies@.len() - i,
    {
        let (a, b) = t.copies[i];
        check_copy(t, a, b, &mut out);
        i = i + 1;
        assert(out@ =~= gates + copy_checks(*t, i as int));
    }
    let ghost before = out@;
    if public_inputs.len() != t.bindings.len() {
        out.push(Violation::PublicInputCount { expected: t.bindings.len(), found: public_inputs.len() });
    } else {
        let mut k: usize = 0;
        while k < t.bindings.len()
            invariant
                t.wf(),
                k <= t.bindings@.len(),
                public_inputs@.len() == t.bindings@.len(),
                out@ == before + binding_checks(*t, public_inputs@, k as int),
            decreases t.bindings@.len() - k,
        {
            check_binding(t, t.bindings[k], &public_inputs[k], &mut out);
            k = k + 1;
            assert(out@ =~= before + binding_checks(*t, public_inputs@, k as int));
        }
    }
    assert(out@ =~= violations(*cs, *t, public_inputs@));
    if out.len() == 0 {
        Ok(())
    } else {
        Err(out)
    }
}

} // verus!
