//! A circuit that binds a private advice cell, holding a wallet address as
//! a field element, to a public input, under a gate `s * (a - a) = 0`.
use vstd::prelude::*;
use crate::circuit::{Column, ColumnKind, ConstraintSystem, Constraint, Expression, Selector};
use crate::field::Fe;
use crate::table::{Binding, Cell, SynthesisError, Value, WitnessTable};

verus! {

/// The columns of the wallet circuit.
#[derive(Clone, Copy, Debug)]
pub struct WalletConfig {
    pub advice: [Column; 1],
    pub instance: Column,
    pub selector: Selector,
}

/// The wallet polynomial: the advice cell at the current row minus itself.
pub open spec fn wallet_poly(advice: Column) -> Expression {
    let q = Expression::Advice { column: advice.index, rotation: 0 };
    Expression::Sum(Box::new(q), Box::new(Expression::Negated(Box::new(q))))
}

/// The chip that configures the wallet gate and lays out its region.
#[derive(Clone, Copy, Debug)]
pub struct WalletChip {
    pub config: WalletConfig,
}

impl WalletChip {
    pub fn construct(config: WalletConfig) -> (r: WalletChip)
        ensures
            r.config == config,
    {
        WalletChip { config }
    }

    pub fn config(&self) -> (r: &WalletConfig)
        ensures
            *r == self.config,
    {
        &self.config
    }

    /// Enables equality on `advice` and `instance`, allocates a selector, and
    /// declares a gate "wallet_address" with the one polynomial `a - a`.
    pub fn configure(meta: &mut ConstraintSystem, advice: [Column; 1], instance: Column) -> (r:
        WalletConfig)
        requires
            old(meta).wf(),
            old(meta).has_column(advice[0]),
            old(meta).has_column(instance),
            advice[0].kind == ColumnKind::Advice,
            instance.kind == ColumnKind::Instance,
            old(meta).num_selectors < usize::MAX,
        ensures
            final(meta).wf(),
            r == (WalletConfig {
                advice,
                instance,
                selector: Selector { index: old(meta).num_selectors },
            }),
            final(meta).num_advice == old(meta).num_advice,
            final(meta).num_instance == old(meta).num_instance,
            final(meta).num_selectors == old(meta).num_selectors + 1,
            final(meta).advice_equality@ == old(meta).advice_equality@.update(
                advice[0].index as int,
                true,
            ),
            final(meta).instance_equality@ == old(meta).instance_equality@.update(
                instance.index as int,
                true,
            ),
            final(meta).gate_names@.len() == old(meta).gate_names@.len() + 1,
            final(meta).gate_names@.last()@ == "wallet_address"@,
            final(meta).constraints@ == old(meta).constraints@.push(
                Constraint {
                    gate: old(meta).gate_names@.len() as usize,
                    selector: Some(r.selector),
                    poly: wallet_poly(advice[0]),
                },
            ),
    {
        meta.enable_equality(instance);
        meta.enable_equality(advice[0]);
        let selector = meta.selector();
        let ac = Expression::query_advice(advice[0], 0);
        let ac2 = Expression::query_advice(advice[0], 0);
        let poly = ac.sub(ac2);
        assert(poly == wallet_poly(advice[0]));
        assert(poly.wf()) by {
            reveal_with_fuel(Expression::wf, 3);
        }
        let mut polys: Vec<Expression> = Vec::new();
        polys.push(poly);
        assert(polys@[0] == wallet_poly(advice[0]));
        let ghost before = meta.constraints@;
        meta.create_gate("wallet_address".to_owned(), Some(selector), polys);
        assert(meta.constraints@ =~= before.push(
            Constraint {
                gate: (meta.gate_names@.len() - 1) as usize,
                selector: Some(selector),
                poly: wallet_poly(advice[0]),
            },
        ));
        WalletConfig { advice, instance, selector }
    }
}

/// The wallet circuit: its one witness is the address to disclose.
#[derive(Clone, Copy, Debug)]
pub struct WalletCirciut {
    pub wallet_address: Value,
}

/// The columns of `config` exist in `t`, with equality enabled where the
/// circuit links cells.
pub open spec fn fits(config: WalletConfig, t: WitnessTable) -> bool {
    &&& config.advice[0].kind == ColumnKind::Advice
    &&& config.advice[0].index < t.num_advice
    &&& t.advice_equality@[config.advice[0].index as int]
    &&& config.instance.kind == ColumnKind::Instance
    &&& config.instance.index < t.num_instance
    &&& t.instance_equality@[config.instance.index as int]
    &&& config.selector.index < t.num_selectors
}

/// `after` is `before` once the wallet circuit laid out `value`: one region
/// at the first free row, its selector on and its advice cell assigned
/// there, that cell bound to the public input at row 0.
pub open spec fn laid_out(config: WalletConfig, before: WitnessTable, after: WitnessTable, value: Value) -> bool {
    let row = before.cursor;
    &&& after.advice@ == before.advice@.update(config.advice[0].index * before.rows + row, value)
    &&& after.selectors@ == before.selectors@.update(config.selector.index * before.rows + row, true)
    &&& after.bindings@ == before.bindings@.push(
        Binding {
            cell: Cell { column: config.advice[0].index, row: row as usize },
            instance: config.instance.index,
            row: 0,
        },
    )
    &&& after == (WitnessTable {
        advice: after.advice,
        selectors: after.selectors,
        bindings: after.bindings,
        region_start: row,
        cursor: (row + 1) as usize,
        ..before
    })
}

/// Two tables hold the same cells, flags, constraints and layout state.
pub open spec fn identical(a: WitnessTable, b: WitnessTable) -> bool {
    &&& a.rows == b.rows
    &&& a.num_advice == b.num_advice
    &&& a.num_instance == b.num_instance
    &&& a.num_selectors == b.num_selectors
    &&& a.advice_equality@ == b.advice_equality@
    &&& a.instance_equality@ == b.instance_equality@
    &&& a.advice@ == b.advice@
    &&& a.selectors@ == b.selectors@
    &&& a.copies@ == b.copies@
    &&& a.bindings@ == b.bindings@
    &&& a.region_start == b.region_start
    &&& a.cursor == b.cursor
}

impl WalletCirciut {
    /// The same circuit with its witness unknown, for shape analysis.
    pub fn without_witnesses(&self) -> (r: WalletCirciut)
        ensures
            r.wallet_address == Value::Unknown,
    {
        WalletCirciut { wallet_address: Value::Unknown }
    }

    /// Declares one advice column and one instance column, then its gate.
    pub fn configure(meta: &mut ConstraintSystem) -> (r: WalletConfig)
        requires
            old(meta).wf(),
            old(meta).num_advice < usize::MAX,
            old(meta).num_instance < usize::MAX,
            old(meta).num_selectors < usize::MAX,
        ensures
            final(meta).wf(),
            r == (WalletConfig {
                advice: [Column { kind: ColumnKind::Advice, index: old(meta).num_advice }],
                instance: Column { kind: ColumnKind::Instance, index: old(meta).num_instance },
                selector: Selector { index: old(meta).num_selectors },
            }),
            final(meta).num_advice == old(meta).num_advice + 1,
            final(meta).num_instance == old(meta).num_instance + 1,
            final(meta).num_selectors == old(meta).num_selectors + 1,
            final(meta).advice_equality@ == old(meta).advice_equality@.push(true),
            final(meta).instance_equality@ == old(meta).instance_equality@.push(true),
            final(meta).gate_names@.len() == old(meta).gate_names@.len() + 1,
            final(meta).gate_names@.last()@ == "wallet_address"@,
            final(meta).constraints@ == old(meta).constraints@.push(
                Constraint {
                    gate: old(meta).gate_names@.len() as usize,
                    selector: Some(r.selector),
                    poly: wallet_poly(r.advice[0]),
                },
            ),
    {
        let advice = [meta.advice_column()];
        let instance = meta.instance_column();
        let r = WalletChip::configure(meta, advice, instance);
        assert(meta.advice_equality@ =~= old(meta).advice_equality@.push(true));
        assert(meta.instance_equality@ =~= old(meta).instance_equality@.push(true));
        r
    }

    /// Lays the circuit out in `t`: one region whose row 0 enables the
    /// selector and holds the address, then binds that cell to the public
    /// input at row 0. Fails only where the table has no free row left.
    pub fn synthesize(&self, config: &WalletConfig, t: &mut WitnessTable) -> (r: Result<(), SynthesisError>)
        requires
            old(t).wf(),
            fits(*config, *old(t)),
            self.wallet_address.wf(),
        ensures
            final(t).wf(),
            r is Ok <==> old(t).cursor < old(t).rows,
            r is Err ==> r == Err::<(), SynthesisError>(SynthesisError::RowOutOfRange),
            r is Ok ==> laid_out(*config, *old(t), *final(t), self.wallet_address),
    {
        let chip = WalletChip::construct(*config);
        t.begin_region();
        let advice = chip.config.advice;
        let s = chip.config.selector;
        let ghost mid = *t;
        assert(mid.value_at(config.advice[0].index as int, mid.cursor as int) == Value::Unknown);
        match t.enable_selector(s, 0) {
            Err(e) => {
                return Err(e);
            },
            Ok(()) => {},
        }
        let ghost with_selector = *t;
        assert(with_selector.value_at(config.advice[0].index as int, mid.cursor as int) == Value::Unknown);
        let cell = match t.assign_advice(advice[0], 0, self.wallet_address) {
            Err(e) => {
                return Err(e);
            },
            Ok(c) => c,
        };
        t.constrain_instance(cell, chip.config.instance, 0)
    }
}

/// `cs` and `t` are what the wallet circuit gives on a fresh table of
/// `rows` rows: its three columns and one gate, the address at row 0 with
/// the selector on there, and that cell bound to the public input at row 0.
pub open spec fn wallet_run(cs: ConstraintSystem, t: WitnessTable, rows: usize, value: Value) -> bool {
    &&& cs.wf()
    &&& t.wf()
    &&& cs.num_advice == 1
    &&& cs.num_instance == 1
    &&& cs.num_selectors == 1
    &&& cs.advice_equality@ == seq![true]
    &&& cs.instance_equality@ == seq![true]
    &&& cs.gate_names@.len() == 1
    &&& cs.gate_names@[0]@ == "wallet_address"@
    &&& cs.constraints@ == seq![
        Constraint {
            gate: 0,
            selector: Some(Selector { index: 0 }),
            poly: wallet_poly(Column { kind: ColumnKind::Advice, index: 0 }),
        },
    ]
    &&& t.rows == rows
    &&& t.num_advice == 1
    &&& t.num_instance == 1
    &&& t.num_selectors == 1
    &&& t.advice_equality@ == seq![true]
    &&& t.instance_equality@ == seq![true]
    &&& t.advice@ == Seq::new(rows as nat, |i: int| if i == 0 { value } else { Value::Unknown })
    &&& t.selectors@ == Seq::new(rows as nat, |i: int| i == 0)
    &&& t.copies@.len() == 0
    &&& t.bindings@ == seq![Binding { cell: Cell { column: 0, row: 0 }, instance: 0, row: 0 }]
    &&& t.region_start == 0
    &&& t.cursor == 1
}

/// Configures the wallet circuit in a fresh constraint system, lays it out
/// in a fresh table of `rows` rows, and hands both back for checking.
pub fn run(rows: usize, circuit: &WalletCirciut) -> (r: Result<(ConstraintSystem, WitnessTable), SynthesisError>)
    requires
        circuit.wallet_address.wf(),
    ensures
        r is Ok <==> rows > 0,
        r is Err ==> r == Err::<(ConstraintSystem, WitnessTable), SynthesisError>(SynthesisError::RowOutOfRange),
        r matches Ok((cs, t)) ==> wallet_run(cs, t, rows, circuit.wallet_address),
{
    let mut cs = ConstraintSystem::new();
    let config = WalletCirciut::configure(&mut cs);
    let mut t = match WitnessTable::new(&cs, rows) {
        Err(e) => {
            return Err(e);
        },
        Ok(t) => t,
    };
    let ghost fresh = t;
    match circuit.synthesize(&config, &mut t) {
        Err(e) => Err(e),
        Ok(()) => {
            assert(t.advice@ =~= Seq::new(rows as nat, |i: int| if i == 0 { circuit.wallet_address } else { Value::Unknown }));
            assert(t.selectors@ =~= Seq::new(rows as nat, |i: int| i == 0));
            assert(cs.advice_equality@ =~= seq![true]);
            assert(cs.instance_equality@ =~= seq![true]);
            assert(cs.constraints@ =~= seq![
                Constraint {
                    gate: 0,
                    selector: Some(Selector { index: 0 }),
                    poly: wallet_poly(Column { kind: ColumnKind::Advice, index: 0 }),
                },
            ]);
            assert(t.bindings@ =~= seq![Binding { cell: Cell { column: 0, row: 0 }, instance: 0, row: 0 }]);
            Ok((cs, t))
        },
    }
}

} // verus!
