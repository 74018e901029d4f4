//! Column handles, expressions over advice queries, and the constraint
//! system that a circuit declares once, before any witness exists.
use vstd::prelude::*;
use crate::field::Fe;

verus! {

#[derive(Clone, Copy, Debug, PartialEq, Eq, Structural)]
pub enum ColumnKind {
    Advice,
    Instance,
}

/// A column handle: dense indices, numbered separately for each kind.
#[derive(Clone, Copy, Debug, PartialEq, Eq, Structural)]
pub struct Column {
    pub kind: ColumnKind,
    pub index: usize,
}

/// A boolean fixed column that switches gates on and off row by row.
#[derive(Clone, Copy, Debug, PartialEq, Eq, Structural)]
pub struct Selector {
    pub index: usize,
}

/// A polynomial over advice cells queried at offsets from the current row.
#[derive(Debug)]
pub enum Expression {
    Constant(Fe),
    Advice { column: usize, rotation: i32 },
    Sum(Box<Expression>, Box<Expression>),
    Product(Box<Expression>, Box<Expression>),
    Negated(Box<Expression>),
}

impl Expression {
    /// Every constant in the tree is a canonical field element.
    pub open spec fn wf(self) -> bool
        decreases self,
    {
        match self {
            Expression::Constant(c) => c.wf(),
            Expression::Advice { .. } => true,
            Expression::Sum(a, b) => a.wf() && b.wf(),
            Expression::Product(a, b) => a.wf() && b.wf(),
            Expression::Negated(a) => a.wf(),
        }
    }

    pub fn constant(c: Fe) -> (r: Expression)
        ensures
            r == Expression::Constant(c),
    {
        Expression::Constant(c)
    }

    /// The advice cell `rotation` rows away from the current row.
    pub fn query_advice(column: Column, rotation: i32) -> (r: Expression)
        requires
            column.kind == ColumnKind::Advice,
        ensures
            r == (Expression::Advice { column: column.index, rotation }),
    {
        Expression::Advice { column: column.index, rotation }
    }

    pub fn add(self, o: Expression) -> (r: Expression)
        ensures
            r == Expression::Sum(Box::new(self), Box::new(o)),
    {
        Expression::Sum(Box::new(self), Box::new(o))
    }

    pub fn sub(self, o: Expression) -> (r: Expression)
        ensures
            r == Expression::Sum(Box::new(self), Box::new(Expression::Negated(Box::new(o)))),
    {
        Expression::Sum(Box::new(self), Box::new(Expression::Negated(Box::new(o))))
    }

    pub fn mul(self, o: Expression) -> (r: Expression)
        ensures
            r == Expression::Product(Box::new(self), Box::new(o)),
    {
        Expression::Product(Box::new(self), Box::new(o))
    }

    pub fn neg(self) -> (r: Expression)
        ensures
            r == Expression::Negated(Box::new(self)),
    {
        Expression::Negated(Box::new(self))
    }
}

/// One polynomial of a gate, with its selector and the index of its gate.
#[derive(Debug)]
pub struct Constraint {
    pub gate: usize,
    pub selector: Option<Selector>,
    pub poly: Expression,
}

/// The columns and gates of a circuit.
#[derive(Debug)]
pub struct ConstraintSystem {
    pub num_advice: usize,
    pub num_instance: usize,
    pub num_selectors: usize,
    /// For each advice column, whether it may take part in copy constraints.
    pub advice_equality: Vec<bool>,
    /// For each instance column, whether it may take part in copy constraints.
    pub instance_equality: Vec<bool>,
    pub gate_names: Vec<String>,
    /// The polynomials of all gates, in the order in which they were declared.
    pub constraints: Vec<Constraint>,
}

impl ConstraintSystem {
    pub open spec fn wf(&self) -> bool {
        &&& self.advice_equality@.len() == self.num_advice
        &&& self.instance_equality@.len() == self.num_instance
        &&& forall|j: int| 0 <= j < self.constraints@.len() ==> {
            let c = #[trigger] self.constraints@[j];
            &&& c.poly.wf()
            &&& c.gate < self.gate_names@.len()
            &&& (c.selector matches Some(s) ==> s.index < self.num_selectors)
        }
    }

    pub open spec fn has_column(&self, c: Column) -> bool {
        match c.kind {
            ColumnKind::Advice => c.index < self.num_advice,
            ColumnKind::Instance => c.index < self.num_instance,
        }
    }

    pub fn new() -> (r: ConstraintSystem)
        ensures
            r.wf(),
            r.num_advice == 0,
            r.num_instance == 0,
            r.num_selectors == 0,
            r.gate_names@.len() == 0,
            r.constraints@.len() == 0,
    {
        ConstraintSystem {
            num_advice: 0,
            num_instance: 0,
            num_selectors: 0,
            advice_equality: Vec::new(),
            instance_equality: Vec::new(),
            gate_names: Vec::new(),
            constraints: Vec::new(),
        }
    }

    pub fn advice_column(&mut self) -> (r: Column)
        requires
            old(self).wf(),
            old(self).num_advice < usize::MAX,
        ensures
            final(self).wf(),
            r == (Column { kind: ColumnKind::Advice, index: old(self).num_advice }),
            *final(self) == (ConstraintSystem {
                num_advice: (old(self).num_advice + 1) as usize,
                advice_equality: final(self).advice_equality,
                ..*old(self)
            }),
            final(self).advice_equality@ == old(self).advice_equality@.push(false),
    {
        let index = self.num_advice;
        self.num_advice = index + 1;
        self.advice_equality.push(false);
        Column { kind: ColumnKind::Advice, index }
    }

    pub fn instance_column(&mut self) -> (r: Column)
        requires
            old(self).wf(),
            old(self).num_instance < usize::MAX,
        ensures
            final(self).wf(),
            r == (Column { kind: ColumnKind::Instance, index: old(self).num_instance }),
            *final(self) == (ConstraintSystem {
                num_instance: (old(self).num_instance + 1) as usize,
                instance_equality: final(self).instance_equality,
                ..*old(self)
            }),
            final(self).instance_equality@ == old(self).instance_equality@.push(false),
    {
        let index = self.num_instance;
        self.num_instance = index + 1;
        self.instance_equality.push(false);
        Column { kind: ColumnKind::Instance, index }
    }

    pub fn selector(&mut self) -> (r: Selector)
        requires
            old(self).wf(),
            old(self).num_selectors < usize::MAX,
        ensures
            final(self).wf(),
            r == (Selector { index: old(self).num_selectors }),
            *final(self) == (ConstraintSystem {
                num_selectors: (old(self).num_selectors + 1) as usize,
                ..*old(self)
            }),
    {
        let index = self.num_selectors;
        self.num_selectors = index + 1;
        Selector { index }
    }

    /// Lets `column` take part in copy constraints.
    pub fn enable_equality(&mut self, column: Column)
        requires
            old(self).wf(),
            old(self).has_column(column),
        ensures
            final(self).wf(),
            column.kind == ColumnKind::Advice ==> *final(self) == (ConstraintSystem {
                advice_equality: final(self).advice_equality,
                ..*old(self)
            }) && final(self).advice_equality@ == old(self).advice_equality@.update(
                column.index as int,
                true,
            ),
            column.kind == ColumnKind::Instance ==> *final(self) == (ConstraintSystem {
                instance_equality: final(self).instance_equality,
                ..*old(self)
            }) && final(self).instance_equality@ == old(self).instance_equality@.update(
                column.index as int,
                true,
            ),
    {
        match column.kind {
            ColumnKind::Advice => self.advice_equality.set(column.index, true),
            ColumnKind::Instance => self.instance_equality.set(column.index, true),
        }
    }

    /// Declares a gate: each of `polys` must vanish at every row where
    /// `selector` is enabled (at every row, where there is no selector).
    pub fn create_gate(&mut self, name: String, selector: Option<Selector>, polys: Vec<Expression>)
        requires
            old(self).wf(),
            selector matches Some(s) ==> s.index < old(self).num_selectors,
            forall|i: int| 0 <= i < polys@.len() ==> (#[trigger] polys@[i]).wf(),
        ensures
            final(self).wf(),
            final(self).num_advice == old(self).num_advice,
            final(self).num_instance == old(self).num_instance,
            final(self).num_selectors == old(self).num_selectors,
            final(self).advice_equality == old(self).advice_equality,
            final(self).instance_equality == old(self).instance_equality,
            final(self).gate_names@ == old(self).gate_names@.push(name),
            final(self).constraints@.len() == old(self).constraints@.len() + polys@.len(),
            forall|j: int| 0 <= j < old(self).constraints@.len() ==> final(self).constraints@[j]
                == old(self).constraints@[j],
            forall|i: int|
                old(self).constraints@.len() <= i < final(self).constraints@.len()
                    ==> #[trigger] final(self).constraints@[i] == (Constraint {
                    gate: old(self).gate_names@.len() as usize,
                    selector,
                    poly: polys@[i - old(self).constraints@.len()],
                }),
    {
        let gate = self.gate_names.len();
        self.gate_names.push(name);
        let mut rest = polys;
        let ghost all = rest@;
        let total = rest.len();
        let mut i: usize = 0;
        while rest.len() > 0
            invariant
                self.wf(),
                all == polys@,
                rest@ == all.subrange(i as int, all.len() as int),
                rest@.len() == all.len() - i,
                all.len() == total,
                0 <= i <= polys@.len(),
                gate == old(self).gate_names@.len(),
                self.gate_names@ == old(self).gate_names@.push(name),
                selector matches Some(s) ==> s.index < self.num_selectors,
                forall|i: int| 0 <= i < all.len() ==> (#[trigger] all[i]).wf(),
                self.num_advice == old(self).num_advice,
                self.num_instance == old(self).num_instance,
                self.num_selectors == old(self).num_selectors,
                self.advice_equality == old(self).advice_equality,
                self.instance_equality == old(self).instance_equality,
                self.constraints@.len() == old(self).constraints@.len() + i,
                forall|j: int| 0 <= j < old(self).constraints@.len() ==> self.constraints@[j]
                    == old(self).constraints@[j],
                forall|k: int|
                    old(self).constraints@.len() <= k < self.constraints@.len()
                        ==> #[trigger] self.constraints@[k] == (Constraint {
                        gate,
                        selector,
                        poly: all[k - old(self).constraints@.len()],
                    }),
            decreases rest@.len(),
        {
            let poly = rest.remove(0);
            assert(poly == all[i as int]);
            self.constraints.push(Constraint { gate, selector, poly });
            i = i + 1;
            assert(rest@ =~= all.subrange(i as int, all.len() as int));
        }
    }
}

} // verus!
