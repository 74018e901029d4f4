//! The witness table: advice values and selector flags per cell, filled
//! region by region, with the copy constraints and public-input bindings
//! declared along the way.
use vstd::prelude::*;
use crate::field::Fe;
use crate::circuit::{Column, ColumnKind, ConstraintSystem, Selector};

verus! {

/// The content of a cell: not assigned (yet), or a field element.
#[derive(Clone, Copy, Debug, PartialEq, Eq)]
pub enum Value {
    Unknown,
    Known(Fe),
}

impl Value {
    /// The residue held, if any.
    pub open spec fn model(self) -> Option<nat> {
        match self {
            Value::Unknown => None,
            Value::Known(f) => Some(f.val()),
        }
    }

    pub open spec fn wf(self) -> bool {
        self matches Value::Known(f) ==> f.wf()
    }

    /// Both are unknown, or both hold the same bytes.
    pub open spec fn same(self, o: Value) -> bool {
        match (self, o) {
            (Value::Unknown, Value::Unknown) => true,
            (Value::Known(a), Value::Known(b)) => a.bytes@ == b.bytes@,
            _ => false,
        }
    }

    pub fn known(f: Fe) -> (r: Value)
        ensures
            r == Value::Known(f),
    {
        Value::Known(f)
    }

    pub fn unknown() -> (r: Value)
        ensures
            r == Value::Unknown,
    {
        Value::Unknown
    }

    pub fn is_known(&self) -> (r: bool)
        ensures
            r == (*self is Known),
    {
        match self {
            Value::Unknown => false,
            Value::Known(_) => true,
        }
    }

    pub fn same_as(&self, o: &Value) -> (r: bool)
        ensures
            r == self.same(*o),
    {
        match (self, o) {
            (Value::Unknown, Value::Unknown) => true,
            (Value::Known(a), Value::Known(b)) => a.equals(b),
            _ => false,
        }
    }
}

/// An advice cell at an absolute row.
#[derive(Clone, Copy, Debug, PartialEq, Eq, Structural)]
pub struct Cell {
    pub column: usize,
    pub row: usize,
}

/// An advice cell bound to the public input at (`instance` column, `row`).
#[derive(Clone, Copy, Debug, PartialEq, Eq, Structural)]
pub struct Binding {
    pub cell: Cell,
    pub instance: usize,
    pub row: usize,
}

/// Configuration errors, which stop synthesis.
#[derive(Clone, Copy, Debug, PartialEq, Eq, Structural)]
pub enum SynthesisError {
    /// The cells of the columns would not fit in memory.
    TableTooLarge,
    /// A column that the table does not have, or of the wrong kind.
    NoSuchColumn,
    /// A row at or past the end of the table.
    RowOutOfRange,
    /// A cell that already holds a value was given another one.
    ConflictingAssignment { column: usize, row: usize },
    /// A copy constraint on a column that was not enabled for equality.
    ColumnNotEqualityEnabled,
}

/// One value per advice cell and one flag per selector cell, column by
/// column, plus the declared copy constraints and public-input bindings.
#[derive(Debug)]
pub struct WitnessTable {
    pub rows: usize,
    pub num_advice: usize,
    pub num_instance: usize,
    pub num_selectors: usize,
    pub advice_equality: Vec<bool>,
    pub instance_equality: Vec<bool>,
    /// Advice cell (c, r) sits at `c * rows + r`.
    pub advice: Vec<Value>,
    /// Selector cell (s, r) sits at `s * rows + r`.
    pub selectors: Vec<bool>,
    pub copies: Vec<(Cell, Cell)>,
    pub bindings: Vec<Binding>,
    /// The absolute row of the current region's first row.
    pub region_start: usize,
    /// The first row that no region has used yet.
    pub cursor: usize,
}

impl WitnessTable {
    pub open spec fn cell_ok(&self, c: Cell) -> bool {
        c.column < self.num_advice && c.row < self.rows
    }

    pub open spec fn wf(&self) -> bool {
        &&& self.advice@.len() == self.num_advice * self.rows
        &&& self.selectors@.len() == self.num_selectors * self.rows
        &&& self.advice_equality@.len() == self.num_advice
        &&& self.instance_equality@.len() == self.num_instance
        &&& self.region_start <= self.cursor <= self.rows
        &&& forall|i: int| 0 <= i < self.advice@.len() ==> (#[trigger] self.advice@[i]).wf()
        &&& forall|c: int, r: int|
            0 <= c < self.num_advice && self.cursor <= r < self.rows ==> #[trigger] self.value_at(c, r)
                == Value::Unknown
        &&& forall|i: int|
            0 <= i < self.copies@.len() ==> self.cell_ok((#[trigger] self.copies@[i]).0)
                && self.cell_ok(self.copies@[i].1)
        &&& forall|i: int| 0 <= i < self.bindings@.len() ==> self.cell_ok((#[trigger] self.bindings@[i]).cell)
    }

    /// The value of advice cell (`column`, `row`); unknown outside the table.
    pub open spec fn value_at(&self, column: int, row: int) -> Value {
        if 0 <= column < self.num_advice && 0 <= row < self.rows {
            self.advice@[column * self.rows + row]
        } else {
            Value::Unknown
        }
    }

    /// Whether selector `s` is enabled at `row`; off outside the table.
    pub open spec fn enabled_at(&self, s: int, row: int) -> bool {
        if 0 <= s < self.num_selectors && 0 <= row < self.rows {
            self.selectors@[s * self.rows + row]
        } else {
            false
        }
    }

    /// A fresh table of `rows` rows for the columns of `cs`: every advice cell
    /// unknown, every selector off, no constraints declared.
    pub fn new(cs: &ConstraintSystem, rows: usize) -> (r: Result<WitnessTable, SynthesisError>)
        requires
            cs.wf(),
        ensures
            r is Err <==> cs.num_advice * rows > usize::MAX || cs.num_selectors * rows
                > usize::MAX,
            r is Err ==> r == Err::<WitnessTable, SynthesisError>(SynthesisError::TableTooLarge),
            r matches Ok(t) ==> {
                &&& t.wf()
                &&& t.rows == rows
                &&& t.num_advice == cs.num_advice
                &&& t.num_instance == cs.num_instance
                &&& t.num_selectors == cs.num_selectors
                &&& t.advice_equality@ == cs.advice_equality@
                &&& t.instance_equality@ == cs.instance_equality@
                &&& forall|i: int| 0 <= i < t.advice@.len() ==> t.advice@[i] == Value::Unknown
                &&& forall|i: int| 0 <= i < t.selectors@.len() ==> !t.selectors@[i]
                &&& t.copies@.len() == 0
                &&& t.bindings@.len() == 0
                &&& t.region_start == 0
                &&& t.cursor == 0
            },
    {
        if rows > 0 && (cs.num_advice > usize::MAX / rows || cs.num_selectors > usize::MAX / rows) {
            proof {
                if cs.num_advice > usize::MAX / rows {
                    assert(cs.num_advice * rows > usize::MAX) by (nonlinear_arith)
                        requires
                            rows > 0,
                            cs.num_advice > usize::MAX / rows,
                    ;
                } else {
                    assert(cs.num_selectors * rows > usize::MAX) by (nonlinear_arith)
                        requires
                            rows > 0,
                            cs.num_selectors > usize::MAX / rows,
                    ;
                }
            }
            return Err(SynthesisError::TableTooLarge);
        }
        proof {
            if rows > 0 {
                assert(cs.num_advice * rows <= usize::MAX) by (nonlinear_arith)
                    requires
                        rows > 0,
                        cs.num_advice <= usize::MAX / rows,
                ;
                assert(cs.num_selectors * rows <= usize::MAX) by (nonlinear_arith)
                    requires
                        rows > 0,
                        cs.num_selectors <= usize::MAX / rows,
                ;
            }
        }
        let n_advice = cs.num_advice * rows;
        let n_sel = cs.num_selectors * rows;
        let mut advice: Vec<Value> = Vec::new();
        while advice.len() < n_advice
            invariant
                advice@.len() <= n_advice,
                forall|i: int| 0 <= i < advice@.len() ==> advice@[i] == Value::Unknown,
            decreases n_advice - advice@.len(),
        {
            advice.push(Value::Unknown);
        }
        let mut selectors: Vec<bool> = Vec::new();
        while selectors.len() < n_sel
            invariant
                selectors@.len() <= n_sel,
                forall|i: int| 0 <= i < selectors@.len() ==> !selectors@[i],
            decreases n_sel - selectors@.len(),
        {
            selectors.push(false);
        }
        let advice_equality = copy_flags(&cs.advice_equality);
        let instance_equality = copy_flags(&cs.instance_equality);
        let t = WitnessTable {
            rows,
            num_advice: cs.num_advice,
            num_instance: cs.num_instance,
            num_selectors: cs.num_selectors,
            advice_equality,
            instance_equality,
            advice,
            selectors,
            copies: Vec::new(),
            bindings: Vec::new(),
            region_start: 0,
            cursor: 0,
        };
        proof {
            assert forall|c: int, r: int|
                0 <= c < t.num_advice && t.cursor <= r < t.rows implies #[trigger] t.value_at(c, r)
                    == Value::Unknown by {
                lemma_index_in_bounds(c, r, t.num_advice as int, t.rows as int);
            }
        }
        Ok(t)
    }

    /// The value of advice cell (`column`, `row`).
    pub fn get(&self, column: usize, row: usize) -> (r: Value)
        requires
            self.wf(),
        ensures
            r == self.value_at(column as int, row as int),
            r.wf(),
    {
        if column < self.num_advice && row < self.rows {
            let len = self.advice.len();
            proof {
                lemma_index_in_bounds(
                    column as int,
                    row as int,
                    self.num_advice as int,
                    self.rows as int,
                );
            }
            self.advice[column * self.rows + row]
        } else {
            Value::Unknown
        }
    }

    /// Whether selector `s` is on at `row`.
    pub fn is_enabled(&self, s: usize, row: usize) -> (r: bool)
        requires
            self.wf(),
        ensures
            r == self.enabled_at(s as int, row as int),
    {
        if s < self.num_selectors && row < self.rows {
            let len = self.selectors.len();
            proof {
                lemma_index_in_bounds(s as int, row as int, self.num_selectors as int, self.rows as int);
            }
            self.selectors[s * self.rows + row]
        } else {
            false
        }
    }

    /// Opens a region: its local row 0 is the first row no region has used.
    pub fn begin_region(&mut self)
        requires
            old(self).wf(),
        ensures
            final(self).wf(),
            *final(self) == (WitnessTable { region_start: old(self).cursor, ..*old(self) }),
    {
        let ghost before = *self;
        self.region_start = self.cursor;
        proof {
            lemma_free_rows_kept(before, *self);
        }
    }

    /// The absolute row of the current region's row `local_row`, if the
    /// table has it.
    pub open spec fn absolute_row(&self, local_row: int) -> Option<int> {
        if self.region_start + local_row < self.rows {
            Some(self.region_start + local_row)
        } else {
            None
        }
    }

    fn locate(&self, local_row: usize) -> (r: Option<usize>)
        requires
            self.wf(),
        ensures
            r matches Some(a) ==> self.absolute_row(local_row as int) == Some(a as int),
            r is None ==> self.absolute_row(local_row as int) is None,
    {
        if local_row < self.rows - self.region_start {
            Some(self.region_start + local_row)
        } else {
            None
        }
    }

    /// Writes `value` into advice cell (`column`, `local_row`) of the current
    /// region. A cell that holds a value keeps it: writing another is an error.
    pub fn assign_advice(&mut self, column: Column, local_row: usize, value: Value) -> (r: Result<
        Cell,
        SynthesisError,
    >)
        requires
            old(self).wf(),
            value.wf(),
        ensures
            final(self).wf(),
            !(column.kind == ColumnKind::Advice && column.index < old(self).num_advice) ==> r
                == Err::<Cell, SynthesisError>(SynthesisError::NoSuchColumn),
            column.kind == ColumnKind::Advice && column.index < old(self).num_advice ==> match old(
                self,
            ).absolute_row(local_row as int) {
                None => r == Err::<Cell, SynthesisError>(SynthesisError::RowOutOfRange),
                Some(row) => {
                    let prev = old(self).value_at(column.index as int, row);
                    if prev is Known && !prev.same(value) {
                        r == Err::<Cell, SynthesisError>(
                            SynthesisError::ConflictingAssignment {
                                column: column.index,
                                row: row as usize,
                            },
                        )
                    } else {
                        &&& r == Ok::<Cell, SynthesisError>(
                            Cell { column: column.index, row: row as usize },
                        )
                        &&& final(self).advice@ == old(self).advice@.update(
                            column.index * old(self).rows + row,
                            value,
                        )
                        &&& *final(self) == (WitnessTable {
                            advice: final(self).advice,
                            cursor: if old(self).cursor > row {
                                old(self).cursor
                            } else {
                                (row + 1) as usize
                            },
                            ..*old(self)
                        })
                    }
                },
            },
            r is Err ==> *final(self) == *old(self),
    {
        if !(column.kind == ColumnKind::Advice && column.index < self.num_advice) {
            return Err(SynthesisError::NoSuchColumn);
        }
        let row = match self.locate(local_row) {
            None => {
                return Err(SynthesisError::RowOutOfRange);
            },
            Some(row) => row,
        };
        let len = self.advice.len();
        proof {
            lemma_index_in_bounds(
                column.index as int,
                row as int,
                self.num_advice as int,
                self.rows as int,
            );
        }
        let idx = column.index * self.rows + row;
        let prev = self.advice[idx];
        if prev.is_known() && !prev.same_as(&value) {
            return Err(SynthesisError::ConflictingAssignment { column: column.index, row });
        }
        let ghost before = *self;
        self.advice.set(idx, value);
        if self.cursor <= row {
            self.cursor = row + 1;
        }
        proof {
            assert forall|c2: int, r2: int|
                0 <= c2 < self.num_advice && self.cursor <= r2 < self.rows implies #[trigger] self.value_at(c2, r2)
                    == Value::Unknown by {
                lemma_index_in_bounds(c2, r2, self.num_advice as int, self.rows as int);
                if c2 * self.rows + r2 == idx {
                    lemma_index_unique(c2, r2, column.index as int, row as int, self.rows as int);
                }
                assert(before.value_at(c2, r2) == Value::Unknown);
            }
        }
        Ok(Cell { column: column.index, row })
    }

    /// Switches selector `s` on at row `local_row` of the current region.
    pub fn enable_selector(&mut self, s: Selector, local_row: usize) -> (r: Result<
        (),
        SynthesisError,
    >)
        requires
            old(self).wf(),
        ensures
            final(self).wf(),
            s.index >= old(self).num_selectors ==> r == Err::<(), SynthesisError>(
                SynthesisError::NoSuchColumn,
            ),
            s.index < old(self).num_selectors ==> match old(self).absolute_row(local_row as int) {
                None => r == Err::<(), SynthesisError>(SynthesisError::RowOutOfRange),
                Some(row) => {
                    &&& r == Ok::<(), SynthesisError>(())
                    &&& final(self).selectors@ == old(self).selectors@.update(
                        s.index * old(self).rows + row,
                        true,
                    )
                    &&& *final(self) == (WitnessTable {
                        selectors: final(self).selectors,
                        cursor: if old(self).cursor > row {
                            old(self).cursor
                        } else {
                            (row + 1) as usize
                        },
                        ..*old(self)
                    })
                },
            },
            r is Err ==> *final(self) == *old(self),
    {
        if s.index >= self.num_selectors {
            return Err(SynthesisError::NoSuchColumn);
        }
        let row = match self.locate(local_row) {
            None => {
                return Err(SynthesisError::RowOutOfRange);
            },
            Some(row) => row,
        };
        let len = self.selectors.len();
        proof {
            lemma_index_in_bounds(
                s.index as int,
                row as int,
                self.num_selectors as int,
                self.rows as int,
            );
        }
        let idx = s.index * self.rows + row;
        let ghost before = *self;
        self.selectors.set(idx, true);
        if self.cursor <= row {
            self.cursor = row + 1;
        }
        proof {
            lemma_free_rows_kept(before, *self);
        }
        Ok(())
    }

    /// Declares that cells `a` and `b` must hold the same value.
    pub fn constrain_equal(&mut self, a: Cell, b: Cell) -> (r: Result<(), SynthesisError>)
        requires
            old(self).wf(),
        ensures
            final(self).wf(),
            !(old(self).cell_ok(a) && old(self).cell_ok(b)) ==> r == Err::<(), SynthesisError>(
                SynthesisError::NoSuchColumn,
            ),
            old(self).cell_ok(a) && old(self).cell_ok(b) && !(old(self).advice_equality@[a.column as int]
                && old(self).advice_equality@[b.column as int]) ==> r == Err::<(), SynthesisError>(
                SynthesisError::ColumnNotEqualityEnabled,
            ),
            r is Ok <==> old(self).cell_ok(a) && old(self).cell_ok(b) && old(
                self,
            ).advice_equality@[a.column as int] && old(self).advice_equality@[b.column as int],
            r is Ok ==> *final(self) == (WitnessTable { copies: final(self).copies, ..*old(self) })
                && final(self).copies@ == old(self).copies@.push((a, b)),
            r is Err ==> *final(self) == *old(self),
    {
        if !(a.column < self.num_advice && a.row < self.rows && b.column < self.num_advice && b.row
            < self.rows) {
            return Err(SynthesisError::NoSuchColumn);
        }
        if !(self.advice_equality[a.column] && self.advice_equality[b.column]) {
            return Err(SynthesisError::ColumnNotEqualityEnabled);
        }
        let ghost before = *self;
        self.copies.push((a, b));
        proof {
            lemma_free_rows_kept(before, *self);
        }
        Ok(())
    }

    /// Binds `cell` to the public input at (`instance`, `row`).
    pub fn constrain_instance(&mut self, cell: Cell, instance: Column, row: usize) -> (r: Result<
        (),
        SynthesisError,
    >)
        requires
            old(self).wf(),
        ensures
            final(self).wf(),
            !(old(self).cell_ok(cell) && instance.kind == ColumnKind::Instance && instance.index
                < old(self).num_instance) ==> r == Err::<(), SynthesisError>(
                SynthesisError::NoSuchColumn,
            ),
            old(self).cell_ok(cell) && instance.kind == ColumnKind::Instance && instance.index
                < old(self).num_instance ==> {
                if row >= old(self).rows {
                    r == Err::<(), SynthesisError>(SynthesisError::RowOutOfRange)
                } else if !(old(self).advice_equality@[cell.column as int] && old(
                    self,
                ).instance_equality@[instance.index as int]) {
                    r == Err::<(), SynthesisError>(SynthesisError::ColumnNotEqualityEnabled)
                } else {
                    &&& r == Ok::<(), SynthesisError>(())
                    &&& *final(self) == (WitnessTable {
                        bindings: final(self).bindings,
                        ..*old(self)
                    })
                    &&& final(self).bindings@ == old(self).bindings@.push(
                        Binding { cell, instance: instance.index, row },
                    )
                }
            },
            r is Err ==> *final(self) == *old(self),
    {
        if !(cell.column < self.num_advice && cell.row < self.rows && instance.kind
            == ColumnKind::Instance && instance.index < self.num_instance) {
            return Err(SynthesisError::NoSuchColumn);
        }
        if row >= self.rows {
            return Err(SynthesisError::RowOutOfRange);
        }
        if !(self.advice_equality[cell.column] && self.instance_equality[instance.index]) {
            return Err(SynthesisError::ColumnNotEqualityEnabled);
        }
        let ghost before = *self;
        self.bindings.push(Binding { cell, instance: instance.index, row });
        proof {
            lemma_free_rows_kept(before, *self);
        }
        Ok(())
    }
}

/// Rows from the cursor on stay free when the advice values are kept and
/// the cursor does not move back.
proof fn lemma_free_rows_kept(before: WitnessTable, after: WitnessTable)
    requires
        forall|c: int, r: int|
            0 <= c < before.num_advice && before.cursor <= r < before.rows ==> #[trigger] before.value_at(c, r)
                == Value::Unknown,
        after.advice@ == before.advice@,
        after.num_advice == before.num_advice,
        after.rows == before.rows,
        after.cursor >= before.cursor,
    ensures
        forall|c: int, r: int|
            0 <= c < after.num_advice && after.cursor <= r < after.rows ==> #[trigger] after.value_at(c, r)
                == Value::Unknown,
{
    assert forall|c: int, r: int|
        0 <= c < after.num_advice && after.cursor <= r < after.rows implies #[trigger] after.value_at(c, r)
            == Value::Unknown by {
        assert(before.value_at(c, r) == Value::Unknown);
    }
}

proof fn lemma_index_unique(c: int, r: int, c2: int, r2: int, rows: int)
    requires
        0 <= r < rows,
        0 <= r2 < rows,
        0 <= c,
        0 <= c2,
        c * rows + r == c2 * rows + r2,
    ensures
        c == c2,
        r == r2,
{
    vstd::arithmetic::div_mod::lemma_fundamental_div_mod_converse(c * rows + r, rows, c, r);
    vstd::arithmetic::div_mod::lemma_fundamental_div_mod_converse(c2 * rows + r2, rows, c2, r2);
}

proof fn lemma_index_in_bounds(c: int, r: int, cols: int, rows: int)
    requires
        0 <= c < cols,
        0 <= r < rows,
    ensures
        0 <= c * rows,
        0 <= c * rows + r < cols * rows,
{
    assert(0 <= c * rows && 0 <= c * rows + r < cols * rows) by (nonlinear_arith)
        requires
            0 <= c < cols,
            0 <= r < rows,
    ;
}

fn copy_flags(v: &Vec<bool>) -> (r: Vec<bool>)
    ensures
        r@ == v@,
{
    let mut r: Vec<bool> = Vec::new();
    let mut i: usize = 0;
    while i < v.len()
        invariant
            i <= v@.len(),
            r@ == v@.subrange(0, i as int),
        decreases v@.len() - i,
    {
        r.push(v[i]);
        i = i + 1;
        assert(r@ =~= v@.subrange(0, i as int));
    }
    assert(r@ =~= v@);
    r
}

} // verus!
