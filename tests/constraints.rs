use wallet_circuit::circuit::{ConstraintSystem, Expression};
use wallet_circuit::field::Fe;
use wallet_circuit::satisfy::{verify, Violation};
use wallet_circuit::table::{Cell, SynthesisError, Value, WitnessTable};

#[test]
fn no_gates_no_copies_is_satisfied() {
    let mut cs = ConstraintSystem::new();
    let a = cs.advice_column();
    let mut t = WitnessTable::new(&cs, 4).unwrap();
    t.begin_region();
    for r in 0..4 {
        t.assign_advice(a, r, Value::known(Fe::from_u64(r as u64 * 1000 + 17))).unwrap();
    }
    assert_eq!(verify(&cs, &t, &vec![]), Ok(()));
}

#[test]
fn identity_gate_holds_for_many_values() {
    let mut cs = ConstraintSystem::new();
    let a = cs.advice_column();
    let s = cs.selector();
    let q = Expression::query_advice(a, 0);
    let q2 = Expression::query_advice(a, 0);
    cs.create_gate("identity".to_string(), Some(s), vec![q.sub(q2)]);
    let rows = 64;
    let mut t = WitnessTable::new(&cs, rows).unwrap();
    t.begin_region();
    let mut x = Fe::from_u64(0x9e3779b97f4a7c15);
    for r in 0..rows {
        x = x.mul(&x).add(&Fe::from_u64(r as u64 + 1));
        t.assign_advice(a, r, Value::known(x)).unwrap();
        t.enable_selector(s, r).unwrap();
    }
    assert_eq!(verify(&cs, &t, &vec![]), Ok(()));
}

#[test]
fn gate_reports_value_and_unassigned_cells() {
    let mut cs = ConstraintSystem::new();
    let a = cs.advice_column();
    let s = cs.selector();
    let poly = Expression::query_advice(a, 0).sub(Expression::constant(Fe::one()));
    let next = Expression::query_advice(a, 1).mul(Expression::constant(Fe::zero()));
    cs.create_gate("is_one".to_string(), Some(s), vec![poly, next]);
    let mut t = WitnessTable::new(&cs, 4).unwrap();
    t.begin_region();
    t.assign_advice(a, 0, Value::known(Fe::from_u64(3))).unwrap();
    t.assign_advice(a, 1, Value::known(Fe::one())).unwrap();
    t.enable_selector(s, 0).unwrap();
    t.enable_selector(s, 1).unwrap();
    t.enable_selector(s, 3).unwrap();
    assert_eq!(
        verify(&cs, &t, &vec![]),
        Err(vec![
            Violation::ConstraintNotSatisfied { gate: 0, constraint: 0, row: 0, value: Fe::from_u64(2) },
            Violation::CellNotAssigned { gate: 0, constraint: 1, row: 1 },
            Violation::CellNotAssigned { gate: 0, constraint: 0, row: 3 },
            Violation::CellNotAssigned { gate: 0, constraint: 1, row: 3 },
        ])
    );
}

#[test]
fn gate_without_selector_applies_everywhere() {
    let mut cs = ConstraintSystem::new();
    let a = cs.advice_column();
    cs.create_gate("zero".to_string(), None, vec![Expression::query_advice(a, 0).neg()]);
    let mut t = WitnessTable::new(&cs, 2).unwrap();
    t.begin_region();
    t.assign_advice(a, 0, Value::known(Fe::zero())).unwrap();
    t.assign_advice(a, 1, Value::known(Fe::from_u64(4))).unwrap();
    assert_eq!(
        verify(&cs, &t, &vec![]),
        Err(vec![Violation::ConstraintNotSatisfied {
            gate: 0,
            constraint: 0,
            row: 1,
            value: Fe::from_u64(4).neg()
        }])
    );
}

fn copy_setup(x: u64, y: u64) -> (ConstraintSystem, WitnessTable, Cell, Cell) {
    let mut cs = ConstraintSystem::new();
    let a = cs.advice_column();
    let b = cs.advice_column();
    cs.enable_equality(a);
    cs.enable_equality(b);
    let mut t = WitnessTable::new(&cs, 8).unwrap();
    t.begin_region();
    let ca = t.assign_advice(a, 0, Value::known(Fe::from_u64(x))).unwrap();
    t.begin_region();
    let cb = t.assign_advice(b, 2, Value::known(Fe::from_u64(y))).unwrap();
    t.constrain_equal(ca, cb).unwrap();
    (cs, t, ca, cb)
}

#[test]
fn copy_constraint_differing_values() {
    let (cs, t, ca, cb) = copy_setup(1, 2);
    assert_eq!(ca, Cell { column: 0, row: 0 });
    assert_eq!(cb, Cell { column: 1, row: 3 });
    assert_eq!(
        verify(&cs, &t, &vec![]),
        Err(vec![Violation::EqualityNotSatisfied { left: ca, right: cb }])
    );
}

#[test]
fn copy_constraint_equal_values() {
    let (cs, t, _, _) = copy_setup(5, 5);
    assert_eq!(verify(&cs, &t, &vec![]), Ok(()));
}

#[test]
fn copy_constraint_unassigned_cell() {
    let mut cs = ConstraintSystem::new();
    let a = cs.advice_column();
    cs.enable_equality(a);
    let mut t = WitnessTable::new(&cs, 4).unwrap();
    t.begin_region();
    let c = t.assign_advice(a, 0, Value::known(Fe::one())).unwrap();
    let d = t.assign_advice(a, 1, Value::unknown()).unwrap();
    t.constrain_equal(c, d).unwrap();
    assert_eq!(
        verify(&cs, &t, &vec![]),
        Err(vec![Violation::EqualityCellNotAssigned { left: c, right: d }])
    );
}

#[test]
fn copy_on_column_without_equality_is_refused() {
    let mut cs = ConstraintSystem::new();
    let a = cs.advice_column();
    let mut t = WitnessTable::new(&cs, 4).unwrap();
    t.begin_region();
    let c = t.assign_advice(a, 0, Value::known(Fe::one())).unwrap();
    let d = t.assign_advice(a, 1, Value::known(Fe::one())).unwrap();
    assert_eq!(t.constrain_equal(c, d), Err(SynthesisError::ColumnNotEqualityEnabled));
    let i = cs.instance_column();
    let mut t2 = WitnessTable::new(&cs, 4).unwrap();
    t2.begin_region();
    let e = t2.assign_advice(a, 0, Value::known(Fe::one())).unwrap();
    assert_eq!(t2.constrain_instance(e, i, 0), Err(SynthesisError::ColumnNotEqualityEnabled));
}

#[test]
fn conflicting_assignment_is_refused() {
    let mut cs = ConstraintSystem::new();
    let a = cs.advice_column();
    let mut t = WitnessTable::new(&cs, 4).unwrap();
    t.begin_region();
    t.assign_advice(a, 1, Value::known(Fe::one())).unwrap();
    assert_eq!(t.assign_advice(a, 1, Value::known(Fe::one())), Ok(Cell { column: 0, row: 1 }));
    assert_eq!(
        t.assign_advice(a, 1, Value::known(Fe::zero())),
        Err(SynthesisError::ConflictingAssignment { column: 0, row: 1 })
    );
}

#[test]
fn rows_and_columns_are_checked() {
    let mut cs = ConstraintSystem::new();
    let a = cs.advice_column();
    let i = cs.instance_column();
    let s = cs.selector();
    let mut t = WitnessTable::new(&cs, 2).unwrap();
    t.begin_region();
    assert_eq!(t.assign_advice(a, 2, Value::unknown()), Err(SynthesisError::RowOutOfRange));
    assert_eq!(t.assign_advice(i, 0, Value::unknown()), Err(SynthesisError::NoSuchColumn));
    assert_eq!(t.enable_selector(s, 5), Err(SynthesisError::RowOutOfRange));
    t.assign_advice(a, 1, Value::unknown()).unwrap();
    t.begin_region();
    assert_eq!(t.region_start, 2);
    assert_eq!(t.enable_selector(s, 0), Err(SynthesisError::RowOutOfRange));
}

#[test]
fn oversized_table_is_refused() {
    let mut cs = ConstraintSystem::new();
    cs.advice_column();
    cs.advice_column();
    assert_eq!(WitnessTable::new(&cs, usize::MAX).err(), Some(SynthesisError::TableTooLarge));
}

#[test]
fn public_input_binding_arity_and_value() {
    let mut cs = ConstraintSystem::new();
    let a = cs.advice_column();
    let i = cs.instance_column();
    cs.enable_equality(a);
    cs.enable_equality(i);
    let mut t = WitnessTable::new(&cs, 4).unwrap();
    t.begin_region();
    let v = Fe::from_u64(11);
    let c = t.assign_advice(a, 0, Value::known(v)).unwrap();
    t.constrain_instance(c, i, 0).unwrap();
    assert_eq!(verify(&cs, &t, &vec![v]), Ok(()));
    assert_eq!(
        verify(&cs, &t, &vec![Fe::from_u64(12)]),
        Err(vec![Violation::PublicInputMismatch { instance: 0, row: 0 }])
    );
    assert!(verify(&cs, &t, &vec![]).is_err());
    assert!(verify(&cs, &t, &vec![v, v]).is_err());
}

#[test]
fn rotation_reads_neighbouring_rows() {
    let mut cs = ConstraintSystem::new();
    let a = cs.advice_column();
    let s = cs.selector();
    let step = Expression::query_advice(a, 1).sub(Expression::query_advice(a, 0).add(Expression::query_advice(a, -1)));
    cs.create_gate("fib".to_string(), Some(s), vec![step]);
    let mut t = WitnessTable::new(&cs, 6).unwrap();
    t.begin_region();
    let fib = [1u64, 1, 2, 3, 5, 8];
    for r in 0..6 {
        t.assign_advice(a, r, Value::known(Fe::from_u64(fib[r]))).unwrap();
    }
    for r in 1..5 {
        t.enable_selector(s, r).unwrap();
    }
    assert_eq!(verify(&cs, &t, &vec![]), Ok(()));
    t.enable_selector(s, 0).unwrap();
    assert_eq!(
        verify(&cs, &t, &vec![]),
        Err(vec![Violation::CellNotAssigned { gate: 0, constraint: 0, row: 0 }])
    );
}
