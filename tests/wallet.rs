use halo2curves::bn256::Fr;
use halo2curves::serde::SerdeObject;
use wallet_circuit::circuit::ConstraintSystem;
use wallet_circuit::field::Fe;
use wallet_circuit::satisfy::{verify as check, Violation};
use wallet_circuit::table::Value;
use wallet_circuit::wallet::{run, WalletCirciut};

fn address_element(text: &str) -> Fe {
    let address_str = text.strip_prefix("0x").unwrap();
    let address = hex::decode(address_str).unwrap();
    let address = Fr::from_raw_bytes_unchecked(&[vec![0, 0, 0, 0, 0, 0, 0, 0, 0, 0, 0, 0], address].concat());
    Fe::from_bytes(address.to_bytes()).unwrap()
}

#[test]
fn verify() {
    let k = 4;
    let address = address_element("0x880262912356F79aAc79C00C1C9c0f6ce1BDD6ad");
    let circuit = WalletCirciut { wallet_address: Value::known(address) };
    let public_inputs = vec![address];
    let (cs, table) = run(1 << k, &circuit).unwrap();
    assert_eq!(check(&cs, &table, &public_inputs), Ok(()));
}

#[test]
fn wallet_other_public_input_is_one_mismatch() {
    let address = address_element("0x880262912356F79aAc79C00C1C9c0f6ce1BDD6ad");
    let other = address_element("0x880262912356F79aAc79C00C1C9c0f6ce1BDD6ae");
    let circuit = WalletCirciut { wallet_address: Value::known(address) };
    let (cs, table) = run(16, &circuit).unwrap();
    assert_eq!(
        check(&cs, &table, &vec![other]),
        Err(vec![Violation::PublicInputMismatch { instance: 0, row: 0 }])
    );
}

#[test]
fn wallet_wrong_arity_fails() {
    let address = Fe::from_u64(42);
    let circuit = WalletCirciut { wallet_address: Value::known(address) };
    let (cs, table) = run(16, &circuit).unwrap();
    assert_eq!(
        check(&cs, &table, &vec![]),
        Err(vec![Violation::PublicInputCount { expected: 1, found: 0 }])
    );
    assert_eq!(
        check(&cs, &table, &vec![address, Fe::from_u64(7)]),
        Err(vec![Violation::PublicInputCount { expected: 1, found: 2 }])
    );
}

#[test]
fn wallet_without_witness_reports_unassigned() {
    let circuit = WalletCirciut { wallet_address: Value::known(Fe::from_u64(5)) }.without_witnesses();
    let (cs, table) = run(8, &circuit).unwrap();
    assert_eq!(
        check(&cs, &table, &vec![Fe::from_u64(5)]),
        Err(vec![
            Violation::CellNotAssigned { gate: 0, constraint: 0, row: 0 },
            Violation::PublicInputNotAssigned { instance: 0, row: 0 },
        ])
    );
}

#[test]
fn wallet_needs_a_row() {
    let circuit = WalletCirciut { wallet_address: Value::known(Fe::from_u64(5)) };
    assert!(run(0, &circuit).is_err());
}

#[test]
fn synthesis_is_deterministic() {
    let circuit = WalletCirciut { wallet_address: Value::known(Fe::from_u64(99)) };
    let (cs1, t1) = run(16, &circuit).unwrap();
    let (cs2, t2) = run(16, &circuit).unwrap();
    assert_eq!(format!("{:?}", t1), format!("{:?}", t2));
    assert_eq!(format!("{:?}", cs1), format!("{:?}", cs2));
}

#[test]
fn wallet_configure_shape() {
    let mut cs = ConstraintSystem::new();
    let config = WalletCirciut::configure(&mut cs);
    assert_eq!(cs.num_advice, 1);
    assert_eq!(cs.num_instance, 1);
    assert_eq!(cs.num_selectors, 1);
    assert_eq!(cs.gate_names, vec!["wallet_address".to_string()]);
    assert_eq!(cs.constraints.len(), 1);
    assert_eq!(config.selector.index, 0);
    assert_eq!(cs.advice_equality, vec![true]);
    assert_eq!(cs.instance_equality, vec![true]);
}
