use arith_circuit::circuit::{Circuit, TestCircuit, TestConfig};
use arith_circuit::constraint::{
    ConfigurationError, ConstraintSystem, Error, Gate, GateKind, VerifyFailure,
};
use arith_circuit::field::Fp;
use arith_circuit::table::{Column, ColumnKind, Selector};

type F7 = Fp<7>;

#[test]
fn columns_and_selectors_are_numbered_in_order() {
    let mut cs = ConstraintSystem::new();
    assert_eq!(cs.num_advice_columns(), 0);
    assert_eq!(cs.num_selectors(), 0);
    assert_eq!(cs.advice_column(), Ok(Column { kind: ColumnKind::Advice, index: 0 }));
    assert_eq!(cs.advice_column(), Ok(Column { kind: ColumnKind::Advice, index: 1 }));
    assert_eq!(cs.selector(), Ok(Selector { index: 0 }));
    assert_eq!(cs.selector(), Ok(Selector { index: 1 }));
    assert_eq!(cs.selector(), Ok(Selector { index: 2 }));
    assert_eq!(cs.num_advice_columns(), 2);
    assert_eq!(cs.num_selectors(), 3);
    assert_eq!(cs.num_gates(), 0);
}

#[test]
fn create_gate_records_the_identity() {
    let mut cs = ConstraintSystem::new();
    let advice = cs.advice_column().unwrap();
    let q = cs.selector().unwrap();
    assert_eq!(cs.create_gate(GateKind::Add, q, advice), Ok(()));
    assert_eq!(cs.num_gates(), 1);
    assert_eq!(cs.gates()[0], Gate { kind: GateKind::Add, selector: q, advice });
}

#[test]
fn create_gate_refuses_what_was_not_declared() {
    let unknown = Err(Error::Configuration(ConfigurationError::UnknownColumn));
    let mut cs = ConstraintSystem::new();
    let advice = cs.advice_column().unwrap();
    let q = cs.selector().unwrap();
    assert_eq!(cs.create_gate(GateKind::Mul, Selector { index: 1 }, advice), unknown);
    assert_eq!(
        cs.create_gate(GateKind::Mul, q, Column { kind: ColumnKind::Advice, index: 1 }),
        unknown
    );
    assert_eq!(
        cs.create_gate(GateKind::Mul, q, Column { kind: ColumnKind::Selector, index: 0 }),
        unknown
    );
    assert_eq!(cs.num_gates(), 0);
}

#[test]
fn create_gate_refuses_a_selector_in_use() {
    let mut cs = ConstraintSystem::new();
    let advice = cs.advice_column().unwrap();
    let q = cs.selector().unwrap();
    cs.create_gate(GateKind::Mul, q, advice).unwrap();
    assert_eq!(
        cs.create_gate(GateKind::Add, q, advice),
        Err(Error::Configuration(ConfigurationError::SelectorInUse))
    );
    assert_eq!(cs.num_gates(), 1);
    let other = cs.selector().unwrap();
    assert_eq!(cs.create_gate(GateKind::Add, other, advice), Ok(()));
    assert_eq!(cs.num_gates(), 2);
}

#[test]
fn unknown_column_is_reported_before_selector_in_use() {
    let mut cs = ConstraintSystem::new();
    let advice = cs.advice_column().unwrap();
    let q = cs.selector().unwrap();
    cs.create_gate(GateKind::Mul, q, advice).unwrap();
    assert_eq!(
        cs.create_gate(GateKind::Add, q, Column { kind: ColumnKind::Advice, index: 5 }),
        Err(Error::Configuration(ConfigurationError::UnknownColumn))
    );
}

#[test]
fn configure_declares_one_column_two_selectors_two_identities() {
    let mut cs = ConstraintSystem::new();
    let config = <TestCircuit<F7> as Circuit<F7>>::configure(&mut cs).unwrap();
    assert_eq!(
        config,
        TestConfig {
            advice: Column { kind: ColumnKind::Advice, index: 0 },
            q_mul: Selector { index: 0 },
            q_add: Selector { index: 1 },
        }
    );
    assert_eq!(cs.num_advice_columns(), 1);
    assert_eq!(cs.num_selectors(), 2);
    assert_eq!(cs.num_gates(), 2);
    assert_eq!(
        cs.gates()[0],
        Gate { kind: GateKind::Mul, selector: config.q_mul, advice: config.advice }
    );
    assert_eq!(
        cs.gates()[1],
        Gate { kind: GateKind::Add, selector: config.q_add, advice: config.advice }
    );
}

#[test]
fn configure_twice_declares_fresh_columns() {
    let mut cs = ConstraintSystem::new();
    let first = <TestCircuit<F7> as Circuit<F7>>::configure(&mut cs).unwrap();
    let second = <TestCircuit<F7> as Circuit<F7>>::configure(&mut cs).unwrap();
    assert_eq!(first.advice.index, 0);
    assert_eq!(second.advice.index, 1);
    assert_eq!(second.q_mul, Selector { index: 2 });
    assert_eq!(second.q_add, Selector { index: 3 });
    assert_eq!(cs.num_gates(), 4);
}

#[test]
fn gate_kinds_compute_and_check() {
    let three = F7::new(3);
    let five = F7::new(5);
    assert_eq!(GateKind::Mul.apply(&three, &five).to_u64(), 1);
    assert_eq!(GateKind::Add.apply(&three, &five).to_u64(), 1);
    assert_eq!(GateKind::Mul.apply(&F7::new(2), &F7::new(3)).to_u64(), 6);
    assert_eq!(GateKind::Add.apply(&F7::new(2), &F7::new(3)).to_u64(), 5);
    assert!(GateKind::Mul.check(&three, &five, &F7::new(1)));
    assert!(!GateKind::Mul.check(&three, &five, &F7::new(2)));
    assert!(GateKind::Add.check(&F7::new(2), &F7::new(3), &F7::new(5)));
    assert!(!GateKind::Add.check(&F7::new(2), &F7::new(3), &F7::new(6)));
    for a in 0..7u64 {
        for b in 0..7u64 {
            for c in 0..7u64 {
                let (x, y, z) = (F7::new(a), F7::new(b), F7::new(c));
                assert_eq!(GateKind::Mul.check(&x, &y, &z), (a * b) % 7 == c);
                assert_eq!(GateKind::Add.check(&x, &y, &z), (a + b) % 7 == c);
            }
        }
    }
}

#[test]
fn labels() {
    assert_eq!(GateKind::Mul.label(), "mul");
    assert_eq!(GateKind::Add.label(), "add");
    let f = VerifyFailure::ConstraintViolation { row: 9, gate_index: 1, gate: GateKind::Add };
    assert_eq!(f.row(), 9);
    assert_eq!(f.gate_label(), "add");
    let m = VerifyFailure::MissingWitness { row: 4, gate_index: 0, gate: GateKind::Mul };
    assert_eq!(m.row(), 4);
    assert_eq!(m.gate_label(), "mul");
}
