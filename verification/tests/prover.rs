use arith_circuit::bn256::Bn256Fr;
use arith_circuit::circuit::{Circuit, TestCircuit};
use arith_circuit::constraint::{AssignmentError, ConfigurationError, Error, Gate, GateKind};
use arith_circuit::field::Fp;
use arith_circuit::prover::MockProver;
use arith_circuit::table::{CellValue, Column, ColumnKind, Selector, Value};

type F7 = Fp<7>;

#[test]
fn the_idle_circuit_passes() {
    let circuit = TestCircuit::<Bn256Fr>::new();
    let prover = MockProver::run(8, &circuit, vec![]).unwrap();
    assert!(prover.verify().is_ok());
    assert_eq!(prover.rows(), 256);
}

#[test]
fn the_idle_circuit_passes_in_every_small_table() {
    for k in 0..12u32 {
        let prover = MockProver::run(k, &TestCircuit::<F7>::new(), vec![]).unwrap();
        assert_eq!(prover.rows(), 1usize << k);
        assert_eq!(prover.verify(), Ok(()));
        assert!(prover.regions().is_empty());
    }
}

#[test]
fn the_shape_of_the_idle_circuit_passes_too() {
    let circuit = TestCircuit::<F7>::new();
    let shape = circuit.without_witnesses();
    let prover = MockProver::run(3, &shape, vec![]).unwrap();
    assert_eq!(prover.verify(), Ok(()));
}

#[test]
fn run_declares_what_the_circuit_declares() {
    let prover = MockProver::run(2, &TestCircuit::<F7>::new(), vec![]).unwrap();
    let cs = prover.constraint_system();
    assert_eq!(cs.num_advice_columns(), 1);
    assert_eq!(cs.num_selectors(), 2);
    assert_eq!(cs.num_gates(), 2);
    let advice = Column { kind: ColumnKind::Advice, index: 0 };
    assert_eq!(cs.gates()[0], Gate { kind: GateKind::Mul, selector: Selector { index: 0 }, advice });
    assert_eq!(cs.gates()[1], Gate { kind: GateKind::Add, selector: Selector { index: 1 }, advice });
    for row in 0..4 {
        assert!(matches!(prover.cell(advice, row), CellValue::Unassigned));
        assert!(!prover.enabled(Selector { index: 0 }, row));
        assert!(!prover.enabled(Selector { index: 1 }, row));
    }
    assert!(matches!(prover.cell(advice, 4), CellValue::Unassigned));
}

#[test]
fn run_keeps_the_public_inputs() {
    let instance = vec![vec![F7::new(3), F7::new(12)], vec![]];
    let prover = MockProver::run(1, &TestCircuit::<F7>::new(), instance).unwrap();
    let kept = prover.instance();
    assert_eq!(kept.len(), 2);
    assert_eq!(kept[0].len(), 2);
    assert_eq!(kept[0][0].to_u64(), 3);
    assert_eq!(kept[0][1].to_u64(), 5);
    assert!(kept[1].is_empty());
    assert_eq!(prover.verify(), Ok(()));
}

#[test]
fn run_refuses_a_table_that_cannot_be_addressed() {
    for k in [usize::BITS, usize::BITS + 1, u32::MAX] {
        let out = MockProver::run(k, &TestCircuit::<F7>::new(), vec![]);
        assert_eq!(
            out.map(|p| p.rows()),
            Err(Error::Configuration(ConfigurationError::TooManyRows))
        );
    }
}

#[test]
fn overwrite_refuses_cells_outside_the_table() {
    let mut prover = MockProver::run(2, &TestCircuit::<F7>::new(), vec![]).unwrap();
    let advice = Column { kind: ColumnKind::Advice, index: 0 };
    let value = Value::known(F7::new(1));
    assert_eq!(
        prover.overwrite_advice(advice, 4, value),
        Err(Error::Assignment(AssignmentError::RowOutOfBounds))
    );
    assert_eq!(
        prover.overwrite_advice(Column { kind: ColumnKind::Advice, index: 1 }, 0, value),
        Err(Error::Assignment(AssignmentError::UnknownColumn))
    );
    assert_eq!(
        prover.overwrite_advice(Column { kind: ColumnKind::Selector, index: 0 }, 0, value),
        Err(Error::Assignment(AssignmentError::UnknownColumn))
    );
    assert_eq!(prover.overwrite_advice(advice, 3, value), Ok(()));
    match prover.cell(advice, 3) {
        CellValue::Assigned(Value::Known(f)) => assert_eq!(f.to_u64(), 1),
        _ => panic!("the cell holds no known value"),
    }
    assert!(matches!(prover.cell(Column { kind: ColumnKind::Selector, index: 0 }, 3), CellValue::Unassigned));
    // no selector is enabled, so the value is not judged
    assert_eq!(prover.verify(), Ok(()));
}
