use arith_circuit::bn256::Bn256Fr;
use arith_circuit::circuit::{Circuit, TestCircuit, TestConfig};
use arith_circuit::constraint::{AssignmentError, ConstraintSystem, Error, GateKind, VerifyFailure};
use arith_circuit::field::{Field, Fp};
use arith_circuit::layout::{AssignedCell, Cell, Layouter};
use arith_circuit::prover::MockProver;
use arith_circuit::table::{CellValue, Column, ColumnKind, Selector, Value};
use halo2curves::bn256::Fr;

type F7 = Fp<7>;

fn setup<F: Field>(rows: usize) -> (ConstraintSystem, TestConfig, Layouter<F>) {
    let mut cs = ConstraintSystem::new();
    let config = <TestCircuit<F> as Circuit<F>>::configure(&mut cs).unwrap();
    let layouter = Layouter::new(&cs, rows);
    (cs, config, layouter)
}

fn load<F: Field>(
    layouter: &mut Layouter<F>,
    config: &TestConfig,
    values: Vec<Value<F>>,
) -> Vec<AssignedCell<F>> {
    layouter
        .assign_region("load", |mut region| {
            let mut cells = Vec::new();
            for (i, value) in values.into_iter().enumerate() {
                cells.push(region.assign_advice("input", config.advice, i, || value)?);
            }
            Ok((region, cells))
        })
        .unwrap()
}

fn sevens(values: &[u64]) -> Vec<Value<F7>> {
    values.iter().map(|v| Value::known(F7::new(*v))).collect()
}

fn residue(cell: CellValue<F7>) -> Option<u64> {
    match cell {
        CellValue::Assigned(Value::Known(f)) => Some(f.to_u64()),
        _ => None,
    }
}

fn known(cell: &AssignedCell<F7>) -> u64 {
    match cell.value() {
        Value::Known(f) => f.to_u64(),
        Value::Unknown => panic!("the value is unknown"),
    }
}

#[test]
fn mul_of_three_and_five_mod_seven_is_one() {
    let (cs, config, mut layouter) = setup::<F7>(16);
    let inputs = load(&mut layouter, &config, sevens(&[3, 5]));
    let out = TestCircuit::<F7>::mul(&config, &mut layouter, inputs[0], inputs[1]).unwrap();
    assert_eq!(known(&out), 1);
    assert_eq!(out.cell(), Cell { column: config.advice, row: 4 });
    assert_eq!(layouter.cursor(), 5);
    let prover = MockProver::from_layouter(cs, layouter, vec![]);
    assert_eq!(residue(prover.cell(config.advice, 2)), Some(3));
    assert_eq!(residue(prover.cell(config.advice, 3)), Some(5));
    assert_eq!(residue(prover.cell(config.advice, 4)), Some(1));
    assert!(prover.enabled(config.q_mul, 2));
    assert!(!prover.enabled(config.q_add, 2));
    assert!(!prover.enabled(config.q_mul, 3));
    assert_eq!(prover.verify(), Ok(()));
}

#[test]
fn add_of_three_and_five_mod_seven_is_one() {
    let (cs, config, mut layouter) = setup::<F7>(16);
    let inputs = load(&mut layouter, &config, sevens(&[3, 5]));
    let out = TestCircuit::<F7>::add(&config, &mut layouter, inputs[0], inputs[1]).unwrap();
    assert_eq!(known(&out), 1);
    assert_eq!(out.cell(), Cell { column: config.advice, row: 4 });
    let prover = MockProver::from_layouter(cs, layouter, vec![]);
    assert_eq!(residue(prover.cell(config.advice, 4)), Some(1));
    assert!(prover.enabled(config.q_add, 2));
    assert!(!prover.enabled(config.q_mul, 2));
    assert_eq!(prover.verify(), Ok(()));
}

#[test]
fn overwritten_product_is_a_violation_in_its_row() {
    let (cs, config, mut layouter) = setup::<F7>(16);
    let inputs = load(&mut layouter, &config, sevens(&[3, 5]));
    let out = TestCircuit::<F7>::mul(&config, &mut layouter, inputs[0], inputs[1]).unwrap();
    let mut prover = MockProver::from_layouter(cs, layouter, vec![]);
    assert_eq!(prover.overwrite_advice(config.advice, out.cell().row, Value::known(F7::new(2))), Ok(()));
    assert_eq!(residue(prover.cell(config.advice, 4)), Some(2));
    let failure = VerifyFailure::ConstraintViolation { row: 2, gate_index: 0, gate: GateKind::Mul };
    assert_eq!(prover.verify(), Err(failure));
    assert_eq!(failure.gate_label(), "mul");
    // the same table gives the same report
    assert_eq!(prover.verify(), Err(failure));
}

#[test]
fn overwritten_sum_is_a_violation_in_its_row() {
    let (cs, config, mut layouter) = setup::<F7>(16);
    let inputs = load(&mut layouter, &config, sevens(&[3, 5]));
    let out = TestCircuit::<F7>::add(&config, &mut layouter, inputs[0], inputs[1]).unwrap();
    let mut prover = MockProver::from_layouter(cs, layouter, vec![]);
    prover.overwrite_advice(config.advice, out.cell().row, Value::known(F7::new(2))).unwrap();
    assert_eq!(
        prover.verify(),
        Err(VerifyFailure::ConstraintViolation { row: 2, gate_index: 1, gate: GateKind::Add })
    );
}

#[test]
fn every_product_and_sum_mod_seven() {
    for a in 0..7u64 {
        for b in 0..7u64 {
            let (cs, config, mut layouter) = setup::<F7>(8);
            let inputs = load(&mut layouter, &config, sevens(&[a, b]));
            let product = TestCircuit::<F7>::mul(&config, &mut layouter, inputs[0], inputs[1]).unwrap();
            let sum = TestCircuit::<F7>::add(&config, &mut layouter, inputs[0], inputs[1]).unwrap();
            assert_eq!(known(&product), (a * b) % 7);
            assert_eq!(known(&sum), (a + b) % 7);
            assert_eq!(product.cell().row, 4);
            assert_eq!(sum.cell().row, 7);
            let prover = MockProver::from_layouter(cs, layouter, vec![]);
            assert_eq!(residue(prover.cell(config.advice, 4)), Some((a * b) % 7));
            assert_eq!(residue(prover.cell(config.advice, 7)), Some((a + b) % 7));
            assert_eq!(prover.verify(), Ok(()));
        }
    }
}

#[test]
fn mul_of_add_for_every_input_mod_seven() {
    for a in 0..7u64 {
        for b in 0..7u64 {
            for c in 0..7u64 {
                let (cs, config, mut layouter) = setup::<F7>(16);
                let inputs = load(&mut layouter, &config, sevens(&[a, b, c]));
                let sum = TestCircuit::<F7>::add(&config, &mut layouter, inputs[0], inputs[1]).unwrap();
                let out = TestCircuit::<F7>::mul(&config, &mut layouter, sum, inputs[2]).unwrap();
                assert_eq!(known(&out), ((a + b) * c) % 7);
                assert_eq!(out.cell().row, 8);
                let prover = MockProver::from_layouter(cs, layouter, vec![]);
                assert_eq!(residue(prover.cell(config.advice, 8)), Some(((a + b) * c) % 7));
                assert_eq!(prover.verify(), Ok(()));
            }
        }
    }
}

#[test]
fn overwriting_a_sum_does_not_update_the_product_that_used_it() {
    // (2 + 3) * 4 = 20 = 6 mod 7
    let (cs, config, mut layouter) = setup::<F7>(16);
    let inputs = load(&mut layouter, &config, sevens(&[2, 3, 4]));
    let sum = TestCircuit::<F7>::add(&config, &mut layouter, inputs[0], inputs[1]).unwrap();
    let out = TestCircuit::<F7>::mul(&config, &mut layouter, sum, inputs[2]).unwrap();
    assert_eq!(known(&sum), 5);
    assert_eq!(known(&out), 6);
    let mut prover = MockProver::from_layouter(cs, layouter, vec![]);
    assert_eq!(prover.verify(), Ok(()));
    prover.overwrite_advice(config.advice, sum.cell().row, Value::known(F7::new(0))).unwrap();
    assert_eq!(
        prover.verify(),
        Err(VerifyFailure::ConstraintViolation { row: 3, gate_index: 1, gate: GateKind::Add })
    );
    // the copy of the sum in the multiplication region is a cell of its own
    assert_eq!(residue(prover.cell(config.advice, 6)), Some(5));
    assert_eq!(residue(prover.cell(config.advice, 8)), Some(6));
}

#[test]
fn the_first_failure_is_reported() {
    let (cs, config, mut layouter) = setup::<F7>(16);
    let inputs = load(&mut layouter, &config, sevens(&[2, 3, 4]));
    let sum = TestCircuit::<F7>::add(&config, &mut layouter, inputs[0], inputs[1]).unwrap();
    let out = TestCircuit::<F7>::mul(&config, &mut layouter, sum, inputs[2]).unwrap();
    let mut prover = MockProver::from_layouter(cs, layouter, vec![]);
    prover.overwrite_advice(config.advice, out.cell().row, Value::known(F7::new(0))).unwrap();
    assert_eq!(
        prover.verify(),
        Err(VerifyFailure::ConstraintViolation { row: 6, gate_index: 0, gate: GateKind::Mul })
    );
    prover.overwrite_advice(config.advice, sum.cell().row, Value::known(F7::new(0))).unwrap();
    assert_eq!(
        prover.verify(),
        Err(VerifyFailure::ConstraintViolation { row: 3, gate_index: 1, gate: GateKind::Add })
    );
    // repaired above, the lower failure is the first again
    prover.overwrite_advice(config.advice, sum.cell().row, Value::known(F7::new(5))).unwrap();
    assert_eq!(
        prover.verify(),
        Err(VerifyFailure::ConstraintViolation { row: 6, gate_index: 0, gate: GateKind::Mul })
    );
    prover.overwrite_advice(config.advice, out.cell().row, Value::known(F7::new(6))).unwrap();
    assert_eq!(prover.verify(), Ok(()));
}

#[test]
fn an_overwritten_input_need_not_break_the_identity() {
    // 3 * 0 = 0 whatever stands in place of 3
    let (cs, config, mut layouter) = setup::<F7>(16);
    let inputs = load(&mut layouter, &config, sevens(&[3, 0]));
    TestCircuit::<F7>::mul(&config, &mut layouter, inputs[0], inputs[1]).unwrap();
    let mut prover = MockProver::from_layouter(cs, layouter, vec![]);
    prover.overwrite_advice(config.advice, 2, Value::known(F7::new(4))).unwrap();
    assert_eq!(prover.verify(), Ok(()));
    // 3 + 0 = 3 does depend on it
    let (cs, config, mut layouter) = setup::<F7>(16);
    let inputs = load(&mut layouter, &config, sevens(&[3, 0]));
    TestCircuit::<F7>::add(&config, &mut layouter, inputs[0], inputs[1]).unwrap();
    let mut prover = MockProver::from_layouter(cs, layouter, vec![]);
    prover.overwrite_advice(config.advice, 2, Value::known(F7::new(4))).unwrap();
    assert_eq!(
        prover.verify(),
        Err(VerifyFailure::ConstraintViolation { row: 2, gate_index: 1, gate: GateKind::Add })
    );
}

#[test]
fn unknown_inputs_still_lay_out_the_rows() {
    let (cs, config, mut layouter) = setup::<F7>(16);
    let inputs = load(&mut layouter, &config, vec![Value::known(F7::new(3)), Value::unknown()]);
    let out = TestCircuit::<F7>::mul(&config, &mut layouter, inputs[0], inputs[1]).unwrap();
    assert!(matches!(out.value(), Value::Unknown));
    assert_eq!(out.cell(), Cell { column: config.advice, row: 4 });
    assert_eq!(layouter.cursor(), 5);
    let sum = TestCircuit::<F7>::add(&config, &mut layouter, out, inputs[0]).unwrap();
    assert!(matches!(sum.value(), Value::Unknown));
    assert_eq!(layouter.cursor(), 8);
    let prover = MockProver::from_layouter(cs, layouter, vec![]);
    assert!(prover.enabled(config.q_mul, 2));
    assert!(prover.enabled(config.q_add, 5));
    assert_eq!(residue(prover.cell(config.advice, 2)), Some(3));
    assert!(matches!(prover.cell(config.advice, 3), CellValue::Assigned(Value::Unknown)));
    assert!(matches!(prover.cell(config.advice, 4), CellValue::Assigned(Value::Unknown)));
    assert_eq!(
        prover.verify(),
        Err(VerifyFailure::MissingWitness { row: 2, gate_index: 0, gate: GateKind::Mul })
    );
}

#[test]
fn an_unassigned_cell_is_a_missing_witness() {
    let (cs, config, mut layouter) = setup::<F7>(16);
    layouter
        .assign_region("two of three", |mut region| {
            region.assign_advice("w0", config.advice, 0, || Value::known(F7::new(3)))?;
            region.assign_advice("w2", config.advice, 2, || Value::known(F7::new(2)))?;
            region.enable_selector(config.q_mul, 0)?;
            Ok((region, ()))
        })
        .unwrap();
    let mut prover = MockProver::from_layouter(cs, layouter, vec![]);
    assert!(matches!(prover.cell(config.advice, 1), CellValue::Unassigned));
    let missing = VerifyFailure::MissingWitness { row: 0, gate_index: 0, gate: GateKind::Mul };
    assert_eq!(prover.verify(), Err(missing));
    assert_eq!(missing.gate_label(), "mul");
    // once the cell is there the values are judged: 3 * 5 is not 2
    prover.overwrite_advice(config.advice, 1, Value::known(F7::new(5))).unwrap();
    assert_eq!(
        prover.verify(),
        Err(VerifyFailure::ConstraintViolation { row: 0, gate_index: 0, gate: GateKind::Mul })
    );
    prover.overwrite_advice(config.advice, 2, Value::known(F7::new(1))).unwrap();
    assert_eq!(prover.verify(), Ok(()));
}

#[test]
fn a_selector_in_the_last_row_misses_the_rows_below_the_table() {
    let (cs, config, mut layouter) = setup::<F7>(4);
    layouter
        .assign_region("low", |mut region| {
            region.assign_advice("w0", config.advice, 3, || Value::known(F7::new(0)))?;
            region.enable_selector(config.q_add, 3)?;
            Ok((region, ()))
        })
        .unwrap();
    let prover = MockProver::from_layouter(cs, layouter, vec![]);
    assert_eq!(
        prover.verify(),
        Err(VerifyFailure::MissingWitness { row: 3, gate_index: 1, gate: GateKind::Add })
    );
}

#[test]
fn two_identities_in_one_row_are_checked_in_the_order_declared() {
    let cases = [
        ([2u64, 2, 4], Ok(())),
        ([2, 3, 6], Err(VerifyFailure::ConstraintViolation { row: 0, gate_index: 1, gate: GateKind::Add })),
        ([2, 3, 5], Err(VerifyFailure::ConstraintViolation { row: 0, gate_index: 0, gate: GateKind::Mul })),
        ([2, 3, 0], Err(VerifyFailure::ConstraintViolation { row: 0, gate_index: 0, gate: GateKind::Mul })),
    ];
    for (values, expected) in cases {
        let (cs, config, mut layouter) = setup::<F7>(4);
        layouter
            .assign_region("both", |mut region| {
                for (i, v) in values.iter().enumerate() {
                    region.assign_advice("w", config.advice, i, || Value::known(F7::new(*v)))?;
                }
                region.enable_selector(config.q_add, 0)?;
                region.enable_selector(config.q_mul, 0)?;
                Ok((region, ()))
            })
            .unwrap();
        let prover = MockProver::from_layouter(cs, layouter, vec![]);
        assert_eq!(prover.verify(), expected);
    }
}

#[test]
fn a_gate_needs_three_rows() {
    let refused = Error::Assignment(AssignmentError::RowOutOfBounds);
    let (_, config, mut layouter) = setup::<F7>(4);
    let inputs = load(&mut layouter, &config, sevens(&[3, 5]));
    assert_eq!(layouter.cursor(), 2);
    let out = TestCircuit::<F7>::mul(&config, &mut layouter, inputs[0], inputs[1]);
    assert_eq!(out.map(|c| c.cell()), Err(refused));
    let out = TestCircuit::<F7>::add(&config, &mut layouter, inputs[0], inputs[1]);
    assert_eq!(out.map(|c| c.cell()), Err(refused));
    assert_eq!(layouter.cursor(), 2);
    assert!(matches!(layouter.table().cell(0, 2), CellValue::Unassigned));
    assert!(!layouter.table().enabled(0, 2));
    let (_, config, mut layouter) = setup::<F7>(5);
    let inputs = load(&mut layouter, &config, sevens(&[3, 5]));
    let out = TestCircuit::<F7>::mul(&config, &mut layouter, inputs[0], inputs[1]).unwrap();
    assert_eq!(out.cell().row, 4);
    assert_eq!(layouter.cursor(), 5);
}

#[test]
fn a_gate_needs_its_column_and_its_selector() {
    let unknown = Error::Assignment(AssignmentError::UnknownColumn);
    let (_, config, mut layouter) = setup::<F7>(8);
    let inputs = load(&mut layouter, &config, sevens(&[3, 5]));
    let no_column =
        TestConfig { advice: Column { kind: ColumnKind::Advice, index: 1 }, ..config };
    let out = TestCircuit::<F7>::mul(&no_column, &mut layouter, inputs[0], inputs[1]);
    assert_eq!(out.map(|c| c.cell()), Err(unknown));
    let no_selector = TestConfig { q_add: Selector { index: 2 }, ..config };
    let out = TestCircuit::<F7>::add(&no_selector, &mut layouter, inputs[0], inputs[1]);
    assert_eq!(out.map(|c| c.cell()), Err(unknown));
    // the multiplication selector of that configuration is in order
    let out = TestCircuit::<F7>::mul(&no_selector, &mut layouter, inputs[0], inputs[1]);
    assert_eq!(out.map(|c| c.cell().row), Ok(4));
    // a missing column is reported before missing rows
    let (_, config, mut layouter) = setup::<F7>(2);
    let inputs = load(&mut layouter, &config, sevens(&[3, 5]));
    let no_column =
        TestConfig { advice: Column { kind: ColumnKind::Selector, index: 0 }, ..config };
    let out = TestCircuit::<F7>::mul(&no_column, &mut layouter, inputs[0], inputs[1]);
    assert_eq!(out.map(|c| c.cell()), Err(unknown));
    // and missing rows before a missing selector
    let no_selector = TestConfig { q_mul: Selector { index: 9 }, ..config };
    let out = TestCircuit::<F7>::mul(&no_selector, &mut layouter, inputs[0], inputs[1]);
    assert_eq!(out.map(|c| c.cell()), Err(Error::Assignment(AssignmentError::RowOutOfBounds)));
}

#[test]
fn gates_over_the_bn254_scalar_field() {
    let (cs, config, mut layouter) = setup::<Bn256Fr>(16);
    let a = 0xffff_ffff_ffff_fff1u64;
    let b = 0x1234_5678_9abc_def0u64;
    let c = 0xdead_beef_0bad_f00du64;
    let values = [a, b, c].iter().map(|v| Value::known(Bn256Fr::from_u64(*v))).collect();
    let inputs = load(&mut layouter, &config, values);
    let sum = TestCircuit::<Bn256Fr>::add(&config, &mut layouter, inputs[0], inputs[1]).unwrap();
    let out = TestCircuit::<Bn256Fr>::mul(&config, &mut layouter, sum, inputs[2]).unwrap();
    let expected = (Fr::from(a) + Fr::from(b)) * Fr::from(c);
    match out.value() {
        Value::Known(f) => assert_eq!(f.to_bytes(), expected.to_bytes()),
        Value::Unknown => panic!("the value is unknown"),
    }
    let mut prover = MockProver::from_layouter(cs, layouter, vec![]);
    assert_eq!(prover.verify(), Ok(()));
    prover.overwrite_advice(config.advice, out.cell().row, Value::known(Bn256Fr::from_u64(1))).unwrap();
    assert_eq!(
        prover.verify(),
        Err(VerifyFailure::ConstraintViolation { row: 6, gate_index: 0, gate: GateKind::Mul })
    );
}

#[test]
fn failures_lists_every_finding_in_order() {
    let (cs, config, mut layouter) = setup::<F7>(16);
    let inputs = load(&mut layouter, &config, sevens(&[2, 3, 4]));
    let sum = TestCircuit::<F7>::add(&config, &mut layouter, inputs[0], inputs[1]).unwrap();
    let out = TestCircuit::<F7>::mul(&config, &mut layouter, sum, inputs[2]).unwrap();
    layouter
        .assign_region("open", |mut region| {
            region.enable_selector(config.q_mul, 0)?;
            region.enable_selector(config.q_add, 0)?;
            Ok((region, ()))
        })
        .unwrap();
    let mut prover = MockProver::from_layouter(cs, layouter, vec![]);
    let open = vec![
        VerifyFailure::MissingWitness { row: 9, gate_index: 0, gate: GateKind::Mul },
        VerifyFailure::MissingWitness { row: 9, gate_index: 1, gate: GateKind::Add },
    ];
    assert_eq!(prover.failures(), open);
    assert_eq!(prover.verify(), Err(open[0]));
    prover.overwrite_advice(config.advice, out.cell().row, Value::known(F7::new(0))).unwrap();
    prover.overwrite_advice(config.advice, sum.cell().row, Value::known(F7::new(0))).unwrap();
    let all = vec![
        VerifyFailure::ConstraintViolation { row: 3, gate_index: 1, gate: GateKind::Add },
        VerifyFailure::ConstraintViolation { row: 6, gate_index: 0, gate: GateKind::Mul },
        open[0],
        open[1],
    ];
    assert_eq!(prover.failures(), all);
    assert_eq!(prover.verify(), Err(all[0]));
}

#[test]
fn failures_of_a_passing_table_is_empty() {
    let (cs, config, mut layouter) = setup::<F7>(16);
    let inputs = load(&mut layouter, &config, sevens(&[6, 6]));
    TestCircuit::<F7>::mul(&config, &mut layouter, inputs[0], inputs[1]).unwrap();
    let prover = MockProver::from_layouter(cs, layouter, vec![]);
    assert!(prover.failures().is_empty());
    assert_eq!(prover.verify(), Ok(()));
    let idle = MockProver::run(5, &TestCircuit::<F7>::new(), vec![]).unwrap();
    assert!(idle.failures().is_empty());
}
