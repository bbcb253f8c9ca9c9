use plonkish_fibonacci::backend::BackendError;
use plonkish_fibonacci::check::{check_constraints, ConstraintViolation};
use plonkish_fibonacci::circuit::{ColumnKind, ConstraintSystem};
use plonkish_fibonacci::fibonacci::{FibonacciChip, FibonacciCircuit};
use plonkish_fibonacci::field::FieldElement;
use plonkish_fibonacci::witness::{SynthesisError, Witness};

fn fe(v: u64) -> FieldElement {
    FieldElement::from_u64(v)
}

fn circuit(values: &[u64]) -> FibonacciCircuit {
    FibonacciCircuit { public_input: vec![values.iter().map(|v| fe(*v)).collect()] }
}

#[test]
fn configure_allocates_columns_and_one_gate() {
    let mut cs = ConstraintSystem::new();
    let config = FibonacciChip::configure(&mut cs);
    assert_eq!(cs.num_advice, 3);
    assert_eq!(cs.num_instance, 1);
    assert_eq!(cs.num_selectors, 1);
    assert_eq!(cs.gates.len(), 1);
    assert_eq!(cs.equality.len(), 4);
    assert_eq!(config.col_a.kind, ColumnKind::Advice);
    assert_eq!(config.instance.kind, ColumnKind::Instance);
    assert_eq!(cs.gates[0].out, config.col_c);
}

#[test]
fn local_check_accepts_the_tenth_term() {
    assert_eq!(circuit(&[1, 1, 55]).check_locally(16), Ok(()));
    assert_eq!(circuit(&[2, 3, 144]).check_locally(16), Ok(()));
    assert_eq!(circuit(&[0, 0, 0]).check_locally(8), Ok(()));
}

#[test]
fn local_check_rejects_another_output() {
    assert_eq!(
        circuit(&[1, 1, 56]).check_locally(16),
        Err(BackendError::Consistency(ConstraintViolation::Copy { index: 16 }))
    );
    assert!(circuit(&[2, 3, 55]).check_locally(16).is_err());
}

#[test]
fn local_check_without_output_fails() {
    assert_eq!(
        circuit(&[1, 1]).check_locally(16),
        Err(BackendError::Consistency(ConstraintViolation::Copy { index: 16 }))
    );
}

#[test]
fn local_check_needs_eight_rows() {
    assert_eq!(
        circuit(&[1, 1, 55]).check_locally(7),
        Err(BackendError::Synthesis(SynthesisError::NotEnoughRows))
    );
    assert_eq!(
        circuit(&[1]).check_locally(16),
        Err(BackendError::Synthesis(SynthesisError::MissingInstance))
    );
}

#[test]
fn synthesized_grid_holds_the_sequence() {
    let mut cs = ConstraintSystem::new();
    let config = FibonacciCircuit::configure(&mut cs);
    let c = circuit(&[1, 1, 55]);
    let mut w = Witness::new(&cs, 16, c.instances());
    assert_eq!(c.synthesize(config, &mut w), Ok(()));
    assert_eq!(w.next_row, 8);
    assert_eq!(w.copies.len(), 17);
    assert_eq!(w.advice_value(config.col_c.index, 7), Some(fe(55)));
    assert_eq!(w.advice_value(config.col_a.index, 3), Some(fe(3)));
    assert_eq!(w.advice_value(config.col_a.index, 8), None);
    assert!(w.selector_enabled(config.selector, 7));
    assert!(!w.selector_enabled(config.selector, 8));
    assert_eq!(check_constraints(&cs, &w), Ok(()));
}

#[test]
fn without_witnesses_has_no_public_inputs() {
    let c = circuit(&[1, 1, 55]);
    assert!(c.without_witnesses().public_input.is_empty());
    assert_eq!(c.instances(), c.public_input);
}

#[test]
fn out_of_grid_assignments_are_refused() {
    let mut cs = ConstraintSystem::new();
    let config = FibonacciCircuit::configure(&mut cs);
    let mut w = Witness::new(&cs, 2, vec![vec![fe(1)]]);
    assert_eq!(w.assign_advice(config.col_a, 2, fe(1)).err(), Some(SynthesisError::OutOfBounds));
    assert_eq!(w.assign_advice(config.instance, 0, fe(1)).err(), Some(SynthesisError::OutOfBounds));
    assert_eq!(w.enable_selector(config.selector, 5), Err(SynthesisError::OutOfBounds));
    let cell = w.assign_advice(config.col_a, 0, fe(1)).unwrap().cell;
    assert_eq!(w.constrain_instance(cell, config.col_b, 0), Err(SynthesisError::OutOfBounds));
    assert_eq!(
        w.assign_advice_from_instance(config.instance, 1, config.col_b, 0).err(),
        Some(SynthesisError::MissingInstance)
    );
    assert_eq!(w.begin_region(), Ok(0));
    assert_eq!(w.begin_region(), Ok(1));
    assert_eq!(w.begin_region(), Err(SynthesisError::NotEnoughRows));
}

#[test]
fn copy_constraints_join_equal_cells() {
    let mut cs = ConstraintSystem::new();
    let config = FibonacciCircuit::configure(&mut cs);
    let mut w = Witness::new(&cs, 4, vec![vec![fe(9)]]);
    let a = w.assign_advice_from_instance(config.instance, 0, config.col_a, 0).unwrap();
    assert_eq!(a.value, fe(9));
    let b = w.copy_advice(&a, config.col_b, 1).unwrap();
    assert_eq!(b.value, fe(9));
    assert_eq!(w.copies.len(), 2);
    assert_eq!(check_constraints(&cs, &w), Ok(()));
    w.enable_selector(config.selector, 1).unwrap();
    assert_eq!(check_constraints(&cs, &w), Err(ConstraintViolation::Gate { gate: 0, row: 1 }));
}
