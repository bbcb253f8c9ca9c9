use plonkish_fibonacci::backend::{BackendError, PlonkishComponents};
use plonkish_fibonacci::check::ConstraintViolation;
use plonkish_fibonacci::fibonacci::FibonacciCircuit;
use plonkish_fibonacci::field::FieldElement;
use plonkish_fibonacci::transparent::{CircuitKey, TransparentScheme};
use plonkish_fibonacci::{generate_halo2_proof, prove, verify, verify_halo2_proof, FibonacciError};

fn fe(v: u64) -> FieldElement {
    FieldElement::from_u64(v)
}

fn initialize_params_and_circuit(k: u32, public_input: Vec<FieldElement>) -> (FibonacciCircuit, CircuitKey, CircuitKey) {
    let circuit = FibonacciCircuit { public_input: vec![public_input] };
    let info = FibonacciCircuit::circuit_info(k);
    let param = TransparentScheme::setup(k).unwrap();
    let (pk, vk) = TransparentScheme::preprocess(&param, &info).unwrap();
    (circuit, pk, vk)
}

fn out_input(value: &str) -> Vec<(String, Vec<String>)> {
    vec![("out".to_string(), vec![value.to_string()])]
}

fn out_fields(value: u64) -> Vec<(String, Vec<FieldElement>)> {
    vec![("out".to_string(), vec![fe(value)])]
}

#[test]
fn lib_test_fibonacci_circuit() {
    let a = fe(1);
    let b = fe(1);
    let public_input = vec![a, b, fe(55)];
    let (circuit, pk, vk) = initialize_params_and_circuit(4, public_input.clone());

    let proof = TransparentScheme::prove(&pk, &circuit).unwrap();
    let result = TransparentScheme::verify(&vk, &public_input, &proof);
    assert_eq!(result, Ok(()));

    let invalid_public_input = vec![a, b, fe(56)];
    let invalid_result_with_wrong_input = TransparentScheme::verify(&vk, &invalid_public_input, &proof);
    assert_eq!(
        invalid_result_with_wrong_input,
        Err(BackendError::Consistency(ConstraintViolation::Copy { index: 16 }))
    );
}

#[test]
fn lib_test_helper_functions() {
    let input = out_fields(55);
    let public_input = vec![fe(1), fe(1), fe(55)];
    let (_, pk, vk) = initialize_params_and_circuit(4, public_input.clone());

    let (proof, inputs) = generate_halo2_proof::<TransparentScheme>(&pk, &input).unwrap();
    assert_eq!(inputs, public_input);

    let result = verify_halo2_proof::<TransparentScheme>(&vk, proof, inputs);
    assert_eq!(result.unwrap(), true);
}

#[test]
fn test_bad_proof_not_verified() {
    let input = out_fields(56);
    let invalid_public_input = vec![fe(1), fe(1), fe(56)];
    let (_, pk, vk) = initialize_params_and_circuit(4, invalid_public_input.clone());

    let (proof, inputs) = generate_halo2_proof::<TransparentScheme>(&pk, &input).unwrap();
    assert_eq!(inputs, invalid_public_input);

    let verified = verify_halo2_proof::<TransparentScheme>(&vk, proof, inputs).unwrap_or(false);
    assert!(!verified);
}

#[test]
fn fibonacci_circuit_test() {
    let public_input = vec![fe(1), fe(1), fe(55)];
    let (circuit, pk, vk) = initialize_params_and_circuit(4, public_input.clone());
    let proof = TransparentScheme::prove(&pk, &circuit).unwrap();
    let result = verify_halo2_proof::<TransparentScheme>(&vk, proof, public_input);
    assert!(result.unwrap());
}

fn prove_verify_end_to_end() {
    let input = out_input("55");
    let info = FibonacciCircuit::circuit_info(4);
    let param = TransparentScheme::setup(4).unwrap();
    let (pk, vk) = TransparentScheme::preprocess(&param, &info).unwrap();

    let result = prove::<TransparentScheme>(&pk, &input).unwrap();
    let verified = verify::<TransparentScheme>(&vk, result.0, result.1).unwrap();
    assert!(verified);
}

#[test]
fn gemini_integration_test() {
    prove_verify_end_to_end();
}

#[test]
fn test_prove_verify_end_to_end() {
    prove_verify_end_to_end();
}

#[test]
fn tampered_output_is_rejected_as_consistency_failure() {
    let (_, pk, vk) = initialize_params_and_circuit(4, vec![fe(1), fe(1), fe(56)]);
    let (proof, public_inputs) = prove::<TransparentScheme>(&pk, &out_input("56")).unwrap();
    let first = verify::<TransparentScheme>(&vk, proof.clone(), public_inputs.clone());
    let second = verify::<TransparentScheme>(&vk, proof, public_inputs);
    assert_eq!(
        first,
        Err(FibonacciError::Verification(BackendError::Consistency(ConstraintViolation::Copy { index: 16 })))
    );
    assert_eq!(first, second);
}

#[test]
fn proof_for_55_is_rejected_for_56() {
    let (_, pk, vk) = initialize_params_and_circuit(4, vec![fe(1), fe(1), fe(55)]);
    let (proof, _) = prove::<TransparentScheme>(&pk, &out_input("55")).unwrap();
    let (_, other_inputs) = prove::<TransparentScheme>(&pk, &out_input("56")).unwrap();
    let result = verify::<TransparentScheme>(&vk, proof, other_inputs);
    assert!(matches!(result, Err(FibonacciError::Verification(BackendError::Consistency(_)))));
}

#[test]
fn proving_twice_gives_identical_bytes() {
    let (circuit, pk, _) = initialize_params_and_circuit(4, vec![fe(1), fe(1), fe(55)]);
    let first = TransparentScheme::prove(&pk, &circuit).unwrap();
    let second = TransparentScheme::prove(&pk, &circuit).unwrap();
    assert_eq!(first, second);
    assert_eq!(first.len(), 24 * 32);
}

#[test]
fn proof_holds_the_advice_rows() {
    let (circuit, pk, _) = initialize_params_and_circuit(4, vec![fe(1), fe(1), fe(55)]);
    let proof = TransparentScheme::prove(&pk, &circuit).unwrap();
    // row 7 holds a = 21, b = 34, c = 55 in columns 0, 1, 2
    assert_eq!(proof[21 * 32], 21);
    assert_eq!(proof[22 * 32], 34);
    assert_eq!(proof[23 * 32], 55);
    assert_eq!(proof[2 * 32], 2);
}

#[test]
fn truncated_proof_is_malformed() {
    let (circuit, pk, vk) = initialize_params_and_circuit(4, vec![fe(1), fe(1), fe(55)]);
    let mut proof = TransparentScheme::prove(&pk, &circuit).unwrap();
    proof.pop();
    let result = TransparentScheme::verify(&vk, &vec![fe(1), fe(1), fe(55)], &proof);
    assert_eq!(result, Err(BackendError::MalformedProof));
}

#[test]
fn non_canonical_proof_word_is_malformed() {
    let (circuit, pk, vk) = initialize_params_and_circuit(4, vec![fe(1), fe(1), fe(55)]);
    let mut proof = TransparentScheme::prove(&pk, &circuit).unwrap();
    for b in proof.iter_mut().take(32) {
        *b = 0xff;
    }
    let result = TransparentScheme::verify(&vk, &vec![fe(1), fe(1), fe(55)], &proof);
    assert_eq!(result, Err(BackendError::MalformedProof));
}

#[test]
fn forged_advice_is_caught_by_a_gate() {
    let (circuit, pk, vk) = initialize_params_and_circuit(4, vec![fe(1), fe(1), fe(55)]);
    let mut proof = TransparentScheme::prove(&pk, &circuit).unwrap();
    // c of row 0 becomes 3 instead of 2
    proof[2 * 32] = 3;
    let result = TransparentScheme::verify(&vk, &vec![fe(1), fe(1), fe(55)], &proof);
    assert_eq!(result, Err(BackendError::Consistency(ConstraintViolation::Gate { gate: 0, row: 0 })));
}

#[test]
fn verify_with_too_few_public_inputs() {
    let (circuit, pk, vk) = initialize_params_and_circuit(4, vec![fe(1), fe(1), fe(55)]);
    let proof = TransparentScheme::prove(&pk, &circuit).unwrap();
    let result = TransparentScheme::verify(&vk, &vec![fe(1)], &proof);
    assert_eq!(result, Err(BackendError::PublicInputCount));
    let result = TransparentScheme::verify(&vk, &vec![fe(1), fe(1), fe(55), fe(0)], &proof);
    assert_eq!(result, Err(BackendError::PublicInputCount));
}

#[test]
fn prove_without_seeds_fails() {
    let (_, pk, _) = initialize_params_and_circuit(4, vec![]);
    let circuit = FibonacciCircuit { public_input: vec![vec![fe(1)]] };
    let result = TransparentScheme::prove(&pk, &circuit);
    assert_eq!(result, Err(BackendError::PublicInputCount));
}

#[test]
fn setup_rejects_large_exponent() {
    assert_eq!(TransparentScheme::setup(21).err(), Some(BackendError::InvalidParameters));
    assert!(TransparentScheme::setup(20).is_ok());
}

#[test]
fn preprocess_rejects_too_few_rows_and_mismatched_shape() {
    let param = TransparentScheme::setup(2).unwrap();
    let info = FibonacciCircuit::circuit_info(2);
    assert_eq!(TransparentScheme::preprocess(&param, &info).err(), Some(BackendError::InvalidParameters));
    let param = TransparentScheme::setup(3).unwrap();
    let info = FibonacciCircuit::circuit_info(4);
    assert_eq!(TransparentScheme::preprocess(&param, &info).err(), Some(BackendError::InvalidParameters));
    let info = FibonacciCircuit::circuit_info(3);
    let (pk, _) = TransparentScheme::preprocess(&param, &info).unwrap();
    assert_eq!(pk.n_rows, 8);
}

#[test]
fn prove_reports_invalid_and_missing_inputs() {
    let (_, pk, _) = initialize_params_and_circuit(4, vec![]);
    assert_eq!(prove::<TransparentScheme>(&pk, &out_input("5x")), Err(FibonacciError::InvalidInput));
    let other = vec![("other".to_string(), vec!["55".to_string()])];
    assert_eq!(prove::<TransparentScheme>(&pk, &other), Err(FibonacciError::MissingOutput));
    let empty = vec![("out".to_string(), vec![])];
    assert_eq!(prove::<TransparentScheme>(&pk, &empty), Err(FibonacciError::MissingOutput));
}

#[test]
fn verify_reports_undecodable_public_inputs() {
    let (_, _, vk) = initialize_params_and_circuit(4, vec![]);
    let result = verify::<TransparentScheme>(&vk, vec![], vec![3, 0, 0]);
    assert_eq!(result, Err(FibonacciError::Serialization));
}

#[test]
fn prove_encodes_public_inputs() {
    let (_, pk, _) = initialize_params_and_circuit(4, vec![]);
    let (_, public_inputs) = prove::<TransparentScheme>(&pk, &out_input("55")).unwrap();
    assert_eq!(public_inputs.len(), 8 + 3 * 32);
    assert_eq!(&public_inputs[0..8], &[3, 0, 0, 0, 0, 0, 0, 0]);
    assert_eq!(public_inputs[8], 1);
    assert_eq!(public_inputs[40], 1);
    assert_eq!(public_inputs[72], 55);
}

#[test]
fn proving_with_an_unfit_key_is_a_proving_error() {
    let info = FibonacciCircuit::circuit_info(4);
    let key = CircuitKey { n_rows: 4, cs: info.cs, config: info.config };
    assert_eq!(
        prove::<TransparentScheme>(&key, &out_input("55")),
        Err(FibonacciError::Proving(BackendError::InvalidParameters))
    );
}

#[test]
fn verdicts_map_to_results() {
    assert_eq!(plonkish_fibonacci::verification_result(Ok(())), Ok(true));
    assert_eq!(
        plonkish_fibonacci::verification_result(Err(BackendError::MalformedProof)),
        Err(FibonacciError::Verification(BackendError::MalformedProof))
    );
}

#[test]
fn public_input_vectors_hold_three_elements() {
    let (circuit, pk, vk) = initialize_params_and_circuit(4, vec![fe(1), fe(1), fe(55)]);
    let proof = TransparentScheme::prove(&pk, &circuit).unwrap();
    assert_eq!(
        verify_halo2_proof::<TransparentScheme>(&vk, proof.clone(), vec![fe(1), fe(1)]),
        Err(FibonacciError::PublicInputLength)
    );
    assert_eq!(
        verify_halo2_proof::<TransparentScheme>(&vk, proof.clone(), vec![fe(1), fe(1), fe(55), fe(55)]),
        Err(FibonacciError::PublicInputLength)
    );
    let four = plonkish_fibonacci::codec::encode_public_inputs(&vec![fe(1), fe(1), fe(55), fe(0)]).unwrap();
    assert_eq!(verify::<TransparentScheme>(&vk, proof, four), Err(FibonacciError::PublicInputLength));
}

#[test]
fn proof_is_rejected_for_other_seeds() {
    let (circuit, pk, vk) = initialize_params_and_circuit(4, vec![fe(1), fe(1), fe(55)]);
    let proof = TransparentScheme::prove(&pk, &circuit).unwrap();
    let result = TransparentScheme::verify(&vk, &vec![fe(2), fe(1), fe(55)], &proof);
    assert_eq!(result, Err(BackendError::Consistency(ConstraintViolation::Copy { index: 0 })));
}
