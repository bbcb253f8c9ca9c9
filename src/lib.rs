//! Fibonacci circuit over the BN254 scalar field: a constraint-system model,
//! witness synthesis with copy constraints, local constraint checking, the
//! public-input wire format, and a prove/verify pipeline over a pluggable
//! proof system.
use vstd::prelude::*;

pub mod backend;
pub mod check;
pub mod circuit;
pub mod codec;
pub mod fibonacci;
pub mod field;
pub mod inputs;
pub mod transparent;
pub mod witness;

use crate::backend::{BackendError, PlonkishComponents};
use crate::codec::{decode_public_inputs, decoded_values, encode_public_inputs, is_decodable, is_encoding, values_of};
use crate::fibonacci::FibonacciCircuit;
use crate::field::FieldElement;
use crate::inputs::{deserialize_circuit_inputs, digits_value, find_output, first_named, is_u128_decimal, output_key, unsigned_digits};

verus! {

/// What the library reports to its callers.
#[derive(Clone, Copy, Debug, PartialEq, Eq, Structural)]
pub enum FibonacciError {
    /// A circuit input is not a decimal integer below 2^128.
    InvalidInput,
    /// The inputs carry no `out` value.
    MissingOutput,
    /// A public-input vector could not be encoded or decoded.
    Serialization,
    /// A public-input vector does not hold exactly three elements.
    PublicInputLength,
    /// The proof system could not produce a proof.
    Proving(BackendError),
    /// The proof system rejected the proof.
    Verification(BackendError),
}

/// Every string of every named list is a decimal integer below 2^128.
pub open spec fn all_decimal(input: Seq<(String, Vec<String>)>) -> bool {
    forall|i: int, j: int|
        0 <= i < input.len() && 0 <= j < input[i].1@.len() ==> is_u128_decimal((#[trigger] input[i].1@[j])@)
}

/// There is a list named `out`, and the first such list is not empty.
pub open spec fn has_output<V>(entries: Seq<(String, Vec<V>)>) -> bool {
    exists|i: int| first_named(entries, output_key(), i) && entries[i].1@.len() > 0
}

/// Builds the public inputs `[1, 1, out]` from the first `out` value and
/// has the proof system prove the circuit for them.
pub fn generate_halo2_proof<PC: PlonkishComponents>(
    prover_parameters: &PC::ProverParam,
    inputs: &Vec<(String, Vec<FieldElement>)>,
) -> (r: Result<(Vec<u8>, Vec<FieldElement>), FibonacciError>)
    requires
        forall|i: int, j: int|
            0 <= i < inputs@.len() && 0 <= j < inputs@[i].1@.len() ==> (#[trigger] inputs@[i].1@[j]).wf(),
    ensures
        r == Err::<(Vec<u8>, Vec<FieldElement>), FibonacciError>(FibonacciError::MissingOutput) <==> !has_output(inputs@),
        r is Err ==> r == Err::<(Vec<u8>, Vec<FieldElement>), FibonacciError>(FibonacciError::MissingOutput)
            || r matches Err(FibonacciError::Proving(_)),
        r matches Ok((proof, pi)) ==> {
            &&& pi@.len() == 3
            &&& pi@[0]@ == 1 && pi@[1]@ == 1
            &&& exists|i: int| first_named(inputs@, output_key(), i) && pi@[2] == inputs@[i].1@[0]
            &&& forall|k: int| 0 <= k < 3 ==> (#[trigger] pi@[k]).wf()
            &&& PC::proves(prover_parameters, values_of(pi@), proof@)
        },
{
    let out = match find_output(inputs) {
        Some(out) => out,
        None => return Err(FibonacciError::MissingOutput),
    };
    proof {
        let i = choose|i: int| first_named(inputs@, output_key(), i) && out == inputs@[i].1@[0];
        assert(out.wf());
    }
    let a = FieldElement::from_u64(1);
    let b = FieldElement::from_u64(1);
    let public_input = vec![a, b, out];
    let circuit = FibonacciCircuit { public_input: vec![vec![a, b, out]] };
    let ghost circuit_values = values_of(circuit.public_input@[0]@);
    assert(circuit_values =~= values_of(public_input@));
    match PC::prove(prover_parameters, &circuit) {
        Ok(proof) => Ok((proof, public_input)),
        Err(e) => Err(FibonacciError::Proving(e)),
    }
}

/// What the pipeline reports for the proof system's verdict.
pub fn verification_result(verdict: Result<(), BackendError>) -> (r: Result<bool, FibonacciError>)
    ensures
        verdict is Ok ==> r == Ok::<bool, FibonacciError>(true),
        verdict matches Err(e) ==> r == Err::<bool, FibonacciError>(FibonacciError::Verification(e)),
{
    match verdict {
        Ok(()) => Ok(true),
        Err(e) => Err(FibonacciError::Verification(e)),
    }
}

/// Has the proof system check `proof` against the public inputs.
pub fn verify_halo2_proof<PC: PlonkishComponents>(
    verifier_parameters: &PC::VerifierParam,
    proof: Vec<u8>,
    inputs: Vec<FieldElement>,
) -> (r: Result<bool, FibonacciError>)
    requires
        forall|i: int| 0 <= i < inputs@.len() ==> (#[trigger] inputs@[i]).wf(),
    ensures
        r is Ok ==> r == Ok::<bool, FibonacciError>(true),
        inputs@.len() != 3 ==> r == Err::<bool, FibonacciError>(FibonacciError::PublicInputLength),
        inputs@.len() == 3 ==> (r is Ok <==> PC::accepts(verifier_parameters, values_of(inputs@), proof@)),
        inputs@.len() == 3 && r is Err ==> r matches Err(FibonacciError::Verification(_)),
{
    if inputs.len() != 3 {
        return Err(FibonacciError::PublicInputLength);
    }
    verification_result(PC::verify(verifier_parameters, &inputs, &proof))
}

/// Parses the inputs, proves the circuit for the public inputs
/// `[1, 1, out]`, and returns the proof with the encoded public inputs.
/// Names need not be unique: `out` is the first value of the first list
/// named `out`.
pub fn prove<PC: PlonkishComponents>(
    proving_key: &PC::ProverParam,
    input: &Vec<(String, Vec<String>)>,
) -> (r: Result<(Vec<u8>, Vec<u8>), FibonacciError>)
    ensures
        !all_decimal(input@) ==> r == Err::<(Vec<u8>, Vec<u8>), FibonacciError>(FibonacciError::InvalidInput),
        all_decimal(input@) && !has_output(input@) ==> r == Err::<(Vec<u8>, Vec<u8>), FibonacciError>(
            FibonacciError::MissingOutput,
        ),
        all_decimal(input@) && has_output(input@) && r is Err ==> r matches Err(FibonacciError::Proving(_)),
        r matches Ok((proof, public_inputs)) ==> exists|i: int|
            first_named(input@, output_key(), i) && is_encoding(
                public_inputs@,
                seq![1nat, 1nat, digits_value(unsigned_digits(input@[i].1@[0]@))],
            ) && PC::proves(proving_key, seq![1nat, 1nat, digits_value(unsigned_digits(input@[i].1@[0]@))], proof@),
{
    let circuit_inputs = match deserialize_circuit_inputs(input) {
        Ok(v) => v,
        Err(e) => return Err(e),
    };
    proof {
        assert forall|j: int| #![trigger circuit_inputs@[j]] #![trigger input@[j]]
            0 <= j < input@.len() implies circuit_inputs@[j].0@ == input@[j].0@ by {
            assert(circuit_inputs@[j].0@ == input@[j].0@);
        }
        assert forall|i: int| first_named(circuit_inputs@, output_key(), i) <==> first_named(input@, output_key(), i) by {}
        if has_output(input@) {
            let i = choose|i: int| first_named(input@, output_key(), i) && input@[i].1@.len() > 0;
            assert(first_named(circuit_inputs@, output_key(), i) && circuit_inputs@[i].1@.len() > 0);
        }
        if has_output(circuit_inputs@) {
            let i = choose|i: int| first_named(circuit_inputs@, output_key(), i) && circuit_inputs@[i].1@.len() > 0;
            assert(first_named(input@, output_key(), i) && input@[i].1@.len() > 0);
        }
    }
    let (proof, inputs) = match generate_halo2_proof::<PC>(proving_key, &circuit_inputs) {
        Ok(r) => r,
        Err(e) => return Err(e),
    };
    let serialized_inputs = match encode_public_inputs(&inputs) {
        Ok(b) => b,
        Err(e) => return Err(e),
    };
    proof {
        let i = choose|i: int| first_named(circuit_inputs@, output_key(), i) && inputs@[2] == circuit_inputs@[i].1@[0];
        assert(first_named(input@, output_key(), i));
        assert(values_of(inputs@) =~= seq![1nat, 1nat, digits_value(unsigned_digits(input@[i].1@[0]@))]);
    }
    Ok((proof, serialized_inputs))
}

/// Decodes the public inputs and has the proof system check the proof
/// against them.
pub fn verify<PC: PlonkishComponents>(
    verifying_key: &PC::VerifierParam,
    proof: Vec<u8>,
    public_inputs: Vec<u8>,
) -> (r: Result<bool, FibonacciError>)
    ensures
        !is_decodable(public_inputs@) ==> r == Err::<bool, FibonacciError>(FibonacciError::Serialization),
        is_decodable(public_inputs@) ==> (r is Ok ==> r == Ok::<bool, FibonacciError>(true)),
        is_decodable(public_inputs@) && decoded_values(public_inputs@).len() != 3 ==> r == Err::<bool, FibonacciError>(
            FibonacciError::PublicInputLength,
        ),
        is_decodable(public_inputs@) && decoded_values(public_inputs@).len() == 3 ==> {
            &&& r is Ok <==> PC::accepts(verifying_key, decoded_values(public_inputs@), proof@)
            &&& r is Err ==> r matches Err(FibonacciError::Verification(_))
        },
{
    let inputs = match decode_public_inputs(&public_inputs) {
        Ok(v) => v,
        Err(e) => return Err(e),
    };
    verify_halo2_proof::<PC>(verifying_key, proof, inputs)
}

} // verus!
