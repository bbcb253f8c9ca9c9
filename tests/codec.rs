use plonkish_fibonacci::codec::{decode_public_inputs, encode_public_inputs};
use plonkish_fibonacci::field::FieldElement;
use plonkish_fibonacci::inputs::{deserialize_circuit_inputs, find_output};
use plonkish_fibonacci::FibonacciError;

const MAX_ELEMENT: [u8; 32] = [
    0x00, 0x00, 0x00, 0xf0, 0x93, 0xf5, 0xe1, 0x43, 0x91, 0x70, 0xb9, 0x79, 0x48, 0xe8, 0x33, 0x28, 0x5d, 0x58,
    0x81, 0x81, 0xb6, 0x45, 0x50, 0xb8, 0x29, 0xa0, 0x31, 0xe1, 0x72, 0x4e, 0x64, 0x30,
];

fn fe(v: u64) -> FieldElement {
    FieldElement::from_u64(v)
}

#[test]
fn test_serialization() {
    let inputs = vec![fe(1), fe(2)];
    let serialized = encode_public_inputs(&inputs).unwrap();
    let deserialized = decode_public_inputs(&serialized).unwrap();
    assert_eq!(inputs.len(), deserialized.len());
    for (before, deserialized_fp) in inputs.iter().zip(deserialized.iter()) {
        assert_eq!(before.to_bytes(), deserialized_fp.to_bytes());
    }
}

#[test]
fn test_circuit_inputs_deserialization() {
    let serialized = vec![("out".to_string(), vec!["1".to_string(), "2".to_string()])];
    let deserialized = deserialize_circuit_inputs(&serialized).unwrap();
    assert_eq!(deserialized.len(), 1);
    assert_eq!(deserialized[0].0, "out");
    assert_eq!(deserialized[0].1.len(), 2);
    assert_eq!(deserialized[0].1[0], fe(1));
    assert_eq!(deserialized[0].1[1], fe(2));
}

#[test]
fn round_trip_of_boundary_values() {
    let max = FieldElement::from_bytes(&MAX_ELEMENT).unwrap();
    let inputs = vec![fe(0), max, fe(55)];
    let bytes = encode_public_inputs(&inputs).unwrap();
    assert_eq!(bytes.len(), 8 + 3 * 32);
    assert_eq!(&bytes[0..8], &[3, 0, 0, 0, 0, 0, 0, 0]);
    assert_eq!(&bytes[40..72], &MAX_ELEMENT);
    assert_eq!(decode_public_inputs(&bytes).unwrap(), inputs);
}

#[test]
fn decoding_short_or_non_canonical_input_fails() {
    assert_eq!(decode_public_inputs(&vec![]), Err(FibonacciError::Serialization));
    assert_eq!(decode_public_inputs(&vec![1, 0, 0, 0, 0, 0, 0, 0, 5]), Err(FibonacciError::Serialization));
    let mut modulus = MAX_ELEMENT;
    modulus[0] = 1;
    let mut bytes = vec![1, 0, 0, 0, 0, 0, 0, 0];
    bytes.extend_from_slice(&modulus);
    assert_eq!(decode_public_inputs(&bytes), Err(FibonacciError::Serialization));
}

#[test]
fn decoding_ignores_trailing_bytes() {
    let mut bytes = encode_public_inputs(&vec![fe(7)]).unwrap();
    bytes.push(9);
    assert_eq!(decode_public_inputs(&bytes), Ok(vec![fe(7)]));
    assert_eq!(decode_public_inputs(&vec![0, 0, 0, 0, 0, 0, 0, 0]), Ok(vec![]));
}

#[test]
fn field_addition_wraps_at_the_modulus() {
    let max = FieldElement::from_bytes(&MAX_ELEMENT).unwrap();
    assert_eq!(max.add(&fe(2)), fe(1));
    assert_eq!(fe(1).add(&fe(1)), fe(2));
    assert_eq!(fe(21).add(&fe(34)).to_bytes()[0], 55);
}

#[test]
fn field_encoding_is_little_endian() {
    let bytes = fe(0x0102).to_bytes();
    assert_eq!(bytes[0], 0x02);
    assert_eq!(bytes[1], 0x01);
    let big = FieldElement::from_u128(u128::MAX).to_bytes();
    assert!(big[..16].iter().all(|b| *b == 0xff));
    assert!(big[16..].iter().all(|b| *b == 0));
    assert_ne!(fe(1), fe(2));
}

#[test]
fn the_modulus_is_not_an_element() {
    let mut modulus = MAX_ELEMENT;
    modulus[0] = 1;
    assert!(FieldElement::from_bytes(&modulus).is_none());
    assert!(FieldElement::from_bytes(&[0u8; 32]).is_some());
}

#[test]
fn decimal_inputs_are_parsed() {
    let serialized = vec![(
        "out".to_string(),
        vec!["+5".to_string(), "340282366920938463463374607431768211455".to_string()],
    )];
    let parsed = deserialize_circuit_inputs(&serialized).unwrap();
    assert_eq!(parsed[0].1[0], fe(5));
    assert_eq!(parsed[0].1[1], FieldElement::from_u128(u128::MAX));
}

#[test]
fn malformed_decimal_inputs_are_rejected() {
    for bad in ["", "-1", " 1", "1_000", "abc", "340282366920938463463374607431768211456"] {
        let serialized = vec![("out".to_string(), vec![bad.to_string()])];
        assert_eq!(deserialize_circuit_inputs(&serialized), Err(FibonacciError::InvalidInput));
    }
}

#[test]
fn output_is_the_first_value_of_the_first_out_list() {
    let inputs = vec![
        ("seed".to_string(), vec![fe(3)]),
        ("out".to_string(), vec![fe(55), fe(56)]),
        ("out".to_string(), vec![fe(57)]),
    ];
    assert_eq!(find_output(&inputs), Some(fe(55)));
    let none = vec![("seed".to_string(), vec![fe(3)])];
    assert_eq!(find_output(&none), None);
}
