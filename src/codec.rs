//! The wire format of a public-input vector: a little-endian u64 count
//! followed by the 32-byte canonical encoding of each element.
use crate::field::{le_value, modulus, FieldElement};
use crate::FibonacciError;
use vstd::prelude::*;

verus! {

/// The count that opens an encoding.
pub open spec fn count_of(b: Seq<u8>) -> nat {
    le_value(b.subrange(0, 8))
}

/// The bytes of element `i` of an encoding.
pub open spec fn word_at(b: Seq<u8>, i: int) -> Seq<u8> {
    b.subrange(8 + 32 * i, 8 + 32 * i + 32)
}

/// `b` opens with a count and holds at least that many 32-byte words.
pub open spec fn is_framed(b: Seq<u8>) -> bool {
    b.len() >= 8 && 8 + 32 * count_of(b) <= b.len()
}

/// `b` is exactly the encoding of the values `vals`.
pub open spec fn is_encoding(b: Seq<u8>, vals: Seq<nat>) -> bool {
    &&& b.len() == 8 + 32 * vals.len()
    &&& count_of(b) == vals.len()
    &&& forall|i: int| 0 <= i < vals.len() ==> le_value(#[trigger] word_at(b, i)) == vals[i]
}

/// `b` is framed and every word it counts is a canonical field element.
pub open spec fn is_decodable(b: Seq<u8>) -> bool {
    &&& is_framed(b)
    &&& forall|i: int| 0 <= i < count_of(b) ==> le_value(#[trigger] word_at(b, i)) < modulus()
}

/// The values of the words that `b` counts.
pub open spec fn decoded_values(b: Seq<u8>) -> Seq<nat> {
    Seq::new(count_of(b), |i: int| le_value(word_at(b, i)))
}

pub open spec fn values_of(v: Seq<FieldElement>) -> Seq<nat> {
    v.map_values(|e: FieldElement| e@)
}

/// Relies on bincode 1's `serialize`, whose default options write a
/// sequence as its length (a little-endian u64) followed by its elements,
/// and a byte array as its bytes alone. With no size limit and a sequence
/// whose length is known, it does not fail.
#[verifier::external_body]
fn bincode_serialize_words(words: &Vec<[u8; 32]>) -> (r: Option<Vec<u8>>)
    ensures
        r is Some,
        r matches Some(b) ==> {
            &&& b@.len() == 8 + 32 * words@.len()
            &&& count_of(b@) == words@.len()
            &&& forall|i: int| 0 <= i < words@.len() ==> #[trigger] word_at(b@, i) == words@[i]@
        },
{
    bincode::serialize(words).ok()
}

/// Relies on bincode 1's `deserialize` of a `Vec<[u8; 32]>` with its
/// default options: a little-endian u64 count, then that many 32-byte
/// arrays; it fails when the input ends before them and ignores what
/// follows them.
#[verifier::external_body]
fn bincode_deserialize_words(bytes: &[u8]) -> (r: Option<Vec<[u8; 32]>>)
    ensures
        r is Some <==> is_framed(bytes@),
        r matches Some(v) ==> v@.len() == count_of(bytes@) && forall|i: int|
            0 <= i < v@.len() ==> (#[trigger] v@[i])@ == word_at(bytes@, i),
{
    bincode::deserialize::<Vec<[u8; 32]>>(bytes).ok()
}

/// Encodes a public-input vector.
pub fn encode_public_inputs(inputs: &Vec<FieldElement>) -> (r: Result<Vec<u8>, FibonacciError>)
    requires
        forall|i: int| 0 <= i < inputs@.len() ==> (#[trigger] inputs@[i]).wf(),
    ensures
        r is Ok,
        r matches Ok(b) ==> is_encoding(b@, values_of(inputs@)),
{
    let mut words: Vec<[u8; 32]> = Vec::new();
    let mut i: usize = 0;
    while i < inputs.len()
        invariant
            i <= inputs@.len(),
            words@.len() == i,
            forall|j: int| 0 <= j < i ==> le_value((#[trigger] words@[j])@) == inputs@[j]@,
        decreases inputs@.len() - i,
    {
        words.push(inputs[i].to_bytes());
        i = i + 1;
    }
    match bincode_serialize_words(&words) {
        Some(b) => {
            assert forall|j: int| 0 <= j < values_of(inputs@).len() implies le_value(#[trigger] word_at(b@, j))
                == values_of(inputs@)[j] by {
                assert(word_at(b@, j) == words@[j]@);
            }
            Ok(b)
        },
        None => Err(FibonacciError::Serialization),
    }
}

/// Decodes a public-input vector; fails when the bytes end before the
/// counted elements or an element is not canonical.
pub fn decode_public_inputs(bytes: &Vec<u8>) -> (r: Result<Vec<FieldElement>, FibonacciError>)
    ensures
        r is Ok <==> is_decodable(bytes@),
        r matches Ok(v) ==> values_of(v@) == decoded_values(bytes@) && forall|i: int|
            0 <= i < v@.len() ==> (#[trigger] v@[i]).wf(),
        r is Err ==> r == Err::<Vec<FieldElement>, FibonacciError>(FibonacciError::Serialization),
{
    let words = match bincode_deserialize_words(bytes.as_slice()) {
        Some(words) => words,
        None => return Err(FibonacciError::Serialization),
    };
    let mut out: Vec<FieldElement> = Vec::new();
    let mut i: usize = 0;
    while i < words.len()
        invariant
            i <= words@.len(),
            words@.len() == count_of(bytes@),
            is_framed(bytes@),
            forall|j: int| 0 <= j < words@.len() ==> (#[trigger] words@[j])@ == word_at(bytes@, j),
            out@.len() == i,
            forall|j: int| 0 <= j < i ==> (#[trigger] out@[j])@ == le_value(word_at(bytes@, j)) && out@[j].wf(),
            forall|j: int| 0 <= j < i ==> le_value(#[trigger] word_at(bytes@, j)) < modulus(),
        decreases words@.len() - i,
    {
        match FieldElement::from_bytes(&words[i]) {
            Some(e) => out.push(e),
            None => {
                assert(!(le_value(word_at(bytes@, i as int)) < modulus()));
                return Err(FibonacciError::Serialization);
            },
        }
        i = i + 1;
    }
    assert(values_of(out@) =~= decoded_values(bytes@));
    Ok(out)
}

/// Decoding the encoding of field elements gives back their values.
pub proof fn lemma_public_input_round_trip(b: Seq<u8>, vals: Seq<nat>)
    requires
        is_encoding(b, vals),
        forall|i: int| 0 <= i < vals.len() ==> #[trigger] vals[i] < modulus(),
    ensures
        is_decodable(b),
        decoded_values(b) == vals,
{
    assert forall|i: int| 0 <= i < count_of(b) implies le_value(#[trigger] word_at(b, i)) < modulus() by {
        assert(le_value(word_at(b, i)) == vals[i]);
    }
    assert(decoded_values(b) =~= vals);
}

} // verus!
