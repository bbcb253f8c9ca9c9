//! Circuit inputs as they arrive from callers: named lists of decimal
//! strings, turned into field elements.
use crate::field::FieldElement;
use crate::FibonacciError;
use std::str::FromStr;
use vstd::prelude::*;

verus! {

pub open spec fn is_digit(c: char) -> bool {
    '0' <= c && c <= '9'
}

/// The value of a string of decimal digits.
pub open spec fn digits_value(s: Seq<char>) -> nat
    decreases s.len(),
{
    if s.len() == 0 {
        0
    } else {
        digits_value(s.drop_last()) * 10 + ((s.last() as u32) - ('0' as u32)) as nat
    }
}

/// The digits of an unsigned decimal literal, without its optional `+`.
pub open spec fn unsigned_digits(s: Seq<char>) -> Seq<char> {
    if s.len() > 0 && s[0] == '+' {
        s.drop_first()
    } else {
        s
    }
}

/// An optional `+` then one or more decimal digits, denoting a value
/// below 2^128.
pub open spec fn is_u128_decimal(s: Seq<char>) -> bool {
    let d = unsigned_digits(s);
    &&& d.len() > 0
    &&& forall|i: int| 0 <= i < d.len() ==> is_digit(#[trigger] d[i])
    &&& digits_value(d) <= u128::MAX
}

/// Relies on `u128::from_str`, which accepts exactly an optional `+`
/// followed by decimal digits whose value fits in a `u128`.
#[verifier::external_body]
fn parse_u128(s: &str) -> (r: Option<u128>)
    ensures
        r is Some <==> is_u128_decimal(s@),
        r matches Some(n) ==> n as nat == digits_value(unsigned_digits(s@)),
{
    u128::from_str(s).ok()
}

/// Turns every string of every named list into a field element.
pub fn deserialize_circuit_inputs(ser_inputs: &Vec<(String, Vec<String>)>) -> (r: Result<
    Vec<(String, Vec<FieldElement>)>,
    FibonacciError,
>)
    ensures
        r is Ok <==> forall|i: int, j: int|
            0 <= i < ser_inputs@.len() && 0 <= j < ser_inputs@[i].1@.len() ==> is_u128_decimal(
                (#[trigger] ser_inputs@[i].1@[j])@,
            ),
        r is Err ==> r == Err::<Vec<(String, Vec<FieldElement>)>, FibonacciError>(FibonacciError::InvalidInput),
        r matches Ok(v) ==> {
            &&& v@.len() == ser_inputs@.len()
            &&& forall|i: int| 0 <= i < v@.len() ==> {
                &&& (#[trigger] v@[i]).0@ == ser_inputs@[i].0@
                &&& v@[i].1@.len() == ser_inputs@[i].1@.len()
                &&& forall|j: int| 0 <= j < v@[i].1@.len() ==> {
                    &&& (#[trigger] v@[i].1@[j])@ == digits_value(unsigned_digits(ser_inputs@[i].1@[j]@))
                    &&& v@[i].1@[j].wf()
                }
            }
        },
{
    let mut out: Vec<(String, Vec<FieldElement>)> = Vec::new();
    let mut i: usize = 0;
    while i < ser_inputs.len()
        invariant
            i <= ser_inputs@.len(),
            out@.len() == i,
            forall|k: int, j: int|
                0 <= k < i && 0 <= j < ser_inputs@[k].1@.len() ==> is_u128_decimal((#[trigger] ser_inputs@[k].1@[j])@),
            forall|k: int| 0 <= k < i ==> {
                &&& (#[trigger] out@[k]).0@ == ser_inputs@[k].0@
                &&& out@[k].1@.len() == ser_inputs@[k].1@.len()
                &&& forall|j: int| 0 <= j < out@[k].1@.len() ==> {
                    &&& (#[trigger] out@[k].1@[j])@ == digits_value(unsigned_digits(ser_inputs@[k].1@[j]@))
                    &&& out@[k].1@[j].wf()
                }
            },
        decreases ser_inputs@.len() - i,
    {
        let strings = &ser_inputs[i].1;
        let mut values: Vec<FieldElement> = Vec::new();
        let mut j: usize = 0;
        while j < strings.len()
            invariant
                i < ser_inputs@.len(),
                *strings == ser_inputs@[i as int].1,
                j <= strings@.len(),
                values@.len() == j,
                forall|t: int| 0 <= t < j ==> is_u128_decimal((#[trigger] strings@[t])@),
                forall|t: int| 0 <= t < j ==> {
                    &&& (#[trigger] values@[t])@ == digits_value(unsigned_digits(strings@[t]@))
                    &&& values@[t].wf()
                },
            decreases strings@.len() - j,
        {
            match parse_u128(strings[j].as_str()) {
                Some(n) => values.push(FieldElement::from_u128(n)),
                None => return Err(FibonacciError::InvalidInput),
            }
            j = j + 1;
        }
        out.push((ser_inputs[i].0.clone(), values));
        i = i + 1;
    }
    Ok(out)
}

/// The position of the first list named `key`, if there is one.
pub open spec fn first_named<V>(entries: Seq<(String, V)>, key: Seq<char>, i: int) -> bool {
    &&& 0 <= i < entries.len()
    &&& entries[i].0@ == key
    &&& forall|j: int| 0 <= j < i ==> (#[trigger] entries[j]).0@ != key
}

pub open spec fn output_key() -> Seq<char> {
    seq!['o', 'u', 't']
}

/// The first value of the first list named `out`.
pub fn find_output(inputs: &Vec<(String, Vec<FieldElement>)>) -> (r: Option<FieldElement>)
    ensures
        r is Some <==> exists|i: int| first_named(inputs@, output_key(), i) && inputs@[i].1@.len() > 0,
        r matches Some(e) ==> exists|i: int| first_named(inputs@, output_key(), i) && e == inputs@[i].1@[0],
{
    let key = "out".to_owned();
    proof {
        reveal_strlit("out");
        assert(key@ =~= output_key());
    }
    let mut i: usize = 0;
    while i < inputs.len()
        invariant
            i <= inputs@.len(),
            key@ == output_key(),
            forall|j: int| 0 <= j < i ==> (#[trigger] inputs@[j]).0@ != output_key(),
        decreases inputs@.len() - i,
    {
        if inputs[i].0 == key {
            assert(first_named(inputs@, output_key(), i as int));
            if inputs[i].1.len() > 0 {
                return Some(inputs[i].1[0]);
            } else {
                proof {
                    assert forall|k: int| first_named(inputs@, output_key(), k) implies k == i by {
                        if k < i {
                        } else if k > i {
                            assert(inputs@[i as int].0@ != output_key());
                        }
                    }
                }
                return None;
            }
        }
        i = i + 1;
    }
    None
}

} // verus!
