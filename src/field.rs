//! Elements of the BN254 scalar field, held as their canonical 32-byte
//! little-endian encoding. Arithmetic is delegated to `halo2curves`.
use halo2curves::bn256::Fr;
use halo2curves::ff::PrimeField;
use vstd::prelude::*;

verus! {

/// The order of the BN254 scalar field.
pub open spec fn modulus() -> nat {
    21888242871839275222246405745257275088548364400416034343698204186575808495617nat
}

/// The integer that a little-endian byte string denotes.
pub open spec fn le_value(s: Seq<u8>) -> nat
    decreases s.len(),
{
    if s.len() == 0 {
        0
    } else {
        s[0] as nat + 256 * le_value(s.drop_first())
    }
}

/// Two byte strings of one length that denote the same integer are equal.
pub proof fn lemma_le_value_injective(s: Seq<u8>, t: Seq<u8>)
    requires
        s.len() == t.len(),
        le_value(s) == le_value(t),
    ensures
        s == t,
    decreases s.len(),
{
    if s.len() > 0 {
        let a = le_value(s.drop_first());
        let b = le_value(t.drop_first());
        assert(s[0] as int + 256 * a == t[0] as int + 256 * b);
        assert(s[0] == t[0] && a == b);
        lemma_le_value_injective(s.drop_first(), t.drop_first());
        assert forall|i: int| 0 <= i < s.len() implies s[i] == t[i] by {
            if i > 0 {
                assert(s[i] == s.drop_first()[i - 1]);
                assert(t[i] == t.drop_first()[i - 1]);
            }
        }
    }
    assert(s =~= t);
}

/// Relies on halo2curves' `PrimeField::from_u128` for `Fr`, which maps an
/// integer to its residue (here the integer itself, as it is below the
/// modulus), and on `Fr::to_bytes`, the canonical little-endian encoding.
#[verifier::external_body]
fn fr_from_u128(v: u128) -> (r: [u8; 32])
    ensures
        le_value(r@) == v as nat,
{
    Fr::from_u128(v).to_bytes()
}

/// Relies on halo2curves' `Fr` addition, addition modulo the field order,
/// read and written through the canonical encoding (`Fr::from_bytes`, which
/// accepts exactly the encodings below the modulus, and `Fr::to_bytes`).
#[verifier::external_body]
fn fr_add(a: &[u8; 32], b: &[u8; 32]) -> (r: [u8; 32])
    requires
        le_value(a@) < modulus(),
        le_value(b@) < modulus(),
    ensures
        le_value(r@) == (le_value(a@) + le_value(b@)) % modulus(),
{
    let x = Fr::from_bytes(a).unwrap();
    let y = Fr::from_bytes(b).unwrap();
    x.add(&y).to_bytes()
}

/// Relies on halo2curves' `Fr::from_bytes`, which accepts a little-endian
/// encoding exactly when the integer it denotes is below the modulus.
#[verifier::external_body]
fn fr_is_canonical(b: &[u8; 32]) -> (r: bool)
    ensures
        r == (le_value(b@) < modulus()),
{
    bool::from(Fr::from_bytes(b).is_some())
}

/// An element of the BN254 scalar field. Its view is the integer it stands
/// for; a well-formed element holds the canonical encoding of a residue.
#[derive(Clone, Copy, Debug)]
pub struct FieldElement {
    bytes: [u8; 32],
}

impl View for FieldElement {
    type V = nat;

    closed spec fn view(&self) -> nat {
        le_value(self.bytes@)
    }
}

impl FieldElement {
    /// The element is a residue modulo the field order.
    pub open spec fn wf(&self) -> bool {
        self@ < modulus()
    }

    /// The canonical encoding of the element.
    pub closed spec fn repr(&self) -> Seq<u8> {
        self.bytes@
    }

    /// The encoding is 32 bytes long and denotes the element's value.
    pub broadcast proof fn lemma_repr(&self)
        ensures
            #[trigger] self.repr().len() == 32,
            le_value(self.repr()) == self@,
    {
    }

    /// Two well-formed elements are equal exactly when their values are.
    pub proof fn lemma_eq_by_value(a: Self, b: Self)
        requires
            a@ == b@,
        ensures
            a == b,
    {
        lemma_le_value_injective(a.bytes@, b.bytes@);
        assert(a.bytes@ == b.bytes@);
        assert(a.bytes =~= b.bytes);
    }

    pub fn from_u128(v: u128) -> (r: Self)
        ensures
            r@ == v as nat,
            r.wf(),
    {
        FieldElement { bytes: fr_from_u128(v) }
    }

    pub fn from_u64(v: u64) -> (r: Self)
        ensures
            r@ == v as nat,
            r.wf(),
    {
        Self::from_u128(v as u128)
    }

    /// The sum modulo the field order.
    pub fn add(&self, other: &Self) -> (r: Self)
        requires
            self.wf(),
            other.wf(),
        ensures
            r@ == (self@ + other@) % modulus(),
            r.wf(),
    {
        FieldElement { bytes: fr_add(&self.bytes, &other.bytes) }
    }

    /// The canonical 32-byte little-endian encoding.
    pub fn to_bytes(&self) -> (r: [u8; 32])
        ensures
            r@ == self.repr(),
            le_value(r@) == self@,
    {
        self.bytes
    }

    /// Decodes a 32-byte little-endian encoding; `None` unless it denotes an
    /// integer below the modulus.
    pub fn from_bytes(b: &[u8; 32]) -> (r: Option<Self>)
        ensures
            r.is_some() == (le_value(b@) < modulus()),
            r matches Some(e) ==> e@ == le_value(b@) && e.repr() == b@ && e.wf(),
    {
        if fr_is_canonical(b) {
            Some(FieldElement { bytes: *b })
        } else {
            None
        }
    }

    /// Field equality, by comparing canonical encodings.
    pub fn equals(&self, other: &Self) -> (r: bool)
        ensures
            r == (self@ == other@),
    {
        let mut i: usize = 0;
        while i < 32
            invariant
                0 <= i <= 32,
                forall|j: int| 0 <= j < i ==> self.bytes@[j] == other.bytes@[j],
            decreases 32 - i,
        {
            if self.bytes[i] != other.bytes[i] {
                proof {
                    if self@ == other@ {
                        lemma_le_value_injective(self.bytes@, other.bytes@);
                    }
                }
                return false;
            }
            i = i + 1;
        }
        assert(self.bytes@ =~= other.bytes@);
        true
    }
}

impl PartialEq for FieldElement {
    fn eq(&self, other: &Self) -> (r: bool) {
        self.equals(other)
    }
}

impl vstd::std_specs::cmp::PartialEqSpecImpl for FieldElement {
    open spec fn obeys_eq_spec() -> bool {
        true
    }

    open spec fn eq_spec(&self, other: &Self) -> bool {
        self@ == other@
    }
}

impl Eq for FieldElement {
}

} // verus!
