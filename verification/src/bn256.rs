//! The scalar field of the BN254 curve, computed by `halo2curves`.
//!
//! An element is kept as the 32 bytes of its canonical little-endian encoding. The
//! arithmetic itself is done by `halo2curves::bn256::Fr`; what this module assumes of it
//! is written on the four private functions at the end.

use vstd::prelude::*;
use vstd::arithmetic::div_mod::lemma_small_mod;
use vstd::arithmetic::div_mod::lemma_mod_twice;
use halo2curves::bn256::Fr;
use crate::field::Field;

verus! {

/// The number that a sequence of bytes encodes, least significant byte first.
pub open spec fn le_value(bytes: Seq<u8>) -> nat
    decreases bytes.len(),
{
    if bytes.len() == 0 {
        0
    } else {
        bytes[0] as nat + 256 * le_value(bytes.drop_first())
    }
}

/// The order of the BN254 scalar field.
pub open spec fn fr_modulus() -> nat {
    0x30644e72e131a029b85045b68181585d2833e84879b9709143e1f593f0000001nat
}

/// Two encodings of one length that encode the same number are the same bytes.
pub proof fn lemma_le_value_injective(a: Seq<u8>, b: Seq<u8>)
    requires
        a.len() == b.len(),
        le_value(a) == le_value(b),
    ensures
        a == b,
    decreases a.len(),
{
    if a.len() > 0 {
        lemma_le_value_injective(a.drop_first(), b.drop_first());
        assert(a =~= seq![a[0]] + a.drop_first());
        assert(b =~= seq![b[0]] + b.drop_first());
    } else {
        assert(a =~= b);
    }
}

/// An element of the BN254 scalar field.
#[derive(Clone, Copy, Debug)]
pub struct Bn256Fr {
    bytes: [u8; 32],
}

impl Bn256Fr {
    #[verifier::type_invariant]
    spec fn canonical(self) -> bool {
        le_value(self.bytes@) < fr_modulus()
    }

    /// The element with the given canonical little-endian encoding, or `None` where the
    /// bytes encode a number that is not below the field's order.
    pub fn from_bytes(bytes: [u8; 32]) -> (r: Option<Self>)
        ensures
            r is Some <==> le_value(bytes@) < fr_modulus(),
            r matches Some(x) ==> x.value() == le_value(bytes@),
    {
        if fr_is_canonical(&bytes) {
            proof {
                lemma_small_mod(le_value(bytes@), fr_modulus());
            }
            Some(Bn256Fr { bytes })
        } else {
            None
        }
    }

    /// The canonical little-endian encoding of this element.
    pub fn to_bytes(&self) -> (r: [u8; 32])
        ensures
            le_value(r@) == self.value(),
    {
        proof {
            use_type_invariant(self);
            lemma_small_mod(le_value(self.bytes@), fr_modulus());
        }
        self.bytes
    }

    /// The element that stands for a machine word.
    pub fn from_u64(v: u64) -> (r: Self)
        ensures
            r.value() == v,
    {
        let bytes = fr_from_u64(v);
        proof {
            lemma_small_mod(v as nat, fr_modulus());
        }
        Bn256Fr { bytes }
    }
}

impl Field for Bn256Fr {
    open spec fn modulus() -> nat {
        fr_modulus()
    }

    closed spec fn value(&self) -> nat {
        le_value(self.bytes@) % fr_modulus()
    }

    proof fn lemma_modulus_positive() {
    }

    proof fn lemma_value_reduced(&self) {
    }

    fn zero() -> (r: Self) {
        Bn256Fr::from_u64(0)
    }

    fn one() -> (r: Self) {
        proof {
            lemma_small_mod(1, fr_modulus());
        }
        Bn256Fr::from_u64(1)
    }

    fn add(&self, rhs: &Self) -> (r: Self) {
        proof {
            use_type_invariant(self);
            use_type_invariant(rhs);
            lemma_small_mod(le_value(self.bytes@), fr_modulus());
            lemma_small_mod(le_value(rhs.bytes@), fr_modulus());
        }
        let bytes = fr_add(&self.bytes, &rhs.bytes);
        proof {
            lemma_mod_twice((le_value(self.bytes@) + le_value(rhs.bytes@)) as int, fr_modulus() as int);
        }
        Bn256Fr { bytes }
    }

    fn mul(&self, rhs: &Self) -> (r: Self) {
        proof {
            use_type_invariant(self);
            use_type_invariant(rhs);
            lemma_small_mod(le_value(self.bytes@), fr_modulus());
            lemma_small_mod(le_value(rhs.bytes@), fr_modulus());
        }
        let bytes = fr_mul(&self.bytes, &rhs.bytes);
        proof {
            lemma_mod_twice((le_value(self.bytes@) * le_value(rhs.bytes@)) as int, fr_modulus() as int);
        }
        Bn256Fr { bytes }
    }

    fn equals(&self, rhs: &Self) -> (r: bool) {
        let mut same = true;
        let mut i: usize = 0;
        while i < 32
            invariant
                i <= 32,
                same == (forall|j: int| 0 <= j < i ==> self.bytes@[j] == rhs.bytes@[j]),
            decreases 32 - i,
        {
            if self.bytes[i] != rhs.bytes[i] {
                same = false;
            }
            i = i + 1;
        }
        proof {
            use_type_invariant(self);
            use_type_invariant(rhs);
            lemma_small_mod(le_value(self.bytes@), fr_modulus());
            lemma_small_mod(le_value(rhs.bytes@), fr_modulus());
            if same {
                assert(self.bytes@ =~= rhs.bytes@);
            }
            if le_value(self.bytes@) == le_value(rhs.bytes@) {
                lemma_le_value_injective(self.bytes@, rhs.bytes@);
            }
        }
        same
    }
}

/// `Fr::from_bytes` of `halo2curves` accepts exactly the encodings of numbers below the
/// field's order; this asks it whether it accepts `bytes`.
#[verifier::external_body]
fn fr_is_canonical(bytes: &[u8; 32]) -> (r: bool)
    ensures
        r == (le_value(bytes@) < fr_modulus()),
{
    Fr::from_bytes(bytes).is_some().into()
}

/// `Fr::from(u64)` of `halo2curves` is the element that stands for the word, and
/// `Fr::to_bytes` its canonical little-endian encoding.
#[verifier::external_body]
fn fr_from_u64(v: u64) -> (r: [u8; 32])
    ensures
        le_value(r@) == v,
{
    Fr::from(v).to_bytes()
}

/// `Fr::add` of `halo2curves` on two canonically encoded elements: the encoding of their
/// sum modulo the field's order. `Fr::from_bytes` decodes, `Fr::to_bytes` encodes.
#[verifier::external_body]
fn fr_add(a: &[u8; 32], b: &[u8; 32]) -> (r: [u8; 32])
    requires
        le_value(a@) < fr_modulus(),
        le_value(b@) < fr_modulus(),
    ensures
        le_value(r@) == (le_value(a@) + le_value(b@)) % fr_modulus(),
{
    let x = Fr::from_bytes(a).unwrap();
    let y = Fr::from_bytes(b).unwrap();
    x.add(&y).to_bytes()
}

/// `Fr::mul` of `halo2curves` on two canonically encoded elements: the encoding of their
/// product modulo the field's order. `Fr::from_bytes` decodes, `Fr::to_bytes` encodes.
#[verifier::external_body]
fn fr_mul(a: &[u8; 32], b: &[u8; 32]) -> (r: [u8; 32])
    requires
        le_value(a@) < fr_modulus(),
        le_value(b@) < fr_modulus(),
    ensures
        le_value(r@) == (le_value(a@) * le_value(b@)) % fr_modulus(),
{
    let x = Fr::from_bytes(a).unwrap();
    let y = Fr::from_bytes(b).unwrap();
    x.mul(&y).to_bytes()
}

} // verus!
