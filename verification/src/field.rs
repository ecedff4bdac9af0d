//! The numbers a circuit computes with: integers modulo a fixed number.
//!
//! Every element stands for one residue, its [`Field::value`]. Sums and products are
//! exact: they are the sum and the product of the residues, reduced by the modulus.

use vstd::prelude::*;
use vstd::arithmetic::div_mod::lemma_add_mod_noop;
use vstd::arithmetic::div_mod::lemma_mul_mod_noop_general;
use vstd::arithmetic::div_mod::lemma_small_mod;
use vstd::arithmetic::mul::lemma_mul_is_associative;
use vstd::arithmetic::mul::lemma_mul_is_commutative;
use vstd::arithmetic::mul::lemma_mul_is_distributive_add;
use vstd::arithmetic::div_mod::lemma_mod_twice;

verus! {

/// A commutative ring of residues modulo [`Field::modulus`]; a field when the modulus is
/// prime.
pub trait Field: Copy {
    /// The number of elements. It is never zero.
    spec fn modulus() -> nat;

    /// The residue that this element stands for.
    spec fn value(&self) -> nat;

    /// The modulus is not zero.
    proof fn lemma_modulus_positive()
        ensures
            0 < Self::modulus(),
    ;

    /// Every element stands for a residue below the modulus.
    proof fn lemma_value_reduced(&self)
        ensures
            self.value() < Self::modulus(),
    ;

    /// The additive identity.
    fn zero() -> (r: Self)
        ensures
            r.value() == 0,
    ;

    /// The multiplicative identity.
    fn one() -> (r: Self)
        ensures
            r.value() == 1nat % Self::modulus(),
    ;

    /// The sum of two elements.
    fn add(&self, rhs: &Self) -> (r: Self)
        ensures
            r.value() == (self.value() + rhs.value()) % Self::modulus(),
    ;

    /// The product of two elements.
    fn mul(&self, rhs: &Self) -> (r: Self)
        ensures
            r.value() == (self.value() * rhs.value()) % Self::modulus(),
    ;

    /// Whether two elements stand for the same residue.
    fn equals(&self, rhs: &Self) -> (r: bool)
        ensures
            r == (self.value() == rhs.value()),
    ;
}

/// The residues below a modulus, with sums and products reduced by it, are a commutative
/// ring: both operations are commutative and associative, products distribute over sums,
/// and 0 and 1 are their identities.
pub proof fn lemma_residues_form_a_ring(a: nat, b: nat, c: nat, m: nat)
    requires
        0 < m,
        a < m,
        b < m,
        c < m,
    ensures
        (a + b) % m == (b + a) % m,
        (a * b) % m == (b * a) % m,
        ((a + b) % m + c) % m == (a + (b + c) % m) % m,
        (((a * b) % m) * c) % m == (a * ((b * c) % m)) % m,
        (a * ((b + c) % m)) % m == ((a * b) % m + (a * c) % m) % m,
        (a + 0) % m == a,
        (a * (1nat % m)) % m == a,
{
    let (x, y, z, n) = (a as int, b as int, c as int, m as int);
    lemma_small_mod(a, m);
    lemma_small_mod(c, m);
    lemma_mul_is_commutative(x, y);
    assert(((x + y) % n + z) % n == (x + (y + z) % n) % n) by {
        lemma_add_mod_noop(x + y, z, n);
        lemma_add_mod_noop(x, y + z, n);
    }
    assert((((x * y) % n) * z) % n == (x * ((y * z) % n)) % n) by {
        lemma_mul_mod_noop_general(x * y, z, n);
        lemma_mul_mod_noop_general(x, y * z, n);
        lemma_mul_is_associative(x, y, z);
    }
    assert((x * ((y + z) % n)) % n == ((x * y) % n + (x * z) % n) % n) by {
        lemma_mul_mod_noop_general(x, y + z, n);
        lemma_add_mod_noop(x * y, x * z, n);
        lemma_mul_is_distributive_add(x, y, z);
    }
    assert((x * (1int % n)) % n == x) by {
        lemma_mul_mod_noop_general(x, 1, n);
    }
}

/// The integers modulo `P`, for a modulus that fits a machine word.
///
/// `Fp<7>` is the field of seven elements. A modulus of 0 or 1 gives the ring with the
/// single element 0.
#[derive(Clone, Copy, Debug)]
pub struct Fp<const P: u64> {
    v: u64,
}

impl<const P: u64> Fp<P> {
    /// The element that `v` reduces to.
    pub fn new(v: u64) -> (r: Self)
        ensures
            r.value() == (v as nat) % Self::modulus(),
    {
        Fp { v }
    }

    /// The residue of this element, as a machine word.
    pub fn to_u64(&self) -> (r: u64)
        ensures
            r == self.value(),
    {
        if P <= 1 {
            0
        } else {
            self.v % P
        }
    }
}

impl<const P: u64> Field for Fp<P> {
    open spec fn modulus() -> nat {
        if P == 0 {
            1
        } else {
            P as nat
        }
    }

    closed spec fn value(&self) -> nat {
        (self.v as nat) % Self::modulus()
    }

    proof fn lemma_modulus_positive() {
    }

    proof fn lemma_value_reduced(&self) {
    }

    fn zero() -> (r: Self) {
        proof {
            lemma_small_mod(0, Self::modulus());
        }
        Fp { v: 0 }
    }

    fn one() -> (r: Self) {
        Fp { v: 1 }
    }

    fn add(&self, rhs: &Self) -> (r: Self) {
        if P <= 1 {
            Fp { v: 0 }
        } else {
            let a: u128 = (self.v % P) as u128;
            let b: u128 = (rhs.v % P) as u128;
            let c: u128 = (a + b) % (P as u128);
            proof {
                lemma_mod_twice((a + b) as int, P as int);
            }
            Fp { v: c as u64 }
        }
    }

    fn mul(&self, rhs: &Self) -> (r: Self) {
        if P <= 1 {
            Fp { v: 0 }
        } else {
            let a: u128 = (self.v % P) as u128;
            let b: u128 = (rhs.v % P) as u128;
            assert(a * b < 0x1_0000_0000_0000_0000 * 0x1_0000_0000_0000_0000) by (nonlinear_arith)
                requires
                    a < 0x1_0000_0000_0000_0000,
                    b < 0x1_0000_0000_0000_0000,
            ;
            let c: u128 = (a * b) % (P as u128);
            proof {
                lemma_mod_twice((a * b) as int, P as int);
            }
            Fp { v: c as u64 }
        }
    }

    fn equals(&self, rhs: &Self) -> (r: bool) {
        if P <= 1 {
            true
        } else {
            self.v % P == rhs.v % P
        }
    }
}

} // verus!
