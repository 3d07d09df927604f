//! The two prime fields of the curve: the base field `Fq`, which holds point
//! coordinates, and the scalar field `Fr`, the integers modulo the group order.
//!
//! An element is kept as the four limbs of its least non-negative residue;
//! that the limbs stand for a residue is an invariant of both types. The
//! arithmetic itself is that of `ark-ff`, reached through the functions at the
//! end of this file, whose contracts are taken on trust. Each of them hands
//! `ark-ff` the residues of its operands, which the invariant makes valid
//! field elements, and takes the residue of the result back.

use crate::bits::bit_of;
use crate::limbs::{digits_value, lemma_limbs_order, limbs_lt, limbs_value};
use ark_ff::{BigInteger, PrimeField};
use vstd::prelude::*;

verus! {

/// The order `q` of the base field.
pub open spec fn base_modulus() -> nat {
    0x73eda753299d7d483339d80809a1d80553bda402fffe5bfeffffffff00000001nat
}

/// The order `r` of the scalar field, which is the order of the curve's
/// prime-order subgroup.
pub open spec fn scalar_modulus() -> nat {
    0x1cfb69d4ca675f520cce760202687600ff8f87007419047174fd06b52876e7e1nat
}

/// `(r - 1) / 2`: the largest scalar that counts as non-negative.
pub open spec fn scalar_half() -> nat {
    0x0e7db4ea6533afa906673b0101343b007fc7c3803a0c8238ba7e835a943b73f0nat
}

/// The magnitude of a scalar read as a signed number: a residue above
/// `(r - 1) / 2` stands for the negative number `s - r`.
pub open spec fn scalar_magnitude(s: nat) -> nat {
    if s > scalar_half() {
        (scalar_modulus() - s) as nat
    } else {
        s
    }
}

/// A scalar read as a signed number: the residue itself up to `(r - 1) / 2`,
/// and `s - r` above it.
pub open spec fn scalar_signed(s: nat) -> int {
    if s > scalar_half() {
        s - scalar_modulus()
    } else {
        s as int
    }
}

/// The limbs of `q`.
pub fn base_modulus_limbs() -> (l: [u64; 4])
    ensures
        limbs_value(l) == base_modulus(),
{
    [0xffffffff00000001, 0x53bda402fffe5bfe, 0x3339d80809a1d805, 0x73eda753299d7d48]
}

/// The limbs of `r`.
pub fn scalar_modulus_limbs() -> (l: [u64; 4])
    ensures
        limbs_value(l) == scalar_modulus(),
{
    [0x74fd06b52876e7e1, 0xff8f870074190471, 0x0cce760202687600, 0x1cfb69d4ca675f52]
}

/// An element of the base field.
#[derive(Clone, Copy, Debug, PartialEq, Eq)]
pub struct Fq {
    pub(crate) limbs: [u64; 4],
}

/// An element of the scalar field.
#[derive(Clone, Copy, Debug, PartialEq, Eq)]
pub struct Fr {
    pub(crate) limbs: [u64; 4],
}

impl View for Fq {
    type V = nat;

    /// The residue that the element stands for.
    closed spec fn view(&self) -> nat {
        limbs_value(self.limbs)
    }
}

impl View for Fr {
    type V = nat;

    /// The residue that the element stands for.
    closed spec fn view(&self) -> nat {
        limbs_value(self.limbs)
    }
}

impl Fq {
    /// Every element is reduced modulo `q`.
    #[verifier::type_invariant]
    pub open spec fn is_reduced(&self) -> bool {
        self@ < base_modulus()
    }

    /// The element with the given limbs, which must stand for a residue.
    pub(crate) fn new(limbs: [u64; 4]) -> (r: Fq)
        requires
            limbs_value(limbs) < base_modulus(),
        ensures
            r@ == limbs_value(limbs),
    {
        Fq { limbs }
    }

    /// The element with the given limbs, or `None` when they stand for a
    /// number that is not below `q`.
    pub fn from_limbs(limbs: [u64; 4]) -> (r: Option<Fq>)
        ensures
            r is Some <==> limbs_value(limbs) < base_modulus(),
            r matches Some(v) ==> v@ == limbs_value(limbs),
    {
        let m = base_modulus_limbs();
        if limbs_lt(&limbs, &m) {
            Some(Fq { limbs })
        } else {
            None
        }
    }

    /// The limbs of the residue.
    pub fn to_limbs(&self) -> (l: [u64; 4])
        ensures
            limbs_value(l) == self@,
            self@ < base_modulus(),
    {
        proof {
            use_type_invariant(self);
        }
        self.limbs
    }

    /// Whether the element is 0.
    pub fn is_zero(&self) -> (b: bool)
        ensures
            b == (self@ == 0),
    {
        proof {
            lemma_limbs_order(self.limbs, [0, 0, 0, 0]);
        }
        self.limbs[0] == 0 && self.limbs[1] == 0 && self.limbs[2] == 0 && self.limbs[3] == 0
    }

    /// The element 1.
    pub fn one() -> (r: Fq)
        ensures
            r@ == 1,
    {
        Fq { limbs: [1, 0, 0, 0] }
    }
}

impl Fr {
    /// Every element is reduced modulo `r`.
    #[verifier::type_invariant]
    pub open spec fn is_reduced(&self) -> bool {
        self@ < scalar_modulus()
    }

    /// The element with the given limbs, which must stand for a residue.
    pub(crate) fn new(limbs: [u64; 4]) -> (r: Fr)
        requires
            limbs_value(limbs) < scalar_modulus(),
        ensures
            r@ == limbs_value(limbs),
    {
        Fr { limbs }
    }

    /// The element with the given limbs, or `None` when they stand for a
    /// number that is not below `r`.
    pub fn from_limbs(limbs: [u64; 4]) -> (r: Option<Fr>)
        ensures
            r is Some <==> limbs_value(limbs) < scalar_modulus(),
            r matches Some(v) ==> v@ == limbs_value(limbs),
    {
        let m = scalar_modulus_limbs();
        if limbs_lt(&limbs, &m) {
            Some(Fr { limbs })
        } else {
            None
        }
    }

    /// The limbs of the residue.
    pub fn to_limbs(&self) -> (l: [u64; 4])
        ensures
            limbs_value(l) == self@,
            self@ < scalar_modulus(),
    {
        proof {
            use_type_invariant(self);
        }
        self.limbs
    }

    /// `(r - 1) / 2`.
    pub fn half_modulus() -> (h: Fr)
        ensures
            h@ == scalar_half(),
    {
        Fr {
            limbs: [0xba7e835a943b73f0, 0x7fc7c3803a0c8238, 0x06673b0101343b00, 0x0e7db4ea6533afa9],
        }
    }

    /// Whether `self` is the larger residue.
    pub fn gt(&self, other: &Fr) -> (b: bool)
        ensures
            b == (self@ > other@),
    {
        limbs_lt(&other.limbs, &self.limbs)
    }
}

/// `Add` of `ark_ff::Fp` on the base field: the sum of the two residues,
/// reduced modulo `q`.
#[verifier::external_body]
pub(crate) fn fq_add(a: &Fq, b: &Fq) -> (r: Fq)
    ensures
        r@ == (a@ + b@) % base_modulus(),
{
    let x = ark_ed_on_bls12_381_bandersnatch::Fq::from_bigint(ark_ff::BigInt(a.limbs)).unwrap();
    let y = ark_ed_on_bls12_381_bandersnatch::Fq::from_bigint(ark_ff::BigInt(b.limbs)).unwrap();
    Fq { limbs: (x + y).into_bigint().0 }
}

/// `Mul` of `ark_ff::Fp` on the base field: the product of the two residues,
/// reduced modulo `q`.
#[verifier::external_body]
pub(crate) fn fq_mul(a: &Fq, b: &Fq) -> (r: Fq)
    ensures
        r@ == (a@ * b@) % base_modulus(),
{
    let x = ark_ed_on_bls12_381_bandersnatch::Fq::from_bigint(ark_ff::BigInt(a.limbs)).unwrap();
    let y = ark_ed_on_bls12_381_bandersnatch::Fq::from_bigint(ark_ff::BigInt(b.limbs)).unwrap();
    Fq { limbs: (x * y).into_bigint().0 }
}

/// `Add` of `ark_ff::Fp` on the scalar field: the sum of the two residues,
/// reduced modulo `r`.
#[verifier::external_body]
pub(crate) fn fr_add(a: &Fr, b: &Fr) -> (r: Fr)
    ensures
        r@ == (a@ + b@) % scalar_modulus(),
{
    let x = ark_ed_on_bls12_381_bandersnatch::Fr::from_bigint(ark_ff::BigInt(a.limbs)).unwrap();
    let y = ark_ed_on_bls12_381_bandersnatch::Fr::from_bigint(ark_ff::BigInt(b.limbs)).unwrap();
    Fr { limbs: (x + y).into_bigint().0 }
}

/// `Sub` of `ark_ff::Fp` on the scalar field: the difference of the two
/// residues, reduced modulo `r` to a non-negative residue.
#[verifier::external_body]
pub(crate) fn fr_sub(a: &Fr, b: &Fr) -> (r: Fr)
    ensures
        r@ == (a@ - b@) % (scalar_modulus() as int),
{
    let x = ark_ed_on_bls12_381_bandersnatch::Fr::from_bigint(ark_ff::BigInt(a.limbs)).unwrap();
    let y = ark_ed_on_bls12_381_bandersnatch::Fr::from_bigint(ark_ff::BigInt(b.limbs)).unwrap();
    Fr { limbs: (x - y).into_bigint().0 }
}

/// `Mul` of `ark_ff::Fp` on the scalar field: the product of the two
/// residues, reduced modulo `r`.
#[verifier::external_body]
pub(crate) fn fr_mul(a: &Fr, b: &Fr) -> (r: Fr)
    ensures
        r@ == (a@ * b@) % scalar_modulus(),
{
    let x = ark_ed_on_bls12_381_bandersnatch::Fr::from_bigint(ark_ff::BigInt(a.limbs)).unwrap();
    let y = ark_ed_on_bls12_381_bandersnatch::Fr::from_bigint(ark_ff::BigInt(b.limbs)).unwrap();
    Fr { limbs: (x * y).into_bigint().0 }
}

/// `Neg` of `ark_ff::Fp` on the scalar field: the additive inverse, which is
/// 0 for 0 and `r - a` otherwise.
#[verifier::external_body]
pub(crate) fn fr_neg(a: &Fr) -> (r: Fr)
    ensures
        r@ == (scalar_modulus() - a@) % (scalar_modulus() as int),
{
    let x = ark_ed_on_bls12_381_bandersnatch::Fr::from_bigint(ark_ff::BigInt(a.limbs)).unwrap();
    Fr { limbs: (-x).into_bigint().0 }
}

/// `BigInteger::to_bits_le` of `ark_ff::BigInt`, on the residue of a scalar:
/// its 256 bits, least significant bit first.
#[verifier::external_body]
pub(crate) fn fr_bits_le(a: &Fr) -> (bits: Vec<bool>)
    ensures
        bits@.len() == 256,
        forall|i: int| 0 <= i < 256 ==> bits@[i] == bit_of(a@, i as nat),
{
    ark_ff::BigInt(a.limbs).to_bits_le()
}

/// `From<BigUint>` of `ark_ff::Fp` on the scalar field: the number that the
/// base-2^32 digits stand for, reduced modulo `r`.
#[verifier::external_body]
pub(crate) fn fr_from_digits(n: &Vec<u32>) -> (r: Fr)
    ensures
        r@ == digits_value(n@) % scalar_modulus(),
{
    let v = ark_ed_on_bls12_381_bandersnatch::Fr::from(num_bigint::BigUint::new(n.clone()));
    Fr { limbs: v.into_bigint().0 }
}

} // verus!
