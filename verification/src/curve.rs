//! Points of the twisted Edwards curve, in affine and in extended projective
//! coordinates.
//!
//! A point is kept as its coordinates. The group law is that of `ark-ec`,
//! reached through the functions at the end of this file, whose contracts are
//! taken on trust. Where `ark-ec` fixes the coordinates of a result in a line
//! or two, the contract gives them; the sum and the double of two points are
//! only named.

use crate::fields::{base_modulus, Fq};
use ark_ec::{CurveGroup, Group};
use ark_ff::PrimeField;
use ark_std::Zero;
use vstd::arithmetic::div_mod::{
    lemma_mul_mod_noop_left, lemma_mul_mod_noop_right, lemma_small_mod,
};
use vstd::prelude::*;

verus! {

/// A point `(x, y)` in affine coordinates.
#[derive(Clone, Copy, Debug, PartialEq, Eq)]
pub struct EdwardsAffine {
    pub x: Fq,
    pub y: Fq,
}

/// A point `(X : Y : T : Z)` in extended projective coordinates, which stands
/// for the affine point `(X / Z, Y / Z)`.
#[derive(Clone, Copy, Debug, PartialEq, Eq)]
pub struct EdwardsProjective {
    pub x: Fq,
    pub y: Fq,
    pub t: Fq,
    pub z: Fq,
}

impl View for EdwardsAffine {
    type V = (nat, nat);

    open spec fn view(&self) -> (nat, nat) {
        (self.x@, self.y@)
    }
}

impl View for EdwardsProjective {
    type V = (nat, nat, nat, nat);

    open spec fn view(&self) -> (nat, nat, nat, nat) {
        (self.x@, self.y@, self.t@, self.z@)
    }
}

/// The coordinates `(0 : 1 : 0 : 1)` of the neutral element.
pub open spec fn identity_coords() -> (nat, nat, nat, nat) {
    (0, 1, 0, 1)
}

/// The projective coordinates `(x : y : x * y : 1)` of an affine point.
pub open spec fn lift_coords(p: (nat, nat)) -> (nat, nat, nat, nat) {
    (p.0, p.1, (p.0 * p.1) % base_modulus(), 1)
}

/// The coordinates `(-X : Y : -T : Z)` of the inverse of a point.
pub open spec fn neg_coords(p: (nat, nat, nat, nat)) -> (nat, nat, nat, nat) {
    let q = base_modulus();
    (((q - p.0) % (q as int)) as nat, p.1, ((q - p.2) % (q as int)) as nat, p.3)
}

/// Whether `w` is the inverse of `z` in the base field.
pub open spec fn is_field_inverse(w: nat, z: nat) -> bool {
    w < base_modulus() && (w * z) % base_modulus() == 1
}

/// The inverse of `z` in the base field: the one residue `w` with
/// `w * z = 1`. Its value is arbitrary for a `z` that has no inverse.
pub open spec fn field_inverse(z: nat) -> nat {
    choose|w: nat| is_field_inverse(w, z)
}

/// A residue has at most one inverse, so any `w` with `w * z = 1` is the
/// inverse of `z`.
pub proof fn lemma_field_inverse_unique(w: nat, z: nat)
    requires
        is_field_inverse(w, z),
    ensures
        field_inverse(z) == w,
{
    let q = base_modulus() as int;
    let v = field_inverse(z);
    assert(is_field_inverse(v, z));
    // v = v * (z * w) = (v * z) * w = w, modulo q
    lemma_mul_mod_noop_right(v as int, (z * w) as int, q);
    lemma_mul_mod_noop_left((v * z) as int, w as int, q);
    assert(z * w == w * z) by (nonlinear_arith);
    assert(v * (z * w) == (v * z) * w) by (nonlinear_arith);
    assert(v * 1 == v && 1 * w == w);
    lemma_small_mod(v, q as nat);
    lemma_small_mod(w, q as nat);
}

/// The affine coordinates `(X / Z, Y / Z)` of a projective point.
pub open spec fn normalize_coords(p: (nat, nat, nat, nat)) -> (nat, nat) {
    let q = base_modulus();
    ((p.0 * field_inverse(p.3)) % q, (p.1 * field_inverse(p.3)) % q)
}

/// The coordinates that `ark-ec` computes for the sum of two points.
pub uninterp spec fn edwards_add(a: (nat, nat, nat, nat), b: (nat, nat, nat, nat)) -> (
    nat,
    nat,
    nat,
    nat,
);

/// The coordinates that `ark-ec` computes for the double of a point.
pub uninterp spec fn edwards_double(a: (nat, nat, nat, nat)) -> (nat, nat, nat, nat);

/// `Zero::zero` of `ark_ec::twisted_edwards::Projective`: the neutral element,
/// which it builds from the coordinates 0, 1, 0, 1.
#[verifier::external_body]
pub(crate) fn projective_zero() -> (r: EdwardsProjective)
    ensures
        r@ == identity_coords(),
{
    let g = |c: ark_ed_on_bls12_381_bandersnatch::Fq| Fq { limbs: c.into_bigint().0 };
    let s = ark_ed_on_bls12_381_bandersnatch::EdwardsProjective::zero();
    EdwardsProjective { x: g(s.x), y: g(s.y), t: g(s.t), z: g(s.z) }
}

/// `From<Affine>` of `ark_ec::twisted_edwards::Projective`: the same point
/// with `T = x * y` and `Z = 1`. The point is not tested for being on the
/// curve.
#[verifier::external_body]
pub(crate) fn affine_into_projective(p: &EdwardsAffine) -> (r: EdwardsProjective)
    ensures
        r@ == lift_coords(p@),
{
    let f = |c: &Fq| {
        ark_ed_on_bls12_381_bandersnatch::Fq::from_bigint(ark_ff::BigInt(c.limbs)).unwrap()
    };
    let g = |c: ark_ed_on_bls12_381_bandersnatch::Fq| Fq { limbs: c.into_bigint().0 };
    let a = ark_ed_on_bls12_381_bandersnatch::EdwardsAffine::new_unchecked(f(&p.x), f(&p.y));
    let s = ark_ed_on_bls12_381_bandersnatch::EdwardsProjective::from(a);
    EdwardsProjective { x: g(s.x), y: g(s.y), t: g(s.t), z: g(s.z) }
}

/// `CurveGroup::into_affine` of `ark_ec::twisted_edwards::Projective`: the
/// affine point `(X / Z, Y / Z)`. It inverts `Z` and fails when `Z` is 0, so
/// `Z` must not be 0.
#[verifier::external_body]
pub(crate) fn projective_into_affine(p: &EdwardsProjective) -> (r: EdwardsAffine)
    requires
        p.z@ != 0,
    ensures
        r@ == normalize_coords(p@),
{
    let f = |c: &Fq| {
        ark_ed_on_bls12_381_bandersnatch::Fq::from_bigint(ark_ff::BigInt(c.limbs)).unwrap()
    };
    let g = |c: ark_ed_on_bls12_381_bandersnatch::Fq| Fq { limbs: c.into_bigint().0 };
    let s = ark_ed_on_bls12_381_bandersnatch::EdwardsProjective::new_unchecked(
        f(&p.x), f(&p.y), f(&p.t), f(&p.z),
    );
    let a = s.into_affine();
    EdwardsAffine { x: g(a.x), y: g(a.y) }
}

/// `Neg` of `ark_ec::twisted_edwards::Projective`: the inverse of the point,
/// got by negating `X` and `T`.
#[verifier::external_body]
pub(crate) fn projective_neg(p: &EdwardsProjective) -> (r: EdwardsProjective)
    ensures
        r@ == neg_coords(p@),
{
    let f = |c: &Fq| {
        ark_ed_on_bls12_381_bandersnatch::Fq::from_bigint(ark_ff::BigInt(c.limbs)).unwrap()
    };
    let g = |c: ark_ed_on_bls12_381_bandersnatch::Fq| Fq { limbs: c.into_bigint().0 };
    let s = -ark_ed_on_bls12_381_bandersnatch::EdwardsProjective::new_unchecked(
        f(&p.x), f(&p.y), f(&p.t), f(&p.z),
    );
    EdwardsProjective { x: g(s.x), y: g(s.y), t: g(s.t), z: g(s.z) }
}

/// `Add` of `ark_ec::twisted_edwards::Projective`: the sum of the two points.
/// The coordinates of the result depend on the coordinates of the operands
/// alone.
#[verifier::external_body]
pub(crate) fn projective_add(a: &EdwardsProjective, b: &EdwardsProjective) -> (r:
    EdwardsProjective)
    ensures
        r@ == edwards_add(a@, b@),
{
    let f = |c: &Fq| {
        ark_ed_on_bls12_381_bandersnatch::Fq::from_bigint(ark_ff::BigInt(c.limbs)).unwrap()
    };
    let g = |c: ark_ed_on_bls12_381_bandersnatch::Fq| Fq { limbs: c.into_bigint().0 };
    let p = ark_ed_on_bls12_381_bandersnatch::EdwardsProjective::new_unchecked(
        f(&a.x), f(&a.y), f(&a.t), f(&a.z),
    );
    let q = ark_ed_on_bls12_381_bandersnatch::EdwardsProjective::new_unchecked(
        f(&b.x), f(&b.y), f(&b.t), f(&b.z),
    );
    let s = p + q;
    EdwardsProjective { x: g(s.x), y: g(s.y), t: g(s.t), z: g(s.z) }
}

/// `Group::double` of `ark_ec::twisted_edwards::Projective`: the double of
/// the point. The coordinates of the result depend on the coordinates of the
/// operand alone.
#[verifier::external_body]
pub(crate) fn projective_double(a: &EdwardsProjective) -> (r: EdwardsProjective)
    ensures
        r@ == edwards_double(a@),
{
    let f = |c: &Fq| {
        ark_ed_on_bls12_381_bandersnatch::Fq::from_bigint(ark_ff::BigInt(c.limbs)).unwrap()
    };
    let g = |c: ark_ed_on_bls12_381_bandersnatch::Fq| Fq { limbs: c.into_bigint().0 };
    let s = ark_ed_on_bls12_381_bandersnatch::EdwardsProjective::new_unchecked(
        f(&a.x), f(&a.y), f(&a.t), f(&a.z),
    ).double();
    EdwardsProjective { x: g(s.x), y: g(s.y), t: g(s.t), z: g(s.z) }
}

} // verus!
