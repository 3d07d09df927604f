//! The endomorphism `phi` of the curve as a rational map on coordinates.

use crate::curve::normalize_coords;
use crate::fields::base_modulus;
use crate::params::{endo_a1, endo_a2, endo_a3, endo_b1, endo_b2, endo_b3, endo_c1, endo_c2};
use vstd::arithmetic::div_mod::{
    lemma_mul_mod_noop_general, lemma_mul_mod_noop_left, lemma_mul_mod_noop_right,
};
use vstd::prelude::*;

verus! {

/// `f(y) = A1 * (y + A2) * (y + A3)` in the base field.
pub open spec fn endo_f(y: nat) -> nat {
    (endo_a1() * (y + endo_a2()) * (y + endo_a3())) % base_modulus()
}

/// `g(y) = B1 * (y + B2) * (y + B3)` in the base field.
pub open spec fn endo_g(y: nat) -> nat {
    (endo_b1() * (y + endo_b2()) * (y + endo_b3())) % base_modulus()
}

/// `h(y) = (y + C1) * (y + C2)` in the base field.
pub open spec fn endo_h(y: nat) -> nat {
    ((y + endo_c1()) * (y + endo_c2())) % base_modulus()
}

/// The image of the affine point `(x, y)` in projective form:
/// `(x * f(y) * h(y) : g(y) * y : 1 : h(y) * y)`.
pub open spec fn endomorphism_projective(p: (nat, nat)) -> (nat, nat, nat, nat) {
    let q = base_modulus();
    ((p.0 * endo_f(p.1) * endo_h(p.1)) % q, (endo_g(p.1) * p.1) % q, 1, (endo_h(p.1) * p.1) % q)
}

/// Whether the map is defined at `p`: the denominator `h(y) * y` is not 0.
/// It is 0 at no point of the prime-order subgroup.
pub open spec fn endomorphism_defined(p: (nat, nat)) -> bool {
    endomorphism_projective(p).3 != 0
}

/// The image of the affine point `(x, y)`:
/// `(x * f(y) / y, g(y) / h(y))`, from the projective form by division.
pub open spec fn endomorphism_coords(p: (nat, nat)) -> (nat, nat) {
    normalize_coords(endomorphism_projective(p))
}

/// The product `c * (y + a) * (y + b)` may be reduced after every step.
pub(crate) proof fn lemma_cubic_steps(c: nat, a: nat, b: nat, y: nat, q: nat)
    requires
        q > 0,
    ensures
        (((c * ((y + a) % q)) % q) * ((y + b) % q)) % q == (c * (y + a) * (y + b)) % q,
{
    lemma_mul_mod_noop_right(c as int, (y + a) as int, q as int);
    lemma_mul_mod_noop_general((c * (y + a)) as int, (y + b) as int, q as int);
}

/// The product `(y + a) * (y + b)` may be reduced after every step.
pub(crate) proof fn lemma_quadratic_steps(a: nat, b: nat, y: nat, q: nat)
    requires
        q > 0,
    ensures
        (((y + a) % q) * ((y + b) % q)) % q == ((y + a) * (y + b)) % q,
{
    lemma_mul_mod_noop_general((y + a) as int, (y + b) as int, q as int);
}

/// The product `x * f * h` may be reduced after the first step.
pub(crate) proof fn lemma_product_steps(x: nat, f: nat, h: nat, q: nat)
    requires
        q > 0,
    ensures
        (((x * f) % q) * h) % q == (x * f * h) % q,
{
    lemma_mul_mod_noop_left((x * f) as int, h as int, q as int);
}

} // verus!
