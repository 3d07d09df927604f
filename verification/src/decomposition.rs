//! The decomposition of a scalar into two half-length scalars, as
//! arithmetic on integers, and what holds of it.

use crate::bits::{bit_length, is_bits_of, lemma_bit_length_at_most};
use crate::fields::{scalar_magnitude, scalar_modulus, scalar_signed};
use crate::params::{lambda, lattice_n11, lattice_n12, lattice_n21, lemma_lattice_basis};
use vstd::arithmetic::div_mod::{
    lemma_add_mod_noop, lemma_fundamental_div_mod, lemma_mod_multiples_vanish, lemma_mod_twice,
    lemma_mul_mod_noop_left, lemma_mul_mod_noop_right, lemma_small_mod, lemma_sub_mod_noop_right,
};
use vstd::arithmetic::power2::{lemma2_to64_rest, lemma_pow2_adds, pow2};
use vstd::prelude::*;

verus! {

/// Babai's rounding coefficient of the scalar `k` against the lattice entry
/// `n`: `k * n / r`, rounded down.
pub open spec fn babai_coefficient(k: nat, n: nat) -> nat {
    (k * n) / scalar_modulus()
}

/// The decomposition `(k1, k2)` of the scalar `k`: the vector `(k, 0)` less
/// the lattice vector `beta1 * (n11, n12) + beta2 * (n21, -n11)` that
/// Babai's rounding picks, each entry as its residue modulo `r`.
pub open spec fn decomposition(k: nat) -> (nat, nat) {
    let r = scalar_modulus() as int;
    let beta1 = babai_coefficient(k, lattice_n11()) as int;
    let beta2 = babai_coefficient(k, lattice_n12()) as int;
    let k1 = (k - (beta1 * lattice_n11() + beta2 * lattice_n21())) % r;
    let k2 = (beta2 * lattice_n11() - beta1 * lattice_n12()) % r;
    (k1 as nat, k2 as nat)
}

/// Reducing modulo `r` after every field operation gives the residues of the
/// two entries computed over the integers.
pub(crate) proof fn lemma_field_steps(
    k: int,
    q1: int,
    q2: int,
    n11: int,
    n12: int,
    n21: int,
    r: int,
)
    requires
        r > 0,
    ensures
        (k - ((((q1 % r) * n11) % r + ((q2 % r) * n21) % r) % r)) % r == (k - (q1 * n11 + q2
            * n21)) % r,
        (r - ((((q1 % r) * n12) % r + ((q2 % r) * (r - n11)) % r) % r)) % r == (q2 * n11 - q1
            * n12) % r,
{
    lemma_mul_mod_noop_left(q1, n11, r);
    lemma_mul_mod_noop_left(q2, n21, r);
    lemma_add_mod_noop(q1 * n11, q2 * n21, r);
    lemma_sub_mod_noop_right(k, q1 * n11 + q2 * n21, r);

    lemma_mul_mod_noop_left(q1, n12, r);
    lemma_mul_mod_noop_left(q2, r - n11, r);
    let s = q1 * n12 + q2 * (r - n11);
    lemma_add_mod_noop(q1 * n12, q2 * (r - n11), r);
    lemma_sub_mod_noop_right(r, s, r);
    assert(r - s == r * (1 - q2) + (q2 * n11 - q1 * n12)) by (nonlinear_arith)
        requires
            s == q1 * n12 + q2 * (r - n11),
    ;
    lemma_mod_multiples_vanish(1 - q2, q2 * n11 - q1 * n12, r);
}

/// For a lattice whose rows `(n11, n12)` and `(n21, -n11)` lie in
/// `{(x, y) : x + lam * y = 0 (mod r)}`, taking any multiples of the rows
/// from `(k, 0)` leaves a pair that recombines to `k`.
proof fn lemma_recombine(k: int, q1: int, q2: int, n11: int, n12: int, n21: int, lam: int, r: int)
    requires
        r > 0,
        (n11 + lam * n12) % r == 0,
        (n21 - lam * n11) % r == 0,
    ensures
        ((k - (q1 * n11 + q2 * n21)) % r + lam * ((q2 * n11 - q1 * n12) % r)) % r == k % r,
{
    let a = k - (q1 * n11 + q2 * n21);
    let b = q2 * n11 - q1 * n12;
    lemma_mul_mod_noop_right(lam, b, r);
    lemma_mod_twice(a, r);
    lemma_add_mod_noop(a % r, lam * (b % r), r);
    lemma_add_mod_noop(a, lam * b, r);
    assert((a % r + lam * (b % r)) % r == (a + lam * b) % r);

    let e1 = n11 + lam * n12;
    let e2 = n21 - lam * n11;
    lemma_fundamental_div_mod(e1, r);
    lemma_fundamental_div_mod(e2, r);
    let c1 = e1 / r;
    let c2 = e2 / r;
    let p1 = q1 * n11;
    let p2 = q2 * n21;
    let p3 = q2 * n11;
    let p4 = q1 * n12;
    assert(lam * b == lam * p3 - lam * p4) by (nonlinear_arith)
        requires
            b == p3 - p4,
    ;
    assert(q1 * e1 == p1 + lam * p4) by (nonlinear_arith)
        requires
            e1 == n11 + lam * n12,
            p1 == q1 * n11,
            p4 == q1 * n12,
    ;
    assert(q2 * e2 == p2 - lam * p3) by (nonlinear_arith)
        requires
            e2 == n21 - lam * n11,
            p2 == q2 * n21,
            p3 == q2 * n11,
    ;
    assert(q1 * e1 == r * (q1 * c1)) by (nonlinear_arith)
        requires
            e1 == r * c1,
    ;
    assert(q2 * e2 == r * (q2 * c2)) by (nonlinear_arith)
        requires
            e2 == r * c2,
    ;
    let t1 = q1 * c1;
    let t2 = q2 * c2;
    assert(r * (-t1 - t2) == -(r * t1) - r * t2) by (nonlinear_arith);
    assert(a + lam * b == r * (-(q1 * c1) - q2 * c2) + k);
    lemma_mod_multiples_vanish(-(q1 * c1) - q2 * c2, k, r);
}

/// For a basis of determinant `-r`, what Babai's rounding leaves of `(k, 0)`
/// is no longer than the basis itself.
proof fn lemma_remainder_is_short(k: int, n11: int, n12: int, n21: int, r: int)
    requires
        0 <= k,
        0 < n11,
        0 < n12,
        0 < n21,
        0 < r,
        n11 * n11 + n12 * n21 == r,
    ensures
        0 <= k - (((k * n11) / r) * n11 + ((k * n12) / r) * n21) < n11 + n21,
        -n11 < ((k * n12) / r) * n11 - ((k * n11) / r) * n12 < n12,
{
    let q1 = (k * n11) / r;
    let q2 = (k * n12) / r;
    let rho1 = (k * n11) % r;
    let rho2 = (k * n12) % r;
    lemma_fundamental_div_mod(k * n11, r);
    lemma_fundamental_div_mod(k * n12, r);
    let x = k - (q1 * n11 + q2 * n21);
    let y = q2 * n11 - q1 * n12;
    let kn1 = k * n11;
    let kn2 = k * n12;
    let rq1 = r * q1;
    let rq2 = r * q2;
    assert(rq1 * n11 == kn1 * n11 - rho1 * n11) by (nonlinear_arith)
        requires
            kn1 == rq1 + rho1,
    ;
    assert(rq1 * n12 == kn1 * n12 - rho1 * n12) by (nonlinear_arith)
        requires
            kn1 == rq1 + rho1,
    ;
    assert(rq2 * n21 == kn2 * n21 - rho2 * n21) by (nonlinear_arith)
        requires
            kn2 == rq2 + rho2,
    ;
    assert(rq2 * n11 == kn2 * n11 - rho2 * n11) by (nonlinear_arith)
        requires
            kn2 == rq2 + rho2,
    ;
    assert(kn1 * n11 + kn2 * n21 == k * r) by (nonlinear_arith)
        requires
            kn1 == k * n11,
            kn2 == k * n12,
            n11 * n11 + n12 * n21 == r,
    ;
    assert(kn1 * n12 == kn2 * n11) by (nonlinear_arith)
        requires
            kn1 == k * n11,
            kn2 == k * n12,
    ;
    assert(r * x == r * k - rq1 * n11 - rq2 * n21) by (nonlinear_arith)
        requires
            x == k - (q1 * n11 + q2 * n21),
            rq1 == r * q1,
            rq2 == r * q2,
    ;
    assert(r * y == rq2 * n11 - rq1 * n12) by (nonlinear_arith)
        requires
            y == q2 * n11 - q1 * n12,
            rq1 == r * q1,
            rq2 == r * q2,
    ;
    assert(r * k == k * r) by (nonlinear_arith);
    assert(r * x == rho1 * n11 + rho2 * n21);
    assert(r * y == rho1 * n12 - rho2 * n11);
    assert(0 <= rho1 * n11 + rho2 * n21 < r * (n11 + n21)) by (nonlinear_arith)
        requires
            0 <= rho1 < r,
            0 <= rho2 < r,
            0 < n11,
            0 < n21,
    ;
    assert(-(r * n11) < rho1 * n12 - rho2 * n11 < r * n12) by (nonlinear_arith)
        requires
            0 <= rho1 < r,
            0 <= rho2 < r,
            0 < n11,
            0 < n12,
    ;
    assert(0 <= x < n11 + n21) by (nonlinear_arith)
        requires
            0 < r,
            0 <= r * x < r * (n11 + n21),
    ;
    assert(-n11 < y < n12) by (nonlinear_arith)
        requires
            0 < r,
            -(r * n11) < r * y < r * n12,
    ;
}

/// The two parts of a scalar recombine to it:
/// `k1 + lambda * k2 = k (mod r)`.
pub proof fn lemma_decomposition_recombines(k: nat)
    ensures
        (decomposition(k).0 + lambda() * decomposition(k).1) % scalar_modulus() == k
            % scalar_modulus(),
        k < scalar_modulus() ==> (decomposition(k).0 + lambda() * decomposition(k).1)
            % scalar_modulus() == k,
{
    lemma_lattice_basis();
    lemma_recombine(
        k as int,
        babai_coefficient(k, lattice_n11()) as int,
        babai_coefficient(k, lattice_n12()) as int,
        lattice_n11() as int,
        lattice_n12() as int,
        lattice_n21() as int,
        lambda() as int,
        scalar_modulus() as int,
    );
    if k < scalar_modulus() {
        lemma_small_mod(k, scalar_modulus());
    }
}

/// The two parts of a scalar are short. `k1` is below `n11 + n21`; `k2`,
/// read as a signed number, lies strictly between `-n11` and `n12`. So the
/// magnitudes of both are below 2^127, where `r` has 253 bits.
pub proof fn lemma_decomposition_is_short(k: nat)
    ensures
        decomposition(k).0 < lattice_n11() + lattice_n21(),
        decomposition(k).1 < lattice_n12() || decomposition(k).1 > scalar_modulus()
            - lattice_n11(),
        scalar_magnitude(decomposition(k).0) == decomposition(k).0,
        scalar_magnitude(decomposition(k).0) < pow2(127),
        scalar_magnitude(decomposition(k).1) < pow2(127),
{
    lemma_lattice_basis();
    lemma_remainder_is_short(
        k as int,
        lattice_n11() as int,
        lattice_n12() as int,
        lattice_n21() as int,
        scalar_modulus() as int,
    );
    let r = scalar_modulus() as int;
    let beta1 = babai_coefficient(k, lattice_n11()) as int;
    let beta2 = babai_coefficient(k, lattice_n12()) as int;
    let x = k - (beta1 * lattice_n11() + beta2 * lattice_n21());
    let y = beta2 * lattice_n11() - beta1 * lattice_n12();
    lemma_small_mod(x as nat, r as nat);
    if y >= 0 {
        lemma_small_mod(y as nat, r as nat);
    } else {
        lemma_small_mod((r + y) as nat, r as nat);
        lemma_mod_multiples_vanish(1, y, r);
        assert(y % r == r + y);
    }
    lemma2_to64_rest();
    lemma_pow2_adds(63, 64);
    assert(pow2(127) == 0x8000_0000_0000_0000_0000_0000_0000_0000nat) by {
        assert(0x8000_0000_0000_0000nat * 0x1_0000_0000_0000_0000nat
            == 0x8000_0000_0000_0000_0000_0000_0000_0000nat);
    }
}

/// Read as signed numbers, the two parts still recombine to the scalar, and
/// the magnitude of each is its absolute value. The joint multiplication
/// works on these magnitudes and moves each sign to its point.
pub proof fn lemma_signed_parts_recombine(k: nat)
    ensures
        (scalar_signed(decomposition(k).0) + lambda() * scalar_signed(decomposition(k).1)) % (
        scalar_modulus() as int) == k % scalar_modulus(),
        scalar_magnitude(decomposition(k).0) == scalar_signed(decomposition(k).0),
        scalar_magnitude(decomposition(k).1) == scalar_signed(decomposition(k).1)
            || scalar_magnitude(decomposition(k).1) == -scalar_signed(decomposition(k).1),
{
    lemma_decomposition_recombines(k);
    lemma_decomposition_is_short(k);
    let r = scalar_modulus() as int;
    let k1 = decomposition(k).0 as int;
    let k2 = decomposition(k).1 as int;
    if scalar_signed(k2 as nat) == k2 {
    } else {
        assert(k1 + lambda() * (k2 - r) == r * (-(lambda() as int)) + (k1 + lambda() * k2));
        lemma_mod_multiples_vanish(-(lambda() as int), k1 + lambda() * k2, r);
    }
}

/// The binary expansions of the magnitudes of the two parts have a bit
/// length of at most 127, half the 253 bits of `r` rounded up.
pub proof fn lemma_decomposition_bit_length(k: nat, bits1: Seq<bool>, bits2: Seq<bool>)
    requires
        is_bits_of(bits1, scalar_magnitude(decomposition(k).0)),
        is_bits_of(bits2, scalar_magnitude(decomposition(k).1)),
    ensures
        bit_length(bits1) <= 127,
        bit_length(bits2) <= 127,
{
    lemma_decomposition_is_short(k);
    lemma_bit_length_at_most(bits1, scalar_magnitude(decomposition(k).0), 127);
    lemma_bit_length_at_most(bits2, scalar_magnitude(decomposition(k).1), 127);
}

} // verus!
