//! Joint multiplication of two points by two scalars.

use crate::bits::{
    bit_of, get_bits, is_bits_of, lemma_bit_length_bounds, lemma_pow2_256, lemma_shift_step,
    lemma_shift_zero,
};
use crate::curve::{
    affine_into_projective, edwards_add, edwards_double, identity_coords, lift_coords, neg_coords,
    projective_add, projective_double, projective_neg, projective_zero, EdwardsAffine,
    EdwardsProjective,
};
use crate::fields::{fr_bits_le, fr_neg, scalar_half, scalar_magnitude, Fr};
use vstd::arithmetic::power2::{lemma2_to64, lemma_pow2_strictly_increases, pow2};
use vstd::prelude::*;

verus! {

/// The point that goes with the magnitude of the scalar `s`: the inverse of
/// `p` where `s` stands for a negative number, `p` itself elsewhere.
pub open spec fn signed_base(s: nat, p: (nat, nat, nat, nat)) -> (nat, nat, nat, nat) {
    if s > scalar_half() {
        neg_coords(p)
    } else {
        p
    }
}

/// Joint double-and-add: `a * p + b * q`, built from the top bits of `a` and
/// `b` down, where `pq` stands for `p + q`. Every step doubles what the
/// higher bits gave and then adds nothing, `p`, `q` or `pq`, by the two
/// lowest bits.
pub open spec fn joint_double_and_add(
    p: (nat, nat, nat, nat),
    q: (nat, nat, nat, nat),
    pq: (nat, nat, nat, nat),
    a: nat,
    b: nat,
) -> (nat, nat, nat, nat)
    decreases a + b,
{
    if a == 0 && b == 0 {
        identity_coords()
    } else {
        let acc = edwards_double(joint_double_and_add(p, q, pq, a / 2, b / 2));
        if a % 2 == 1 && b % 2 == 1 {
            edwards_add(acc, pq)
        } else if a % 2 == 1 {
            edwards_add(acc, p)
        } else if b % 2 == 1 {
            edwards_add(acc, q)
        } else {
            acc
        }
    }
}

/// The coordinates of `s1 * base + s2 * endo_base` as the joint
/// multiplication computes them: both scalars are first brought to their
/// magnitudes, with the sign moved to the point.
pub open spec fn multi_scalar_mul_coords(
    base: (nat, nat),
    s1: nat,
    endo_base: (nat, nat),
    s2: nat,
) -> (nat, nat, nat, nat) {
    let b1 = signed_base(s1, lift_coords(base));
    let b2 = signed_base(s2, lift_coords(endo_base));
    joint_double_and_add(b1, b2, edwards_add(b1, b2), scalar_magnitude(s1), scalar_magnitude(s2))
}

/// One step of the joint double-and-add, for scalars that are not both 0.
proof fn lemma_ladder_step(
    p: (nat, nat, nat, nat),
    q: (nat, nat, nat, nat),
    pq: (nat, nat, nat, nat),
    a: nat,
    b: nat,
)
    requires
        a != 0 || b != 0,
    ensures
        joint_double_and_add(p, q, pq, a, b) == ({
            let acc = edwards_double(joint_double_and_add(p, q, pq, a / 2, b / 2));
            if a % 2 == 1 && b % 2 == 1 {
                edwards_add(acc, pq)
            } else if a % 2 == 1 {
                edwards_add(acc, p)
            } else if b % 2 == 1 {
                edwards_add(acc, q)
            } else {
                acc
            }
        }),
{
}

/// With both scalars 0 the joint multiplication gives the neutral element.
pub proof fn lemma_multi_scalar_mul_zero(base: (nat, nat), endo_base: (nat, nat))
    ensures
        multi_scalar_mul_coords(base, 0, endo_base, 0) == identity_coords(),
{
}

/// With the scalars 1 and 0, or 0 and 1, the joint multiplication doubles the
/// neutral element once and adds the point that goes with the 1.
pub proof fn lemma_multi_scalar_mul_unit(base: (nat, nat), endo_base: (nat, nat))
    ensures
        multi_scalar_mul_coords(base, 1, endo_base, 0) == edwards_add(
            edwards_double(identity_coords()),
            lift_coords(base),
        ),
        multi_scalar_mul_coords(base, 0, endo_base, 1) == edwards_add(
            edwards_double(identity_coords()),
            lift_coords(endo_base),
        ),
{
    let p = lift_coords(base);
    let q = lift_coords(endo_base);
    let pq = edwards_add(p, q);
    lemma_ladder_step(p, q, pq, 1, 0);
    lemma_ladder_step(p, q, pq, 0, 1);
    assert(joint_double_and_add(p, q, pq, 0, 0) == identity_coords());
}

/// Computes `scalar_1 * base + scalar_2 * endor_base` in one pass of joint
/// double-and-add, which doubles once per bit of the longer magnitude.
pub fn multi_scalar_mul(
    base: &EdwardsAffine,
    scalar_1: &Fr,
    endor_base: &EdwardsAffine,
    scalar_2: &Fr,
) -> (res: EdwardsProjective)
    ensures
        res@ == multi_scalar_mul_coords(base@, scalar_1@, endor_base@, scalar_2@),
        scalar_1@ == 0 && scalar_2@ == 0 ==> res@ == identity_coords(),
{
    let mut b1 = affine_into_projective(base);
    let mut s1 = *scalar_1;
    let mut b2 = affine_into_projective(endor_base);
    let mut s2 = *scalar_2;

    let r_over_2 = Fr::half_modulus();
    proof {
        use_type_invariant(scalar_1);
        use_type_invariant(scalar_2);
    }

    if s1.gt(&r_over_2) {
        b1 = projective_neg(&b1);
        s1 = fr_neg(&s1);
    }
    if s2.gt(&r_over_2) {
        b2 = projective_neg(&b2);
        s2 = fr_neg(&s2);
    }
    assert(s1@ == scalar_magnitude(scalar_1@));
    assert(s2@ == scalar_magnitude(scalar_2@));

    let b1b2 = projective_add(&b1, &b2);

    let s1_bits = fr_bits_le(&s1);
    let s2_bits = fr_bits_le(&s2);
    let s1_len = get_bits(s1_bits.as_slice());
    let s2_len = get_bits(s2_bits.as_slice());
    let len: usize = if s1_len > s2_len {
        s1_len as usize
    } else {
        s2_len as usize
    };

    proof {
        use_type_invariant(&s1);
        use_type_invariant(&s2);
        lemma_pow2_256();
        assert(is_bits_of(s1_bits@, s1@));
        assert(is_bits_of(s2_bits@, s2@));
        lemma_bit_length_bounds(s1_bits@, s1@);
        lemma_bit_length_bounds(s2_bits@, s2@);
        if s1_len < len {
            lemma_pow2_strictly_increases(s1_len as nat, len as nat);
        }
        if s2_len < len {
            lemma_pow2_strictly_increases(s2_len as nat, len as nat);
        }
        lemma_shift_zero(s1@, len as nat);
        lemma_shift_zero(s2@, len as nat);
    }

    let mut res = projective_zero();
    let mut i: usize = 0;
    while i < len
        invariant
            i <= len,
            len <= 256,
            s1_bits@.len() == 256,
            s2_bits@.len() == 256,
            forall|k: int| 0 <= k < 256 ==> s1_bits@[k] == bit_of(s1@, k as nat),
            forall|k: int| 0 <= k < 256 ==> s2_bits@[k] == bit_of(s2@, k as nat),
            len > 0 ==> s1@ >= pow2((len - 1) as nat) || s2@ >= pow2((len - 1) as nat),
            b1b2@ == edwards_add(b1@, b2@),
            res@ == joint_double_and_add(
                b1@,
                b2@,
                b1b2@,
                s1@ / pow2((len - i) as nat),
                s2@ / pow2((len - i) as nat),
            ),
        decreases len - i,
    {
        let j: usize = len - i - 1;
        let ghost a = s1@ / pow2(j as nat);
        let ghost b = s2@ / pow2(j as nat);
        proof {
            lemma_shift_step(s1@, j as nat);
            lemma_shift_step(s2@, j as nat);
            if j < len - 1 {
                lemma_pow2_strictly_increases(j as nat, (len - 1) as nat);
            }
            lemma_shift_zero(s1@, j as nat);
            lemma_shift_zero(s2@, j as nat);
        }
        res = projective_double(&res);
        if s1_bits[j] && !s2_bits[j] {
            res = projective_add(&res, &b1);
        }
        if !s1_bits[j] && s2_bits[j] {
            res = projective_add(&res, &b2);
        }
        if s1_bits[j] && s2_bits[j] {
            res = projective_add(&res, &b1b2);
        }
        proof {
            lemma_ladder_step(b1@, b2@, b1b2@, a, b);
        }
        i = i + 1;
    }
    proof {
        lemma2_to64();
        let one = pow2((len - i) as nat);
        assert(s1@ / one == s1@ && s2@ / one == s2@) by (nonlinear_arith)
            requires
                one == 1,
        ;
    }
    res
}

} // verus!
