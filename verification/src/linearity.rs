//! What the multiplications compute in a group of order `r`.
//!
//! The sum and the double of two points are computed by `ark-ec`, and this
//! library knows their coordinates by name only. The statements here hold
//! for whatever these operations are, as long as they act as a group of
//! order `r` on some set of coordinates: as long as every point of the set
//! can be given a number, its multiple of a generator, that the operations
//! add, double and negate modulo `r`.

use crate::curve::{edwards_add, edwards_double, identity_coords, lift_coords, neg_coords};
use crate::decomposition::{decomposition, lemma_decomposition_recombines};
use crate::endomorphism::endomorphism_coords;
use crate::fields::{scalar_half, scalar_magnitude, scalar_modulus};
use crate::glv::glv_mul_coords;
use crate::msm::{joint_double_and_add, multi_scalar_mul_coords, signed_base};
use crate::params::lambda;
use vstd::arithmetic::div_mod::{lemma_fundamental_div_mod, lemma_mod_multiples_basic};
use vstd::prelude::*;

verus! {

/// Whether `x` and `y` are equal modulo `r`.
pub open spec fn congruent(x: int, y: int) -> bool {
    (x - y) % (scalar_modulus() as int) == 0
}

/// Whether the point operations act on the set `dom` of coordinates as a
/// group of order `r`, with `val` giving every point of the set its multiple
/// of a generator: the set holds the neutral element and is closed under
/// doubling, addition and negation, and `val` turns these into doubling,
/// addition and negation modulo `r`.
pub open spec fn is_additive(
    dom: spec_fn((nat, nat, nat, nat)) -> bool,
    val: spec_fn((nat, nat, nat, nat)) -> int,
) -> bool {
    &&& dom(identity_coords())
    &&& congruent(val(identity_coords()), 0)
    &&& forall|a: (nat, nat, nat, nat)|
        dom(a) ==> dom(#[trigger] edwards_double(a)) && congruent(
            val(edwards_double(a)),
            2 * val(a),
        )
    &&& forall|a: (nat, nat, nat, nat), b: (nat, nat, nat, nat)|
        dom(a) && dom(b) ==> dom(#[trigger] edwards_add(a, b)) && congruent(
            val(edwards_add(a, b)),
            val(a) + val(b),
        )
    &&& forall|a: (nat, nat, nat, nat)|
        dom(a) ==> dom(#[trigger] neg_coords(a)) && congruent(val(neg_coords(a)), -val(a))
}

/// Plain double-and-add: `k * p`, built from the top bit of `k` down.
pub open spec fn double_and_add(p: (nat, nat, nat, nat), k: nat) -> (nat, nat, nat, nat)
    decreases k,
{
    if k == 0 {
        identity_coords()
    } else {
        let acc = edwards_double(double_and_add(p, k / 2));
        if k % 2 == 1 {
            edwards_add(acc, p)
        } else {
            acc
        }
    }
}

/// The multiple of `r` by which two congruent numbers differ.
proof fn congruence_factor(x: int, y: int) -> (k: int)
    requires
        congruent(x, y),
    ensures
        x - y == scalar_modulus() * k,
{
    lemma_fundamental_div_mod(x - y, scalar_modulus() as int);
    (x - y) / (scalar_modulus() as int)
}

/// Numbers that differ by a multiple of `r` are congruent.
proof fn lemma_congruent(x: int, y: int, k: int)
    requires
        x - y == scalar_modulus() * k,
    ensures
        congruent(x, y),
{
    lemma_mod_multiples_basic(k, scalar_modulus() as int);
    assert(k * scalar_modulus() == scalar_modulus() * k) by (nonlinear_arith);
}

/// Numbers with the same residue are congruent.
proof fn lemma_same_residue(x: int, y: int)
    requires
        x % (scalar_modulus() as int) == y % (scalar_modulus() as int),
    ensures
        congruent(x, y),
{
    let r = scalar_modulus() as int;
    lemma_fundamental_div_mod(x, r);
    lemma_fundamental_div_mod(y, r);
    let k = x / r - y / r;
    assert(r * k == r * (x / r) - r * (y / r)) by (nonlinear_arith)
        requires
            k == x / r - y / r,
    ;
    lemma_congruent(x, y, k);
}

/// Plain double-and-add multiplies by the scalar.
pub proof fn lemma_double_and_add_is_multiple(
    dom: spec_fn((nat, nat, nat, nat)) -> bool,
    val: spec_fn((nat, nat, nat, nat)) -> int,
    p: (nat, nat, nat, nat),
    k: nat,
)
    requires
        is_additive(dom, val),
        dom(p),
    ensures
        dom(double_and_add(p, k)),
        congruent(val(double_and_add(p, k)), k * val(p)),
    decreases k,
{
    let r = scalar_modulus() as int;
    if k == 0 {
        assert(k * val(p) == 0) by (nonlinear_arith)
            requires
                k == 0,
        ;
    } else {
        let h = k / 2;
        let above = double_and_add(p, h);
        lemma_double_and_add_is_multiple(dom, val, p, h);
        let acc = edwards_double(above);
        let k0 = congruence_factor(val(above), h * val(p));
        let k1 = congruence_factor(val(acc), 2 * val(above));
        let hv = h * val(p);
        if k % 2 == 1 {
            let res = edwards_add(acc, p);
            let k2 = congruence_factor(val(res), val(acc) + val(p));
            assert(k * val(p) == 2 * hv + val(p)) by (nonlinear_arith)
                requires
                    k == 2 * h + 1,
                    hv == h * val(p),
            ;
            assert(r * (2 * k0 + k1 + k2) == 2 * (r * k0) + r * k1 + r * k2) by (nonlinear_arith);
            lemma_congruent(val(res), k * val(p), 2 * k0 + k1 + k2);
        } else {
            assert(k * val(p) == 2 * hv) by (nonlinear_arith)
                requires
                    k == 2 * h,
                    hv == h * val(p),
            ;
            assert(r * (2 * k0 + k1) == 2 * (r * k0) + r * k1) by (nonlinear_arith);
            lemma_congruent(val(acc), k * val(p), 2 * k0 + k1);
        }
    }
}

/// Joint double-and-add computes the linear combination `a * p + b * q`.
pub proof fn lemma_joint_double_and_add_is_linear(
    dom: spec_fn((nat, nat, nat, nat)) -> bool,
    val: spec_fn((nat, nat, nat, nat)) -> int,
    p: (nat, nat, nat, nat),
    q: (nat, nat, nat, nat),
    pq: (nat, nat, nat, nat),
    a: nat,
    b: nat,
)
    requires
        is_additive(dom, val),
        dom(p),
        dom(q),
        dom(pq),
        congruent(val(pq), val(p) + val(q)),
    ensures
        dom(joint_double_and_add(p, q, pq, a, b)),
        congruent(val(joint_double_and_add(p, q, pq, a, b)), a * val(p) + b * val(q)),
    decreases a + b,
{
    let r = scalar_modulus() as int;
    if a == 0 && b == 0 {
        assert(a * val(p) + b * val(q) == 0) by (nonlinear_arith)
            requires
                a == 0,
                b == 0,
        ;
    } else {
        let ha = a / 2;
        let hb = b / 2;
        let da = (a % 2) as int;
        let db = (b % 2) as int;
        let above = joint_double_and_add(p, q, pq, ha, hb);
        lemma_joint_double_and_add_is_linear(dom, val, p, q, pq, ha, hb);
        let acc = edwards_double(above);
        let res = joint_double_and_add(p, q, pq, a, b);
        let k0 = congruence_factor(val(above), ha * val(p) + hb * val(q));
        let k1 = congruence_factor(val(acc), 2 * val(above));
        let k3 = congruence_factor(val(pq), val(p) + val(q));
        let hp = ha * val(p);
        let hq = hb * val(q);
        assert(a * val(p) == 2 * hp + da * val(p)) by (nonlinear_arith)
            requires
                a == 2 * ha + da,
                hp == ha * val(p),
        ;
        assert(b * val(q) == 2 * hq + db * val(q)) by (nonlinear_arith)
            requires
                b == 2 * hb + db,
                hq == hb * val(q),
        ;
        assert(da * val(p) == (if da == 1 {
            val(p)
        } else {
            0
        })) by (nonlinear_arith)
            requires
                da == 0 || da == 1,
        ;
        assert(db * val(q) == (if db == 1 {
            val(q)
        } else {
            0
        })) by (nonlinear_arith)
            requires
                db == 0 || db == 1,
        ;
        let k2 = if da == 1 && db == 1 {
            congruence_factor(val(res), val(acc) + val(pq))
        } else if da == 1 {
            congruence_factor(val(res), val(acc) + val(p))
        } else if db == 1 {
            congruence_factor(val(res), val(acc) + val(q))
        } else {
            0
        };
        let k4 = if da == 1 && db == 1 {
            k3
        } else {
            0
        };
        assert(r * (2 * k0 + k1 + k2 + k4) == 2 * (r * k0) + r * k1 + r * k2 + r * k4)
            by (nonlinear_arith);
        lemma_congruent(val(res), a * val(p) + b * val(q), 2 * k0 + k1 + k2 + k4);
    }
}

/// The joint multiplication computes the linear combination
/// `s1 * base + s2 * endo_base`.
pub proof fn lemma_multi_scalar_mul_is_linear(
    dom: spec_fn((nat, nat, nat, nat)) -> bool,
    val: spec_fn((nat, nat, nat, nat)) -> int,
    base: (nat, nat),
    s1: nat,
    endo_base: (nat, nat),
    s2: nat,
)
    requires
        is_additive(dom, val),
        dom(lift_coords(base)),
        dom(lift_coords(endo_base)),
        s1 < scalar_modulus(),
        s2 < scalar_modulus(),
    ensures
        dom(multi_scalar_mul_coords(base, s1, endo_base, s2)),
        congruent(
            val(multi_scalar_mul_coords(base, s1, endo_base, s2)),
            s1 * val(lift_coords(base)) + s2 * val(lift_coords(endo_base)),
        ),
{
    let r = scalar_modulus() as int;
    let p = lift_coords(base);
    let q = lift_coords(endo_base);
    let b1 = signed_base(s1, p);
    let b2 = signed_base(s2, q);
    let m1 = scalar_magnitude(s1);
    let m2 = scalar_magnitude(s2);
    let pq = edwards_add(b1, b2);
    lemma_joint_double_and_add_is_linear(dom, val, b1, b2, pq, m1, m2);
    let res = joint_double_and_add(b1, b2, pq, m1, m2);
    let k0 = congruence_factor(val(res), m1 * val(b1) + m2 * val(b2));
    let c1 = lemma_signed_product(val(p), val(b1), s1, m1);
    let c2 = lemma_signed_product(val(q), val(b2), s2, m2);
    assert(r * (k0 + c1 + c2) == r * k0 + r * c1 + r * c2) by (nonlinear_arith);
    lemma_congruent(val(res), s1 * val(p) + s2 * val(q), k0 + c1 + c2);
}

/// A magnitude times the value of its signed point is the scalar times the
/// value of the point, up to the multiple of `r` that is returned.
proof fn lemma_signed_product(v: int, w: int, s: nat, m: nat) -> (c: int)
    requires
        s < scalar_modulus(),
        m == scalar_magnitude(s),
        s > scalar_half() ==> congruent(w, -v),
        s <= scalar_half() ==> w == v,
    ensures
        m * w - s * v == scalar_modulus() * c,
{
    let r = scalar_modulus() as int;
    if s > scalar_half() {
        let k = congruence_factor(w, -v);
        let c = m * k - v;
        assert(m * w - s * v == r * c) by (nonlinear_arith)
            requires
                m == r - s,
                w + v == r * k,
                c == m * k - v,
        ;
        c
    } else {
        assert(m * w - s * v == r * 0) by (nonlinear_arith)
            requires
                m == s,
                w == v,
        ;
        0
    }
}

/// The GLV multiplication multiplies by the scalar, and so computes what
/// plain double-and-add computes, wherever the endomorphism multiplies by
/// `lambda` at the point.
pub proof fn lemma_glv_mul_is_multiple(
    dom: spec_fn((nat, nat, nat, nat)) -> bool,
    val: spec_fn((nat, nat, nat, nat)) -> int,
    base: (nat, nat),
    k: nat,
)
    requires
        is_additive(dom, val),
        dom(lift_coords(base)),
        dom(lift_coords(endomorphism_coords(base))),
        congruent(
            val(lift_coords(endomorphism_coords(base))),
            lambda() * val(lift_coords(base)),
        ),
    ensures
        dom(glv_mul_coords(base, k)),
        congruent(val(glv_mul_coords(base, k)), k * val(lift_coords(base))),
        congruent(val(glv_mul_coords(base, k)), val(double_and_add(lift_coords(base), k))),
{
    let r = scalar_modulus() as int;
    let p = lift_coords(base);
    let q = lift_coords(endomorphism_coords(base));
    let k1 = decomposition(k).0;
    let k2 = decomposition(k).1;
    let res = glv_mul_coords(base, k);
    lemma_multi_scalar_mul_is_linear(dom, val, base, k1, endomorphism_coords(base), k2);
    lemma_decomposition_recombines(k);
    let c0 = congruence_factor(val(res), k1 * val(p) + k2 * val(q));
    let c1 = congruence_factor(val(q), lambda() * val(p));
    lemma_same_residue((k1 + lambda() * k2) as int, k as int);
    let c2 = congruence_factor((k1 + lambda() * k2) as int, k as int);
    let vp = val(p);
    let l = lambda() as int;
    let c = c0 + k2 * c1 + c2 * vp;
    assert(val(res) - k * vp == r * c) by (nonlinear_arith)
        requires
            val(res) - (k1 * vp + k2 * val(q)) == r * c0,
            val(q) - l * vp == r * c1,
            k1 + l * k2 - k == r * c2,
            c == c0 + k2 * c1 + c2 * vp,
    ;
    lemma_congruent(val(res), k * vp, c);

    lemma_double_and_add_is_multiple(dom, val, p, k);
    let d = congruence_factor(val(double_and_add(p, k)), k * vp);
    assert(r * (c - d) == r * c - r * d) by (nonlinear_arith);
    lemma_congruent(val(res), val(double_and_add(p, k)), c - d);
}

} // verus!
