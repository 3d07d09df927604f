//! The GLV method: the endomorphism, the decomposition of a scalar, and the
//! multiplication that joins them.

use crate::curve::{
    identity_coords, projective_into_affine, EdwardsAffine, EdwardsProjective,
};
use crate::decomposition::{
    babai_coefficient, decomposition, lemma_decomposition_is_short,
    lemma_decomposition_recombines, lemma_field_steps,
};
use crate::endomorphism::{
    endomorphism_coords, endomorphism_defined, endomorphism_projective, lemma_cubic_steps,
    lemma_product_steps, lemma_quadratic_steps,
};
use crate::fields::{
    base_modulus, fq_add, fq_mul, fr_add, fr_from_digits, fr_mul, fr_neg, fr_sub,
    scalar_magnitude, scalar_modulus, scalar_modulus_limbs, Fq, Fr,
};
use crate::msm::{multi_scalar_mul, multi_scalar_mul_coords};
use crate::params::{
    endo_a1, endo_a2, endo_a3, endo_b1, endo_b2, endo_b3, endo_c1, endo_c2, lambda, lattice_n11,
    lattice_n12, lattice_n21,
};
use crate::wide::{wide_div, wide_mul};
use vstd::arithmetic::power2::pow2;
use vstd::prelude::*;

verus! {

/// The coordinates of `k * base` as the GLV method computes them:
/// `k1 * base + k2 * phi(base)` for the decomposition `(k1, k2)` of `k`.
pub open spec fn glv_mul_coords(base: (nat, nat), k: nat) -> (nat, nat, nat, nat) {
    multi_scalar_mul_coords(
        base,
        decomposition(k).0,
        endomorphism_coords(base),
        decomposition(k).1,
    )
}

/// Multiplying any point by the scalar 0 gives the neutral element.
pub proof fn lemma_glv_mul_zero(base: (nat, nat))
    ensures
        glv_mul_coords(base, 0) == identity_coords(),
{
    assert(decomposition(0) == (0nat, 0nat));
}

/// What a curve needs for the GLV method: the constants of its endomorphism
/// and of its lattice basis, and the three operations built on them.
pub trait GLVParameters: Send + Sync + 'static {
    type BaseField;

    type ScalarField;

    type CurveAffine;

    type CurveProjective;

    /// Coefficient `A1` of `f(y) = A1 * (y + A2) * (y + A3)`.
    fn coeff_a1() -> Self::BaseField;

    /// Coefficient `A2` of `f`.
    fn coeff_a2() -> Self::BaseField;

    /// Coefficient `A3` of `f`.
    fn coeff_a3() -> Self::BaseField;

    /// Coefficient `B1` of `g(y) = B1 * (y + B2) * (y + B3)`.
    fn coeff_b1() -> Self::BaseField;

    /// Coefficient `B2` of `g`.
    fn coeff_b2() -> Self::BaseField;

    /// Coefficient `B3` of `g`.
    fn coeff_b3() -> Self::BaseField;

    /// Coefficient `C1` of `h(y) = (y + C1) * (y + C2)`.
    fn coeff_c1() -> Self::BaseField;

    /// Coefficient `C2` of `h`.
    fn coeff_c2() -> Self::BaseField;

    /// Entry (1, 1) of the lattice basis.
    fn coeff_n11() -> Self::ScalarField;

    /// Entry (1, 2) of the lattice basis.
    fn coeff_n12() -> Self::ScalarField;

    /// Entry (2, 1) of the lattice basis.
    fn coeff_n21() -> Self::ScalarField;

    /// Entry (2, 2) of the lattice basis.
    fn coeff_n22() -> Self::ScalarField;

    /// Whether the endomorphism is defined at `base`.
    spec fn has_endomorphism(base: &Self::CurveAffine) -> bool;

    /// Maps a point `P` to `phi(P) = lambda * P`.
    fn endomorphism(base: &Self::CurveAffine) -> Self::CurveAffine
        requires
            Self::has_endomorphism(base),
    ;

    /// Decomposes a scalar `k` into `(k1, k2)` with
    /// `k = k1 + lambda * k2 (mod r)`.
    fn scalar_decomposition(k: &Self::ScalarField) -> (Self::ScalarField, Self::ScalarField);

    /// Multiplies `base` by `scalar`.
    fn glv_mul(base: &Self::CurveAffine, scalar: &Self::ScalarField) -> Self::CurveProjective
        requires
            Self::has_endomorphism(base),
    ;
}

/// The Bandersnatch curve in twisted Edwards form.
pub struct EdwardsParameters;

impl EdwardsParameters {
    /// Whether the endomorphism is defined at `base`: whether `h(y) * y`,
    /// by which its image is divided, is not 0.
    pub fn endomorphism_is_defined(base: &EdwardsAffine) -> (b: bool)
        ensures
            b == Self::has_endomorphism(base),
    {
        let y = base.y;
        let hy = fq_mul(&fq_add(&y, &Self::coeff_c1()), &fq_add(&y, &Self::coeff_c2()));
        proof {
            lemma_quadratic_steps(endo_c1(), endo_c2(), y@, base_modulus());
        }
        !fq_mul(&hy, &y).is_zero()
    }
}

impl GLVParameters for EdwardsParameters {
    type BaseField = Fq;

    type ScalarField = Fr;

    type CurveAffine = EdwardsAffine;

    type CurveProjective = EdwardsProjective;

    fn coeff_a1() -> (c: Fq)
        ensures
            c@ == endo_a1(),
    {
        Fq::new([0x692f7ddaa306c7d4, 0x34fcd8fa17df036c, 0x960f739827ac1953, 0x23c58c92306dbb95])
    }

    fn coeff_a2() -> (c: Fq)
        ensures
            c@ == endo_a2(),
    {
        Fq::new([0xee0f014d172510b4, 0x2ea712770d9af4d6, 0x61f00d3a63511a88, 0x52c9f28b828426a5])
    }

    fn coeff_a3() -> (c: Fq)
        ensures
            c@ == endo_a3(),
    {
        Fq::new([0x11f0feb1e8daef4d, 0x2516918bf2636728, 0xd149cacda650bd7d, 0x2123b4c7a71956a2])
    }

    fn coeff_b1() -> (c: Fq)
        ensures
            c@ == endo_b1(),
    {
        Fq::new([0xee0f014d172510b4, 0x2ea712770d9af4d6, 0x61f00d3a63511a88, 0x52c9f28b828426a5])
    }

    fn coeff_b2() -> (c: Fq)
        ensures
            c@ == endo_b2(),
    {
        Fq::new([0x1c098cd1519b574a, 0xe07e867f02611eae, 0xb1b2745bd377e5bd, 0x50d06958b6e8ce1a])
    }

    fn coeff_b3() -> (c: Fq)
        ensures
            c@ == endo_b3(),
    {
        Fq::new([0xe3f6732dae64a8b7, 0x733f1d83fd9d3d50, 0x818763ac3629f247, 0x231d3dfa72b4af2d])
    }

    fn coeff_c1() -> (c: Fq)
        ensures
            c@ == endo_c1(),
    {
        Fq::new([0xfc1ae7171cc9f7b5, 0xf693de40b4c002a7, 0x71b70d491ebfddef, 0x5ede5fd005b839be])
    }

    fn coeff_c2() -> (c: Fq)
        ensures
            c@ == endo_c2(),
    {
        Fq::new([0x03e518e7e336084c, 0x5d29c5c24b3e5957, 0xc182cabeeae1fa15, 0x150f478323e54389])
    }

    fn coeff_n11() -> (c: Fr)
        ensures
            c@ == lattice_n11(),
    {
        Fr::new([0x4b02f94a9789181f, 0x555fe2004be6928e, 0, 0])
    }

    fn coeff_n12() -> (c: Fr)
        ensures
            c@ == lattice_n12(),
    {
        Fr::new([0xf8e2591a23d61f44, 0x0814b3eee55e8f5d, 0, 0])
    }

    fn coeff_n21() -> (c: Fr)
        ensures
            c@ == lattice_n21(),
    {
        Fr::new([0xf1c4b23447ac3e88, 0x102967ddcabd1ebb, 0, 0])
    }

    /// The negative of entry (1, 1), as a residue: `r - n11`.
    fn coeff_n22() -> (c: Fr)
        ensures
            c@ == scalar_modulus() - lattice_n11(),
    {
        Fr::new([0x29fa0d6a90edcfc2, 0xaa2fa500283271e3, 0x0cce760202687600, 0x1cfb69d4ca675f52])
    }

    open spec fn has_endomorphism(base: &EdwardsAffine) -> bool {
        endomorphism_defined(base@)
    }

    /// Evaluates the rational map `(x, y) -> (x * f(y) / y, g(y) / h(y))`.
    fn endomorphism(base: &EdwardsAffine) -> (image: EdwardsAffine)
        ensures
            image@ == endomorphism_coords(base@),
    {
        let x = base.x;
        let y = base.y;
        let ghost q = base_modulus();

        let fy = fq_mul(
            &fq_mul(&Self::coeff_a1(), &fq_add(&y, &Self::coeff_a2())),
            &fq_add(&y, &Self::coeff_a3()),
        );
        let gy = fq_mul(
            &fq_mul(&Self::coeff_b1(), &fq_add(&y, &Self::coeff_b2())),
            &fq_add(&y, &Self::coeff_b3()),
        );
        let hy = fq_mul(&fq_add(&y, &Self::coeff_c1()), &fq_add(&y, &Self::coeff_c2()));
        proof {
            lemma_cubic_steps(endo_a1(), endo_a2(), endo_a3(), y@, q);
            lemma_cubic_steps(endo_b1(), endo_b2(), endo_b3(), y@, q);
            lemma_quadratic_steps(endo_c1(), endo_c2(), y@, q);
            lemma_product_steps(x@, fy@, hy@, q);
        }

        let image = EdwardsProjective {
            x: fq_mul(&fq_mul(&x, &fy), &hy),
            y: fq_mul(&gy, &y),
            t: Fq::one(),
            z: fq_mul(&hy, &y),
        };
        assert(image@ == endomorphism_projective(base@));
        projective_into_affine(&image)
    }

    /// Decomposes `scalar` by Babai's nearest-plane rounding against the
    /// lattice basis.
    fn scalar_decomposition(scalar: &Fr) -> (res: (Fr, Fr))
        ensures
            (res.0@, res.1@) == decomposition(scalar@),
            (res.0@ + lambda() * res.1@) % scalar_modulus() == scalar@,
            scalar_magnitude(res.0@) < pow2(127),
            scalar_magnitude(res.1@) < pow2(127),
    {
        let n11 = Self::coeff_n11();
        let n12 = Self::coeff_n12();
        let n21 = Self::coeff_n21();
        let n22 = Self::coeff_n22();
        let r = scalar_modulus_limbs();

        // beta = (k, 0) * N^-1, rounded down
        let beta_1 = wide_mul(&scalar.to_limbs(), &n11.to_limbs());
        let beta_2 = wide_mul(&scalar.to_limbs(), &n12.to_limbs());
        let beta_1 = wide_div(&beta_1, &r);
        let beta_2 = wide_div(&beta_2, &r);

        // b = beta * N
        let beta_1 = fr_from_digits(&beta_1);
        let beta_2 = fr_from_digits(&beta_2);
        let b1 = fr_add(&fr_mul(&beta_1, &n11), &fr_mul(&beta_2, &n21));
        let b2 = fr_add(&fr_mul(&beta_1, &n12), &fr_mul(&beta_2, &n22));

        let k1 = fr_sub(scalar, &b1);
        let k2 = fr_neg(&b2);
        proof {
            use_type_invariant(scalar);
            lemma_decomposition_recombines(scalar@);
            lemma_decomposition_is_short(scalar@);
            lemma_field_steps(
                scalar@ as int,
                babai_coefficient(scalar@, lattice_n11()) as int,
                babai_coefficient(scalar@, lattice_n12()) as int,
                lattice_n11() as int,
                lattice_n12() as int,
                lattice_n21() as int,
                scalar_modulus() as int,
            );
        }
        (k1, k2)
    }

    /// Computes `scalar * base` as `k1 * base + k2 * phi(base)`, where
    /// `(k1, k2)` is the decomposition of `scalar`.
    fn glv_mul(base: &EdwardsAffine, scalar: &Fr) -> (res: EdwardsProjective)
        ensures
            res@ == glv_mul_coords(base@, scalar@),
            scalar@ == 0 ==> res@ == identity_coords(),
    {
        proof {
            lemma_glv_mul_zero(base@);
        }
        let psi_base = Self::endomorphism(base);
        let (k1, k2) = Self::scalar_decomposition(scalar);
        multi_scalar_mul(base, &k1, &psi_base, &k2)
    }
}

} // verus!
