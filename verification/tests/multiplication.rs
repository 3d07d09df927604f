use ark_ec::{AffineRepr, CurveGroup, Group};
use ark_ed_on_bls12_381_bandersnatch::{
    EdwardsAffine as ArkAffine, EdwardsProjective as ArkProjective, Fq as ArkFq, Fr as ArkFr,
};
use ark_ff::{BigInt, BigInteger, PrimeField};
use ark_std::Zero;
use bandersnatch_glv::{
    multi_scalar_mul, EdwardsAffine, EdwardsParameters, EdwardsProjective, Fq, Fr, GLVParameters,
};
use std::str::FromStr;

fn fq(x: ArkFq) -> Fq {
    Fq::from_limbs(x.into_bigint().0).unwrap()
}

fn ark_fq(x: &Fq) -> ArkFq {
    ArkFq::from_bigint(BigInt(x.to_limbs())).unwrap()
}

fn scalar(x: ArkFr) -> Fr {
    Fr::from_limbs(x.into_bigint().0).unwrap()
}

fn point(p: ArkAffine) -> EdwardsAffine {
    EdwardsAffine { x: fq(p.x), y: fq(p.y) }
}

fn ark_projective(p: &EdwardsProjective) -> ArkProjective {
    ArkProjective::new_unchecked(ark_fq(&p.x), ark_fq(&p.y), ark_fq(&p.t), ark_fq(&p.z))
}

/// Plain double-and-add over all the bits of the scalar.
fn double_and_add(p: ArkAffine, k: ArkFr) -> ArkProjective {
    let mut acc = ArkProjective::zero();
    for bit in k.into_bigint().to_bits_be() {
        acc = acc.double();
        if bit {
            acc += p;
        }
    }
    acc
}

fn sample_scalars() -> Vec<ArkFr> {
    let mut v = vec![
        ArkFr::from(0u64),
        ArkFr::from(1u64),
        ArkFr::from(2u64),
        -ArkFr::from(1u64),
        -ArkFr::from(2u64),
        ArkFr::from_str("115515606261927299903142999927150814555").unwrap(),
        ArkFr::from_bigint(ArkFr::MODULUS_MINUS_ONE_DIV_TWO).unwrap(),
        ArkFr::from_bigint(ArkFr::MODULUS_MINUS_ONE_DIV_TWO).unwrap() + ArkFr::from(1u64),
    ];
    let mut x = ArkFr::from(0x6a09e667f3bcc908u64);
    for _ in 0..12 {
        x = x * x + ArkFr::from(0xbb67ae8584caa73bu64);
        v.push(x);
    }
    v
}

#[test]
fn unit_and_zero_scalars_pick_the_first_point() {
    let g = ArkAffine::generator();
    let p = (g * ArkFr::from(5u64)).into_affine();
    let q = (g * ArkFr::from(11u64)).into_affine();
    let res = multi_scalar_mul(
        &point(p),
        &scalar(ArkFr::from(1u64)),
        &point(q),
        &scalar(ArkFr::from(0u64)),
    );
    assert_eq!(ark_projective(&res), p.into_group());
}

#[test]
fn zero_and_unit_scalars_pick_the_second_point() {
    let g = ArkAffine::generator();
    let p = (g * ArkFr::from(5u64)).into_affine();
    let q = (g * ArkFr::from(11u64)).into_affine();
    let res = multi_scalar_mul(
        &point(p),
        &scalar(ArkFr::from(0u64)),
        &point(q),
        &scalar(ArkFr::from(1u64)),
    );
    assert_eq!(ark_projective(&res), q.into_group());
}

#[test]
fn zero_scalars_give_the_neutral_element() {
    let g = ArkAffine::generator();
    let p = (g * ArkFr::from(5u64)).into_affine();
    let q = (g * ArkFr::from(11u64)).into_affine();
    let zero = scalar(ArkFr::from(0u64));
    let res = multi_scalar_mul(&point(p), &zero, &point(q), &zero);
    assert_eq!(res.x.to_limbs(), [0, 0, 0, 0]);
    assert_eq!(res.y.to_limbs(), [1, 0, 0, 0]);
    assert_eq!(res.t.to_limbs(), [0, 0, 0, 0]);
    assert_eq!(res.z.to_limbs(), [1, 0, 0, 0]);
    assert!(ark_projective(&res).is_zero());
}

#[test]
fn joint_multiplication_is_the_sum_of_the_two_products() {
    let g = ArkAffine::generator();
    let p = (g * ArkFr::from(3u64)).into_affine();
    let q = (g * ArkFr::from(0x1234567u64)).into_affine();
    let scalars = sample_scalars();
    for (i, s1) in scalars.iter().enumerate() {
        let s2 = scalars[(i * 7 + 3) % scalars.len()];
        let res = multi_scalar_mul(&point(p), &scalar(*s1), &point(q), &scalar(s2));
        assert_eq!(ark_projective(&res), double_and_add(p, *s1) + double_and_add(q, s2));
    }
}

#[test]
fn scalars_above_half_negate_their_point() {
    let g = ArkAffine::generator();
    let q = (g * ArkFr::from(9u64)).into_affine();
    // -1 is r - 1: one addition of -G
    let res = multi_scalar_mul(
        &point(g),
        &scalar(-ArkFr::from(1u64)),
        &point(q),
        &scalar(ArkFr::from(0u64)),
    );
    assert_eq!(ark_projective(&res), -g.into_group());
    let res = multi_scalar_mul(
        &point(g),
        &scalar(ArkFr::from(2u64)),
        &point(q),
        &scalar(-ArkFr::from(3u64)),
    );
    assert_eq!(ark_projective(&res), g.into_group().double() - q * ArkFr::from(3u64));
}

#[test]
fn glv_mul_agrees_with_double_and_add() {
    let g = ArkAffine::generator();
    for m in [1u64, 2, 0xfeedface] {
        let p = (g * ArkFr::from(m)).into_affine();
        for k in sample_scalars() {
            let res = EdwardsParameters::glv_mul(&point(p), &scalar(k));
            assert_eq!(ark_projective(&res), double_and_add(p, k));
            assert_eq!(ark_projective(&res), p * k);
        }
    }
}

#[test]
fn glv_mul_by_the_largest_scalar_negates_the_generator() {
    let g = ArkAffine::generator();
    let k = Fr::from_limbs([
        0x74fd06b52876e7e0,
        0xff8f870074190471,
        0x0cce760202687600,
        0x1cfb69d4ca675f52,
    ])
    .unwrap();
    assert_eq!(k, scalar(-ArkFr::from(1u64)));
    let res = EdwardsParameters::glv_mul(&point(g), &k);
    assert_eq!(ark_projective(&res), -g.into_group());
    assert_eq!(ark_projective(&res).into_affine(), -g);
}

#[test]
fn glv_mul_by_zero_gives_the_neutral_element() {
    let g = ArkAffine::generator();
    let zero = scalar(ArkFr::from(0u64));
    for m in [1u64, 2, 77, 0x0123456789abcdef] {
        let p = (g * ArkFr::from(m)).into_affine();
        let res = EdwardsParameters::glv_mul(&point(p), &zero);
        assert!(ark_projective(&res).is_zero());
        assert_eq!(res.x.to_limbs(), [0, 0, 0, 0]);
        assert_eq!(res.y.to_limbs(), [1, 0, 0, 0]);
        assert_eq!(res.t.to_limbs(), [0, 0, 0, 0]);
        assert_eq!(res.z.to_limbs(), [1, 0, 0, 0]);
    }
}

#[test]
fn glv_mul_by_one_gives_the_point() {
    let g = ArkAffine::generator();
    let res = EdwardsParameters::glv_mul(&point(g), &scalar(ArkFr::from(1u64)));
    assert_eq!(ark_projective(&res), g.into_group());
}
