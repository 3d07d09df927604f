use ark_ec::{AffineRepr, CurveGroup};
use ark_ed_on_bls12_381_bandersnatch::{EdwardsAffine as ArkAffine, Fq as ArkFq, Fr as ArkFr};
use ark_ff::{BigInt, PrimeField};
use bandersnatch_glv::{EdwardsAffine, EdwardsParameters, Fq, GLVParameters};
use std::str::FromStr;

const LAMBDA: &str =
    "8913659658109529928382530854484400854125314752504019737736543920008458395397";

fn fq(x: ArkFq) -> Fq {
    Fq::from_limbs(x.into_bigint().0).unwrap()
}

fn ark_fq(x: &Fq) -> ArkFq {
    ArkFq::from_bigint(BigInt(x.to_limbs())).unwrap()
}

fn point(p: ArkAffine) -> EdwardsAffine {
    EdwardsAffine { x: fq(p.x), y: fq(p.y) }
}

fn ark_point(p: &EdwardsAffine) -> ArkAffine {
    ArkAffine::new_unchecked(ark_fq(&p.x), ark_fq(&p.y))
}

fn base_element(s: &str) -> Fq {
    fq(ArkFq::from_str(s).unwrap())
}

#[test]
fn image_of_the_generator_is_exact() {
    let g = point(ArkAffine::generator());
    assert_eq!(
        g.x.to_limbs(),
        [0xe1e71866a252ae18, 0x2b79c022ad998465, 0x743711777bbe42f3, 0x29c132cc2c0b34c5]
    );
    let image = EdwardsParameters::endomorphism(&g);
    assert_eq!(
        image.x,
        base_element("9410140894439863935332762565785171069688954753118397683297156406757263156480")
    );
    assert_eq!(
        image.y,
        base_element("42897121562489438146646031041430560066848200730688375538592044941290600261670")
    );
    assert_eq!(
        image.x.to_limbs(),
        [0xbe86f1d3fc082500, 0xe95b0630e7ab3896, 0xfebaeae9bb280639, 0x14cdf374d84c663d]
    );
    assert_eq!(
        image.y.to_limbs(),
        [0x6c4d6eb76879e826, 0x809e0158ab974b7e, 0x544d39a99e00186d, 0x5ed6e90f76b63e6c]
    );
}

#[test]
fn endomorphism_multiplies_by_lambda() {
    let lambda = ArkFr::from_str(LAMBDA).unwrap();
    let g = ArkAffine::generator();
    for m in [1u64, 2, 3, 7, 1000003, 0xdeadbeefcafef00d] {
        let p = (g * ArkFr::from(m)).into_affine();
        let image = EdwardsParameters::endomorphism(&point(p));
        assert_eq!(ark_point(&image), (p * lambda).into_affine());
        assert!(ark_point(&image).is_on_curve());
    }
}

#[test]
fn endomorphism_twice_multiplies_by_lambda_squared() {
    let lambda = ArkFr::from_str(LAMBDA).unwrap();
    let g = ArkAffine::generator();
    let once = EdwardsParameters::endomorphism(&point(g));
    let twice = EdwardsParameters::endomorphism(&once);
    assert_eq!(ark_point(&twice), (g * (lambda * lambda)).into_affine());
    // lambda^2 = -2 modulo r
    assert_eq!(ark_point(&twice), (g * (-ArkFr::from(2u64))).into_affine());
}

#[test]
fn endomorphism_is_defined_on_the_subgroup() {
    let g = ArkAffine::generator();
    for m in [1u64, 2, 5, 11, 0x0123456789abcdef] {
        let p = (g * ArkFr::from(m)).into_affine();
        assert!(EdwardsParameters::endomorphism_is_defined(&point(p)));
    }
}

#[test]
fn endomorphism_is_undefined_where_the_denominator_vanishes() {
    let x = base_element("5");
    // y = 0
    let p = EdwardsAffine { x, y: base_element("0") };
    assert!(!EdwardsParameters::endomorphism_is_defined(&p));
    // y = -C1 and y = -C2, the roots of h
    let c1 = ark_fq(&EdwardsParameters::coeff_c1());
    let c2 = ark_fq(&EdwardsParameters::coeff_c2());
    assert!(!EdwardsParameters::endomorphism_is_defined(&EdwardsAffine { x, y: fq(-c1) }));
    assert!(!EdwardsParameters::endomorphism_is_defined(&EdwardsAffine { x, y: fq(-c2) }));
    // the neutral element (0, 1) has an image: itself
    let zero = point(ArkAffine::zero());
    assert!(EdwardsParameters::endomorphism_is_defined(&zero));
    assert_eq!(EdwardsParameters::endomorphism(&zero), zero);
}

#[test]
fn endomorphism_constants_are_those_of_the_map() {
    assert_eq!(
        EdwardsParameters::coeff_a1(),
        base_element("16179988757916560824577558193084210236647645729299773892093730683504906651604")
    );
    assert_eq!(
        EdwardsParameters::coeff_a2(),
        base_element("37446463827641770816307242315180085052603635617490163568005256780843403514036")
    );
    assert_eq!(
        EdwardsParameters::coeff_a3(),
        base_element("14989411347484419663140498193005880785086916883037474254598401919095177670477")
    );
    assert_eq!(
        EdwardsParameters::coeff_b1(),
        base_element("37446463827641770816307242315180085052603635617490163568005256780843403514036")
    );
    assert_eq!(
        EdwardsParameters::coeff_b2(),
        base_element("36553259151239542273674161596529768046449890757310263666255995151154432137034")
    );
    assert_eq!(
        EdwardsParameters::coeff_b3(),
        base_element("15882616023886648205773578911656197791240661743217374156347663548784149047479")
    );
    assert_eq!(
        EdwardsParameters::coeff_c1(),
        base_element("42910309089382041158038545419309140955400939872179826051492616687477682993077")
    );
    assert_eq!(
        EdwardsParameters::coeff_c2(),
        base_element("9525566085744149321409195088876824882289612628347811771111042012460898191436")
    );
}
