use ark_ff::{BigInt, BigInteger, PrimeField};
use ark_ed_on_bls12_381_bandersnatch::Fr as ArkFr;
use bandersnatch_glv::{EdwardsParameters, Fr, GLVParameters};
use std::str::FromStr;

const LAMBDA: &str =
    "8913659658109529928382530854484400854125314752504019737736543920008458395397";

fn ark(s: &Fr) -> ArkFr {
    ArkFr::from_bigint(BigInt(s.to_limbs())).unwrap()
}

fn scalar(s: &str) -> Fr {
    Fr::from_limbs(ArkFr::from_str(s).unwrap().into_bigint().0).unwrap()
}

/// The bit length of the scalar read as a signed number.
fn magnitude_bits(s: &Fr) -> u32 {
    let a = ark(s);
    let m = if a.into_bigint() > ArkFr::MODULUS_MINUS_ONE_DIV_TWO { -a } else { a };
    m.into_bigint().num_bits()
}

fn sample_scalars() -> Vec<Fr> {
    let mut v = vec![
        scalar("0"),
        scalar("1"),
        scalar("2"),
        scalar("13108968793781547619861935127046491459309155893440570251786403306729687672800"),
        scalar("115515606261927299903142999927150814555"),
        scalar("115515606261927299903142999927150814554"),
        scalar("8234104123542484906572010032064808850921064262571995443881932229087025662105"),
        scalar("1606938044258990275541962092341162602522202993782792835313721"),
        scalar("6554484396890773809930967563523245729654577946720285125893201653364843836400"),
        scalar("6554484396890773809930967563523245729654577946720285125893201653364843836401"),
    ];
    let mut x = ArkFr::from(0x9e3779b97f4a7c15u64);
    for _ in 0..40 {
        x = x * x + ArkFr::from(0x2545f4914f6cdd1du64);
        v.push(Fr::from_limbs(x.into_bigint().0).unwrap());
    }
    v
}

#[test]
fn parts_recombine_to_the_scalar() {
    let lambda = ArkFr::from_str(LAMBDA).unwrap();
    for k in sample_scalars() {
        let (k1, k2) = EdwardsParameters::scalar_decomposition(&k);
        assert_eq!(ark(&k1) + lambda * ark(&k2), ark(&k));
    }
}

#[test]
fn parts_are_half_length() {
    for k in sample_scalars() {
        let (k1, k2) = EdwardsParameters::scalar_decomposition(&k);
        assert!(magnitude_bits(&k1) <= 127);
        assert!(magnitude_bits(&k2) <= 127);
        // the first part is short as a residue too
        assert!(ark(&k1).into_bigint().num_bits() <= 127);
    }
}

#[test]
fn zero_decomposes_to_zero() {
    let (k1, k2) = EdwardsParameters::scalar_decomposition(&scalar("0"));
    assert_eq!(k1.to_limbs(), [0, 0, 0, 0]);
    assert_eq!(k2.to_limbs(), [0, 0, 0, 0]);
}

#[test]
fn one_decomposes_to_itself() {
    let (k1, k2) = EdwardsParameters::scalar_decomposition(&scalar("1"));
    assert_eq!(k1.to_limbs(), [1, 0, 0, 0]);
    assert_eq!(k2.to_limbs(), [0, 0, 0, 0]);
}

#[test]
fn largest_scalar_decomposes_exactly() {
    let k = scalar("13108968793781547619861935127046491459309155893440570251786403306729687672800");
    let (k1, k2) = EdwardsParameters::scalar_decomposition(&k);
    assert_eq!(k1, scalar("134964870455455481639990048174690883238"));
    assert_eq!(
        k2,
        scalar("13108968793781547619861935127046491459206414981131289186809631278434596679430")
    );
    assert_eq!(k1.to_limbs(), [0x3cc7ab7edf3556a6, 0x658949de16a3b14a, 0, 0]);
    assert_eq!(
        k2.to_limbs(),
        [0x22dc6684b4c3ef06, 0xb24458ef0d910141, 0x0cce760202687600, 0x1cfb69d4ca675f52]
    );
}

#[test]
fn wide_scalar_decomposes_exactly() {
    let k = scalar("8234104123542484906572010032064808850921064262571995443881932229087025662105");
    assert_eq!(
        k.to_limbs(),
        [0x2233445566778899, 0xaabbccddeeff0011, 0xfedcba9876543210, 0x123456789abcdef0]
    );
    let (k1, k2) = EdwardsParameters::scalar_decomposition(&k);
    assert_eq!(k1, scalar("75910423384072108428775486776018856999"));
    assert_eq!(
        k2,
        scalar("13108968793781547619861935127046491459208468488586077414675047538684427226623")
    );
}

#[test]
fn power_of_two_scalar_decomposes_exactly() {
    let k = scalar("1606938044258990275541962092341162602522202993782792835313721");
    let (k1, k2) = EdwardsParameters::scalar_decomposition(&k);
    assert_eq!(k1, scalar("87787075139036792195095814895105075215"));
    assert_eq!(
        k2,
        scalar("13108968793781547619861935127046491459290634557391922898999172162185753513840")
    );
}

#[test]
fn negative_second_part_is_a_long_residue_of_short_magnitude() {
    // the least scalar whose first rounding coefficient is 1
    let k = scalar("115515606261927299903142999927150814555");
    let (k1, k2) = EdwardsParameters::scalar_decomposition(&k);
    assert_eq!(k1, scalar("2033374570588096038631631672193191228"));
    // k2 = -n12, held as r - n12
    assert_eq!(
        k2,
        scalar("13108968793781547619861935127046491459298414574058512112898663966769821042845")
    );
    assert_eq!(ark(&k2), -ArkFr::from_str("10741319382058138887739339959866629956").unwrap());
    assert_eq!(ark(&k2).into_bigint().num_bits(), 253);
    assert_eq!(magnitude_bits(&k2), 124);

    // one below it, nothing is taken off
    let below = scalar("115515606261927299903142999927150814554");
    let (k1, k2) = EdwardsParameters::scalar_decomposition(&below);
    assert_eq!(k1, below);
    assert_eq!(k2, scalar("0"));
}

#[test]
fn lattice_constants_are_those_of_the_basis() {
    assert_eq!(
        EdwardsParameters::coeff_n11(),
        scalar("113482231691339203864511368254957623327")
    );
    assert_eq!(EdwardsParameters::coeff_n12(), scalar("10741319382058138887739339959866629956"));
    assert_eq!(EdwardsParameters::coeff_n21(), scalar("21482638764116277775478679919733259912"));
    assert_eq!(
        ark(&EdwardsParameters::coeff_n22()),
        -ArkFr::from_str("113482231691339203864511368254957623327").unwrap()
    );
}

#[test]
fn lattice_rows_vanish_under_lambda() {
    let lambda = ArkFr::from_str(LAMBDA).unwrap();
    let zero = ArkFr::from(0u64);
    assert_eq!(
        ark(&EdwardsParameters::coeff_n11()) + lambda * ark(&EdwardsParameters::coeff_n12()),
        zero
    );
    assert_eq!(
        ark(&EdwardsParameters::coeff_n21()) + lambda * ark(&EdwardsParameters::coeff_n22()),
        zero
    );
    assert_eq!(lambda * lambda + ArkFr::from(2u64), zero);
}
