//! Exact arithmetic on integers wider than a field element, done by
//! `num-bigint`. A wide integer is held as its base-2^32 digits, least
//! significant digit first.

use crate::limbs::{digits_value, limbs_value};
use vstd::prelude::*;

verus! {

/// `Mul` of `num_bigint::BigUint`, on operands converted from limbs by
/// `ark-ff`: the exact product of the two numbers.
#[verifier::external_body]
pub(crate) fn wide_mul(a: &[u64; 4], b: &[u64; 4]) -> (p: Vec<u32>)
    ensures
        digits_value(p@) == limbs_value(*a) * limbs_value(*b),
{
    let x = num_bigint::BigUint::from(ark_ff::BigInt(*a));
    let y = num_bigint::BigUint::from(ark_ff::BigInt(*b));
    (x * y).to_u32_digits()
}

/// `Div` of `num_bigint::BigUint`: the quotient of the two numbers, rounded
/// down. The divisor must not be 0.
#[verifier::external_body]
pub(crate) fn wide_div(n: &Vec<u32>, d: &[u64; 4]) -> (q: Vec<u32>)
    requires
        limbs_value(*d) > 0,
    ensures
        digits_value(q@) == digits_value(n@) / limbs_value(*d),
{
    let x = num_bigint::BigUint::new(n.clone());
    let y = num_bigint::BigUint::from(ark_ff::BigInt(*d));
    (x / y).to_u32_digits()
}

} // verus!
