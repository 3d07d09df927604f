//! GLV scalar multiplication on the Bandersnatch curve.
//!
//! A scalar `k` is split into two half-length scalars `k1`, `k2` with
//! `k = k1 + lambda * k2 (mod r)`, and `k * P` is computed as
//! `k1 * P + k2 * phi(P)` in one joint double-and-add pass, where `phi` is the
//! curve endomorphism that acts as multiplication by `lambda`.

pub mod bits;
pub mod curve;
pub mod decomposition;
pub mod endomorphism;
pub mod fields;
pub mod glv;
pub mod limbs;
pub mod linearity;
pub mod msm;
pub mod params;
pub mod wide;

pub use bits::get_bits;
pub use curve::{EdwardsAffine, EdwardsProjective};
pub use fields::{Fq, Fr};
pub use glv::{EdwardsParameters, GLVParameters};
pub use msm::multi_scalar_mul;
