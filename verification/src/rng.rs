//! The source of randomness.
//!
//! Diffuse scattering, lens sampling and the dielectric reflect-or-refract
//! choice all consume uniformly random values.  The raw draw comes from the
//! `rand` crate through a single trusted specification; everything built on
//! top of it is verified, and nothing is assumed about which value a draw
//! returns, only the range that the verified conversion enforces.

use vstd::prelude::*;

use crate::fixed::Scalar;
use crate::fixed::SCALE;

verus! {

/// Relies on rand::random for a uniformly distributed draw.  Nothing is
/// assumed of the result: any value may come back.
pub assume_specification<T>[ rand::random::<T> ]() -> (r: T)
    where
        rand::distributions::Standard: rand::distributions::Distribution<T>,
;

/// A random scalar in `[0, 1)`: the low 32 bits of a 64-bit draw, read as a
/// count of multiples of `2^-32`.
pub fn random_unit_scalar() -> (r: Scalar)
    ensures
        0 <= r.raw < SCALE,
{
    let u: u64 = rand::random::<u64>();
    let low: u64 = u % 4294967296;
    Scalar { raw: low as i64 }
}

/// A random scalar in `[-1, 1)`: the low 33 bits of a 64-bit draw, shifted
/// to be centred on zero.
pub fn random_symmetric_scalar() -> (r: Scalar)
    ensures
        -SCALE <= r.raw < SCALE,
{
    let u: u64 = rand::random::<u64>();
    let low: u64 = u % 8589934592;
    Scalar { raw: (low as i64) - SCALE }
}

} // verus!
