//! A deterministic, seedless value-noise engine over a 2D integer grid.
//!
//! Every quantity is carried in fixed-point form: a value `v` stands for the
//! real number `v / SCALE`.  Noise samples come from a 64-bit hash of the
//! grid-node coordinates, are blended with smoothstep interpolation, summed
//! over several frequency/amplitude octaves, pushed through a periodic
//! post-transform, and finally quantized to 8-bit intensities.

use vstd::prelude::*;

pub mod accum;
pub mod config;
pub mod grid;
pub mod hash;
pub mod interp;
pub mod render;
pub mod transform;

verus! {

/// Fixed-point denominator: a stored value `v` stands for the real `v / SCALE`.
pub const SCALE: u64 = 0x1_0000_0000;

/// Largest grid-cell side the engine accepts; it keeps every intermediate
/// product of the interpolator inside `u64`.
pub const MAX_FREQUENCY: u32 = 1024;

} // verus!
