//! Configuration: the numeric parameters of one accumulation, threaded
//! explicitly through the pipeline rather than held as ambient state.
//!
//! Real-valued parameters are fixed point over `SCALE`; the two decay
//! ratios are rationals greater than one, given as numerator/denominator
//! pairs, so one decay step multiplies by `den / num`.

use vstd::prelude::*;
use crate::MAX_FREQUENCY;

verus! {

/// Upper bound on the octave count a configuration may ask for.  Well
/// before this point the frequency has been floored to 1 and further
/// octaves only add diminishing near-constant terms ("beyond spatial
/// resolution"), and the bound keeps the amplitude sum inside `u64`.
pub const MAX_OCTAVES: u32 = 64;

/// Upper bound on the fixed-point parameters (`base_amplitude`, the phase
/// coefficients and the turbulence weight): 2^40, i.e. 256 in real terms.
pub const MAX_PARAM: u64 = 0x100_0000_0000;

/// Upper bound on a decay-ratio numerator or denominator.
pub const MAX_RATIO: u32 = 1024;

/// The parameters of the noise pipeline.
#[derive(Clone, Copy)]
pub struct Config {
    /// How many frequency/amplitude bands are summed; at least 1.
    pub octaves: u32,
    /// Grid cell side of the first octave, in `[1, MAX_FREQUENCY]`.
    pub base_frequency: u32,
    /// Weight of the first octave, fixed point over `SCALE`; positive.
    pub base_amplitude: u64,
    /// Amplitude decay ratio numerator: each octave's amplitude is the
    /// previous one times `amp_decay_den / amp_decay_num`, floored.
    pub amp_decay_num: u32,
    /// Amplitude decay ratio denominator, strictly below the numerator.
    pub amp_decay_den: u32,
    /// Frequency decay ratio numerator: the next frequency is the current
    /// one times `freq_decay_den / freq_decay_num`, floored, clamped to 1.
    pub freq_decay_num: u32,
    /// Frequency decay ratio denominator, strictly below the numerator.
    pub freq_decay_den: u32,
    /// Phase step per unit of x in the post-transform, fixed point over
    /// `SCALE`.
    pub phase_x: u64,
    /// Phase step per unit of y in the post-transform, fixed point over
    /// `SCALE`.
    pub phase_y: u64,
    /// Weight of the turbulence term in the post-transform's phase, fixed
    /// point over `SCALE`.
    pub turbulence_scale: u64,
}

impl Config {
    /// Documented valid ranges of the parameters; every pipeline entry
    /// point asks for this.
    pub open spec fn valid(self) -> bool {
        &&& 1 <= self.octaves <= MAX_OCTAVES
        &&& 1 <= self.base_frequency <= MAX_FREQUENCY
        &&& 1 <= self.base_amplitude <= MAX_PARAM
        &&& 1 <= self.amp_decay_den < self.amp_decay_num <= MAX_RATIO
        &&& 1 <= self.freq_decay_den < self.freq_decay_num <= MAX_RATIO
        &&& self.phase_x <= MAX_PARAM
        &&& self.phase_y <= MAX_PARAM
        &&& self.turbulence_scale <= MAX_PARAM
    }

    /// Runtime check of `valid`, for callers outside verified code.
    pub fn check(&self) -> (b: bool)
        ensures
            b == self.valid(),
    {
        1 <= self.octaves && self.octaves <= MAX_OCTAVES && 1 <= self.base_frequency
            && self.base_frequency <= MAX_FREQUENCY && 1 <= self.base_amplitude
            && self.base_amplitude <= MAX_PARAM && 1 <= self.amp_decay_den && self.amp_decay_den
            < self.amp_decay_num && self.amp_decay_num <= MAX_RATIO && 1 <= self.freq_decay_den
            && self.freq_decay_den < self.freq_decay_num && self.freq_decay_num <= MAX_RATIO
            && self.phase_x <= MAX_PARAM && self.phase_y <= MAX_PARAM && self.turbulence_scale
            <= MAX_PARAM
    }
}

} // verus!
