//! Octave accumulator: sums the single-octave noise across a geometric
//! cascade of frequency/amplitude bands and normalizes by the total
//! amplitude, yielding a turbulence value in `[0, SCALE)`.
//!
//! An octave's weighted contribution carries the scale `SCALE * amplitude`;
//! the running total is divided by the amplitude sum at the end, landing
//! back on the scale `SCALE`.

use vstd::prelude::*;
use vstd::arithmetic::div_mod::{lemma_div_is_ordered, lemma_div_multiples_vanish};
use crate::config::Config;
use crate::grid::{cell_origin, grid_origin, lemma_cell_origin_bounds, noise_at_grid_nodes};
use crate::hash::noise_sample;
use crate::interp::{cell_value, interpolate, lemma_blend_bounds, lemma_smooth_weight_bounds};
use crate::MAX_FREQUENCY;
use crate::SCALE;

verus! {

/// The frequency of the octave after one at frequency `f`: decayed by the
/// configured ratio, floored to an integer, clamped to a minimum of 1.
pub open spec fn next_frequency(c: Config, f: int) -> int {
    let g = f * c.freq_decay_den / c.freq_decay_num as int;
    if g < 1 {
        1
    } else {
        g
    }
}

/// The amplitude of the octave after one at amplitude `a`: decayed by the
/// configured ratio, floored.
pub open spec fn next_amplitude(c: Config, a: int) -> int {
    a * c.amp_decay_den / c.amp_decay_num as int
}

/// Frequency of octave `i` (the first octave is `i == 0`).
pub open spec fn frequency_at(c: Config, i: nat) -> int
    decreases i,
{
    if i == 0 {
        c.base_frequency as int
    } else {
        next_frequency(c, frequency_at(c, (i - 1) as nat))
    }
}

/// Amplitude of octave `i` (the first octave is `i == 0`).
pub open spec fn amplitude_at(c: Config, i: nat) -> int
    decreases i,
{
    if i == 0 {
        c.base_amplitude as int
    } else {
        next_amplitude(c, amplitude_at(c, (i - 1) as nat))
    }
}

/// One octave's unweighted noise at `(x, y)`: the two-stage smoothstep
/// interpolation of the hash samples at the four corners of the enclosing
/// grid cell of side `f`.
pub open spec fn octave_noise(f: u32, x: u32, y: u32) -> int {
    let x0 = cell_origin(f as int, x as int) as u32;
    let y0 = cell_origin(f as int, y as int) as u32;
    let x1 = (x0 + f) as u32;
    let y1 = (y0 + f) as u32;
    cell_value(
        f as int,
        x - x0,
        y - y0,
        noise_sample(x0, y0) as int,
        noise_sample(x0, y1) as int,
        noise_sample(x1, y0) as int,
        noise_sample(x1, y1) as int,
    )
}

/// Weighted sum of the first `i` octaves' noise at `(x, y)`, at scale
/// `SCALE * amplitude`.
pub open spec fn total_at(c: Config, x: u32, y: u32, i: nat) -> int
    decreases i,
{
    if i == 0 {
        0
    } else {
        total_at(c, x, y, (i - 1) as nat) + octave_noise(
            frequency_at(c, (i - 1) as nat) as u32,
            x,
            y,
        ) * amplitude_at(c, (i - 1) as nat)
    }
}

/// Sum of the first `i` octaves' amplitudes: the largest value the
/// weighted sum could reach if every octave's noise were full scale.
pub open spec fn max_total_at(c: Config, i: nat) -> int
    decreases i,
{
    if i == 0 {
        0
    } else {
        max_total_at(c, (i - 1) as nat) + amplitude_at(c, (i - 1) as nat)
    }
}

/// The normalized multi-octave turbulence at `(x, y)`: the weighted sum
/// over all configured octaves divided by the amplitude sum.
pub open spec fn turbulence(c: Config, x: u32, y: u32) -> int {
    total_at(c, x, y, c.octaves as nat) / max_total_at(c, c.octaves as nat)
}

/// Octave frequencies stay in `[1, base_frequency]` and amplitudes in
/// `[0, base_amplitude]`: each decay step shrinks its value and the
/// frequency is clamped at 1.
pub proof fn lemma_band_bounds(c: Config, i: nat)
    requires
        c.valid(),
    ensures
        1 <= frequency_at(c, i) <= c.base_frequency,
        0 <= amplitude_at(c, i) <= c.base_amplitude,
    decreases i,
{
    if i > 0 {
        lemma_band_bounds(c, (i - 1) as nat);
        let f = frequency_at(c, (i - 1) as nat);
        let a = amplitude_at(c, (i - 1) as nat);
        let fnum = c.freq_decay_num as int;
        let anum = c.amp_decay_num as int;
        assert(f * c.freq_decay_den <= f * fnum) by (nonlinear_arith)
            requires
                0 <= f,
                c.freq_decay_den <= fnum,
        ;
        assert(0 <= f * c.freq_decay_den) by (nonlinear_arith)
            requires
                0 <= f,
                0 <= c.freq_decay_den,
        ;
        lemma_div_is_ordered(0, f * c.freq_decay_den, fnum);
        lemma_div_is_ordered(f * c.freq_decay_den, f * fnum, fnum);
        lemma_div_multiples_vanish(0, fnum);
        lemma_div_multiples_vanish(f, fnum);
        assert(fnum * 0 == 0 && f * fnum == fnum * f) by (nonlinear_arith);
        assert(a * c.amp_decay_den <= a * anum) by (nonlinear_arith)
            requires
                0 <= a,
                c.amp_decay_den <= anum,
        ;
        assert(0 <= a * c.amp_decay_den) by (nonlinear_arith)
            requires
                0 <= a,
                0 <= c.amp_decay_den,
        ;
        lemma_div_is_ordered(0, a * c.amp_decay_den, anum);
        lemma_div_is_ordered(a * c.amp_decay_den, a * anum, anum);
        lemma_div_multiples_vanish(0, anum);
        lemma_div_multiples_vanish(a, anum);
        assert(anum * 0 == 0 && a * anum == anum * a) by (nonlinear_arith);
    }
}

/// The amplitude sum over `i` octaves stays between the base amplitude
/// (once at least one octave is in) and `i` times the base amplitude.
pub proof fn lemma_max_total_bounds(c: Config, i: nat)
    requires
        c.valid(),
    ensures
        0 <= max_total_at(c, i) <= i * c.base_amplitude,
        i >= 1 ==> max_total_at(c, i) >= c.base_amplitude,
    decreases i,
{
    if i == 0 {
        assert(i * c.base_amplitude == 0) by (nonlinear_arith)
            requires
                i == 0,
        ;
    } else {
        lemma_max_total_bounds(c, (i - 1) as nat);
        lemma_band_bounds(c, (i - 1) as nat);
        assert((i - 1) * c.base_amplitude + c.base_amplitude == i * c.base_amplitude)
            by (nonlinear_arith)
            requires
                i >= 1,
        ;
    }
}

/// A single octave's unweighted noise is a fixed-point value in
/// `[0, SCALE)`: the blend of four hash samples never leaves their range.
pub proof fn lemma_octave_noise_bounds(f: u32, x: u32, y: u32)
    requires
        1 <= f,
    ensures
        0 <= octave_noise(f, x, y) < SCALE,
{
    lemma_cell_origin_bounds(f as int, x as int);
    lemma_cell_origin_bounds(f as int, y as int);
    let x0 = cell_origin(f as int, x as int) as u32;
    let y0 = cell_origin(f as int, y as int) as u32;
    let x1 = (x0 + f) as u32;
    let y1 = (y0 + f) as u32;
    let dx = x - x0;
    let dy = y - y0;
    let n00 = noise_sample(x0, y0) as int;
    let n01 = noise_sample(x0, y1) as int;
    let n10 = noise_sample(x1, y0) as int;
    let n11 = noise_sample(x1, y1) as int;
    crate::hash::lemma_noise_sample_bound(x0, y0);
    crate::hash::lemma_noise_sample_bound(x0, y1);
    crate::hash::lemma_noise_sample_bound(x1, y0);
    crate::hash::lemma_noise_sample_bound(x1, y1);
    lemma_smooth_weight_bounds(f as int, dx);
    lemma_smooth_weight_bounds(f as int, dy);
    assert((f as int) * (f as int) * (f as int) >= 1) by (nonlinear_arith)
        requires
            f >= 1,
    ;
    lemma_blend_bounds(
        n00,
        n10,
        crate::interp::smooth_weight(f as int, dx),
        crate::interp::cube(f as int),
    );
    lemma_blend_bounds(
        n01,
        n11,
        crate::interp::smooth_weight(f as int, dx),
        crate::interp::cube(f as int),
    );
    lemma_blend_bounds(
        crate::interp::smooth_axis(f as int, dx, n00, n10),
        crate::interp::smooth_axis(f as int, dx, n01, n11),
        crate::interp::smooth_weight(f as int, dy),
        crate::interp::cube(f as int),
    );
}

/// One octave's weighted contribution at `(x, y)`: the cell interpolation
/// against the octave's frequency, times its amplitude.  The result
/// carries the scale `SCALE * amplitude`.
pub fn perlin(frequency: u32, amplitude: u64, x: u32, y: u32) -> (r: u128)
    requires
        1 <= frequency <= MAX_FREQUENCY,
        x + frequency <= u32::MAX,
        y + frequency <= u32::MAX,
        amplitude <= crate::config::MAX_PARAM,
    ensures
        r == octave_noise(frequency, x, y) * amplitude,
        r <= (SCALE - 1) * amplitude,
{
    proof {
        lemma_cell_origin_bounds(frequency as int, x as int);
        lemma_cell_origin_bounds(frequency as int, y as int);
    }
    let (x0, y0): (u32, u32) = grid_origin(frequency, x, y);
    let x1: u32 = x0 + frequency;
    let y1: u32 = y0 + frequency;
    let (noise_00, noise_01, noise_10, noise_11): (u64, u64, u64, u64) = noise_at_grid_nodes(
        x0,
        y0,
        x1,
        y1,
    );
    let noise: u64 = interpolate(x, y, x0, y0, frequency, noise_00, noise_01, noise_10, noise_11);
    proof {
        assert(noise * amplitude <= (SCALE - 1) * amplitude) by (nonlinear_arith)
            requires
                0 <= noise <= SCALE - 1,
                0 <= amplitude,
        ;
        assert((SCALE - 1) * amplitude <= 0xFFFF_FFFFu64 * 0x100_0000_0000u64)
            by (nonlinear_arith)
            requires
                amplitude <= 0x100_0000_0000u64,
        ;
    }
    (noise as u128) * (amplitude as u128)
}

/// The octave accumulator: sums `octaves` weighted noise bands at `(x, y)`
/// with geometric frequency and amplitude falloff, and normalizes by the
/// total amplitude.  The result is a fixed-point turbulence value, always
/// strictly below `SCALE` whatever the octave count.
#[verifier::rlimit(100)]
pub fn accumulate(c: &Config, x: u32, y: u32) -> (t: u64)
    requires
        c.valid(),
        x + c.base_frequency <= u32::MAX,
        y + c.base_frequency <= u32::MAX,
    ensures
        t == turbulence(*c, x, y),
        t < SCALE,
{
    let mut total: u128 = 0;
    let mut frequency: u32 = c.base_frequency;
    let mut amplitude: u64 = c.base_amplitude;
    let mut max_value: u64 = 0;
    let mut i: u32 = 0;
    while i < c.octaves
        invariant
            c.valid(),
            x + c.base_frequency <= u32::MAX,
            y + c.base_frequency <= u32::MAX,
            i <= c.octaves,
            frequency == frequency_at(*c, i as nat),
            amplitude == amplitude_at(*c, i as nat),
            total == total_at(*c, x, y, i as nat),
            max_value == max_total_at(*c, i as nat),
            1 <= frequency <= c.base_frequency,
            amplitude <= c.base_amplitude,
            max_value <= i * c.base_amplitude,
            total <= (SCALE - 1) * max_value,
            i >= 1 ==> max_value >= c.base_amplitude,
        decreases c.octaves - i,
    {
        proof {
            lemma_octave_noise_bounds(frequency, x, y);
            lemma_band_bounds(*c, (i + 1) as nat);
            lemma_max_total_bounds(*c, (i + 1) as nat);
            assert(max_value + amplitude <= (i + 1) * c.base_amplitude) by (nonlinear_arith)
                requires
                    max_value <= i * c.base_amplitude,
                    amplitude <= c.base_amplitude,
                    0 <= i,
                    0 <= c.base_amplitude,
            ;
            assert((i + 1) * c.base_amplitude <= 65 * 0x100_0000_0000u64) by (nonlinear_arith)
                requires
                    i + 1 <= 65,
                    0 <= c.base_amplitude <= 0x100_0000_0000u64,
            ;
        }
        let band_term: u128 = perlin(frequency, amplitude, x, y);
        proof {
            assert(total + band_term <= (SCALE - 1) * (max_value + amplitude))
                by (nonlinear_arith)
                requires
                    total <= (SCALE - 1) * max_value,
                    band_term <= (SCALE - 1) * amplitude,
                    SCALE == 0x1_0000_0000u64,
            ;
            assert((SCALE - 1) * (max_value + amplitude) <= 0xFFFF_FFFFu128 * 0x4100_0000_0000u128)
                by (nonlinear_arith)
                requires
                    SCALE == 0x1_0000_0000u64,
                    max_value + amplitude <= 65 * 0x100_0000_0000u64,
            ;
        }
        total = total + band_term;
        max_value = max_value + amplitude;
        proof {
            assert(amplitude * c.amp_decay_den <= 0x100_0000_0000u64 * 1024)
                by (nonlinear_arith)
                requires
                    amplitude <= 0x100_0000_0000u64,
                    c.amp_decay_den <= 1024,
            ;
            assert(frequency * c.freq_decay_den <= 1024 * 1024) by (nonlinear_arith)
                requires
                    frequency <= 1024,
                    c.freq_decay_den <= 1024,
            ;
        }
        amplitude = amplitude * (c.amp_decay_den as u64) / (c.amp_decay_num as u64);
        let g: u32 = frequency * c.freq_decay_den / c.freq_decay_num;
        frequency = if g < 1 {
            1
        } else {
            g
        };
        i = i + 1;
    }
    proof {
        lemma_div_is_ordered(total as int, (SCALE - 1) * max_value, max_value as int);
        lemma_div_multiples_vanish(SCALE - 1, max_value as int);
        assert((SCALE - 1) * max_value == max_value * (SCALE - 1) as int) by (nonlinear_arith);
    }
    let t: u128 = total / (max_value as u128);
    t as u64
}

} // verus!
