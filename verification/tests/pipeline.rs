//! End-to-end checks of the noise pipeline: determinism, bounds, and the
//! exact single-octave scenario derived from the fixed hash algorithm.

use noise_field::accum::accumulate;
use noise_field::config::Config;
use noise_field::hash::value_noise;
use noise_field::render::{quantize, render};
use noise_field::transform::{field_value, multi_perlin, PI_FIXED};
use noise_field::SCALE;

fn small_config() -> Config {
    Config {
        octaves: 3,
        base_frequency: 8,
        base_amplitude: SCALE / 10,
        amp_decay_num: 11,
        amp_decay_den: 10,
        freq_decay_num: 9,
        freq_decay_den: 5,
        phase_x: 64424509,
        phase_y: 42949672,
        turbulence_scale: 10 * SCALE,
    }
}

#[test]
fn determinism_repeated_renders() {
    let c = small_config();
    assert!(c.check());
    let a = render(&c, 8);
    let b = render(&c, 8);
    assert_eq!(a.len(), 64);
    assert_eq!(a, b);
    for x in 0..8u32 {
        for y in 0..8u32 {
            assert_eq!(multi_perlin(&c, x, y), multi_perlin(&c, x, y));
            assert_eq!(a[(y * 8 + x) as usize], quantize(multi_perlin(&c, x, y)));
        }
    }
}

#[test]
fn hash_uniformity_buckets() {
    // 4096 distinct coordinates into 16 equal buckets of [0, SCALE):
    // a crude chi-square-style check that no bucket is wildly off the
    // expected 256.
    let mut buckets = [0u32; 16];
    for x in 0..64u32 {
        for y in 0..64u32 {
            let v = value_noise(x, y);
            assert!(v < SCALE);
            buckets[(v >> 28) as usize] += 1;
        }
    }
    for &count in buckets.iter() {
        assert!(count > 128, "bucket far under-filled: {count}");
        assert!(count < 512, "bucket far over-filled: {count}");
    }
}

#[test]
fn accumulator_bound() {
    // All octave counts, including ones far beyond spatial resolution
    // (frequency floored to 1), keep the turbulence strictly below SCALE.
    for octaves in [1u32, 2, 9, 64] {
        let mut c = small_config();
        c.octaves = octaves;
        assert!(c.check());
        for (x, y) in [(0u32, 0u32), (1, 1), (7, 3), (1000, 2000), (123456, 654321)] {
            assert!(accumulate(&c, x, y) < SCALE);
        }
    }
}

#[test]
fn field_value_bound() {
    // The post-transform stays in [0, SCALE] for every turbulence input.
    let c = small_config();
    for t in [0u64, 1, SCALE / 2, SCALE - 1, SCALE, 10 * SCALE, u64::MAX] {
        for (x, y) in [(0u32, 0u32), (17, 91), (4096, 4096)] {
            assert!(field_value(&c, x, y, t) <= SCALE);
        }
    }
}

#[test]
fn value_noise_matches_reference_hash() {
    // The noise sample must be the top 32 bits of the xxh64 digest of the
    // coordinates' little-endian bytes with salt 0.
    for (x, y) in [(0u32, 0u32), (123u32, 456u32), (u32::MAX, 1u32)] {
        let mut buf = Vec::new();
        buf.extend_from_slice(&x.to_le_bytes());
        buf.extend_from_slice(&y.to_le_bytes());
        let h = xxhash_rust::xxh64::xxh64(&buf, 0);
        assert_eq!(value_noise(x, y), h >> 32);
    }
}

#[test]
fn end_to_end_single_octave_at_origin() {
    // Grid side 4, one octave, base frequency 4, base amplitude 1.0:
    // at (0, 0) the turbulence is exactly the raw hash sample, and the
    // pixel follows from it through the fixed post-transform formula.
    let c = Config {
        octaves: 1,
        base_frequency: 4,
        base_amplitude: SCALE,
        amp_decay_num: 11,
        amp_decay_den: 10,
        freq_decay_num: 9,
        freq_decay_den: 5,
        phase_x: 64424509,
        phase_y: 42949672,
        turbulence_scale: 10 * SCALE,
    };
    assert!(c.check());
    let h = xxhash_rust::xxh64::xxh64(&[0u8; 8], 0);
    let n = h >> 32;
    // One octave of amplitude SCALE: turbulence = (n * SCALE) / SCALE = n.
    assert_eq!(accumulate(&c, 0, 0), n);
    // Phase at the origin is only the rescaled turbulence term.
    let phase = (n as u128) * (c.turbulence_scale as u128) / (SCALE as u128);
    let m = phase % (PI_FIXED as u128);
    let q = m * (PI_FIXED as u128 - m);
    let den = 5 * (PI_FIXED as u128) * (PI_FIXED as u128) - 4 * q;
    let expected = (16 * q * (SCALE as u128) / den) as u64;
    assert_eq!(multi_perlin(&c, 0, 0), expected);
    let img = render(&c, 4);
    assert_eq!(img.len(), 16);
    assert_eq!(img[0], quantize(expected));
}

#[test]
fn two_octave_accumulation_matches_band_formula() {
    // The loop must sum interpolated-noise-times-amplitude per band and
    // normalize by the amplitude sum: frequency decays by 9/5 (floored,
    // clamped to 1) and amplitude by 11/10 (floored) between the bands.
    let mut c = small_config();
    c.octaves = 2;
    assert!(c.check());
    let (x, y) = (5u32, 6u32);
    let a0 = c.base_amplitude;
    let a1 = a0 * 10 / 11;
    let mut total = 0u128;
    let mut f = c.base_frequency;
    for amp in [a0, a1] {
        let (x0, y0) = noise_field::grid::grid_origin(f, x, y);
        let (n00, n01, n10, n11) =
            noise_field::grid::noise_at_grid_nodes(x0, y0, x0 + f, y0 + f);
        let band = noise_field::interp::interpolate(x, y, x0, y0, f, n00, n01, n10, n11);
        total += band as u128 * amp as u128;
        f = (f * 5 / 9).max(1);
    }
    let expected = (total / (a0 + a1) as u128) as u64;
    assert_eq!(accumulate(&c, x, y), expected);
}

#[test]
fn config_check_rejects_bad_parameters() {
    assert!(small_config().check());
    let mut c = small_config();
    c.octaves = 0;
    assert!(!c.check());
    let mut c = small_config();
    c.base_frequency = 0;
    assert!(!c.check());
    let mut c = small_config();
    c.base_frequency = 1025;
    assert!(!c.check());
    let mut c = small_config();
    c.base_amplitude = 0;
    assert!(!c.check());
    let mut c = small_config();
    // A decay ratio must be greater than one.
    c.amp_decay_num = c.amp_decay_den;
    assert!(!c.check());
    let mut c = small_config();
    c.freq_decay_den = c.freq_decay_num;
    assert!(!c.check());
}

#[test]
fn quantize_round_trip() {
    assert_eq!(quantize(0), 0);
    assert_eq!(quantize(SCALE), 255);
    assert_eq!(quantize(SCALE / 2), 128);
    for v in [0u64, 1, SCALE / 255, SCALE / 7, SCALE / 3, SCALE / 2, SCALE - 1, SCALE] {
        let b = quantize(v);
        assert_eq!(b as u64, (v * 255 + SCALE / 2) / SCALE);
        // Re-derive the field value from the stored byte: it must be
        // within one intensity step (SCALE / 255) of the original.
        let v2 = (b as u64) * SCALE / 255;
        let diff = if v2 > v { v2 - v } else { v - v2 };
        assert!(diff <= SCALE / 255, "round trip off by {diff} for {v}");
    }
}
