//! Checks of the grid sampler and the interpolation kernels on concrete
//! values: exact corner behaviour, smoothstep symmetry, and the midpoint
//! average.

use noise_field::grid::{grid_origin, noise_at_grid_nodes};
use noise_field::interp::{
    interpolate, linear_interpolate, smooth_interpolate, smoother_interpolate,
};
use noise_field::SCALE;

#[test]
fn grid_origin_floors_to_cell() {
    assert_eq!(grid_origin(16, 37, 50), (32, 48));
    assert_eq!(grid_origin(16, 32, 48), (32, 48));
    assert_eq!(grid_origin(16, 47, 63), (32, 48));
    // Frequency 1: every coordinate is its own cell origin.
    assert_eq!(grid_origin(1, 123, 456), (123, 456));
    assert_eq!(grid_origin(1000, 999, 1000), (0, 1000));
}

#[test]
fn interpolate_matches_corners() {
    // Boundary continuity: querying at a cell corner returns that
    // corner's sample exactly.
    let (x0, y0) = (32u32, 48u32);
    let f = 16u32;
    let (x1, y1) = (x0 + f, y0 + f);
    let (n00, n01, n10, n11) = noise_at_grid_nodes(x0, y0, x1, y1);
    assert_eq!(interpolate(x0, y0, x0, y0, f, n00, n01, n10, n11), n00);
    assert_eq!(interpolate(x1, y1, x0, y0, f, n00, n01, n10, n11), n11);
    assert_eq!(interpolate(x1, y0, x0, y0, f, n00, n01, n10, n11), n10);
    assert_eq!(interpolate(x0, y1, x0, y0, f, n00, n01, n10, n11), n01);
}

#[test]
fn smoothstep_weights_are_symmetric() {
    // With endpoints 0 and f^3 the blend returns the raw smoothstep
    // weight numerator, so symmetric offsets must sum to f^3 exactly.
    let f = 16u32;
    let d = (f * f * f) as u64;
    for dx in 0..=f {
        let a = smooth_interpolate(dx, 0, f, 0, d);
        let b = smooth_interpolate(f - dx, 0, f, 0, d);
        assert_eq!(a + b, d, "asymmetric weights at offset {dx}");
    }
}

#[test]
fn midpoint_reduces_to_average() {
    // At the exact center of a cell the smoothstep weight is one half on
    // both axes, so the result is the floored average of the corners'
    // floored averages.
    let (x0, y0) = (64u32, 128u32);
    let f = 16u32;
    let (n00, n01, n10, n11) = noise_at_grid_nodes(x0, y0, x0 + f, y0 + f);
    let got = interpolate(x0 + f / 2, y0 + f / 2, x0, y0, f, n00, n01, n10, n11);
    let expected = ((n00 + n10) / 2 + (n01 + n11) / 2) / 2;
    assert_eq!(got, expected);
}

#[test]
fn no_seam_between_adjacent_cells() {
    // A query on the shared edge of two neighboring cells interpolates to
    // the same value whichever cell computes it.
    let (x0, y0) = (32u32, 48u32);
    let f = 16u32;
    let x1 = x0 + f;
    let left = noise_at_grid_nodes(x0, y0, x1, y0 + f);
    let right = noise_at_grid_nodes(x1, y0, x1 + f, y0 + f);
    for dy in 0..=f {
        let y = y0 + dy;
        let from_left = interpolate(x1, y, x0, y0, f, left.0, left.1, left.2, left.3);
        let from_right = interpolate(x1, y, x1, y0, f, right.0, right.1, right.2, right.3);
        assert_eq!(from_left, from_right, "seam at offset {dy}");
    }
}

#[test]
fn linear_kernel_exact_values() {
    // f = 8, dx = 4, endpoints 0 and 800: the linear weight is one half.
    assert_eq!(linear_interpolate(4, 0, 8, 0, 800), 400);
    assert_eq!(linear_interpolate(0, 0, 8, 0, 800), 0);
    assert_eq!(linear_interpolate(8, 0, 8, 0, 800), 800);
    // Quarter point: 800 / 4.
    assert_eq!(linear_interpolate(2, 0, 8, 0, 800), 200);
}

#[test]
fn smoother_kernel_exact_values() {
    // The quintic weight is also exactly one half at the midpoint and
    // matches the endpoints exactly.
    assert_eq!(smoother_interpolate(4, 0, 8, 0, 800), 400);
    assert_eq!(smoother_interpolate(0, 0, 8, 0, 800), 0);
    assert_eq!(smoother_interpolate(8, 0, 8, 0, 800), 800);
    // Quarter point: weight 6t^5 - 15t^4 + 10t^3 at t = 1/4 is 106/1024,
    // so with endpoints 0 and 1024 the result is 106.
    assert_eq!(smoother_interpolate(2, 0, 8, 0, 1024), 106);
}

#[test]
fn smooth_kernel_exact_values() {
    // Smoothstep at t = 1/4 is 3/16 - 2/64 = 5/32; with endpoints 0 and
    // 32 the result is 5.
    assert_eq!(smooth_interpolate(2, 0, 8, 0, 32), 5);
    assert_eq!(smooth_interpolate(0, 0, 8, 0, 32), 0);
    assert_eq!(smooth_interpolate(8, 0, 8, 0, 32), 32);
    assert_eq!(smooth_interpolate(4, 0, 8, 0, 32), 16);
}

#[test]
fn kernels_stay_in_range() {
    let hi = SCALE - 1;
    for dx in 0..=16u32 {
        assert!(smooth_interpolate(dx, 0, 16, hi, 0) < SCALE);
        assert!(linear_interpolate(dx, 0, 16, 0, hi) < SCALE);
        assert!(smoother_interpolate(dx, 0, 16, hi, hi) < SCALE);
    }
}
