//! Interpolator: blends corner samples of a grid cell with smoothstep
//! weighting, in fixed-point arithmetic.
//!
//! For a local ratio `t = dx / f` the smoothstep weight is
//! `(3 - 2t) t^2`; carried over the common denominator `f^3` it becomes the
//! integer numerator `(3f - 2 dx) dx^2`.  A blend
//! `n0 + (n1 - n0) * weight` is computed as
//! `(n0 * (f^3 - w) + n1 * w) / f^3`, which never leaves `[0, max(n0, n1)]`.
//! The linear and smootherstep (quintic) kernels are offered alongside as
//! alternative strategies; the two-stage cell interpolation uses smoothstep.

use vstd::prelude::*;
use vstd::arithmetic::div_mod::{
    lemma_div_is_ordered, lemma_div_multiples_vanish, lemma_fundamental_div_mod_converse_div,
};
use crate::SCALE;
use crate::MAX_FREQUENCY;

verus! {

/// `f` cubed: the common denominator of the cubic (smoothstep) weights.
pub open spec fn cube(f: int) -> int {
    f * f * f
}

/// `f` to the fifth: the common denominator of the quintic weights.
pub open spec fn fifth(f: int) -> int {
    f * f * f * f * f
}

/// Numerator of the smoothstep weight `(3 - 2t) t^2` at `t = dx / f`,
/// taken over the denominator `cube(f)`.
pub open spec fn smooth_weight(f: int, dx: int) -> int {
    (3 * f - 2 * dx) * dx * dx
}

/// Numerator of the linear weight `t` at `t = dx / f`, over `cube(f)`.
pub open spec fn linear_weight(f: int, dx: int) -> int {
    dx * f * f
}

/// Numerator of the smootherstep weight `6t^5 - 15t^4 + 10t^3` at
/// `t = dx / f`, over `fifth(f)`.
pub open spec fn smoother_weight(f: int, dx: int) -> int {
    (10 * f * f + 6 * dx * dx - 15 * f * dx) * dx * dx * dx
}

/// One-dimensional blend `n0 + (n1 - n0) * (w / d)`, carried out over the
/// common denominator `d` with one flooring division at the end.
pub open spec fn blend(n0: int, n1: int, w: int, d: int) -> int {
    (n0 * (d - w) + n1 * w) / d
}

/// Single-axis smoothstep interpolation between `n0` (at offset `0`) and
/// `n1` (at offset `f`), queried at offset `dx`.
pub open spec fn smooth_axis(f: int, dx: int, n0: int, n1: int) -> int {
    blend(n0, n1, smooth_weight(f, dx), cube(f))
}

/// Two-stage interpolation across a full cell: first along x at the bottom
/// and top edges, then along y between the two intermediate results.
pub open spec fn cell_value(
    f: int,
    dx: int,
    dy: int,
    n00: int,
    n01: int,
    n10: int,
    n11: int,
) -> int {
    blend(
        smooth_axis(f, dx, n00, n10),
        smooth_axis(f, dx, n01, n11),
        smooth_weight(f, dy),
        cube(f),
    )
}

/// The smoothstep weight numerator stays inside `[0, f^3]`: the slack
/// `f^3 - smooth_weight(f, dx)` factors as `(f - dx)^2 (f + 2 dx)`.
pub proof fn lemma_smooth_weight_bounds(f: int, dx: int)
    requires
        0 <= dx <= f,
    ensures
        0 <= smooth_weight(f, dx) <= cube(f),
{
    assert(cube(f) - smooth_weight(f, dx) == (f - dx) * (f - dx) * (f + 2 * dx))
        by (nonlinear_arith);
    assert((f - dx) * (f - dx) * (f + 2 * dx) >= 0) by (nonlinear_arith)
        requires
            0 <= dx <= f,
    ;
    assert(smooth_weight(f, dx) >= 0) by (nonlinear_arith)
        requires
            0 <= dx <= f,
    ;
}

/// The linear weight numerator stays inside `[0, f^3]`.
pub proof fn lemma_linear_weight_bounds(f: int, dx: int)
    requires
        0 <= dx <= f,
    ensures
        0 <= linear_weight(f, dx) <= cube(f),
{
    assert(0 <= dx * f * f <= f * f * f) by (nonlinear_arith)
        requires
            0 <= dx <= f,
    ;
}

/// The smootherstep weight numerator stays inside `[0, f^5]` and its
/// quartic factor is nonnegative: the slack `f^5 - smoother_weight(f, dx)`
/// factors as `(f - dx)^3 (f^2 + 3 f dx + 6 dx^2)`, and eight times the
/// quartic factor equals `5 (4f - 3 dx)^2 + 3 dx^2`.
pub proof fn lemma_smoother_weight_bounds(f: int, dx: int) by (nonlinear_arith)
    requires
        0 <= dx <= f,
    ensures
        0 <= smoother_weight(f, dx) <= fifth(f),
        15 * f * dx <= 10 * f * f + 6 * dx * dx,
{
}

/// A blend with a weight inside `[0, d]` lands between its endpoints'
/// bounds: it is nonnegative and no larger than one of the two endpoints.
pub proof fn lemma_blend_bounds(n0: int, n1: int, w: int, d: int)
    requires
        0 <= n0,
        0 <= n1,
        0 <= w <= d,
        1 <= d,
    ensures
        0 <= blend(n0, n1, w, d),
        blend(n0, n1, w, d) <= n0 || blend(n0, n1, w, d) <= n1,
{
    let m = if n0 >= n1 {
        n0
    } else {
        n1
    };
    let num = n0 * (d - w) + n1 * w;
    assert(0 <= n0 * (d - w) + n1 * w <= m * d) by (nonlinear_arith)
        requires
            0 <= n0 <= m,
            0 <= n1 <= m,
            0 <= w <= d,
    ;
    lemma_div_is_ordered(0, num, d);
    lemma_div_is_ordered(num, m * d, d);
    lemma_div_multiples_vanish(0, d);
    lemma_div_multiples_vanish(m, d);
    assert(m * d == d * m) by (nonlinear_arith);
    assert(d * 0 == 0) by (nonlinear_arith);
}

/// A blend with weight `0` returns its first endpoint exactly.
pub proof fn lemma_blend_at_zero(n0: int, n1: int, d: int)
    requires
        1 <= d,
    ensures
        blend(n0, n1, 0, d) == n0,
{
    assert(n0 * (d - 0) + n1 * 0 == d * n0) by (nonlinear_arith);
    lemma_div_multiples_vanish(n0, d);
}

/// A blend with the full weight `d` returns its second endpoint exactly.
pub proof fn lemma_blend_at_full(n0: int, n1: int, d: int)
    requires
        1 <= d,
    ensures
        blend(n0, n1, d, d) == n1,
{
    assert(n0 * (d - d) + n1 * d == d * n1) by (nonlinear_arith);
    lemma_div_multiples_vanish(n1, d);
}

/// Smoothstep symmetry: the weights at offsets `dx` and `f - dx` sum to
/// the whole denominator — `weight(t) + weight(1 - t) = 1` in fixed point.
pub proof fn lemma_smooth_weight_symmetry(f: int, dx: int)
    requires
        0 <= dx <= f,
    ensures
        smooth_weight(f, dx) + smooth_weight(f, f - dx) == cube(f),
{
    assert((3 * f - 2 * dx) * dx * dx + (3 * f - 2 * (f - dx)) * (f - dx) * (f - dx) == f * f
        * f) by (nonlinear_arith);
}

/// Boundary continuity at the cell origin: with both offsets `0` the cell
/// interpolation returns the origin corner's sample exactly.
pub proof fn lemma_cell_value_at_origin(f: int, n00: int, n01: int, n10: int, n11: int)
    requires
        1 <= f,
    ensures
        cell_value(f, 0, 0, n00, n01, n10, n11) == n00,
{
    assert(cube(f) >= 1) by (nonlinear_arith)
        requires
            1 <= f,
    ;
    assert(smooth_weight(f, 0) == 0) by (nonlinear_arith);
    lemma_blend_at_zero(n00, n10, cube(f));
    lemma_blend_at_zero(n01, n11, cube(f));
    lemma_blend_at_zero(smooth_axis(f, 0, n00, n10), smooth_axis(f, 0, n01, n11), cube(f));
}

/// Boundary continuity at the far corner: with both offsets equal to `f`
/// the cell interpolation returns the far corner's sample exactly.
pub proof fn lemma_cell_value_at_far_corner(f: int, n00: int, n01: int, n10: int, n11: int)
    requires
        1 <= f,
    ensures
        cell_value(f, f, f, n00, n01, n10, n11) == n11,
{
    assert(cube(f) >= 1) by (nonlinear_arith)
        requires
            1 <= f,
    ;
    assert(smooth_weight(f, f) == cube(f)) by (nonlinear_arith);
    lemma_blend_at_full(n00, n10, cube(f));
    lemma_blend_at_full(n01, n11, cube(f));
    lemma_blend_at_full(smooth_axis(f, f, n00, n10), smooth_axis(f, f, n01, n11), cube(f));
}

/// No seams between cells: a query on the shared edge of two horizontally
/// adjacent cells interpolates to the same value whichever cell computes
/// it, because the full weight on one side and the zero weight on the
/// other both reduce to a blend of the shared corners' samples alone.
pub proof fn lemma_cell_edge_continuity(
    f: int,
    dy: int,
    n00: int,
    n01: int,
    n10: int,
    n11: int,
    m10: int,
    m11: int,
)
    requires
        1 <= f,
    ensures
        cell_value(f, f, dy, n00, n01, n10, n11) == cell_value(f, 0, dy, n10, n11, m10, m11),
{
    assert(cube(f) >= 1) by (nonlinear_arith)
        requires
            1 <= f,
    ;
    assert(smooth_weight(f, 0) == 0) by (nonlinear_arith);
    assert(smooth_weight(f, f) == cube(f)) by (nonlinear_arith);
    lemma_blend_at_full(n00, n10, cube(f));
    lemma_blend_at_full(n01, n11, cube(f));
    lemma_blend_at_zero(n10, m10, cube(f));
    lemma_blend_at_zero(n11, m11, cube(f));
}

/// At the exact midpoint of an even-sided axis the smoothstep weight is
/// one half, so the blend reduces to the floored average of its endpoints.
pub proof fn lemma_smooth_axis_midpoint(f: int, n0: int, n1: int)
    requires
        2 <= f,
        f % 2 == 0,
        0 <= n0,
        0 <= n1,
    ensures
        smooth_axis(f, f / 2, n0, n1) == (n0 + n1) / 2,
{
    let h = f / 2;
    assert(f == 2 * h);
    assert(smooth_weight(f, h) == 4 * (h * h * h)) by (nonlinear_arith)
        requires
            f == 2 * h,
    ;
    assert(cube(f) == 8 * (h * h * h)) by (nonlinear_arith)
        requires
            f == 2 * h,
    ;
    let hc = h * h * h;
    assert(h * h * h >= 1) by (nonlinear_arith)
        requires
            h >= 1,
    ;
    let q = (n0 + n1) / 2;
    let rho = (n0 + n1) % 2;
    assert(n0 + n1 == 2 * q + rho && 0 <= rho < 2);
    assert(n0 * (8 * hc - 4 * hc) + n1 * (4 * hc) == q * (8 * hc) + rho * (4 * hc))
        by (nonlinear_arith)
        requires
            n0 + n1 == 2 * q + rho,
    ;
    assert(0 <= rho * (4 * hc) < 8 * hc) by (nonlinear_arith)
        requires
            0 <= rho < 2,
            hc >= 1,
    ;
    lemma_fundamental_div_mod_converse_div(
        n0 * (8 * hc - 4 * hc) + n1 * (4 * hc),
        8 * hc,
        q,
        rho * (4 * hc),
    );
}

/// At the exact center of an even-sided cell the two-stage interpolation
/// reduces to the floored average of the four corners' floored averages.
pub proof fn lemma_cell_value_at_midpoint(f: int, n00: int, n01: int, n10: int, n11: int)
    requires
        2 <= f,
        f % 2 == 0,
        0 <= n00,
        0 <= n01,
        0 <= n10,
        0 <= n11,
    ensures
        cell_value(f, f / 2, f / 2, n00, n01, n10, n11) == ((n00 + n10) / 2 + (n01 + n11) / 2)
            / 2,
{
    lemma_smooth_axis_midpoint(f, n00, n10);
    lemma_smooth_axis_midpoint(f, n01, n11);
    lemma_div_is_ordered(0, n00 + n10, 2);
    lemma_div_is_ordered(0, n01 + n11, 2);
    lemma_div_multiples_vanish(0, 2);
    lemma_smooth_axis_midpoint(f, (n00 + n10) / 2, (n01 + n11) / 2);
}

/// Single-axis smoothstep interpolation between the samples `noise_0` at
/// `x0` and `noise_1` at `x1`, queried at `x`; zero first derivative at
/// both ends removes visible creases at grid lines.
pub fn smooth_interpolate(x: u32, x0: u32, x1: u32, noise_0: u64, noise_1: u64) -> (r: u64)
    requires
        x0 <= x <= x1,
        x0 < x1,
        x1 - x0 <= MAX_FREQUENCY,
        noise_0 < SCALE,
        noise_1 < SCALE,
    ensures
        r == smooth_axis((x1 - x0) as int, (x - x0) as int, noise_0 as int, noise_1 as int),
        r < SCALE,
{
    let f: u64 = (x1 - x0) as u64;
    let dx: u64 = (x - x0) as u64;
    proof {
        lemma_smooth_weight_bounds(f as int, dx as int);
        assert((3 * f - 2 * dx) * dx <= 3 * 1024 * 1024) by (nonlinear_arith)
            requires
                dx <= f <= 1024,
        ;
        assert((3 * f - 2 * dx) * dx * dx <= 3 * 1024 * 1024 * 1024) by (nonlinear_arith)
            requires
                dx <= f <= 1024,
        ;
        assert(f * f <= 1024 * 1024) by (nonlinear_arith)
            requires
                f <= 1024,
        ;
        assert(f * f * f <= 1024 * 1024 * 1024) by (nonlinear_arith)
            requires
                f <= 1024,
        ;
    }
    let w: u64 = (3 * f - 2 * dx) * dx * dx;
    let d: u64 = f * f * f;
    proof {
        assert(noise_0 * (d - w) < 0x1_0000_0000u64 * 0x4000_0000u64) by (nonlinear_arith)
            requires
                noise_0 < 0x1_0000_0000u64,
                d - w <= 0x4000_0000u64,
        ;
        assert(noise_1 * w < 0x1_0000_0000u64 * 0x4000_0000u64) by (nonlinear_arith)
            requires
                noise_1 < 0x1_0000_0000u64,
                w <= 0x4000_0000u64,
        ;
        assert(f * f * f >= 1) by (nonlinear_arith)
            requires
                1 <= f,
        ;
        lemma_blend_bounds(noise_0 as int, noise_1 as int, w as int, d as int);
    }
    let num: u64 = noise_0 * (d - w) + noise_1 * w;
    num / d
}

/// Single-axis linear interpolation; kept as an alternative kernel, not
/// used by the two-stage cell interpolation.
pub fn linear_interpolate(x: u32, x0: u32, x1: u32, noise_0: u64, noise_1: u64) -> (r: u64)
    requires
        x0 <= x <= x1,
        x0 < x1,
        x1 - x0 <= MAX_FREQUENCY,
        noise_0 < SCALE,
        noise_1 < SCALE,
    ensures
        r == blend(
            noise_0 as int,
            noise_1 as int,
            linear_weight((x1 - x0) as int, (x - x0) as int),
            cube((x1 - x0) as int),
        ),
        r < SCALE,
{
    let f: u64 = (x1 - x0) as u64;
    let dx: u64 = (x - x0) as u64;
    proof {
        lemma_linear_weight_bounds(f as int, dx as int);
        assert(dx * f <= 1024 * 1024) by (nonlinear_arith)
            requires
                dx <= f <= 1024,
        ;
        assert(dx * f * f <= 1024 * 1024 * 1024) by (nonlinear_arith)
            requires
                dx <= f <= 1024,
        ;
        assert(f * f <= 1024 * 1024) by (nonlinear_arith)
            requires
                f <= 1024,
        ;
        assert(f * f * f <= 1024 * 1024 * 1024) by (nonlinear_arith)
            requires
                f <= 1024,
        ;
    }
    let w: u64 = dx * f * f;
    let d: u64 = f * f * f;
    proof {
        assert(noise_0 * (d - w) < 0x1_0000_0000u64 * 0x4000_0000u64) by (nonlinear_arith)
            requires
                noise_0 < 0x1_0000_0000u64,
                d - w <= 0x4000_0000u64,
        ;
        assert(noise_1 * w < 0x1_0000_0000u64 * 0x4000_0000u64) by (nonlinear_arith)
            requires
                noise_1 < 0x1_0000_0000u64,
                w <= 0x4000_0000u64,
        ;
        assert(f * f * f >= 1) by (nonlinear_arith)
            requires
                1 <= f,
        ;
        lemma_blend_bounds(noise_0 as int, noise_1 as int, w as int, d as int);
    }
    let num: u64 = noise_0 * (d - w) + noise_1 * w;
    num / d
}

/// Single-axis smootherstep (quintic) interpolation, with zero second
/// derivative at both ends as well; an alternative kernel, not used by
/// the two-stage cell interpolation.
pub fn smoother_interpolate(x: u32, x0: u32, x1: u32, noise_0: u64, noise_1: u64) -> (r: u64)
    requires
        x0 <= x <= x1,
        x0 < x1,
        x1 - x0 <= MAX_FREQUENCY,
        noise_0 < SCALE,
        noise_1 < SCALE,
    ensures
        r == blend(
            noise_0 as int,
            noise_1 as int,
            smoother_weight((x1 - x0) as int, (x - x0) as int),
            fifth((x1 - x0) as int),
        ),
        r < SCALE,
{
    let f: u64 = (x1 - x0) as u64;
    let dx: u64 = (x - x0) as u64;
    proof {
        lemma_smoother_weight_bounds(f as int, dx as int);
        assert(10 * f * f <= 0xA0_0000 && 6 * dx * dx <= 0x60_0000 && 15 * f * dx <= 0xF0_0000)
            by (nonlinear_arith)
            requires
                dx <= f <= 1024,
        ;
    }
    let q: u64 = 10 * f * f + 6 * dx * dx - 15 * f * dx;
    proof {
        assert(q * dx <= 0x4_0000_0000 && q * dx * dx <= 0x1000_0000_0000 && q * dx * dx * dx
            <= 0x40_0000_0000_0000) by (nonlinear_arith)
            requires
                q <= 0x100_0000u64,
                dx <= 1024,
        ;
        assert(f * f <= 0x10_0000 && f * f * f <= 0x4000_0000 && f * f * f * f
            <= 0x100_0000_0000 && f * f * f * f * f <= 0x4_0000_0000_0000) by (nonlinear_arith)
            requires
                1 <= f <= 1024,
        ;
        assert(f * f * f * f * f >= 1) by (nonlinear_arith)
            requires
                1 <= f,
        ;
    }
    let w: u64 = q * dx * dx * dx;
    let d: u64 = f * f * f * f * f;
    proof {
        assert(noise_0 * (d - w) <= 0x1_0000_0000u128 * 0x4_0000_0000_0000u128)
            by (nonlinear_arith)
            requires
                noise_0 < 0x1_0000_0000u128,
                d - w <= 0x4_0000_0000_0000u128,
        ;
        assert(noise_1 * w <= 0x1_0000_0000u128 * 0x4_0000_0000_0000u128) by (nonlinear_arith)
            requires
                noise_1 < 0x1_0000_0000u128,
                w <= 0x4_0000_0000_0000u128,
        ;
        lemma_blend_bounds(noise_0 as int, noise_1 as int, w as int, d as int);
    }
    let num: u128 = (noise_0 as u128) * ((d - w) as u128) + (noise_1 as u128) * (w as u128);
    let r128: u128 = num / (d as u128);
    r128 as u64
}

/// Two-stage smoothstep interpolation across the cell with origin
/// `(x0, y0)` and side `frequency`: first along x at the cell's bottom and
/// top edges, then along y between the two intermediate results.
pub fn interpolate(
    x: u32,
    y: u32,
    x0: u32,
    y0: u32,
    frequency: u32,
    noise_00: u64,
    noise_01: u64,
    noise_10: u64,
    noise_11: u64,
) -> (r: u64)
    requires
        1 <= frequency <= MAX_FREQUENCY,
        x0 <= x <= x0 + frequency,
        y0 <= y <= y0 + frequency,
        x0 + frequency <= u32::MAX,
        y0 + frequency <= u32::MAX,
        noise_00 < SCALE,
        noise_01 < SCALE,
        noise_10 < SCALE,
        noise_11 < SCALE,
    ensures
        r == cell_value(
            frequency as int,
            (x - x0) as int,
            (y - y0) as int,
            noise_00 as int,
            noise_01 as int,
            noise_10 as int,
            noise_11 as int,
        ),
        r < SCALE,
{
    let x1: u32 = x0 + frequency;
    let y1: u32 = y0 + frequency;
    let noise_0: u64 = smooth_interpolate(x, x0, x1, noise_00, noise_10);
    let noise_1: u64 = smooth_interpolate(x, x0, x1, noise_01, noise_11);
    smooth_interpolate(y, y0, y1, noise_0, noise_1)
}

} // verus!
