//! Grid sampler: snaps a query point to the origin of the enclosing grid
//! cell of a given side length (the octave's frequency).

use vstd::prelude::*;
use vstd::arithmetic::div_mod::lemma_fundamental_div_mod;
use vstd::arithmetic::div_mod::lemma_mod_bound;
use vstd::arithmetic::div_mod::lemma_mod_multiples_basic;
use crate::hash::noise_sample;
use crate::hash::value_noise;
use crate::SCALE;

verus! {

/// The greatest multiple of `f` at or below `x`: the lower grid line of the
/// cell of side `f` that contains `x`.
pub open spec fn cell_origin(f: int, x: int) -> int {
    (x / f) * f
}

/// A cell origin is a multiple of the frequency and encloses the query
/// coordinate: `origin <= x < origin + f`.
pub proof fn lemma_cell_origin_bounds(f: int, x: int)
    requires
        1 <= f,
        0 <= x,
    ensures
        cell_origin(f, x) % f == 0,
        cell_origin(f, x) <= x < cell_origin(f, x) + f,
        0 <= cell_origin(f, x),
{
    lemma_fundamental_div_mod(x, f);
    lemma_mod_bound(x, f);
    assert(f * (x / f) == (x / f) * f) by (nonlinear_arith);
    assert(cell_origin(f, x) == x - x % f);
    lemma_mod_multiples_basic(x / f, f);
    assert(0 <= x / f) by (nonlinear_arith)
        requires
            1 <= f,
            0 <= x,
    ;
    assert(0 <= (x / f) * f) by (nonlinear_arith)
        requires
            0 <= x / f,
            1 <= f,
    ;
}

/// Lower-left corner of the grid cell of side `frequency` containing
/// `(x, y)`, found by integer flooring to the nearest multiple of
/// `frequency` at or below each coordinate.
pub fn grid_origin(frequency: u32, x: u32, y: u32) -> (r: (u32, u32))
    requires
        frequency >= 1,
    ensures
        r.0 == cell_origin(frequency as int, x as int),
        r.1 == cell_origin(frequency as int, y as int),
        r.0 <= x < r.0 + frequency,
        r.1 <= y < r.1 + frequency,
{
    proof {
        lemma_cell_origin_bounds(frequency as int, x as int);
        lemma_cell_origin_bounds(frequency as int, y as int);
    }
    let low_x = x / frequency * frequency;
    let low_y = y / frequency * frequency;
    (low_x, low_y)
}

/// Evaluates the hash noise at the four corners of the cell
/// `[x0, x1] x [y0, y1]`, in the order (low, low), (low, high),
/// (high, low), (high, high).
pub fn noise_at_grid_nodes(x0: u32, y0: u32, x1: u32, y1: u32) -> (r: (u64, u64, u64, u64))
    ensures
        r.0 == noise_sample(x0, y0),
        r.1 == noise_sample(x0, y1),
        r.2 == noise_sample(x1, y0),
        r.3 == noise_sample(x1, y1),
        r.0 < SCALE,
        r.1 < SCALE,
        r.2 < SCALE,
        r.3 < SCALE,
{
    let noise_00: u64 = value_noise(x0, y0);
    let noise_01: u64 = value_noise(x0, y1);
    let noise_10: u64 = value_noise(x1, y0);
    let noise_11: u64 = value_noise(x1, y1);
    (noise_00, noise_01, noise_10, noise_11)
}

} // verus!
