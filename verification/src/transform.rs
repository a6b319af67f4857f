//! Field post-transform: folds position and turbulence through a periodic
//! sine-shaped function, producing the banded "marble" look.
//!
//! The phase is `x * phase_x + y * phase_y + turbulence * turbulence_scale`
//! in fixed point.  Because the absolute sine has period pi, the phase is
//! reduced modulo `PI_FIXED` and mapped through a rational sine arch
//! (`16 m (P - m) / (5 P^2 - 4 m (P - m))`, Bhaskara's approximation),
//! which is exactly 0 at both ends of the arch, exactly 1 at its middle,
//! and never leaves `[0, 1]` — so the field value stays in `[0, SCALE]`
//! for every turbulence input.

use vstd::prelude::*;
use vstd::arithmetic::div_mod::{
    lemma_div_is_ordered, lemma_div_multiples_vanish, lemma_mod_bound,
};
use crate::accum::{accumulate, turbulence};
use crate::config::Config;
use crate::SCALE;

verus! {

/// Pi at fixed point over `SCALE` (the floor of pi * 2^32): the half
/// period of the post-transform's sine arch.
pub const PI_FIXED: u64 = 13493037704;

/// The post-transform's phase at `(x, y)` for a turbulence value `t`:
/// position term plus the rescaled turbulence term, all fixed point over
/// `SCALE`.
pub open spec fn phase(c: Config, x: u32, y: u32, t: int) -> int {
    x * c.phase_x + y * c.phase_y + t * c.turbulence_scale / (SCALE as int)
}

/// One arch of the absolute sine on `[0, PI_FIXED)`, as a rational
/// function of the reduced phase `m`, at fixed point over `SCALE`.
pub open spec fn sine_arch(m: int) -> int {
    16 * (m * (PI_FIXED - m)) * SCALE / (5 * PI_FIXED * PI_FIXED - 4 * (m * (PI_FIXED - m)))
}

/// The final per-pixel scalar for turbulence `t` at `(x, y)`: the sine
/// arch evaluated on the phase reduced modulo `PI_FIXED`.
pub open spec fn field_spec(c: Config, x: u32, y: u32, t: int) -> int {
    sine_arch(phase(c, x, y, t) % (PI_FIXED as int))
}

/// The sine arch never leaves `[0, SCALE]`: its numerator is nonnegative
/// and at most its denominator, because `4 m (P - m) <= P^2` (the square
/// `(P - 2m)^2` is nonnegative).
pub proof fn lemma_sine_arch_bounds(m: int)
    requires
        0 <= m < PI_FIXED,
    ensures
        0 <= sine_arch(m) <= SCALE,
{
    let p = PI_FIXED as int;
    let q = m * (p - m);
    assert(0 <= m * (p - m) && 4 * (m * (p - m)) <= p * p) by (nonlinear_arith)
        requires
            0 <= m < p,
    ;
    let den = 5 * p * p - 4 * q;
    assert(den >= p * p) by (nonlinear_arith)
        requires
            4 * q <= p * p,
            den == 5 * p * p - 4 * q,
    ;
    assert(p * p >= 1) by (nonlinear_arith)
        requires
            p >= 1,
    ;
    assert(16 * q * SCALE <= den * SCALE) by (nonlinear_arith)
        requires
            20 * q <= 5 * (p * p),
            den == 5 * p * p - 4 * q,
            SCALE == 0x1_0000_0000u64,
    ;
    assert(0 <= 16 * q * SCALE) by (nonlinear_arith)
        requires
            0 <= q,
            SCALE == 0x1_0000_0000u64,
    ;
    lemma_div_is_ordered(0, 16 * q * SCALE, den);
    lemma_div_is_ordered(16 * q * SCALE, den * SCALE, den);
    lemma_div_multiples_vanish(0, den);
    lemma_div_multiples_vanish(SCALE as int, den);
    assert(den * 0 == 0 && den * SCALE == (SCALE as int) * den) by (nonlinear_arith);
}

/// The field post-transform: maps the position and the normalized
/// turbulence through the periodic sine arch.  The result is a fixed-point
/// value in `[0, SCALE]` for every turbulence input.
pub fn field_value(c: &Config, x: u32, y: u32, t: u64) -> (r: u64)
    requires
        c.valid(),
    ensures
        r == field_spec(*c, x, y, t as int),
        r <= SCALE,
{
    proof {
        assert(x * c.phase_x <= 0xFFFF_FFFFu64 * 0x100_0000_0000u64) by (nonlinear_arith)
            requires
                c.phase_x <= 0x100_0000_0000u64,
        ;
        assert(y * c.phase_y <= 0xFFFF_FFFFu64 * 0x100_0000_0000u64) by (nonlinear_arith)
            requires
                c.phase_y <= 0x100_0000_0000u64,
        ;
        assert(t * c.turbulence_scale <= 0xFFFF_FFFF_FFFF_FFFFu64 * 0x100_0000_0000u64)
            by (nonlinear_arith)
            requires
                c.turbulence_scale <= 0x100_0000_0000u64,
        ;
    }
    let xterm: u128 = (x as u128) * (c.phase_x as u128);
    let yterm: u128 = (y as u128) * (c.phase_y as u128);
    let tterm: u128 = (t as u128) * (c.turbulence_scale as u128) / (SCALE as u128);
    let ph: u128 = xterm + yterm + tterm;
    proof {
        lemma_mod_bound(ph as int, PI_FIXED as int);
    }
    let m: u128 = ph % (PI_FIXED as u128);
    proof {
        lemma_sine_arch_bounds(m as int);
        let p = PI_FIXED as int;
        assert(0 <= m * (p - m) && 4 * (m * (p - m)) <= p * p) by (nonlinear_arith)
            requires
                0 <= m < p,
        ;
    }
    let q: u128 = m * ((PI_FIXED as u128) - m);
    let den: u128 = 5 * (PI_FIXED as u128) * (PI_FIXED as u128) - 4 * q;
    let r128: u128 = 16 * q * (SCALE as u128) / den;
    r128 as u64
}

/// The full per-pixel pipeline: multi-octave turbulence at `(x, y)` fed
/// through the field post-transform.  Deterministic: the result is a
/// function of the configuration and the coordinates alone.
pub fn multi_perlin(c: &Config, x: u32, y: u32) -> (r: u64)
    requires
        c.valid(),
        x + c.base_frequency <= u32::MAX,
        y + c.base_frequency <= u32::MAX,
    ensures
        r == field_spec(*c, x, y, turbulence(*c, x, y)),
        r <= SCALE,
{
    let t: u64 = accumulate(c, x, y);
    field_value(c, x, y, t)
}

} // verus!
