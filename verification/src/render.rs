//! Image materialization, the computational half: quantizes each field
//! value to an 8-bit intensity and lays the whole square grid out row by
//! row in one buffer.  Writing the buffer to a file stays outside the
//! engine.

use vstd::prelude::*;
use vstd::arithmetic::div_mod::{
    lemma_fundamental_div_mod, lemma_mod_bound, lemma_fundamental_div_mod_converse_div,
    lemma_fundamental_div_mod_converse_mod, lemma_multiply_divide_lt,
};
use crate::accum::turbulence;
use crate::config::Config;
use crate::transform::{field_spec, multi_perlin};
use crate::SCALE;

verus! {

/// The 8-bit intensity stored for a fixed-point field value `v` in
/// `[0, SCALE]`: `round(v * 255)` in real terms, always in `[0, 255]`.
pub open spec fn quantized(v: int) -> int {
    (v * 255 + (SCALE as int) / 2) / (SCALE as int)
}

/// The pixel at `(x, y)`: the full pipeline's field value, quantized.
pub open spec fn pixel_at(c: Config, x: u32, y: u32) -> int {
    quantized(field_spec(c, x, y, turbulence(c, x, y)))
}

/// The whole rendered image, row by row: pixel `i` sits at
/// `(i % size, i / size)`.
pub open spec fn image_spec(c: Config, size: u32) -> Seq<u8> {
    Seq::new((size * size) as nat, |i: int| pixel_at(c, (i % (size as int)) as u32, (i / (size as int)) as u32) as u8)
}

/// Quantization round trip: the stored intensity is within half a
/// quantization step of the field value, so the value re-derived from the
/// byte is within `SCALE / 255` (one intensity step) of the original.
pub proof fn lemma_quantize_round_trip(v: int)
    requires
        0 <= v <= SCALE,
    ensures
        0 <= quantized(v) <= 255,
        v - (SCALE as int) / 255 <= quantized(v) * (SCALE as int) / 255 <= v + (SCALE as int)
            / 255,
{
    let s = SCALE as int;
    let b = quantized(v);
    lemma_fundamental_div_mod(v * 255 + s / 2, s);
    lemma_mod_bound(v * 255 + s / 2, s);
    assert(0 <= b) by {
        lemma_fundamental_div_mod_converse_div(0, s, 0, 0);
        vstd::arithmetic::div_mod::lemma_div_is_ordered(0, v * 255 + s / 2, s);
    }
    assert(b <= 255) by {
        assert(v * 255 + s / 2 < s * 256) by (nonlinear_arith)
            requires
                v <= s,
                s == 0x1_0000_0000,
        ;
        lemma_multiply_divide_lt(v * 255 + s / 2, s, 256);
    }
    // s * b is within s/2 of 255 * v
    assert(s * b <= v * 255 + s / 2);
    assert(v * 255 + s / 2 - s < s * b);
    let v2 = b * s / 255;
    lemma_fundamental_div_mod(b * s, 255);
    lemma_mod_bound(b * s, 255);
    assert(b * s == s * b) by (nonlinear_arith);
    // 255 * v2 is within [255*v - s/2 - 255, 255*v + s/2]
    assert(255 * v2 <= v * 255 + s / 2);
    assert(255 * v2 > v * 255 + s / 2 - s - 255);
    assert(v2 <= v + s / 255) by {
        assert(255 * v2 <= 255 * (v + s / 255)) by (nonlinear_arith)
            requires
                255 * v2 <= v * 255 + s / 2,
                s == 0x1_0000_0000,
        ;
        assert(v2 <= v + s / 255) by (nonlinear_arith)
            requires
                255 * v2 <= 255 * (v + s / 255),
        ;
    }
    assert(v - s / 255 <= v2) by {
        assert(255 * (v - s / 255) <= 255 * v2) by (nonlinear_arith)
            requires
                255 * v2 > v * 255 + s / 2 - s - 255,
                s == 0x1_0000_0000,
        ;
        assert(v - s / 255 <= v2) by (nonlinear_arith)
            requires
                255 * (v - s / 255) <= 255 * v2,
        ;
    }
}

/// Determinism of the whole pipeline: the rendered image is a function of
/// the configuration and the grid side alone, so repeated renders with the
/// same inputs agree bit for bit.
pub proof fn lemma_render_deterministic(c: Config, size: u32, a: Seq<u8>, b: Seq<u8>)
    requires
        a == image_spec(c, size),
        b == image_spec(c, size),
    ensures
        a == b,
{
}

/// Quantizes a fixed-point field value in `[0, SCALE]` to its 8-bit
/// intensity, `round(v * 255)` in real terms.
pub fn quantize(v: u64) -> (b: u8)
    requires
        v <= SCALE,
    ensures
        b == quantized(v as int),
{
    proof {
        lemma_quantize_round_trip(v as int);
    }
    ((v * 255 + SCALE / 2) / SCALE) as u8
}

/// Renders the whole square grid of side `size`: pixel `(x, y)` holds the
/// quantized field value at `(x, y)`, stored row by row at index
/// `y * size + x`.
pub fn render(c: &Config, size: u32) -> (img: Vec<u8>)
    requires
        c.valid(),
        1 <= size <= 0x8000,
        size + c.base_frequency <= u32::MAX,
    ensures
        img@ == image_spec(*c, size),
        img@.len() == size * size,
{
    let mut img: Vec<u8> = Vec::new();
    let mut y: u32 = 0;
    while y < size
        invariant
            c.valid(),
            1 <= size <= 0x8000,
            size + c.base_frequency <= u32::MAX,
            y <= size,
            img@.len() == y * size,
            forall|i: int| 0 <= i < img@.len() ==> img@[i] == image_spec(*c, size)[i],
        decreases size - y,
    {
        let mut x: u32 = 0;
        proof {
            assert(y * size + size <= size * size) by (nonlinear_arith)
                requires
                    y < size,
            ;
        }
        while x < size
            invariant
                c.valid(),
                1 <= size <= 0x8000,
                size + c.base_frequency <= u32::MAX,
                y < size,
                x <= size,
                y * size + size <= size * size,
                img@.len() == y * size + x,
                forall|i: int| 0 <= i < img@.len() ==> img@[i] == image_spec(*c, size)[i],
            decreases size - x,
        {
            let v: u64 = multi_perlin(c, x, y);
            let b: u8 = quantize(v);
            img.push(b);
            proof {
                let s = size as int;
                let i = y * s + x;
                lemma_fundamental_div_mod_converse_div(i, s, y as int, x as int);
                lemma_fundamental_div_mod_converse_mod(i, s, y as int, x as int);
                assert(image_spec(*c, size)[i] == b);
            }
            x = x + 1;
        }
        y = y + 1;
        proof {
            assert((y - 1) * size + size == y * size) by (nonlinear_arith);
        }
    }
    proof {
        assert(img@.len() == size * size) by (nonlinear_arith)
            requires
                y == size,
                img@.len() == y * size,
        ;
        assert(img@ =~= image_spec(*c, size));
    }
    img
}

} // verus!
