//! Hash function: maps a grid-node coordinate pair to a noise sample in
//! `[0, SCALE)` by hashing the little-endian bytes of the two coordinates
//! with a fixed salt.  Pure and deterministic: adjacent cells that share a
//! corner always see the same sample there, which is what makes the
//! interpolation seamless.

use vstd::prelude::*;
use crate::SCALE;

verus! {

/// Fixed salt handed to the 64-bit hash; the engine is seedless, so this
/// never varies.
pub const HASH_SALT: u64 = 0;

/// The 64-bit digest that `xxhash_rust::xxh64::xxh64` computes for the
/// given bytes and seed; it depends on its arguments alone.
pub uninterp spec fn xxh64_digest(bytes: Seq<u8>, seed: u64) -> u64;

/// Relies on `xxhash_rust::xxh64::xxh64`: a pure 64-bit hash of the input
/// bytes and the seed, with no other input.
#[verifier::external_body]
fn xxh64_hash(bytes: &Vec<u8>, seed: u64) -> (r: u64)
    ensures
        r == xxh64_digest(bytes@, seed),
{
    xxhash_rust::xxh64::xxh64(bytes.as_slice(), seed)
}

/// The four little-endian bytes of a 32-bit coordinate.
pub open spec fn le_bytes(x: u32) -> Seq<u8> {
    seq![
        (x % 0x100) as u8,
        ((x / 0x100) % 0x100) as u8,
        ((x / 0x1_0000) % 0x100) as u8,
        ((x / 0x100_0000) % 0x100) as u8,
    ]
}

/// The 8-byte buffer hashed for grid node `(x, y)`: the little-endian bytes
/// of `x` followed by those of `y`.
pub open spec fn node_bytes(x: u32, y: u32) -> Seq<u8> {
    le_bytes(x) + le_bytes(y)
}

/// The noise sample at grid node `(x, y)`: the top 32 bits of the node's
/// 64-bit digest, read as a fixed-point value in `[0, SCALE)`.
pub open spec fn noise_sample(x: u32, y: u32) -> u64 {
    xxh64_digest(node_bytes(x, y), HASH_SALT) / SCALE
}

/// A noise sample is always strictly below `SCALE`: it is a 64-bit digest
/// divided by `SCALE` itself.
pub proof fn lemma_noise_sample_bound(x: u32, y: u32)
    ensures
        0 <= noise_sample(x, y) < SCALE,
{
    let h = xxh64_digest(node_bytes(x, y), HASH_SALT);
    assert(h as int / 0x1_0000_0000 < 0x1_0000_0000) by (nonlinear_arith);
}

/// Appends the four little-endian bytes of `x` to `buf`.
fn push_le_bytes(buf: &mut Vec<u8>, x: u32)
    ensures
        final(buf)@ == old(buf)@ + le_bytes(x),
{
    buf.push((x % 0x100) as u8);
    buf.push((x / 0x100 % 0x100) as u8);
    buf.push((x / 0x1_0000 % 0x100) as u8);
    buf.push((x / 0x100_0000 % 0x100) as u8);
    proof {
        assert(buf@ =~= old(buf)@ + le_bytes(x));
    }
}

/// Evaluates the hash-based value noise at grid node `(x, y)`:
/// deterministic, seedless, and always strictly below `SCALE`.
pub fn value_noise(x: u32, y: u32) -> (r: u64)
    ensures
        r == noise_sample(x, y),
        r < SCALE,
{
    let mut buf: Vec<u8> = Vec::new();
    push_le_bytes(&mut buf, x);
    push_le_bytes(&mut buf, y);
    proof {
        assert(buf@ =~= node_bytes(x, y));
    }
    let h: u64 = xxh64_hash(&buf, HASH_SALT);
    let r: u64 = h / SCALE;
    proof {
        assert(h as int / 0x1_0000_0000 < 0x1_0000_0000) by (nonlinear_arith);
    }
    r
}

} // verus!
