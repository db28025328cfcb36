//! The uniform random source behind the noise generator.
//!
//! `rand`'s thread-local generator supplies raw 32-bit entropy words; the
//! verified code turns each word into a uniform draw in [0, 1), as the same
//! bit pattern `rand` itself would produce for an `f32`: the top 24 bits,
//! converted to binary32 and scaled by 2^-24.

use crate::fbits::{f_from_u24, f_mul, fmul_bits, from_u24_bits};
use rand::rngs::ThreadRng;
use rand::RngCore;
use vstd::prelude::*;

verus! {

#[verifier::external_type_specification]
#[verifier::external_body]
pub struct ExThreadRng(ThreadRng);

/// The bit pattern of 2^-24, the scale that maps a 24-bit integer to [0, 1).
pub const UNIT_SCALE_BITS: u32 = 0x3380_0000;

/// Relies on rand::thread_rng: a handle to the thread-local generator.
#[verifier::external_body]
pub(crate) fn fresh_rng() -> ThreadRng {
    rand::thread_rng()
}

/// Relies on rand's RngCore::next_u32 for ThreadRng: the next 32 bits of
/// entropy. Nothing is promised of the value.
#[verifier::external_body]
pub(crate) fn next_entropy(rng: &mut ThreadRng) -> u32 {
    rng.next_u32()
}

/// The [0, 1) draw made from one 32-bit entropy word: the top 24 bits as a
/// binary32 value, scaled by 2^-24.
pub open spec fn unit_draw_of(raw: u32) -> u32 {
    fmul_bits(UNIT_SCALE_BITS, from_u24_bits(raw >> 8))
}

/// Turns one entropy word into a uniform draw in [0, 1).
pub(crate) fn unit_draw(raw: u32) -> (r: u32)
    ensures
        r == unit_draw_of(raw),
{
    f_mul(UNIT_SCALE_BITS, f_from_u24(raw >> 8))
}

/// Fills a vector with `n` fresh uniform draws in [0, 1).
pub(crate) fn draw_block(rng: &mut ThreadRng, n: usize) -> (r: Vec<u32>)
    ensures
        r@.len() == n,
{
    let mut r: Vec<u32> = Vec::new();
    let mut i: usize = 0;
    while i < n
        invariant
            r@.len() == i,
            i <= n,
        decreases n - i,
    {
        let raw = next_entropy(rng);
        r.push(unit_draw(raw));
        i = i + 1;
    }
    r
}

} // verus!
