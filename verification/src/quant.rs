//! Amplitude quantization: a normalized binary32 sample scaled to the
//! 16-bit signed amplitude range of the PCM sink, truncating toward zero.
//! The conversion saturates at the integer range's ends rather than
//! wrapping, so out-of-range samples from pink or brown gain compensation
//! stay defined.

use crate::fbits::{as_i16_bits, f_as_i16, f_mul, fmul_bits};
use vstd::prelude::*;

verus! {

/// The bit pattern of 32767.0, the peak amplitude of a 16-bit sink.
pub const F_AMPLITUDE: u32 = 0x46FF_FE00;

/// The quantized form of one sample: `sample * 32767.0`, truncated toward
/// zero into a 16-bit signed integer, saturating at the range's ends.
pub open spec fn quantized(s: u32) -> i16 {
    as_i16_bits(fmul_bits(s, F_AMPLITUDE))
}

/// Scales one normalized sample to the sink's amplitude range.
pub fn quantize_sample(s: u32) -> (r: i16)
    ensures
        r == quantized(s),
{
    f_as_i16(f_mul(s, F_AMPLITUDE))
}

/// Quantizes a whole block, in sample order.
pub fn quantize_block(block: &Vec<u32>) -> (r: Vec<i16>)
    ensures
        r@.len() == block@.len(),
        forall|i: int| 0 <= i < block@.len() ==> r@[i] == quantized(block@[i]),
{
    let mut r: Vec<i16> = Vec::new();
    let mut i: usize = 0;
    while i < block.len()
        invariant
            i <= block@.len(),
            r@.len() == i,
            forall|j: int| 0 <= j < i ==> r@[j] == quantized(block@[j]),
        decreases block@.len() - i,
    {
        r.push(quantize_sample(block[i]));
        i = i + 1;
    }
    r
}

} // verus!
