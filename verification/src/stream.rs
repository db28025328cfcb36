//! The streaming plan: how many whole blocks a requested duration yields,
//! and the fixed output format. The writer loop generates one block at a
//! time, so memory stays bounded by the block size whatever the duration;
//! samples past the last whole block are dropped.

use vstd::arithmetic::div_mod::{
    lemma_div_is_ordered, lemma_fundamental_div_mod, lemma_mod_bound, lemma_mod_multiples_basic,
};
use vstd::arithmetic::mul::lemma_mul_inequality;
use vstd::prelude::*;

verus! {

/// The fixed output sample rate, in Hz.
pub const SAMPLE_RATE: u32 = 44100;

/// The fixed number of samples generated per block.
pub const BLOCK_SIZE: usize = 4096;

/// The fixed output bit depth.
pub const BITS_PER_SAMPLE: u16 = 16;

/// The fixed output channel count.
pub const CHANNELS: u16 = 1;

/// Every sample of the requested duration: `sample_rate * duration_sec`.
pub fn total_sample_count(sample_rate: u32, duration_sec: u32) -> (r: u64)
    ensures
        r == sample_rate as int * duration_sec as int,
{
    proof {
        assert(sample_rate as int * duration_sec as int <= 0xFFFF_FFFF * 0xFFFF_FFFF)
            by (nonlinear_arith)
            requires
                sample_rate as int <= 0xFFFF_FFFF,
                duration_sec as int <= 0xFFFF_FFFF,
        ;
    }
    (sample_rate as u64) * (duration_sec as u64)
}

/// How many whole blocks the requested duration yields: the total sample
/// count divided by the block size, rounded down.
pub fn full_block_count(sample_rate: u32, duration_sec: u32, block_size: usize) -> (r: u64)
    requires
        block_size >= 1,
    ensures
        r == (sample_rate as int * duration_sec as int) / (block_size as int),
{
    let total = total_sample_count(sample_rate, duration_sec);
    total / (block_size as u64)
}

/// How many samples the writer loop emits: whole blocks only.
pub open spec fn emitted_sample_count(total: int, block_size: int) -> int {
    (total / block_size) * block_size
}

/// The truncation the block division implies: the emitted sample count is
/// the total sample count rounded down to the nearest multiple of the block
/// size - a whole number of blocks, never more than requested, short of the
/// request by less than one block, and the greatest such multiple.
pub proof fn lemma_sample_count_truncation(total: int, block_size: int)
    requires
        total >= 0,
        block_size >= 1,
    ensures
        emitted_sample_count(total, block_size) % block_size == 0,
        emitted_sample_count(total, block_size) <= total,
        total - emitted_sample_count(total, block_size) < block_size,
        forall|m: int|
            0 <= m && #[trigger] (m % block_size) == 0 && m <= total ==> m <= emitted_sample_count(
                total,
                block_size,
            ),
{
    let q = total / block_size;
    lemma_mod_multiples_basic(q, block_size);
    lemma_fundamental_div_mod(total, block_size);
    lemma_mod_bound(total, block_size);
    assert(q * block_size == block_size * q) by (nonlinear_arith);
    assert forall|m: int|
        0 <= m && #[trigger] (m % block_size) == 0 && m <= total implies m <= emitted_sample_count(
        total,
        block_size,
    ) by {
        lemma_fundamental_div_mod(m, block_size);
        lemma_div_is_ordered(m, total, block_size);
        lemma_mul_inequality(m / block_size, q, block_size);
        assert(block_size * (m / block_size) == (m / block_size) * block_size)
            by (nonlinear_arith);
    }
}


} // verus!
