use noise_gen::quant::{quantize_block, quantize_sample};
use noise_gen::stream::{full_block_count, total_sample_count};

fn bits(x: f32) -> u32 {
    x.to_bits()
}

#[test]
fn quantize_exact_values() {
    assert_eq!(quantize_sample(bits(0.0)), 0);
    assert_eq!(quantize_sample(bits(0.5)), 16383);
    assert_eq!(quantize_sample(bits(-0.5)), -16383);
    assert_eq!(quantize_sample(bits(1.0)), 32767);
    assert_eq!(quantize_sample(bits(-1.0)), -32767);
}

#[test]
fn quantize_saturates_out_of_range() {
    assert_eq!(quantize_sample(bits(1.5)), 32767);
    assert_eq!(quantize_sample(bits(-1.5)), -32768);
    assert_eq!(quantize_sample(bits(f32::INFINITY)), 32767);
    assert_eq!(quantize_sample(bits(f32::NEG_INFINITY)), -32768);
    assert_eq!(quantize_sample(bits(f32::NAN)), 0);
}

#[test]
fn quantize_matches_native_cast() {
    let mut xs: Vec<f32> = Vec::new();
    let mut v = -2.0f32;
    while v <= 2.0 {
        xs.push(v);
        v += 0.0173;
    }
    for &x in &xs {
        let expected = (x * 32767.0) as i16;
        assert_eq!(quantize_sample(bits(x)), expected, "value {}", x);
    }
}

#[test]
fn quantize_block_preserves_order() {
    let block = vec![bits(0.0), bits(0.25), bits(-0.25), bits(1.0)];
    let out = quantize_block(&block);
    assert_eq!(out.len(), 4);
    for i in 0..4 {
        assert_eq!(out[i], quantize_sample(block[i]));
    }
    assert_eq!(out[3], 32767);
}

#[test]
fn one_second_yields_ten_whole_blocks() {
    // 44100 samples requested, but only floor(44100 / 4096) = 10 whole
    // blocks = 40960 samples are emitted: the tail is dropped.
    assert_eq!(total_sample_count(44100, 1), 44100);
    let blocks = full_block_count(44100, 1, 4096);
    assert_eq!(blocks, 10);
    assert_eq!(blocks * 4096, 40960);
    assert!(blocks * 4096 <= 44100);
    assert!(44100 - blocks * 4096 < 4096);
}

#[test]
fn block_plan_handles_extreme_durations() {
    // The plan never overflows, however long the request: memory and
    // arithmetic are independent of the duration.
    assert_eq!(total_sample_count(44100, u32::MAX), 44100u64 * (u32::MAX as u64));
    let blocks = full_block_count(44100, u32::MAX, 4096);
    assert_eq!(blocks, 44100u64 * (u32::MAX as u64) / 4096);
    assert_eq!(full_block_count(44100, 3600, 4096), 44100 * 3600 / 4096);
    assert_eq!(full_block_count(44100, 0, 4096), 0);
}

#[test]
fn zero_remainder_configuration_drops_nothing() {
    // A rate that is a multiple of the block size avoids the tail drop.
    assert_eq!(full_block_count(4096, 2, 4096), 2);
    assert_eq!(full_block_count(4096, 2, 4096) * 4096, total_sample_count(4096, 2));
}

#[test]
fn output_format_is_fixed() {
    assert_eq!(noise_gen::stream::SAMPLE_RATE, 44100);
    assert_eq!(noise_gen::stream::BLOCK_SIZE, 4096);
    assert_eq!(noise_gen::stream::BITS_PER_SAMPLE, 16);
    assert_eq!(noise_gen::stream::CHANNELS, 1);
}
