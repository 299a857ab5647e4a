use weg::bignum::binary_to_decimal_big;
use weg::errors::EntropyError;
use weg::estimator::frame_bits;
use weg::mixer::entropy;
use weg::pipeline::derive_random_decimal;
use weg::planner::frames_needed;

#[test]
fn frame_bits_counts_pixels_plus_marker() {
    assert_eq!(frame_bits(2, 2), 5);
    assert_eq!(frame_bits(1, 1), 2);
    assert_eq!(frame_bits(640, 480), 640 * 480 + 1);
}

#[test]
fn frame_bits_zero_and_maximal_resolution() {
    assert_eq!(frame_bits(0, 0), 1);
    assert_eq!(frame_bits(0, 480), 1);
    assert_eq!(frame_bits(u32::MAX, u32::MAX), 0xFFFF_FFFE_0000_0002);
}

#[test]
fn planner_requests_two_frames_for_small_requests() {
    assert_eq!(frames_needed(0, 5), 2);
    assert_eq!(frames_needed(3, 5), 2);
    assert_eq!(frames_needed(4, 5), 2);
    assert_eq!(frames_needed(0, 1), 2);
}

#[test]
fn planner_formula_for_large_requests() {
    // 2 + ceil((trim - 1) / frame_bits)
    assert_eq!(frames_needed(5, 5), 3);
    assert_eq!(frames_needed(6, 5), 3);
    assert_eq!(frames_needed(10, 5), 4);
    assert_eq!(frames_needed(11, 5), 4);
    assert_eq!(frames_needed(1, 1), 2);
    assert_eq!(frames_needed(7, 1), 8);
}

#[test]
fn planner_covers_small_requests_on_tiny_sensor() {
    // A 1 by 1 sensor yields two bits per step; for these requests the
    // planned count still leaves a bitstream at least `trim` long.
    for trim in 3..=4u64 {
        let n = frames_needed(trim, 2);
        assert_eq!(n, 2 + (trim - 1 + 1) / 2);
        let frames: Vec<Vec<u8>> = (0..n).map(|i| vec![(i % 2) as u8]).collect();
        let stream = entropy(frames, u64::MAX).unwrap();
        assert!(stream.len() as u64 >= trim);
    }
}

#[test]
fn mixer_is_deterministic() {
    let make = || vec![vec![7u8, 9, 200, 3], vec![8u8, 9, 201, 3], vec![8u8, 10, 201, 4]];
    let a = entropy(make(), 9).unwrap();
    let b = entropy(make(), 9).unwrap();
    assert_eq!(a, b);
}

#[test]
fn mixer_length_and_marker() {
    // 3 frames of 2 pixels: 1 + (3 - 1) * 2 = 5 bits before trimming.
    let frames = vec![vec![1u8, 2], vec![3u8, 4], vec![5u8, 6]];
    let stream = entropy(frames, u64::MAX).unwrap();
    assert_eq!(stream.len(), 5);
    assert!(stream.starts_with('1'));
    assert_eq!(stream, "10000");
}

#[test]
fn mixer_trims_to_requested_length() {
    let frames = vec![vec![1u8, 2], vec![3u8, 4], vec![5u8, 6]];
    assert_eq!(entropy(frames, 3).unwrap(), "100");
}

#[test]
fn mixer_takes_at_most_what_is_available() {
    let frames = vec![vec![0u8], vec![1u8]];
    assert_eq!(entropy(frames, 100).unwrap(), "11");
}

#[test]
fn mixer_rejects_unequal_buffers() {
    let frames = vec![vec![1u8, 2], vec![3u8]];
    assert_eq!(entropy(frames, 4), Err(EntropyError::ShapeMismatch));
}

#[test]
fn mixer_rejects_empty_batch() {
    assert_eq!(entropy(Vec::new(), 4), Err(EntropyError::ShapeMismatch));
}

#[test]
fn pipeline_rejects_unequal_buffers() {
    let frames = vec![vec![1u8, 2], vec![3u8]];
    assert_eq!(derive_random_decimal(frames, 4), Err(EntropyError::ShapeMismatch));
}

#[test]
fn assembler_round_trip_keeps_leading_one_strings() {
    for s in ["1", "110", "101101", "1000000000000000000000000000000001"] {
        let n = binary_to_decimal_big(s).unwrap();
        assert_eq!(n.to_str_radix(2), s);
    }
}

#[test]
fn assembler_round_trip_drops_leading_zeros() {
    // A numeral with leading zeros denotes the same value as its stripped
    // form, so its length does not survive the round trip.
    let n = binary_to_decimal_big("0110").unwrap();
    assert_eq!(n.to_str_radix(2), "110");
}

#[test]
fn assembler_rejects_empty_numeral() {
    assert_eq!(binary_to_decimal_big(""), Err(EntropyError::MalformedNumeral));
}

#[test]
fn assembler_rejects_foreign_characters() {
    assert_eq!(binary_to_decimal_big("102"), Err(EntropyError::MalformedNumeral));
    assert_eq!(binary_to_decimal_big("1a1"), Err(EntropyError::MalformedNumeral));
    assert_eq!(binary_to_decimal_big("+11"), Err(EntropyError::MalformedNumeral));
}

#[test]
fn assembler_parses_exact_values() {
    assert_eq!(binary_to_decimal_big("110").unwrap().to_str_radix(10), "6");
    assert_eq!(binary_to_decimal_big("0").unwrap().to_str_radix(10), "0");
    assert_eq!(
        binary_to_decimal_big("10000000000000000000000000000000000000000000000000000000000000000")
            .unwrap()
            .to_str_radix(10),
        "18446744073709551616"
    );
}

#[test]
fn end_to_end_two_by_two_scenario() {
    // 2x2 sensor: pixel count 4, per-step yield 5; a 3-bit request needs
    // two frames, whose XOR stream "1001" follows the marker bit.
    assert_eq!(frame_bits(2, 2), 5);
    assert_eq!(frames_needed(3, 5), 2);
    let frames = vec![vec![10u8, 10, 10, 10], vec![11u8, 10, 10, 11]];
    assert_eq!(entropy(frames.clone(), u64::MAX).unwrap(), "11001");
    assert_eq!(entropy(frames.clone(), 3).unwrap(), "110");
    assert_eq!(derive_random_decimal(frames, 3).unwrap(), "6");
}

#[test]
fn end_to_end_zero_bit_request_fails() {
    let frames = vec![vec![10u8, 10, 10, 10], vec![11u8, 10, 10, 11]];
    assert_eq!(derive_random_decimal(frames, 0), Err(EntropyError::MalformedNumeral));
}

#[test]
fn end_to_end_tiny_sensor_request() {
    // 1x1 sensor, 4-bit request: the planner asks for 4 frames and the
    // mixed stream holds exactly 4 bits.
    assert_eq!(frame_bits(1, 1), 2);
    let n = frames_needed(4, 2);
    assert_eq!(n, 4);
    let frames = vec![vec![0u8], vec![1u8], vec![1u8], vec![0u8]];
    assert_eq!(frames.len() as u64, n);
    assert_eq!(entropy(frames.clone(), 4).unwrap(), "1101");
    assert_eq!(derive_random_decimal(frames, 4).unwrap(), "13");
}
