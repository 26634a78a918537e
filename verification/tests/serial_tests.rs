//! Tests of frame reassembly and frame decoding.

use receiver::{parse_hex_u32, parse_sensor_data, parse_sensor_data_at, Reassembler};

const LINE_A: &str = "00000123,41200000,3F800000,3F800000,3F800000,3F800000,3F800000,3F800000";
const LINE_B: &str = "00000124,41300000,3F800000,3F800000,3F800000,3F800000,3F800000,3F800000";
const LINE_C: &str = "00000125,41400000,3F800000,3F800000,3F800000,3F800000,3F800000,3F800000";
const LINE_D: &str = "00000126,41500000,3F800000,3F800000,3F800000,3F800000,3F800000,3F800000";

#[test]
fn test_read_serial_data_multiple_lines() {
    let data = format!("{}\n{}\n{}\n", LINE_A, LINE_B, LINE_C);

    let mut reasm = Reassembler::new();
    let result = reasm.push_chunk(&data);

    assert_eq!(result.len(), 3, "Should have read 3 complete lines");
    assert_eq!(result[0], LINE_A);
    assert_eq!(result[1], LINE_B);
    assert_eq!(result[2], LINE_C);
}

#[test]
fn test_read_serial_data_partial_line() {
    let data = "00000123,41200000,3F800000,3F800000,3F800000,3F80";

    let mut reasm = Reassembler::new();
    let result = reasm.push_chunk(data);
    assert_eq!(result.len(), 0, "Should not have any complete lines");

    // The partial line is retained for the next read.
    assert_eq!(reasm.buffer, data, "Data should be stored in buffer");

    // Now add the rest of the line.
    let data2 = "0000,3F800000,3F800000\n";
    let result = reasm.push_chunk(data2);
    assert_eq!(result.len(), 1, "Should now have one complete line");
    assert_eq!(result[0], LINE_A);
}

#[test]
fn test_read_serial_data_multiple_reads() {
    // First read: two complete lines and the start of a third.
    let data1 = format!("{}\n{}\n00000125,414", LINE_A, LINE_B);

    let mut reasm = Reassembler::new();
    let result1 = reasm.push_chunk(&data1);
    assert_eq!(result1.len(), 2, "Should have read 2 complete lines");

    // Second read: the rest of the third line and a fourth line.
    let data2 = format!(
        "00000,3F800000,3F800000,3F800000,3F800000,3F800000,3F800000\n{}\n",
        LINE_D
    );
    let result2 = reasm.push_chunk(&data2);
    assert_eq!(result2.len(), 2, "Should have read 2 more complete lines");
    assert_eq!(result2[0], LINE_C);
    assert_eq!(result2[1], LINE_D);
}

#[test]
fn test_parse_sensor_data_valid() {
    let line = LINE_A;
    let result = parse_sensor_data(line);
    assert!(result.is_ok(), "Failed to parse valid data");

    let data = result.unwrap();
    assert_eq!(data.timestamp, 0x123);

    // 41200000 in hex is 10.0 in float.
    let temp = f32::from_bits(data.temp);
    assert!((temp - 10.0).abs() < f32::EPSILON, "Temperature should be 10.0");

    // 3F800000 in hex is 1.0 in float.
    assert!((f32::from_bits(data.gx) - 1.0).abs() < f32::EPSILON, "gx should be 1.0");
    assert!((f32::from_bits(data.gy) - 1.0).abs() < f32::EPSILON, "gy should be 1.0");
    assert!((f32::from_bits(data.gz) - 1.0).abs() < f32::EPSILON, "gz should be 1.0");
    assert!((f32::from_bits(data.ax) - 1.0).abs() < f32::EPSILON, "ax should be 1.0");
    assert!((f32::from_bits(data.ay) - 1.0).abs() < f32::EPSILON, "ay should be 1.0");
    assert!((f32::from_bits(data.az) - 1.0).abs() < f32::EPSILON, "az should be 1.0");
}

#[test]
fn test_parse_sensor_data_invalid_format() {
    // Not enough parts.
    let line = "00000123,41200000";
    let result = parse_sensor_data(line);
    assert!(result.is_err(), "Should fail with not enough parts");

    // Invalid hex in timestamp.
    let line = "NOTAHEX,41200000,3F800000,3F800000,3F800000,3F800000,3F800000,3F800000";
    let result = parse_sensor_data(line);
    assert!(result.is_err(), "Should fail with invalid hex");
}

#[test]
fn test_bit_conversion() {
    let line = "00000001,40A00000,40400000,C0000000,00000000,3F800000,BF800000,80000000";
    let result = parse_sensor_data(line).unwrap();

    assert_eq!(result.timestamp, 1); // 0x1
    assert!((f32::from_bits(result.temp) - 5.0).abs() < f32::EPSILON, "40A00000 should be 5.0");
    assert!((f32::from_bits(result.gx) - 3.0).abs() < f32::EPSILON, "40400000 should be 3.0");
    assert!((f32::from_bits(result.gy) - (-2.0)).abs() < f32::EPSILON, "C0000000 should be -2.0");
    assert!((f32::from_bits(result.gz) - 0.0).abs() < f32::EPSILON, "00000000 should be 0.0");
    assert!((f32::from_bits(result.ax) - 1.0).abs() < f32::EPSILON, "3F800000 should be 1.0");
    assert!((f32::from_bits(result.ay) - (-1.0)).abs() < f32::EPSILON, "BF800000 should be -1.0");
    assert!((f32::from_bits(result.az) - (-0.0)).abs() < f32::EPSILON, "80000000 should be -0.0");
}

#[test]
fn round_trip_preserves_every_bit_pattern() {
    // A line built by rendering f32 bit patterns as 8 hex digits decodes
    // to records whose fields bit-equal the originals: negative zero and
    // NaN payloads included.
    let words: [u32; 8] = [
        7,
        (-0.0f32).to_bits(),
        f32::NAN.to_bits(),
        0x7FC0_0001, // a NaN with a payload
        0xFF80_0000, // negative infinity
        1.5f32.to_bits(),
        (-123.25f32).to_bits(),
        f32::MIN_POSITIVE.to_bits(),
    ];
    let line = words
        .iter()
        .map(|w| format!("{:08X}", w))
        .collect::<Vec<_>>()
        .join(",");
    let rec = parse_sensor_data_at(&line, 42).unwrap();
    assert_eq!(rec.timestamp, 7);
    assert_eq!(rec.temp, (-0.0f32).to_bits());
    assert_eq!(rec.gx, f32::NAN.to_bits());
    assert_eq!(rec.gy, 0x7FC0_0001);
    assert_eq!(rec.gz, 0xFF80_0000);
    assert_eq!(rec.ax, 1.5f32.to_bits());
    assert_eq!(rec.ay, (-123.25f32).to_bits());
    assert_eq!(rec.az, f32::MIN_POSITIVE.to_bits());
    assert_eq!(rec.system_timestamp, 42);
}

#[test]
fn reassembly_is_split_invariant() {
    // For every split point k, feeding the input in two chunks yields the
    // same frames as feeding it whole, and the same retained suffix.
    let input = format!("{}\n{}\r{}\r\n00000126,415", LINE_A, LINE_B, LINE_C);

    let mut whole = Reassembler::new();
    let expected = whole.push_chunk(&input);
    assert_eq!(expected, vec![LINE_A, LINE_B, LINE_C]);
    assert_eq!(whole.buffer, "00000126,415");

    for k in 0..=input.len() {
        let mut split = Reassembler::new();
        let mut frames = split.push_chunk(&input[..k]);
        frames.extend(split.push_chunk(&input[k..]));
        assert_eq!(frames, expected, "split at {} changed the frames", k);
        assert_eq!(split.buffer, whole.buffer, "split at {} changed the buffer", k);
    }
}

#[test]
fn crlf_yields_no_empty_frame() {
    let mut reasm = Reassembler::new();
    let frames = reasm.push_chunk("a\r\nb\n\r\r\nc");
    assert_eq!(frames, vec!["a", "b"]);
    assert_eq!(reasm.buffer, "c");
}

#[test]
fn reset_discards_partial_frame() {
    let mut reasm = Reassembler::new();
    assert_eq!(reasm.push_chunk("orphaned partial "), Vec::<String>::new());
    reasm.reset();
    assert_eq!(reasm.buffer, "");
    let frames = reasm.push_chunk("fresh\n");
    assert_eq!(frames, vec!["fresh"]);
}

#[test]
fn parse_hex_u32_exact_values() {
    assert_eq!(parse_hex_u32("0"), Some(0));
    assert_eq!(parse_hex_u32("0000007B"), Some(123));
    assert_eq!(parse_hex_u32("ffffffff"), Some(u32::MAX));
    assert_eq!(parse_hex_u32("FFFFFFFF"), Some(u32::MAX));
    assert_eq!(parse_hex_u32("00000000FF"), Some(255)); // leading zeros are fine
    assert_eq!(parse_hex_u32(""), None); // empty
    assert_eq!(parse_hex_u32("100000000"), None); // too large for u32
    assert_eq!(parse_hex_u32("+1A"), None); // a sign is not a hex digit
    assert_eq!(parse_hex_u32("12G4"), None); // not a hex digit
    assert_eq!(parse_hex_u32(" 1A"), None); // no surrounding whitespace
}

#[test]
fn whole_line_is_rejected_on_one_bad_token() {
    // Nothing is partially accepted: seven good tokens and one bad one.
    let line = "00000001,40A00000,40400000,C0000000,00000000,3F800000,BF800000,XYZ";
    assert!(parse_sensor_data_at(line, 0).is_err());
    // Nine tokens fail too.
    let line = "1,2,3,4,5,6,7,8,9";
    assert!(parse_sensor_data_at(line, 0).is_err());
    // Empty token (trailing comma) fails.
    let line = "00000001,40A00000,40400000,C0000000,00000000,3F800000,BF800000,";
    assert!(parse_sensor_data_at(line, 0).is_err());
}
