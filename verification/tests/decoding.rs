use quest_archive::prs::decompress;
use quest_archive::read::ReadError;

/// Encode `data` with literal copies alone: the canonical conforming
/// compressor used to exercise the round-trip behaviour of the decoder.
fn literal_encode(data: &[u8]) -> Vec<u8> {
    let mut out = Vec::new();
    let mut rest = data;
    while rest.len() >= 8 {
        out.push(0xFF);
        out.extend_from_slice(&rest[..8]);
        rest = &rest[8..];
    }
    if rest.len() == 7 {
        out.push(0x7F);
        out.extend_from_slice(rest);
        out.push(0x01);
        out.push(0x00);
        out.push(0x00);
    } else {
        let n = rest.len() as u32;
        let flag = ((1u32 << n) - 1) + (1u32 << (n + 1));
        out.push(flag as u8);
        out.extend_from_slice(rest);
        out.push(0x00);
        out.push(0x00);
    }
    out
}

#[test]
fn empty_stream_is_just_an_end_marker() {
    assert_eq!(decompress(&vec![0x02, 0x00, 0x00]), Ok(vec![]));
}

#[test]
fn literal_round_trip_short() {
    let data = b"hello".to_vec();
    assert_eq!(decompress(&literal_encode(&data)), Ok(data));
}

#[test]
fn literal_round_trip_chunked() {
    let data: Vec<u8> = (0..=255u8).collect();
    assert_eq!(decompress(&literal_encode(&data)), Ok(data));
}

#[test]
fn literal_round_trip_every_remainder() {
    for n in 0..32usize {
        let data: Vec<u8> = (0..n as u8).map(|b| b.wrapping_mul(37)).collect();
        assert_eq!(decompress(&literal_encode(&data)), Ok(data));
    }
}

#[test]
fn four_literals_then_short_back_reference() {
    // Four literal bits, a short-form back-reference of distance -2 and
    // length 2 (four clear bits), then a refilled register giving the end
    // marker's two control bits.
    let src = vec![0x0F, b'A', b'B', b'C', b'D', 0xFE, 0x02, 0x00, 0x00];
    assert_eq!(decompress(&src), Ok(b"ABCDCD".to_vec()));
}

#[test]
fn run_length_copy_repeats_last_byte() {
    // One literal, then a long-form copy of distance -1 and length 200
    // (field 0xFFF8, size selector 0, size byte 199), then the end marker.
    let src = vec![0x15, b'A', 0xF8, 0xFF, 199, 0x00, 0x00];
    assert_eq!(decompress(&src), Ok(vec![b'A'; 201]));
}

#[test]
fn pattern_copy_repeats_window() {
    // Literals ABC, then a long-form copy of distance -3 and length 7
    // (field 0xFFED: selector 5 gives length 7), then the end marker.
    let src = vec![0x57, b'A', b'B', b'C', 0xED, 0xFF, 0x00, 0x00];
    assert_eq!(decompress(&src), Ok(b"ABCABCABCA".to_vec()));
}

#[test]
fn end_marker_ignores_trailing_bytes() {
    let src = vec![0x02, 0x00, 0x00, 0xDE, 0xAD, 0xBE, 0xEF];
    assert_eq!(decompress(&src), Ok(vec![]));
}

#[test]
fn empty_source_is_an_io_error() {
    assert_eq!(decompress(&vec![]), Err(ReadError::Io));
}

#[test]
fn truncated_literal_is_an_io_error() {
    // A literal flag with no byte behind it.
    assert_eq!(decompress(&vec![0x01]), Err(ReadError::Io));
}

#[test]
fn truncated_long_field_is_an_io_error() {
    // A long-form unit with only one of its two field bytes.
    assert_eq!(decompress(&vec![0x02, 0x00]), Err(ReadError::Io));
}

#[test]
fn missing_end_marker_is_an_io_error() {
    // Two literals and nothing more: the source runs out with no end marker.
    assert_eq!(decompress(&vec![0x03, b'A', b'B']), Err(ReadError::Io));
}

#[test]
fn back_reference_before_start_is_an_io_error() {
    // A short-form copy of distance -1 with no output written yet.
    assert_eq!(decompress(&vec![0x00, 0xFF]), Err(ReadError::Io));
}
