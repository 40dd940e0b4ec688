use quest_archive::read::bin;
use quest_archive::read::quest;
use quest_archive::read::qst::{self, QstFile};
use quest_archive::read::ReadError;
use quest_archive::types::Episode;
use quest_archive::util::{read_ascii_string, read_utf_16le_string};

fn utf16le(text: &str) -> Vec<u8> {
    text.encode_utf16().flat_map(|u| u.to_le_bytes()).collect()
}

#[test]
fn ascii_fields_cut_at_the_first_nul() {
    assert_eq!(read_ascii_string(&b"abc\0def".to_vec()), "abc");
    assert_eq!(read_ascii_string(&b"abc".to_vec()), "abc");
    assert_eq!(read_ascii_string(&b"\0abc".to_vec()), "");
}

#[test]
fn ascii_fields_drop_non_ascii_bytes() {
    assert_eq!(read_ascii_string(&vec![0x61, 0x80, 0x62, 0xFF, 0x63]), "abc");
}

#[test]
fn utf16_fields_cut_at_the_first_nul_unit() {
    let mut buf = utf16le("AB");
    buf.extend([0, 0]);
    buf.extend(utf16le("CD"));
    assert_eq!(read_utf_16le_string(&buf), "AB");
}

#[test]
fn utf16_fields_decode_surrogate_pairs() {
    let buf = utf16le("a\u{1D11E}b");
    assert_eq!(read_utf_16le_string(&buf), "a\u{1D11E}b");
}

#[test]
fn utf16_fields_without_a_terminator_take_everything() {
    assert_eq!(read_utf_16le_string(&utf16le("xyz")), "xyz");
}

/// A minimal metadata stream: a 24-byte preamble, the 64-byte name field and
/// the 256-byte short-description field.
fn bin_stream(name: &str, description: &str) -> Vec<u8> {
    let mut data = vec![0u8; 344];
    let n = utf16le(name);
    let d = utf16le(description);
    assert!(n.len() <= 64 && d.len() <= 256);
    data[24..24 + n.len()].copy_from_slice(&n);
    data[88..88 + d.len()].copy_from_slice(&d);
    data
}

#[test]
fn metadata_stream_yields_name_and_description() {
    let b = bin::read(&bin_stream("Lost HEAT SWORD", "Retrieve a weapon.")).unwrap();
    assert_eq!(b.quest_name, "Lost HEAT SWORD");
    assert_eq!(b.short_description, "Retrieve a weapon.");
}

#[test]
fn short_metadata_stream_is_an_io_error() {
    assert!(matches!(bin::read(&vec![0u8; 343]), Err(ReadError::Io)));
}

/// Encode `data` with literal copies alone.
fn literal_encode(data: &[u8]) -> Vec<u8> {
    let mut out = Vec::new();
    let mut rest = data;
    while rest.len() >= 8 {
        out.push(0xFF);
        out.extend_from_slice(&rest[..8]);
        rest = &rest[8..];
    }
    if rest.len() == 7 {
        out.push(0x7F);
        out.extend_from_slice(rest);
        out.extend([0x01, 0x00, 0x00]);
    } else {
        let n = rest.len() as u32;
        let flag = ((1u32 << n) - 1) + (1u32 << (n + 1));
        out.push(flag as u8);
        out.extend_from_slice(rest);
        out.extend([0x00, 0x00]);
    }
    out
}

fn header_record(tag: &[u8], size: u32) -> Vec<u8> {
    let mut h = vec![0u8; 88];
    h[44..44 + tag.len()].copy_from_slice(tag);
    h[60..64].copy_from_slice(&size.to_le_bytes());
    h
}

fn frame(tag: &[u8], payload: &[u8]) -> Vec<u8> {
    let mut f = vec![0u8; 1056];
    f[8..8 + tag.len()].copy_from_slice(tag);
    f[24..24 + payload.len()].copy_from_slice(payload);
    f[1048..1052].copy_from_slice(&(payload.len() as u32).to_le_bytes());
    f
}

/// A whole container holding one compressed object stream and one compressed
/// metadata stream, one frame each.
fn container(dat_plain: &[u8], bin_plain: &[u8]) -> Vec<u8> {
    let dat_c = literal_encode(dat_plain);
    let bin_c = literal_encode(bin_plain);
    let mut data = header_record(b"quest7.dat", dat_c.len() as u32);
    data.extend(header_record(b"quest7.bin", bin_c.len() as u32));
    data.extend(frame(b"quest7.dat", &dat_c));
    data.extend(frame(b"quest7.bin", &bin_c));
    data
}

/// An object stream with no monster sections: one terminator header.
fn empty_dat() -> Vec<u8> {
    let mut d = Vec::new();
    d.extend(0u32.to_le_bytes());
    d.extend(16u32.to_le_bytes());
    d.extend(0u32.to_le_bytes());
    d.extend(0u32.to_le_bytes());
    d
}

#[test]
fn whole_container_decodes_to_a_quest() {
    let data = container(&empty_dat(), &bin_stream("Maximum Attack", "Kill them all."));
    let QstFile { dat, bin } = qst::read(&data).unwrap();
    assert_eq!(bin.quest_name, "Maximum Attack");
    assert_eq!(bin.short_description, "Kill them all.");
    assert_eq!(dat.episode, Episode::I);
    assert!(dat.monster_counts.iter().all(|&c| c == 0));

    let q = quest::read(&data).unwrap();
    assert_eq!(q.name, "Maximum Attack");
    assert_eq!(q.short_description, "Kill them all.");
    assert_eq!(q.episode, Episode::I);
}

#[test]
fn header_with_wrong_tags_is_invalid_data() {
    let mut data = header_record(b"quest7.bin", 4);
    data.extend(header_record(b"quest7.dat", 4));
    assert!(matches!(qst::read(&data), Err(ReadError::InvalidData)));
}

#[test]
fn header_with_zero_size_is_invalid_data() {
    let mut data = header_record(b"quest7.dat", 0);
    data.extend(header_record(b"quest7.bin", 4));
    assert!(matches!(qst::read(&data), Err(ReadError::InvalidData)));
}

#[test]
fn container_shorter_than_its_headers_is_an_io_error() {
    assert!(matches!(qst::read(&vec![0u8; 100]), Err(ReadError::Io)));
}

#[test]
fn corrupt_compressed_stream_is_an_io_error() {
    // The frame carries bytes that end before the compressed stream's end
    // marker.
    let mut data = header_record(b"q.dat", 1);
    data.extend(header_record(b"q.bin", 1));
    data.extend(frame(b"q.dat", &[0x01]));
    data.extend(frame(b"q.bin", &[0x01]));
    assert!(matches!(qst::read(&data), Err(ReadError::Io)));
}
