use quest_archive::read::qst::extract_file_data;
use quest_archive::read::ReadError;

/// Build one 1056-byte frame: 8 unused bytes, a 16-byte tag, a 1024-byte
/// payload region, the 4-byte payload length, and 4 unused bytes.
fn frame(tag: &[u8], payload: &[u8], declared_len: u32) -> Vec<u8> {
    assert!(tag.len() <= 16 && payload.len() <= 1024);
    let mut f = vec![0u8; 1056];
    f[8..8 + tag.len()].copy_from_slice(tag);
    f[24..24 + payload.len()].copy_from_slice(payload);
    f[1048..1052].copy_from_slice(&declared_len.to_le_bytes());
    f
}

#[test]
fn two_frames_fill_both_streams() {
    let dat_payload = [1u8, 2, 3, 4, 5, 6, 7, 8, 9, 10];
    let bin_payload = [11u8, 12, 13, 14, 15];
    let mut data = frame(b"quest58.dat", &dat_payload, 10);
    data.extend(frame(b"quest58.bin", &bin_payload, 5));
    let (dat, bin) = extract_file_data(&data, 0, 10, 5).unwrap();
    assert_eq!(dat, dat_payload.to_vec());
    assert_eq!(bin, bin_payload.to_vec());
}

#[test]
fn interleaved_frames_append_in_encounter_order() {
    let mut data = frame(b"q.dat", &[1, 2], 2);
    data.extend(frame(b"q.bin", &[9], 1));
    data.extend(frame(b"q.dat", &[3], 1));
    let (dat, bin) = extract_file_data(&data, 0, 3, 1).unwrap();
    assert_eq!(dat, vec![1, 2, 3]);
    assert_eq!(bin, vec![9]);
}

#[test]
fn unrelated_frames_are_skipped() {
    let mut data = frame(b"readme.txt", &[42; 100], 100);
    data.extend(frame(b"q.dat", &[7], 1));
    data.extend(frame(b"q.bin", &[8], 1));
    let (dat, bin) = extract_file_data(&data, 0, 1, 1).unwrap();
    assert_eq!(dat, vec![7]);
    assert_eq!(bin, vec![8]);
}

#[test]
fn tag_matching_is_lenient() {
    // A tag with a non-ASCII byte in the middle still ends with ".dat" once
    // that byte is dropped, and NUL padding is cut off.
    let mut tag = b"que\x80st.dat".to_vec();
    tag.extend([0u8; 5]);
    let mut data = frame(&tag, &[1], 1);
    data.extend(frame(b"q.bin", &[2], 1));
    let (dat, bin) = extract_file_data(&data, 0, 1, 1).unwrap();
    assert_eq!(dat, vec![1]);
    assert_eq!(bin, vec![2]);
}

#[test]
fn oversized_payload_length_is_invalid_data() {
    let data = frame(b"q.dat", &[0; 1024], 1025);
    assert_eq!(extract_file_data(&data, 0, 1, 1), Err(ReadError::InvalidData));
}

#[test]
fn oversized_payload_length_is_invalid_whatever_the_tag() {
    let data = frame(b"unrelated.xyz", &[0; 1024], 2000);
    assert_eq!(extract_file_data(&data, 0, 1, 1), Err(ReadError::InvalidData));
}

#[test]
fn frame_overflowing_its_stream_is_invalid_data() {
    let data = frame(b"q.dat", &[0; 11], 11);
    assert_eq!(extract_file_data(&data, 0, 10, 0), Err(ReadError::InvalidData));
}

#[test]
fn exhausted_source_is_an_io_error() {
    assert_eq!(extract_file_data(&vec![], 0, 1, 0), Err(ReadError::Io));
    let data = frame(b"q.dat", &[1], 1);
    // The one frame fills the object stream but nothing fills the other.
    assert_eq!(extract_file_data(&data, 0, 1, 1), Err(ReadError::Io));
}

#[test]
fn reassembled_streams_have_exactly_the_declared_sizes() {
    let mut data = frame(b"a.dat", &[5; 1000], 1000);
    data.extend(frame(b"a.dat", &[6; 24], 24));
    data.extend(frame(b"a.bin", &[7; 512], 512));
    let (dat, bin) = extract_file_data(&data, 0, 1024, 512).unwrap();
    assert_eq!(dat.len(), 1024);
    assert_eq!(bin.len(), 512);
}

#[test]
fn zero_length_frames_contribute_nothing() {
    let mut data = frame(b"q.dat", &[], 0);
    data.extend(frame(b"q.dat", &[1], 1));
    data.extend(frame(b"q.bin", &[2], 1));
    let (dat, bin) = extract_file_data(&data, 0, 1, 1).unwrap();
    assert_eq!(dat, vec![1]);
    assert_eq!(bin, vec![2]);
}
