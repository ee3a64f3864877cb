use rewind::toc::{decode_toc, encode_toc, TocEntry};
use rewind::ContainerError;

fn entry(name: &str, size: u64) -> TocEntry {
    TocEntry { name: name.to_string(), size }
}

#[test]
fn encode_empty_table() {
    let none: Vec<TocEntry> = Vec::new();
    let out = encode_toc(&none).unwrap();
    assert_eq!(out, vec![0, 0, 0, 0]);
}

#[test]
fn encode_exact_layout() {
    let out = encode_toc(&vec![entry("ab", 0x0102030405060708)]).unwrap();
    let mut expected = vec![1, 0, 0, 0]; // count
    expected.extend_from_slice(&[2, 0, 0, 0]); // name length
    expected.extend_from_slice(b"ab");
    expected.extend_from_slice(&[8, 7, 6, 5, 4, 3, 2, 1]); // size, little-endian
    assert_eq!(out, expected);
}

#[test]
fn codec_round_trip() {
    let entries = vec![entry("first.flac", 500), entry("second.mp3", 0), entry("", u64::MAX)];
    let encoded = encode_toc(&entries).unwrap();
    let (decoded, end) = decode_toc(&encoded, 0).unwrap();
    assert_eq!(end, encoded.len());
    assert_eq!(decoded.len(), entries.len());
    for (d, e) in decoded.iter().zip(entries.iter()) {
        assert_eq!(d.name, e.name);
        assert_eq!(d.size, e.size);
    }
}

#[test]
fn codec_round_trip_inside_larger_buffer() {
    let entries = vec![entry("x", 7)];
    let encoded = encode_toc(&entries).unwrap();
    let mut data = vec![0xAA; 13];
    data.extend_from_slice(&encoded);
    data.extend_from_slice(&[0xBB; 9]);
    let (decoded, end) = decode_toc(&data, 13).unwrap();
    assert_eq!(end, 13 + encoded.len());
    assert_eq!(decoded.len(), 1);
    assert_eq!(decoded[0].name, "x");
    assert_eq!(decoded[0].size, 7);
}

#[test]
fn decode_truncated_count() {
    assert!(matches!(decode_toc(&vec![1, 0], 0), Err(ContainerError::TocTruncated)));
}

#[test]
fn decode_truncated_name() {
    // Count 1, name length 100, but only 3 name bytes follow.
    let mut data = vec![1, 0, 0, 0];
    data.extend_from_slice(&[100, 0, 0, 0]);
    data.extend_from_slice(b"abc");
    assert!(matches!(decode_toc(&data, 0), Err(ContainerError::TocTruncated)));
}

#[test]
fn decode_truncated_size() {
    // Count 1, empty name, then only 5 of the 8 size bytes.
    let mut data = vec![1, 0, 0, 0];
    data.extend_from_slice(&[0, 0, 0, 0]);
    data.extend_from_slice(&[9, 9, 9, 9, 9]);
    assert!(matches!(decode_toc(&data, 0), Err(ContainerError::TocTruncated)));
}

#[test]
fn decode_count_larger_than_entries() {
    // Count says two entries but only one follows: never a silently
    // shorter list.
    let one = encode_toc(&vec![entry("a", 1)]).unwrap();
    let mut data = vec![2, 0, 0, 0];
    data.extend_from_slice(&one[4..]);
    assert!(matches!(decode_toc(&data, 0), Err(ContainerError::TocTruncated)));
}

#[test]
fn decode_replaces_malformed_name_bytes() {
    // A name that is not valid UTF-8 is lossily replaced, never rejected.
    let mut data = vec![1, 0, 0, 0];
    data.extend_from_slice(&[2, 0, 0, 0]);
    data.extend_from_slice(&[0xFF, 0xFE]);
    data.extend_from_slice(&[0, 0, 0, 0, 0, 0, 0, 0]);
    let (decoded, _) = decode_toc(&data, 0).unwrap();
    assert_eq!(decoded[0].name, "\u{FFFD}\u{FFFD}");
    assert_eq!(decoded[0].size, 0);
}
