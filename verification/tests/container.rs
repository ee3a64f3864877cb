use rewind::reader::{list_tracks, read_track, resolve_offsets, verify};
use rewind::toc::decode_toc;
use rewind::scan::find_marker;
use rewind::writer::{assemble_container, write_container, Payload};
use rewind::ContainerError;

/// The fixed 12-byte end-of-image marker.
fn marker() -> Vec<u8> {
    vec![0x00, 0x00, 0x00, 0x00, 0x49, 0x45, 0x4e, 0x44, 0xae, 0x42, 0x60, 0x82]
}

/// An image of exactly `total` bytes whose first marker occurrence ends at
/// its last byte.
fn image_of(total: usize) -> Vec<u8> {
    assert!(total >= 12);
    let mut v: Vec<u8> = Vec::new();
    for i in 0..total - 12 {
        v.push((1 + (i % 200)) as u8);
    }
    v.extend_from_slice(&marker());
    v
}

fn junk(len: usize, seed: u8) -> Vec<u8> {
    let mut v = Vec::new();
    let mut x = seed;
    for _ in 0..len {
        x = x.wrapping_mul(31).wrapping_add(7);
        v.push(x);
    }
    v
}

fn payload(name: &str, data: Vec<u8>) -> Payload {
    Payload { name: name.to_string(), data }
}

#[test]
fn concrete_scenario() {
    // Image of 100 bytes containing the marker ending at byte 100; two
    // payloads of 500 and 300 bytes.  The TOC encodes to
    // 4 + (4+6+8) + (4+5+8) = 39 bytes, the whole file to 943.
    let image = image_of(100);
    let a = junk(500, 3);
    let b = junk(300, 5);
    let payloads = vec![payload("a.flac", a.clone()), payload("b.mp3", b.clone())];
    let (c, _crc) = assemble_container(&image, &payloads).unwrap();
    assert_eq!(c.len(), 943);

    assert_eq!(find_marker(&c), Some(100));
    let (entries, payload_start) = decode_toc(&c, 100).unwrap();
    assert_eq!(payload_start, 139);
    assert_eq!(entries.len(), 2);
    assert_eq!(entries[0].name, "a.flac");
    assert_eq!(entries[0].size, 500);
    assert_eq!(entries[1].name, "b.mp3");
    assert_eq!(entries[1].size, 300);

    let offsets = resolve_offsets(&entries, 139);
    assert_eq!(offsets, vec![139, 639]);

    assert_eq!(read_track(&c, 1).unwrap(), a);
    assert_eq!(read_track(&c, 2).unwrap(), b);
}

#[test]
fn round_trip_many_payloads() {
    let image = image_of(57);
    let names = ["one.flac", "zwei.mp3", "tres.ogg", "vier.wav"];
    let mut payloads = Vec::new();
    for (i, n) in names.iter().enumerate() {
        payloads.push(payload(*n, junk(40 * (i + 1) + 1, i as u8)));
    }
    let (c, _crc) = assemble_container(&image, &payloads).unwrap();

    let entries = list_tracks(&c).unwrap();
    assert_eq!(entries.len(), names.len());
    for (i, n) in names.iter().enumerate() {
        assert_eq!(entries[i].name, *n);
        assert_eq!(entries[i].size as usize, payloads[i].data.len());
        assert_eq!(read_track(&c, i + 1).unwrap(), payloads[i].data);
    }
}

#[test]
fn round_trip_non_ascii_name() {
    let image = image_of(30);
    let payloads = vec![payload("sömé–歌.flac", junk(17, 9))];
    let (c, _crc) = assemble_container(&image, &payloads).unwrap();
    let entries = list_tracks(&c).unwrap();
    assert_eq!(entries[0].name, "sömé–歌.flac");
    assert_eq!(read_track(&c, 1).unwrap(), payloads[0].data);
}

#[test]
fn round_trip_empty_payload_list() {
    let image = image_of(40);
    let payloads: Vec<Payload> = Vec::new();
    let (c, _crc) = assemble_container(&image, &payloads).unwrap();
    // image + 4-byte zero count + 4-byte trailer
    assert_eq!(c.len(), 48);
    let entries = list_tracks(&c).unwrap();
    assert_eq!(entries.len(), 0);
    assert_eq!(verify(&c), Ok(true));
}

#[test]
fn written_container_verifies() {
    let image = image_of(100);
    let payloads = vec![payload("a.flac", junk(500, 3)), payload("b.mp3", junk(300, 5))];
    let (c, _crc) = assemble_container(&image, &payloads).unwrap();
    assert_eq!(verify(&c), Ok(true));
}

#[test]
fn trailer_matches_crc32_of_body() {
    let image = image_of(100);
    let payloads = vec![payload("a.flac", junk(500, 3))];
    let (c, crc) = assemble_container(&image, &payloads).unwrap();
    let body = &c[..c.len() - 4];
    let stored = u32::from_le_bytes([c[c.len() - 4], c[c.len() - 3], c[c.len() - 2], c[c.len() - 1]]);
    assert_eq!(stored, crc32fast::hash(body));
    assert_eq!(crc, stored);
}

#[test]
fn checksum_sensitivity() {
    // Flipping any single byte anywhere in a written container makes
    // verification fail.
    let image = image_of(50);
    let payloads = vec![payload("a.flac", junk(80, 3)), payload("b.mp3", junk(33, 5))];
    let (c, _crc) = assemble_container(&image, &payloads).unwrap();
    assert_eq!(verify(&c), Ok(true));
    for i in 0..c.len() {
        let mut tampered = c.clone();
        tampered[i] ^= 0xff;
        assert_eq!(verify(&tampered), Ok(false), "flip at byte {} went undetected", i);
    }
}

#[test]
fn verify_file_too_small() {
    assert_eq!(verify(&vec![1, 2, 3]), Err(ContainerError::FileTooSmall));
    assert_eq!(verify(&Vec::new()), Err(ContainerError::FileTooSmall));
}

#[test]
fn index_bounds() {
    // With three tracks, indices 0 and 4 are rejected and 1..=3 succeed.
    let image = image_of(64);
    let payloads = vec![
        payload("x.flac", junk(10, 1)),
        payload("y.flac", junk(20, 2)),
        payload("z.flac", junk(30, 3)),
    ];
    let (c, _crc) = assemble_container(&image, &payloads).unwrap();
    assert_eq!(read_track(&c, 0), Err(ContainerError::IndexOutOfRange));
    assert_eq!(read_track(&c, 4), Err(ContainerError::IndexOutOfRange));
    for i in 1..=3 {
        assert_eq!(read_track(&c, i).unwrap(), payloads[i - 1].data);
    }
}

#[test]
fn marker_not_found() {
    let data = junk(200, 11);
    assert!(matches!(list_tracks(&data), Err(ContainerError::MarkerNotFound)));
    assert!(matches!(read_track(&data, 1), Err(ContainerError::MarkerNotFound)));
}

#[test]
fn toc_truncated_after_marker() {
    let mut data = image_of(100);
    data.extend_from_slice(&[2, 0, 0]);
    assert!(matches!(list_tracks(&data), Err(ContainerError::TocTruncated)));
}

#[test]
fn declared_size_past_end_of_file() {
    // A table declaring more payload bytes than the file holds is
    // rejected at read time.
    let image = image_of(60);
    let payloads = vec![payload("a.flac", junk(100, 3))];
    let (mut c, _crc) = assemble_container(&image, &payloads).unwrap();
    c.truncate(c.len() - 50);
    assert_eq!(read_track(&c, 1), Err(ContainerError::TocTruncated));
}

/// A minimal but well-formed PCM WAV file of exactly `total` bytes.
fn tiny_wav(total: usize) -> Vec<u8> {
    assert!(total >= 44);
    let data_len = (total - 44) as u32;
    let mut v = Vec::new();
    v.extend_from_slice(b"RIFF");
    v.extend_from_slice(&((total - 8) as u32).to_le_bytes());
    v.extend_from_slice(b"WAVE");
    v.extend_from_slice(b"fmt ");
    v.extend_from_slice(&16u32.to_le_bytes());
    v.extend_from_slice(&1u16.to_le_bytes()); // PCM
    v.extend_from_slice(&1u16.to_le_bytes()); // mono
    v.extend_from_slice(&44100u32.to_le_bytes());
    v.extend_from_slice(&88200u32.to_le_bytes());
    v.extend_from_slice(&2u16.to_le_bytes());
    v.extend_from_slice(&16u16.to_le_bytes());
    v.extend_from_slice(b"data");
    v.extend_from_slice(&data_len.to_le_bytes());
    v.extend_from_slice(&vec![0u8; data_len as usize]);
    v
}

#[test]
fn write_container_accepts_valid_audio() {
    let image = image_of(100);
    let payloads = vec![payload("tone.wav", tiny_wav(400))];
    let (written, crc) = write_container(&image, &payloads).unwrap();
    let (assembled, crc2) = assemble_container(&image, &payloads).unwrap();
    assert_eq!(written, assembled);
    assert_eq!(crc, crc2);
    let entries = list_tracks(&written).unwrap();
    assert_eq!(entries[0].name, "tone.wav");
    assert_eq!(entries[0].size, 400);
}

#[test]
fn write_container_rejects_first_bad_payload() {
    let image = image_of(100);
    let payloads = vec![payload("noise.bin", junk(100, 7))];
    assert!(matches!(
        write_container(&image, &payloads),
        Err(ContainerError::ValidationFailure { index: 0, .. })
    ));
}

#[test]
fn write_container_reports_offending_index() {
    let image = image_of(100);
    let payloads = vec![payload("tone.wav", tiny_wav(200)), payload("noise.bin", junk(90, 7))];
    assert!(matches!(
        write_container(&image, &payloads),
        Err(ContainerError::ValidationFailure { index: 1, .. })
    ));
}

#[test]
fn offset_accumulation() {
    // resolve_offsets is a pure accumulation: start P and sizes
    // [500, 300, 120] give [P, P+500, P+800].
    let toc = vec![
        rewind::toc::TocEntry { name: "a".to_string(), size: 500 },
        rewind::toc::TocEntry { name: "b".to_string(), size: 300 },
        rewind::toc::TocEntry { name: "c".to_string(), size: 120 },
    ];
    let p = 1234u64;
    assert_eq!(resolve_offsets(&toc, p), vec![p, p + 500, p + 800]);
}
