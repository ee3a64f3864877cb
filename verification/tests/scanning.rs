use rewind::scan::{find_marker, MarkerScanner, BUFFER_SIZE, MARKER_LEN};

fn marker() -> Vec<u8> {
    vec![0x00, 0x00, 0x00, 0x00, 0x49, 0x45, 0x4e, 0x44, 0xae, 0x42, 0x60, 0x82]
}

fn filler(len: usize) -> Vec<u8> {
    (0..len).map(|i| (1 + (i % 250)) as u8).collect()
}

#[test]
fn boundary_straddling_marker() {
    // For every split position inside the marker, a stream cut in two at
    // that position still yields the correct post-marker offset.
    let prefix = filler(20);
    let suffix = filler(33);
    let mut stream = prefix.clone();
    stream.extend_from_slice(&marker());
    stream.extend_from_slice(&suffix);
    let expected = prefix.len() + MARKER_LEN;

    for s in 1..MARKER_LEN {
        let cut = prefix.len() + s;
        let mut scanner = MarkerScanner::new();
        scanner.feed(&stream[..cut]);
        assert_eq!(scanner.result(), None, "split {} matched too early", s);
        scanner.feed(&stream[cut..]);
        assert_eq!(scanner.result(), Some(expected), "split {} missed the marker", s);
    }
}

#[test]
fn scanner_one_byte_at_a_time() {
    let mut stream = filler(7);
    stream.extend_from_slice(&marker());
    let mut scanner = MarkerScanner::new();
    for i in 0..stream.len() {
        scanner.feed(&stream[i..i + 1]);
    }
    assert_eq!(scanner.result(), Some(7 + MARKER_LEN));
}

#[test]
fn scanner_result_sticks_after_found() {
    let mut stream = marker();
    stream.extend_from_slice(&filler(10));
    let mut scanner = MarkerScanner::new();
    scanner.feed(&stream);
    assert_eq!(scanner.result(), Some(MARKER_LEN));
    scanner.feed(&marker());
    assert_eq!(scanner.result(), Some(MARKER_LEN));
}

#[test]
fn find_marker_first_occurrence_wins() {
    let mut data = filler(5);
    data.extend_from_slice(&marker());
    data.extend_from_slice(&filler(9));
    data.extend_from_slice(&marker());
    assert_eq!(find_marker(&data), Some(5 + MARKER_LEN));
}

#[test]
fn find_marker_absent() {
    assert_eq!(find_marker(&filler(5000)), None);
    assert_eq!(find_marker(&Vec::new()), None);
    // Eleven marker bytes are not a marker.
    let partial = marker()[..MARKER_LEN - 1].to_vec();
    assert_eq!(find_marker(&partial), None);
}

#[test]
fn find_marker_at_start() {
    let mut data = marker();
    data.extend_from_slice(&filler(3));
    assert_eq!(find_marker(&data), Some(MARKER_LEN));
}

#[test]
fn find_marker_across_buffer_boundary() {
    // The marker straddles the scanner's internal chunk size.
    let mut data = filler(BUFFER_SIZE - 5);
    data.extend_from_slice(&marker());
    data.extend_from_slice(&filler(100));
    assert_eq!(find_marker(&data), Some(BUFFER_SIZE - 5 + MARKER_LEN));
}
