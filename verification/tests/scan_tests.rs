use server_h264::scan::{find_start_code, normalize_nal};

#[test]
fn no_start_code_returns_none_at_every_offset() {
    let buf = vec![0x12u8, 0x00, 0x00, 0x02, 0x7f, 0x00, 0x01, 0x01, 0x00, 0x00];
    for offset in 0..=buf.len() {
        assert_eq!(find_start_code(&buf, offset), None);
    }
}

#[test]
fn finds_three_byte_code() {
    let buf = vec![0xaau8, 0x00, 0x00, 0x01, 0x65];
    assert_eq!(find_start_code(&buf, 0), Some(1));
    assert_eq!(find_start_code(&buf, 1), Some(1));
    assert_eq!(find_start_code(&buf, 2), None);
}

#[test]
fn finds_four_byte_code() {
    let buf = vec![0x00u8, 0x00, 0x00, 0x01, 0x65];
    // The 4-byte marker also matches at offset 1 as a 3-byte marker.
    assert_eq!(find_start_code(&buf, 0), Some(0));
    assert_eq!(find_start_code(&buf, 1), Some(1));
    assert_eq!(find_start_code(&buf, 2), None);
}

#[test]
fn short_buffers_have_no_code() {
    assert_eq!(find_start_code(&[], 0), None);
    assert_eq!(find_start_code(&[0x00, 0x00], 0), None);
    // Trailing 00 00 at the very end must not read past the buffer.
    assert_eq!(find_start_code(&[0x55, 0x00, 0x00], 1), None);
}

#[test]
fn start_code_beyond_offset_only() {
    let buf = vec![0x00u8, 0x00, 0x01, 0x65, 0x00, 0x00, 0x00, 0x01, 0x41];
    assert_eq!(find_start_code(&buf, 0), Some(0));
    assert_eq!(find_start_code(&buf, 1), Some(4));
    // The 4-byte marker at 4 still matches as a 3-byte marker at 5.
    assert_eq!(find_start_code(&buf, 5), Some(5));
    assert_eq!(find_start_code(&buf, 6), None);
}

#[test]
fn normalize_passes_through_prefixed_nal() {
    let three = vec![0x00u8, 0x00, 0x01, 0x65, 0x88];
    assert_eq!(normalize_nal(&three), three);
    let four = vec![0x00u8, 0x00, 0x00, 0x01, 0x41];
    assert_eq!(normalize_nal(&four), four);
}

#[test]
fn normalize_prepends_code_to_bare_nal() {
    let bare = vec![0x65u8, 0x88, 0x84];
    assert_eq!(normalize_nal(&bare), vec![0x00, 0x00, 0x00, 0x01, 0x65, 0x88, 0x84]);
}

#[test]
fn normalize_empty_payload() {
    assert_eq!(normalize_nal(&[]), vec![0x00, 0x00, 0x00, 0x01]);
}

#[test]
fn normalize_three_byte_payload_that_is_a_code() {
    assert_eq!(normalize_nal(&[0x00, 0x00, 0x01]), vec![0x00, 0x00, 0x01]);
}
