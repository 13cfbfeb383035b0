use server_h264::{detect_framing, FramingMode};

#[test]
fn leading_start_code_means_annexb() {
    assert_eq!(detect_framing(&[0x00, 0x00, 0x00, 0x01]), FramingMode::AnnexB);
}

#[test]
fn anything_else_means_length_prefixed() {
    // These same bytes are then reused as the first big-endian length.
    assert_eq!(detect_framing(&[0x00, 0x00, 0x00, 0x02]), FramingMode::LengthPrefixed);
    assert_eq!(detect_framing(&[0x00, 0x00, 0x01, 0x00]), FramingMode::LengthPrefixed);
    assert_eq!(detect_framing(&[0x12, 0x34, 0x56, 0x78]), FramingMode::LengthPrefixed);
    assert_eq!(detect_framing(&[0xff, 0xff, 0xff, 0xff]), FramingMode::LengthPrefixed);
}
