use server_h264::annexb::AnnexBBuffer;

#[test]
fn two_nals_in_one_read_come_out_in_order() {
    // Two complete NALs plus the terminating start code, all in one read.
    let mut buf = AnnexBBuffer::new();
    let data = [
        0x00u8, 0x00, 0x00, 0x01, 0x65, 0xaa, // first NAL
        0x00, 0x00, 0x00, 0x01, 0x41, 0xbb, // second NAL
        0x00, 0x00, 0x00, 0x01, // lead-in of the next, still incomplete
    ];
    buf.append(&data);
    let nals = buf.extract_nals();
    assert_eq!(nals.len(), 2);
    assert_eq!(nals[0], vec![0x00, 0x00, 0x00, 0x01, 0x65, 0xaa]);
    assert_eq!(nals[1], vec![0x00, 0x00, 0x00, 0x01, 0x41, 0xbb]);
    // Only the retained lead-in start code stays buffered; nothing else
    // waits for a further read.
    assert_eq!(buf.len(), 4);
    assert_eq!(buf.extract_nals().len(), 0);
    assert_eq!(buf.len(), 4);
}

#[test]
fn single_boundary_emits_nothing() {
    // One start code and a body, but no second boundary: the NAL might be
    // truncated, so nothing is emitted until more bytes arrive.
    let mut buf = AnnexBBuffer::new();
    buf.append(&[0x00, 0x00, 0x00, 0x01, 0x65, 0x11, 0x22]);
    let nals = buf.extract_nals();
    assert_eq!(nals.len(), 0);
    assert_eq!(buf.len(), 7);
    // The second boundary arriving later completes the unit.
    buf.append(&[0x00, 0x00, 0x01]);
    let nals = buf.extract_nals();
    assert_eq!(nals.len(), 1);
    assert_eq!(nals[0], vec![0x00, 0x00, 0x00, 0x01, 0x65, 0x11, 0x22]);
    assert_eq!(buf.len(), 3);
}

#[test]
fn three_byte_codes_delimit_too() {
    let mut buf = AnnexBBuffer::new();
    buf.append(&[0x00, 0x00, 0x01, 0x09, 0x00, 0x00, 0x01, 0x65, 0x00, 0x00, 0x01]);
    let nals = buf.extract_nals();
    assert_eq!(nals.len(), 2);
    assert_eq!(nals[0], vec![0x00, 0x00, 0x01, 0x09]);
    assert_eq!(nals[1], vec![0x00, 0x00, 0x01, 0x65]);
    assert_eq!(buf.len(), 3);
}

#[test]
fn bytes_before_first_code_are_dropped_with_the_unit() {
    let mut buf = AnnexBBuffer::new();
    buf.append(&[0xde, 0xad, 0x00, 0x00, 0x01, 0x67, 0x00, 0x00, 0x01]);
    let nals = buf.extract_nals();
    assert_eq!(nals.len(), 1);
    assert_eq!(nals[0], vec![0x00, 0x00, 0x01, 0x67]);
    assert_eq!(buf.len(), 3);
}

#[test]
fn oversized_buffer_is_truncated_to_tail() {
    // A start code then megabytes of filler with no second boundary: the
    // buffer would grow without bound, so it is cut to its trailing 1 MiB.
    let mut buf = AnnexBBuffer::new();
    buf.append(&[0x00, 0x00, 0x00, 0x01]);
    let filler = vec![0xffu8; 5 * 1024 * 1024];
    buf.append(&filler);
    let nals = buf.extract_nals();
    assert_eq!(nals.len(), 0);
    assert_eq!(buf.len(), 1024 * 1024);
    // Processing continues on the survivor: a fresh pair of boundaries
    // still carves a NAL.
    buf.append(&[0x00, 0x00, 0x01, 0x07, 0x00, 0x00, 0x01]);
    let nals = buf.extract_nals();
    assert_eq!(nals.len(), 1);
    assert_eq!(nals[0], vec![0x00, 0x00, 0x01, 0x07]);
    assert_eq!(buf.len(), 3);
}

#[test]
fn empty_buffer_extracts_nothing() {
    let mut buf = AnnexBBuffer::new();
    let nals = buf.extract_nals();
    assert_eq!(nals.len(), 0);
    assert_eq!(buf.len(), 0);
}
