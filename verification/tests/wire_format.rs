use mjpeg_stream::wire::{compose_part, format_mime_part_header, frame_terminator, http_preamble};

#[test]
fn preamble_is_the_expected_text() {
    let expected =
        b"HTTP/1.1 200 OK\r\nContent-Type: multipart/x-mixed-replace; boundary=frame\r\n\r\n";
    assert_eq!(http_preamble(), expected.to_vec());
}

#[test]
fn part_header_for_zero_length() {
    let expected = b"--frame\r\nContent-Type: image/jpeg\r\nContent-Length: 0\r\n\r\n";
    assert_eq!(format_mime_part_header(0), expected.to_vec());
}

#[test]
fn part_header_for_small_length() {
    let expected = b"--frame\r\nContent-Type: image/jpeg\r\nContent-Length: 5\r\n\r\n";
    assert_eq!(format_mime_part_header(5), expected.to_vec());
}

#[test]
fn part_header_for_large_length() {
    let expected = b"--frame\r\nContent-Type: image/jpeg\r\nContent-Length: 123456\r\n\r\n";
    assert_eq!(format_mime_part_header(123456), expected.to_vec());
}

#[test]
fn part_header_has_no_leading_zeros() {
    let header = format_mime_part_header(1000);
    let text = String::from_utf8(header).unwrap();
    assert!(text.ends_with("Content-Length: 1000\r\n\r\n"));
}

#[test]
fn terminator_is_crlf() {
    assert_eq!(frame_terminator(), vec![0x0d, 0x0a]);
}

#[test]
fn composed_part_is_header_body_terminator() {
    let frame = [0xff, 0xd8, 0x41, 0xff, 0xd9];
    let mut expected = Vec::new();
    expected.extend_from_slice(b"--frame\r\nContent-Type: image/jpeg\r\nContent-Length: 5\r\n\r\n");
    expected.extend_from_slice(&frame);
    expected.extend_from_slice(b"\r\n");
    assert_eq!(compose_part(&frame), expected);
}

#[test]
fn composed_part_of_empty_frame() {
    let expected = b"--frame\r\nContent-Type: image/jpeg\r\nContent-Length: 0\r\n\r\n\r\n";
    assert_eq!(compose_part(&[]), expected.to_vec());
}
