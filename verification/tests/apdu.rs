use nfc_wedge::nfc::apdu::{is_success, parse_sw, payload, type2_read_binary};

#[test]
fn read_binary_command_bytes() {
    assert_eq!(type2_read_binary(4, 16), vec![0xFF, 0xB0, 0x00, 4, 16]);
}

#[test]
fn status_word_is_last_two_bytes() {
    assert_eq!(parse_sw(&[1, 2, 0x90, 0x00]), Some((0x90, 0x00)));
    assert_eq!(parse_sw(&[0x63]), None);
    assert_eq!(parse_sw(&[]), None);
}

#[test]
fn success_only_on_9000() {
    assert!(is_success(&[0x90, 0x00]));
    assert!(is_success(&[7, 0x90, 0x00]));
    assert!(!is_success(&[0x63, 0x00]));
    assert!(!is_success(&[0x90]));
}

#[test]
fn payload_drops_status_word() {
    assert_eq!(payload(&[1, 2, 3, 0x90, 0x00]), &[1, 2, 3]);
    assert_eq!(payload(&[0x90, 0x00]), &[] as &[u8]);
    assert_eq!(payload(&[5]), &[5]);
}
