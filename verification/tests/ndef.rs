use nfc_wedge::nfc::ndef::{card_text, extract_text, fallback_text, find_text_body, NdefRecordParts};

fn text_record(lang: &[u8], text: &[u8], flags: u8) -> Vec<u8> {
    let mut payload = vec![lang.len() as u8];
    payload.extend_from_slice(lang);
    payload.extend_from_slice(text);
    let mut rec = vec![flags, 0x01, payload.len() as u8, 0x54];
    rec.extend_from_slice(&payload);
    rec
}

#[test]
fn test_fallback_trimming() {
    let data = b"Hello\0\0";
    assert_eq!(fallback_text(data), "Hello");
}

#[test]
fn test_fallback_empty() {
    let data = b"\0\0";
    assert_eq!(fallback_text(data), "");
}

#[test]
fn fallback_removes_nuls_and_control_characters() {
    assert_eq!(fallback_text(&[b'a', 0, b'b', 1]), "ab");
    assert_eq!(fallback_text(b"x\r\ny\t\x7f"), "xy");
    assert_eq!(fallback_text("a\u{85}b".as_bytes()), "ab");
}

#[test]
fn fallback_uses_first_32_bytes() {
    assert_eq!(fallback_text(&[b'A'; 33]), "A".repeat(32));
    assert_eq!(fallback_text(&[b'B'; 32]), "B".repeat(32));
}

#[test]
fn fallback_replaces_invalid_utf8() {
    assert_eq!(fallback_text(&[0x41, 0xFF, 0x42]), "A\u{FFFD}B");
}

#[test]
fn extract_single_text_record() {
    let data = text_record(b"en", b"Hello", 0xD1);
    assert_eq!(extract_text(&data), Some("Hello".to_string()));
}

#[test]
fn extract_text_skips_language_code() {
    let data = text_record(b"ru", "Привет".as_bytes(), 0xD1);
    assert_eq!(extract_text(&data), Some("Привет".to_string()));
}

#[test]
fn extract_text_from_second_record() {
    // A URI record first (MB set), then a Text record (ME set).
    let mut data = vec![0x91, 0x01, 0x03, 0x55, 0x01, b'a', b'b'];
    data.extend_from_slice(&text_record(b"en", b"second", 0x51));
    assert_eq!(extract_text(&data), Some("second".to_string()));
}

#[test]
fn extract_text_rejects_non_ndef() {
    assert_eq!(extract_text(b""), None);
    assert_eq!(extract_text(&[0x00]), None);
}

#[test]
fn extract_text_none_without_text_record() {
    let data = vec![0xD1, 0x01, 0x03, 0x55, 0x01, b'a', b'b'];
    assert_eq!(extract_text(&data), None);
}

#[test]
fn card_text_falls_back_to_raw_text() {
    assert_eq!(card_text(b"plain\0"), "plain");
    let data = text_record(b"en", b"tag", 0xD1);
    assert_eq!(card_text(&data), "tag");
}

#[test]
fn text_body_needs_language_code_bytes() {
    let short = NdefRecordParts { tnf: 0x01, record_type: vec![0x54], payload: vec![0x05, b'e'] };
    assert_eq!(find_text_body(&[short]), None);
    let good = NdefRecordParts { tnf: 0x01, record_type: vec![0x54], payload: vec![0x82, b'e', b'n', b'x'] };
    assert_eq!(find_text_body(&[good]), Some(vec![b'x']));
    let not_text = NdefRecordParts { tnf: 0x02, record_type: vec![0x54], payload: vec![0x00, b'x'] };
    assert_eq!(find_text_body(&[not_text]), None);
}

#[test]
fn first_text_record_wins() {
    let mut data = text_record(b"en", b"first", 0x91);
    data.extend_from_slice(&text_record(b"en", b"second", 0x51));
    assert_eq!(extract_text(&data), Some("first".to_string()));
}

#[test]
fn fallback_cuts_trailing_nuls_before_decoding() {
    assert_eq!(fallback_text(b"Hi\0\0\0"), "Hi");
    assert_eq!(fallback_text(&[0xFF, b'a', 0, 0]), "\u{FFFD}a");
    assert_eq!(fallback_text(&[b'a', 0xE2, 0x82, 0, 0]), "a\u{FFFD}");
}
