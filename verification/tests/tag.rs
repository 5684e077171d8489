use nfc_wedge::nfc::tag::{
    extract_ndef, get_uid_command, parse_tlv, uid_from_response, TagError, Type2Read,
};

#[test]
fn tlv_short_form() {
    assert_eq!(parse_tlv(&[0x03, 0x02, 0xAA, 0xBB, 0xFE]), Ok((4, &[0xAA, 0xBB][..])));
}

#[test]
fn tlv_long_form() {
    let mut data = vec![0x03, 0xFF, 0x01, 0x00];
    data.extend(std::iter::repeat(7u8).take(256));
    let (total, p) = parse_tlv(&data).unwrap();
    assert_eq!(total, 260);
    assert_eq!(p.len(), 256);
}

#[test]
fn tlv_errors() {
    assert_eq!(parse_tlv(&[0x03]), Err("TLV too short"));
    assert_eq!(parse_tlv(&[0x01, 0x00]), Err("not NDEF TLV"));
    assert_eq!(parse_tlv(&[0x03, 0x05, 0x00]), Err("TLV length exceeds buffer"));
}

#[test]
fn extract_ndef_cases() {
    assert_eq!(extract_ndef(&[0x00, 0x03, 0x01, 0x42]), Ok(vec![0x42]));
    assert_eq!(extract_ndef(&[0x01, 0x02]), Ok(vec![0x01, 0x02]));
    assert_eq!(extract_ndef(&[]), Err(TagError::NoData));
    assert_eq!(extract_ndef(&[0x03, 0x09]), Err(TagError::Tlv("TLV length exceeds buffer")));
    assert_eq!(extract_ndef(&[0x03, 0x02, 0xFE, 0x09, 0xFE]), Ok(vec![0xFE, 0x09]));
    assert_eq!(extract_ndef(&[0xFE, 0x03, 0x01, 0x42]), Err(TagError::NoData));
}

fn ok(data: &[u8]) -> Vec<u8> {
    let mut r = data.to_vec();
    r.extend_from_slice(&[0x90, 0x00]);
    r
}

fn page(bytes: &[u8]) -> Vec<u8> {
    let mut chunk = bytes.to_vec();
    chunk.resize(16, 0);
    ok(&chunk)
}

#[test]
fn read_stops_once_ndef_tlv_is_complete() {
    let mut read = Type2Read::new();
    assert_eq!(read.next_command(), Some(vec![0xFF, 0xB0, 0x00, 4, 16]));
    read.on_response(Some(&page(&[0x03, 0x03, 0xD0, 0x00, 0x00])));
    assert_eq!(read.next_command(), None);
    assert_eq!(read.finish(), Ok(vec![0xD0, 0x00, 0x00]));
}

#[test]
fn read_follows_tlv_across_pages() {
    let mut read = Type2Read::new();
    let mut first = vec![0x03, 20];
    first.extend_from_slice(&[7u8; 14]);
    read.on_response(Some(&ok(&first)));
    assert_eq!(read.next_command(), Some(vec![0xFF, 0xB0, 0x00, 8, 16]));
    read.on_response(Some(&page(&[7, 7, 7, 7, 7, 7, 0xFE])));
    assert_eq!(read.next_command(), None);
    assert_eq!(read.finish(), Ok(vec![7u8; 20]));
}

#[test]
fn terminator_inside_tlv_value_is_data() {
    let mut read = Type2Read::new();
    read.on_response(Some(&page(&[0x03, 0x03, 0x41, 0xFE, 0x42, 0xFE])));
    assert_eq!(read.next_command(), None);
    assert_eq!(read.finish(), Ok(vec![0x41, 0xFE, 0x42]));
}

#[test]
fn message_of_254_bytes_is_read() {
    let mut memory = vec![0x03, 0xFE];
    memory.extend((0..254).map(|i| (i % 200) as u8 + 1));
    memory.push(0xFE);
    let mut read = Type2Read::new();
    let mut offset = 0;
    while let Some(_) = read.next_command() {
        let end = (offset + 16).min(memory.len());
        read.on_response(Some(&page(&memory[offset..end])));
        offset = end;
    }
    let content = read.finish().unwrap();
    assert_eq!(content.len(), 254);
    assert_eq!(content, memory[2..256].to_vec());
}

#[test]
fn terminator_before_ndef_ends_the_read() {
    let mut read = Type2Read::new();
    read.on_response(Some(&page(&[0x01, 0x02, 0xFE, 0x03, 0x01, 0x42])));
    assert_eq!(read.next_command(), None);
    assert_eq!(read.finish(), Ok(vec![0x01, 0x02]));
}

#[test]
fn read_stops_on_failure() {
    let mut read = Type2Read::new();
    read.on_response(None);
    assert_eq!(read.next_command(), None);
    assert_eq!(read.finish(), Err(TagError::NoData));

    let mut read = Type2Read::new();
    read.on_response(Some(&[0x6A, 0x82]));
    assert_eq!(read.next_command(), None);
}

#[test]
fn read_covers_all_pages() {
    let mut read = Type2Read::new();
    let mut commands = 0;
    while let Some(_) = read.next_command() {
        commands += 1;
        read.on_response(Some(&ok(&[0x01; 16])));
    }
    assert_eq!(commands, 57);
    assert_eq!(read.finish().unwrap().len(), 57 * 16);
}

#[test]
fn uid_command_and_response() {
    assert_eq!(get_uid_command(), vec![0xFF, 0xCA, 0x00, 0x00, 0x00]);
    assert_eq!(uid_from_response(&[0x04, 0xA1, 0x90, 0x00]), Some(vec![0x04, 0xA1]));
    assert_eq!(uid_from_response(&[0x63, 0x00]), None);
}
