use webol::error::Error;
use webol::wol::create_buffer;

fn expected_packet(mac: &[u8]) -> Vec<u8> {
    let mut buf = vec![255u8; 6];
    for _ in 0..16 {
        buf.extend_from_slice(mac);
    }
    buf
}

#[test]
fn magic_packet_layout() {
    let buf = create_buffer("00:01:02:03:04:05").unwrap();
    assert_eq!(buf, expected_packet(&[0, 1, 2, 3, 4, 5]));
    assert_eq!(buf.len(), 102);
}

#[test]
fn magic_packet_accepts_both_cases() {
    let buf = create_buffer("aA:Bb:CC:dd:Ee:fF").unwrap();
    assert_eq!(buf, expected_packet(&[0xaa, 0xbb, 0xcc, 0xdd, 0xee, 0xff]));
}

#[test]
fn magic_packet_single_group() {
    let buf = create_buffer("ff").unwrap();
    assert_eq!(buf, expected_packet(&[255]));
}

#[test]
fn magic_packet_leading_plus_is_read_over() {
    let buf = create_buffer("+f:0").unwrap();
    assert_eq!(buf, expected_packet(&[15, 0]));
}

#[test]
fn invalid_hex_group_is_rejected() {
    assert_eq!(create_buffer("zz:00"), Err(Error::ParseInt));
}

#[test]
fn oversized_group_is_rejected() {
    assert_eq!(create_buffer("1ff"), Err(Error::ParseInt));
}

#[test]
fn empty_address_is_rejected() {
    assert_eq!(create_buffer(""), Err(Error::ParseInt));
}

#[test]
fn empty_group_is_rejected() {
    assert_eq!(create_buffer("00::01"), Err(Error::ParseInt));
}
