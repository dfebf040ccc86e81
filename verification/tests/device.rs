use webol::error::Error;
use webol::storage::{DPayload, Device};

fn payload(mac: &str, ip: Option<&str>) -> DPayload {
    DPayload {
        id: "d1".to_string(),
        mac: mac.to_string(),
        broadcast_addr: "192.0.2.255:9".to_string(),
        ip: ip.map(|s| s.to_string()),
    }
}

#[test]
fn a_valid_payload_becomes_a_canonical_record() {
    let d = Device::from_payload(payload("aa:bb:cc:dd:ee:ff", Some("192.0.2.5"))).unwrap();
    assert_eq!(d.id, "d1");
    assert_eq!(d.mac, "AA:BB:CC:DD:EE:FF");
    assert_eq!(d.broadcast_addr, "192.0.2.255:9");
    assert_eq!(d.ip.as_deref(), Some("192.0.2.5/32"));
    assert!(d.times.is_none());
}

#[test]
fn a_device_may_have_no_address() {
    let d = Device::from_payload(payload("00-11-22-33-44-55", None)).unwrap();
    assert_eq!(d.mac, "00:11:22:33:44:55");
    assert!(d.ip.is_none());
}

#[test]
fn a_bad_hardware_address_is_rejected() {
    let r = Device::from_payload(payload("not a mac", None));
    assert!(matches!(r, Err(Error::MacParse)));
}

#[test]
fn a_bad_network_address_is_rejected() {
    let r = Device::from_payload(payload("aa:bb:cc:dd:ee:ff", Some("not an ip")));
    assert!(matches!(r, Err(Error::IpParse)));
}

#[test]
fn the_network_address_is_checked_first() {
    let r = Device::from_payload(payload("also bad", Some("still not an ip")));
    assert!(matches!(r, Err(Error::IpParse)));
}

#[test]
fn an_edited_device_keeps_the_stored_history() {
    let d = Device::from_payload(payload("aa:bb:cc:dd:ee:ff", None)).unwrap();
    let d = d.with_times(Some(vec![4, 6]));
    assert_eq!(d.times, Some(vec![4, 6]));
    assert_eq!(d.mac, "AA:BB:CC:DD:EE:FF");
}
