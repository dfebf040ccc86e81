use webol::error::Error;
use webol::ping::{conclude, new_registry, BroadcastCommands};
use webol::start::{start_tracking, start_tracking_fresh, wants_ping, Response, SPayload};
use webol::status::{watch_plan, WatchPlan};
use webol::storage::Device;

fn device(id: &str, ip: Option<&str>, times: Option<Vec<u64>>) -> Device {
    Device {
        id: id.to_string(),
        mac: "00:01:02:03:04:05".to_string(),
        broadcast_addr: "192.0.2.255:9".to_string(),
        ip: ip.map(|s| s.to_string()),
        times,
    }
}

#[test]
fn tracking_without_an_address_is_a_client_error() {
    let mut m = new_registry();
    let d = device("d2", None, None);
    let r = start_tracking(&mut m, &d, true, "T".to_string());
    assert_eq!(r, Err(Error::NoIpOnPing));
    assert_eq!(Error::NoIpOnPing.response_parts().0, 400);
}

#[test]
fn no_tracking_unless_asked() {
    let mut m = new_registry();
    let d = device("d1", Some("192.0.2.5/32"), None);
    let r = start_tracking(&mut m, &d, false, "T".to_string());
    assert_eq!(r, Ok(None));
    assert!(matches!(watch_plan(&m, &"T".to_string()), WatchPlan::NotFound { .. }));
}

#[test]
fn a_tracked_wake_blocks_until_the_probe_succeeds() {
    let mut m = new_registry();
    let (tx, _rx) = tokio::sync::broadcast::channel(32);
    let d = device("d1", Some("192.0.2.5/32"), None);

    let r = start_tracking(&mut m, &d, true, "T".to_string()).unwrap().unwrap();
    assert_eq!(r, ("T".to_string(), true));

    // Before the probe concludes the watch waits; no history means eta 0.
    match watch_plan(&m, &"T".to_string()) {
        WatchPlan::Wait { eta_frame } => assert_eq!(eta_frame, "eta_0_T"),
        other => panic!("expected Wait, got {:?}", other),
    }

    conclude(&mut m, &tx, &"T".to_string(), BroadcastCommands::Success);
    match watch_plan(&m, &"T".to_string()) {
        WatchPlan::Report { terminal, .. } => assert_eq!(terminal, "start_T"),
        other => panic!("expected Report, got {:?}", other),
    }
}

#[test]
fn tracked_wake_uses_the_mean_of_the_history_as_eta() {
    let mut m = new_registry();
    let d = device("d1", Some("192.0.2.5/32"), Some(vec![10, 20, 30]));
    start_tracking(&mut m, &d, true, "T".to_string()).unwrap();
    match watch_plan(&m, &"T".to_string()) {
        WatchPlan::Wait { eta_frame } => assert_eq!(eta_frame, "eta_20_T"),
        other => panic!("expected Wait, got {:?}", other),
    }
}

#[test]
fn fresh_tracking_ids_have_uuid_length() {
    let mut m = new_registry();
    let d = device("d1", Some("192.0.2.5/32"), None);
    let r = start_tracking_fresh(&mut m, &d, true).unwrap().unwrap();
    assert_eq!(r.0.len(), 36);
    assert!(r.1);
}

#[test]
fn wants_ping_only_when_the_payload_says_so() {
    assert!(!wants_ping(&None));
    assert!(!wants_ping(&Some(SPayload { ping: None })));
    assert!(!wants_ping(&Some(SPayload { ping: Some(false) })));
    assert!(wants_ping(&Some(SPayload { ping: Some(true) })));
}

#[test]
fn the_wake_reply_always_carries_boot_true() {
    let r = Response::new("d1".to_string(), Some("T".to_string()));
    assert_eq!(r.id, "d1");
    assert!(r.boot);
    assert_eq!(r.uuid, Some("T".to_string()));
}
