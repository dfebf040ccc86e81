use webol::ping::{
    conclude, find_unresolved_by_address, new_registry, purge, registry_get, setup_ping,
    BroadcastCommand, BroadcastCommands,
};
use webol::status::{receive_step, watch_plan, WatchPlan};

fn bus() -> (
    tokio::sync::broadcast::Sender<BroadcastCommand>,
    tokio::sync::broadcast::Receiver<BroadcastCommand>,
) {
    tokio::sync::broadcast::channel(32)
}

#[test]
fn second_wake_for_same_address_reuses_the_tracking_id() {
    let mut m = new_registry();
    let (id1, spawned1) = setup_ping(&mut m, &"192.0.2.5/32".to_string(), 0, "T1".to_string());
    assert_eq!(id1, "T1");
    assert!(spawned1);
    let (id2, spawned2) = setup_ping(&mut m, &"192.0.2.5/32".to_string(), 0, "T2".to_string());
    assert_eq!(id2, "T1");
    assert!(!spawned2);
}

#[test]
fn different_addresses_get_different_watches() {
    let mut m = new_registry();
    let (id1, spawned1) = setup_ping(&mut m, &"192.0.2.5/32".to_string(), 0, "T1".to_string());
    let (id2, spawned2) = setup_ping(&mut m, &"192.0.2.6/32".to_string(), 0, "T2".to_string());
    assert_eq!(id1, "T1");
    assert_eq!(id2, "T2");
    assert!(spawned1 && spawned2);
}

#[test]
fn resolved_watches_do_not_capture_new_wakes() {
    let mut m = new_registry();
    let (tx, _rx) = bus();
    let (id1, _) = setup_ping(&mut m, &"192.0.2.5/32".to_string(), 0, "T1".to_string());
    conclude(&mut m, &tx, &id1, BroadcastCommands::Success);
    let (id2, spawned2) = setup_ping(&mut m, &"192.0.2.5/32".to_string(), 0, "T2".to_string());
    assert_eq!(id2, "T2");
    assert!(spawned2);
}

#[test]
fn find_unresolved_only_matches_pending_entries() {
    let mut m = new_registry();
    let (tx, _rx) = bus();
    let addr = "192.0.2.5/32".to_string();
    assert_eq!(find_unresolved_by_address(&m, &addr), None);
    let (id, _) = setup_ping(&mut m, &addr, 0, "T1".to_string());
    assert_eq!(find_unresolved_by_address(&m, &addr), Some("T1".to_string()));
    conclude(&mut m, &tx, &id, BroadcastCommands::Timeout);
    assert_eq!(find_unresolved_by_address(&m, &addr), None);
}

#[test]
fn watch_on_unknown_id_reports_notfound() {
    let m = new_registry();
    let plan = watch_plan(&m, &"nope".to_string());
    match plan {
        WatchPlan::NotFound { frame } => assert_eq!(frame, "notfound_nope"),
        other => panic!("expected NotFound, got {:?}", other),
    }
}

#[test]
fn watch_on_pending_entry_waits_after_the_eta_frame() {
    let mut m = new_registry();
    let (id, _) = setup_ping(&mut m, &"192.0.2.5/32".to_string(), 20, "T".to_string());
    let plan = watch_plan(&m, &id);
    match plan {
        WatchPlan::Wait { eta_frame } => assert_eq!(eta_frame, "eta_20_T"),
        other => panic!("expected Wait, got {:?}", other),
    }
}

#[test]
fn watch_on_resolved_entry_reports_immediately() {
    let mut m = new_registry();
    let (tx, _rx) = bus();
    let (id, _) = setup_ping(&mut m, &"192.0.2.5/32".to_string(), 20, "T".to_string());
    conclude(&mut m, &tx, &id, BroadcastCommands::Success);
    let plan = watch_plan(&m, &id);
    match plan {
        WatchPlan::Report { eta_frame, terminal } => {
            assert_eq!(eta_frame, "eta_20_T");
            assert_eq!(terminal, "start_T");
        },
        other => panic!("expected Report, got {:?}", other),
    }
}

#[test]
fn resolved_entry_keeps_the_outcome_kind() {
    let mut m = new_registry();
    let (tx, _rx) = bus();
    let (id, _) = setup_ping(&mut m, &"192.0.2.5/32".to_string(), 0, "T".to_string());
    conclude(&mut m, &tx, &id, BroadcastCommands::Error);
    match watch_plan(&m, &id) {
        WatchPlan::Report { terminal, .. } => assert_eq!(terminal, "error_T"),
        other => panic!("expected Report, got {:?}", other),
    }
}

#[test]
fn conclude_publishes_exactly_one_matching_message() {
    let mut m = new_registry();
    let (tx, mut rx) = bus();
    let (id, _) = setup_ping(&mut m, &"192.0.2.5/32".to_string(), 0, "T".to_string());
    let published = conclude(&mut m, &tx, &id, BroadcastCommands::Success);
    assert_eq!(published.uuid, "T");
    assert_eq!(published.command, BroadcastCommands::Success);
    let msg = rx.try_recv().unwrap();
    assert_eq!(msg.uuid, published.uuid);
    assert_eq!(msg.command, published.command);
    assert!(rx.try_recv().is_err());
}

#[test]
fn receive_step_discards_other_ids_and_reports_the_matching_one() {
    let other = BroadcastCommand::success("other".to_string());
    let mine = BroadcastCommand::timeout("T".to_string());
    assert_eq!(receive_step(&other, &"T".to_string()), None);
    assert_eq!(receive_step(&mine, &"T".to_string()), Some("timeout_T".to_string()));
}

#[test]
fn purged_watch_reports_notfound() {
    let mut m = new_registry();
    let (tx, _rx) = bus();
    let (id, _) = setup_ping(&mut m, &"192.0.2.5/32".to_string(), 0, "T".to_string());
    conclude(&mut m, &tx, &id, BroadcastCommands::Timeout);
    purge(&mut m, &id);
    match watch_plan(&m, &id) {
        WatchPlan::NotFound { frame } => assert_eq!(frame, "notfound_T"),
        other => panic!("expected NotFound, got {:?}", other),
    }
    assert!(registry_get(&m, &id).is_none());
}
