use kant::relay::{AppState, RelayConfig};

#[test]
fn default_cleanup_timeout_is_a_minute() {
    assert_eq!(RelayConfig::default().cleanup_timeout_ms, 60_000);
    let state = AppState::new(RelayConfig::default());
    assert_eq!(state.room_count(), 0);
    assert_eq!(state.config().cleanup_timeout_ms, 60_000);
}

#[test]
fn frames_go_to_the_others_in_the_room_only() {
    let mut state = AppState::new(RelayConfig::default());
    assert_eq!(state.join("room-broadcast", 1), None);
    assert_eq!(state.join("room-broadcast", 2), None);
    assert_eq!(state.join("room-other", 3), None);
    assert_eq!(state.room_count(), 2);
    assert_eq!(state.relay("room-broadcast", 1, &[10, 20, 30, 40]), vec![2]);
    assert_eq!(state.relay("room-broadcast", 2, &[1]), vec![1]);
    assert_eq!(state.relay("room-other", 3, &[99, 88]), Vec::<u128>::new());
    assert_eq!(state.relay("no-such-room", 1, &[1]), Vec::<u128>::new());
}

#[test]
fn late_joiner_gets_last_snapshot_first() {
    let mut state = AppState::new(RelayConfig::default());
    state.join("room-snapshot", 1);
    let snapshot = vec![0x01, 0xDE, 0xAD, 0xBE, 0xEF];
    assert_eq!(state.relay("room-snapshot", 1, &snapshot), Vec::<u128>::new());
    state.relay("room-snapshot", 1, &[0x02, 1, 2]);
    assert_eq!(state.join("room-snapshot", 2), Some(snapshot.clone()));
    let newer = vec![0x01, 7];
    assert_eq!(state.relay("room-snapshot", 2, &newer), vec![1]);
    assert_eq!(state.join("room-snapshot", 3), Some(newer));
    assert_eq!(state.join("room-fresh", 4), None);
}

#[test]
fn empty_rooms_are_forgotten_after_the_timeout() {
    let mut state = AppState::new(RelayConfig { cleanup_timeout_ms: 60 });
    state.join("room-ephemeral", 1);
    state.join("room-busy", 2);
    assert_eq!(state.room_count(), 2);
    state.leave("room-ephemeral", 1, 1000);
    state.prune(1030);
    assert_eq!(state.room_count(), 2);
    state.prune(1060);
    assert_eq!(state.room_count(), 1);
    state.prune(1_000_000);
    assert_eq!(state.room_count(), 1);
    state.leave("room-busy", 2, 2000);
    state.join("room-busy", 3);
    state.prune(5000);
    assert_eq!(state.room_count(), 1);
}

#[test]
fn joining_twice_counts_once() {
    let mut state = AppState::new(RelayConfig::default());
    state.join("r", 1);
    state.join("r", 1);
    state.join("r", 2);
    assert_eq!(state.relay("r", 2, &[5]), vec![1]);
    state.leave("r", 1, 0);
    assert_eq!(state.relay("r", 2, &[5]), Vec::<u128>::new());
}

#[test]
fn test_ws_handshake_and_broadcast() {
    let mut state = AppState::new(RelayConfig::default());
    let client1: u128 = 1;
    let client2: u128 = 2;
    assert_eq!(state.join("room-broadcast", client1), None);
    assert_eq!(state.join("room-broadcast", client2), None);
    let payload = vec![10u8, 20, 30, 40];
    let recipients = state.relay("room-broadcast", client1, &payload);
    assert_eq!(recipients, vec![client2]);
    assert!(!recipients.contains(&client1), "Client 1 received its own echo frame");
}

#[test]
fn test_room_isolation() {
    let mut state = AppState::new(RelayConfig::default());
    let client_a: u128 = 1;
    let client_b: u128 = 2;
    state.join("room-alpha", client_a);
    state.join("room-beta", client_b);
    let recipients = state.relay("room-alpha", client_a, &[99, 88]);
    assert!(
        !recipients.contains(&client_b),
        "Client B in room-beta received message from room-alpha"
    );
}

#[test]
fn test_last_snapshot_delivery_to_late_joiner() {
    let mut state = AppState::new(RelayConfig::default());
    let host: u128 = 1;
    let guest: u128 = 2;
    state.join("room-snapshot", host);
    let snapshot_bytes = vec![0x01, 0xDE, 0xAD, 0xBE, 0xEF];
    state.relay("room-snapshot", host, &snapshot_bytes);
    assert_eq!(
        state.join("room-snapshot", guest),
        Some(snapshot_bytes.clone()),
        "Late joiner did not receive last_snapshot as first frame"
    );
}

#[test]
fn test_room_cleanup_after_disconnect() {
    let mut state = AppState::new(RelayConfig { cleanup_timeout_ms: 60 });
    let client: u128 = 1;
    state.join("room-ephemeral", client);
    assert_eq!(state.room_count(), 1, "Room count should be 1 after connect");
    state.leave("room-ephemeral", client, 30);
    state.prune(30 + 120);
    assert_eq!(state.room_count(), 0, "Room should be pruned from RAM after cleanup timeout");
}

#[test]
fn pruning_keeps_the_rooms_still_in_use() {
    let mut state = AppState::new(RelayConfig { cleanup_timeout_ms: 100 });
    state.join("occupied", 1);
    state.join("just-left", 2);
    state.join("long-gone", 3);
    state.leave("long-gone", 3, 0);
    state.leave("just-left", 2, 950);
    state.prune(1000);
    assert_eq!(state.room_count(), 2);
    assert_eq!(state.relay("long-gone", 9, &[1]), Vec::<u128>::new());
    assert_eq!(state.join("just-left", 4), None);
    assert_eq!(state.room_count(), 2);
}
