use kant::crypto::RoomId;
use kant::network::{build_relay_ws_url, classify_inbound, CollabNetworkEvent, ConnectionStatus, ReconnectBackoff};

#[test]
fn test_build_relay_ws_url_formats() {
    let room = RoomId::new("KU-4821");

    let u1 = build_relay_ws_url("http://127.0.0.1:3000", &room).unwrap();
    assert_eq!(u1.as_str(), "ws://127.0.0.1:3000/ws?room=KU-4821");

    let u2 = build_relay_ws_url("https://edge.relay.internal/ws", &room).unwrap();
    assert_eq!(u2.as_str(), "wss://edge.relay.internal/ws?room=KU-4821");

    let u3 = build_relay_ws_url("127.0.0.1:8080", &room).unwrap();
    assert_eq!(u3.as_str(), "ws://127.0.0.1:8080/ws?room=KU-4821");

    assert!(!u1.as_str().contains("key"));
    assert!(!u2.as_str().contains("key"));
    assert!(!u3.as_str().contains("key"));
}

#[test]
fn relay_url_must_not_be_blank() {
    let room = RoomId::new("R");
    assert_eq!(build_relay_ws_url("   ", &room), Err("Relay-URL kan ikke være tom".to_string()));
    let bad = build_relay_ws_url("ws://", &room);
    assert!(bad.unwrap_err().starts_with("Ugyldig relay-URL: "));
}

#[test]
fn relay_url_paths_end_in_ws() {
    let room = RoomId::new("A");
    assert_eq!(build_relay_ws_url("wss://host/api/", &room).unwrap(), "wss://host/api/ws?room=A");
    assert_eq!(build_relay_ws_url("ws://host/ws/", &room).unwrap(), "ws://host/ws/?room=A");
    assert_eq!(build_relay_ws_url("  ws://host  ", &room).unwrap(), "ws://host/ws?room=A");
}

#[test]
fn inbound_frames_are_classified() {
    assert_eq!(classify_inbound(&[0x03, 0, 0, 1, 2]), CollabNetworkEvent::PresenceUpdated(258));
    assert_eq!(classify_inbound(&[0x04]), CollabNetworkEvent::HostEndedSession);
    assert_eq!(classify_inbound(&[0x01, 7, 7]), CollabNetworkEvent::MessageReceived(vec![7, 7]));
    assert_eq!(classify_inbound(&[0x02, 5]), CollabNetworkEvent::MessageReceived(vec![5]));
    assert_eq!(classify_inbound(&[0x09, 5]), CollabNetworkEvent::MessageReceived(vec![0x09, 5]));
    assert_eq!(classify_inbound(&[0x03, 1]), CollabNetworkEvent::MessageReceived(vec![0x03, 1]));
    assert_eq!(classify_inbound(&[]), CollabNetworkEvent::MessageReceived(vec![]));
}

#[test]
fn backoff_doubles_up_to_ten_seconds_and_resets() {
    let mut b = ReconnectBackoff::new();
    assert_eq!(b.attempt_status(), ConnectionStatus::Connecting);
    b.on_failed();
    assert_eq!(b.attempt_status(), ConnectionStatus::Reconnecting);
    let delays: Vec<u64> = (0..7).map(|_| b.next_delay()).collect();
    assert_eq!(delays, vec![500, 1000, 2000, 4000, 8000, 10000, 10000]);
    b.on_connected();
    assert_eq!(b.next_delay(), 500);
    assert_eq!(b.attempt_status(), ConnectionStatus::Reconnecting);
}

#[test]
fn connection_status_labels() {
    assert_eq!(ConnectionStatus::Disconnected.label(), "Afbrudt");
    assert_eq!(ConnectionStatus::Connecting.label(), "Forbinder...");
    assert_eq!(ConnectionStatus::Connected.label(), "Forbundet");
    assert_eq!(ConnectionStatus::Reconnecting.label(), "Genforbinder...");
}

#[test]
fn relay_url_carries_only_server_and_room() {
    let room = RoomId::new("A");
    let refused = Err(
        "Ugyldig relay-URL: kun serveradresse er tilladt (uden brugeroplysninger og fragment)".to_string(),
    );
    assert_eq!(build_relay_ws_url("wss://host/ws#secret", &room), refused);
    assert_eq!(build_relay_ws_url("https://user:pw@host", &room), refused);
    assert_eq!(build_relay_ws_url("ws://user@host:9000/ws", &room), refused);
    assert_eq!(build_relay_ws_url("host:9000/ws", &room).unwrap(), "ws://host:9000/ws?room=A");
}
