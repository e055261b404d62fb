use kant::crypto::{decrypt, encrypt, CollabKey, CryptoError, RoomId};
use kant::ticket::{SessionTicket, SessionTicketError};
use base64::Engine;

#[test]
fn test_collab_key_generation_and_base64() {
    let key = CollabKey::generate();
    let b64 = key.to_base64();
    let parsed = CollabKey::from_base64(&b64).expect("skal kunne parses fra base64");
    assert_eq!(key, parsed);
}

#[test]
fn test_room_id_generation() {
    let room = RoomId::generate();
    assert!(!room.as_str().is_empty());
    assert!(room.as_str().contains('-'));
}

#[test]
fn test_encrypt_decrypt_roundtrip() {
    let key = CollabKey::from_bytes([42u8; 32]);
    let data = b"Hemmelig FDA modeltilstand";
    let ciphertext = encrypt(&key, data).expect("kryptering skal lykkes");
    assert_ne!(ciphertext, data);
    let decrypted = decrypt(&key, &ciphertext).expect("dekryptering skal lykkes");
    assert_eq!(decrypted, data);
}

#[test]
fn test_decrypt_with_wrong_key_fails_auth() {
    let key1 = CollabKey::from_bytes([1u8; 32]);
    let key2 = CollabKey::from_bytes([2u8; 32]);
    let ciphertext = encrypt(&key1, b"hemmelighed").unwrap();
    let result = decrypt(&key2, &ciphertext);
    assert_eq!(result, Err(CryptoError::AuthenticationFailed));
}

#[test]
fn test_decrypt_tampered_ciphertext_fails_auth() {
    let key = CollabKey::from_bytes([3u8; 32]);
    let mut ciphertext = encrypt(&key, b"vigtig data").unwrap();
    let len = ciphertext.len();
    ciphertext[len - 1] ^= 0x01;
    let result = decrypt(&key, &ciphertext);
    assert_eq!(result, Err(CryptoError::AuthenticationFailed));
}

#[test]
fn test_decrypt_truncated_ciphertext_fails() {
    let key = CollabKey::from_bytes([4u8; 32]);
    let short_data = vec![0u8; 10];
    let result = decrypt(&key, &short_data);
    assert!(matches!(result, Err(CryptoError::InvalidFormat(_))));
}

#[test]
fn test_session_ticket_roundtrip_edge_v1() {
    let ticket = SessionTicket::new(
        "https://edge.relay.internal",
        RoomId::new("KU-1234"),
        CollabKey::from_bytes([9u8; 32]),
    );
    let s = ticket.to_ticket_string();
    assert!(s.starts_with("edge:v1:"));
    let parsed = SessionTicket::from_ticket_string(&s).expect("Billet skal parses");
    assert_eq!(ticket, parsed);
}

#[test]
fn test_session_ticket_invalid_prefix() {
    let result = SessionTicket::from_ticket_string("invalid:prefix:xyz");
    assert_eq!(result, Err(SessionTicketError::InvalidPrefix));
}

#[test]
fn sealed_frame_is_nonce_and_tag_longer() {
    let key = CollabKey::from_bytes([5u8; 32]);
    let sealed = encrypt(&key, b"abc").unwrap();
    assert_eq!(sealed.len(), 3 + 12 + 16);
    let empty = encrypt(&key, b"").unwrap();
    assert_eq!(empty.len(), 28);
    assert_eq!(decrypt(&key, &empty).unwrap(), Vec::<u8>::new());
}

#[test]
fn two_encryptions_use_fresh_nonces() {
    let key = CollabKey::from_bytes([6u8; 32]);
    let a = encrypt(&key, b"same").unwrap();
    let b = encrypt(&key, b"same").unwrap();
    assert_ne!(a[..12], b[..12]);
    assert_eq!(decrypt(&key, &a).unwrap(), b"same");
    assert_eq!(decrypt(&key, &b).unwrap(), b"same");
}

#[test]
fn frame_of_exactly_nonce_and_tag_is_checked_not_refused() {
    let key = CollabKey::from_bytes([7u8; 32]);
    let frame = vec![0u8; 28];
    assert_eq!(decrypt(&key, &frame), Err(CryptoError::AuthenticationFailed));
    let frame = vec![0u8; 27];
    assert!(matches!(decrypt(&key, &frame), Err(CryptoError::InvalidFormat(_))));
}

#[test]
fn key_base64_is_standard_padded() {
    let key = CollabKey::from_bytes([0u8; 32]);
    assert_eq!(key.to_base64(), "AAAAAAAAAAAAAAAAAAAAAAAAAAAAAAAAAAAAAAAAAAA=");
    let key = CollabKey::from_bytes([255u8; 32]);
    assert_eq!(key.to_base64(), "//////////////////////////////////////////8=");
}

#[test]
fn key_from_base64_rejects_bad_text_and_length() {
    assert!(matches!(CollabKey::from_base64("not base64!"), Err(CryptoError::InvalidFormat(_))));
    assert!(matches!(CollabKey::from_base64("AAAA"), Err(CryptoError::InvalidKey(_))));
    let parsed = CollabKey::from_base64("AAAAAAAAAAAAAAAAAAAAAAAAAAAAAAAAAAAAAAAAAAA=").unwrap();
    assert_eq!(parsed.as_bytes(), &[0u8; 32]);
}

#[test]
fn crypto_error_messages() {
    assert!(!CryptoError::AuthenticationFailed.message().is_empty());
    let m = CryptoError::InvalidFormat("kort".to_string()).message();
    assert!(m.ends_with("kort"));
    let m = CryptoError::InvalidKey("x".to_string()).message();
    assert!(m.ends_with("x"));
}

#[test]
fn room_id_keeps_its_text() {
    let room = RoomId::new("KU-4821");
    assert_eq!(room.as_str(), "KU-4821");
    let generated = RoomId::generate();
    assert_eq!(generated.as_str().len(), 36);
    assert_eq!(generated.as_str().chars().nth(8), Some('-'));
}

#[test]
fn ticket_errors_for_each_fault() {
    assert!(matches!(
        SessionTicket::from_ticket_string("edge:v1:%%%"),
        Err(SessionTicketError::InvalidBase64(_))
    ));
    // "bm90IGpzb24=" is base64 for "not json"
    assert!(matches!(
        SessionTicket::from_ticket_string("edge:v1:bm90IGpzb24="),
        Err(SessionTicketError::InvalidJson(_))
    ));
    // {"relay_url":"x","room_id":"r"} without a key
    let text = format!(
        "edge:v1:{}",
        "eyJyZWxheV91cmwiOiJ4Iiwicm9vbV9pZCI6InIifQ=="
    );
    assert!(matches!(
        SessionTicket::from_ticket_string(&text),
        Err(SessionTicketError::InvalidFormat(_))
    ));
    // {"relay_url":"x","room_id":"r","key":"AAAA"}
    let text = "edge:v1:eyJyZWxheV91cmwiOiJ4Iiwicm9vbV9pZCI6InIiLCJrZXkiOiJBQUFBIn0=";
    assert!(matches!(
        SessionTicket::from_ticket_string(text),
        Err(SessionTicketError::InvalidKey(CryptoError::InvalidKey(_)))
    ));
    assert!(SessionTicketError::InvalidPrefix.message().contains("edge:v1:"));
}

#[test]
fn ticket_keeps_every_member() {
    let ticket = SessionTicket::new("wss://relay.example/ws", RoomId::new("R-1"), CollabKey::from_bytes([8u8; 32]));
    let parsed = SessionTicket::from_ticket_string(&ticket.to_ticket_string()).unwrap();
    assert_eq!(parsed.relay_url, "wss://relay.example/ws");
    assert_eq!(parsed.room_id.as_str(), "R-1");
    assert_eq!(parsed.key.as_bytes(), &[8u8; 32]);
}

#[test]
fn ticket_errors_carry_their_full_text() {
    let bad = "edge:v1:!!!";
    let decoder_text = base64::engine::general_purpose::STANDARD.decode("!!!").unwrap_err().to_string();
    match SessionTicket::from_ticket_string(bad) {
        Err(e) => assert_eq!(e.message(), format!("Ugyldig base64-kodning: {}", decoder_text)),
        Ok(_) => panic!("garbage must not parse"),
    }
    let no_key = format!(
        "edge:v1:{}",
        base64::engine::general_purpose::STANDARD.encode(r#"{"relay_url":"wss://r/ws","room_id":"K"}"#)
    );
    match SessionTicket::from_ticket_string(&no_key) {
        Err(e) => assert_eq!(
            e.message(),
            "Ugyldigt billetformat: billetten mangler relay_url, room_id eller key"
        ),
        Ok(_) => panic!("a ticket without a key must not parse"),
    }
    let short_key = format!(
        "edge:v1:{}",
        base64::engine::general_purpose::STANDARD
            .encode(r#"{"relay_url":"wss://r/ws","room_id":"K","key":"AAAA"}"#)
    );
    match SessionTicket::from_ticket_string(&short_key) {
        Err(e) => assert_eq!(
            e.message(),
            "Ugyldig kryptonøgle i billet: Ugyldig nøgle: nøglen skal være præcis 32 bytes"
        ),
        Ok(_) => panic!("a short key must not parse"),
    }
}
