use kant::concept_model::RelationKind;
use kant::concepts::{BelongsToDomain, Concept};
fn random_id() -> u128 {
    uuid::Uuid::new_v4().as_u128()
}
use kant::protocol::{
    frame_payload, host_left_frame, CollabEnvelope, CollabPayload, FrameType, ModelMutation, Relation, ReplayGuard,
    SequenceCounter,
};

#[test]
fn test_relation_constructors() {
    let from = random_id();
    let to = random_id();
    let rel = Relation::new(from, to, RelationKind::Generalization);
    assert_eq!(rel.from, from);
    assert_eq!(rel.to, to);
    assert_eq!(rel.kind, RelationKind::Generalization);
    assert_eq!(rel.label, None);

    let labeled = Relation::with_label(from, to, RelationKind::Association, Some("forbinder".to_string()));
    assert_eq!(labeled.label, Some("forbinder".to_string()));

    let fixed_id = random_id();
    let with_id = Relation::with_id(fixed_id, from, to, RelationKind::Composition, Some("indeholder".to_string()));
    assert_eq!(with_id.id, fixed_id);
}

#[test]
fn test_frametype_bytes() {
    assert_eq!(FrameType::Snapshot.as_u8(), 0x01);
    assert_eq!(FrameType::Mutation.as_u8(), 0x02);
    assert_eq!(FrameType::Presence.as_u8(), 0x03);
    assert_eq!(FrameType::HostLeft.as_u8(), 0x04);

    assert_eq!(FrameType::from_u8(0x01), Some(FrameType::Snapshot));
    assert_eq!(FrameType::from_u8(0x02), Some(FrameType::Mutation));
    assert_eq!(FrameType::from_u8(0x03), Some(FrameType::Presence));
    assert_eq!(FrameType::from_u8(0x04), Some(FrameType::HostLeft));
    assert_eq!(FrameType::from_u8(0xFF), None);
}

#[test]
fn test_collab_envelope_replay_protection() {
    let concept = Concept::new("Vej", "Færdselsareal", BelongsToDomain::Yes);
    let payload = CollabPayload::Mutation(ModelMutation::ConceptAdded(concept));

    let envelope1 = CollabEnvelope::new(1, 1000, payload.clone());
    let envelope2 = CollabEnvelope::new(2, 1050, payload.clone());
    let replay_envelope = CollabEnvelope::new(1, 1000, payload.clone());

    assert!(envelope1.is_newer_than(0));
    assert!(envelope2.is_newer_than(1));
    assert!(!replay_envelope.is_newer_than(1));
    assert!(!replay_envelope.is_newer_than(2));
}

#[test]
fn relation_direction_defaults() {
    let a = random_id();
    let b = random_id();
    assert_eq!(Relation::new(a, b, RelationKind::Association).directed, Some(true));
    assert_eq!(Relation::new(a, b, RelationKind::Generalization).directed, None);
    assert_eq!(Relation::new(a, b, RelationKind::Composition).directed, None);
    let all = Relation::with_all(7, a, b, RelationKind::Association, None, Some(false));
    assert_eq!(all.directed, Some(false));
    assert_eq!(all.id, 7);
}

#[test]
fn every_frame_byte_is_read_back() {
    for t in [FrameType::Snapshot, FrameType::Mutation, FrameType::Presence, FrameType::HostLeft] {
        assert_eq!(FrameType::from_u8(t.as_u8()), Some(t));
    }
    assert_eq!(FrameType::from_u8(0x00), None);
    assert_eq!(FrameType::from_u8(0x05), None);
}

#[test]
fn framing_prepends_the_kind_byte() {
    assert_eq!(frame_payload(FrameType::Snapshot, &[9, 8]), vec![0x01, 9, 8]);
    assert_eq!(frame_payload(FrameType::Mutation, &[]), vec![0x02]);
    assert_eq!(host_left_frame(), vec![0x04]);
}

#[test]
fn replay_guard_accepts_only_newer() {
    let mut guard = ReplayGuard::new();
    assert_eq!(guard.last_seen(), 0);
    assert!(guard.accept(1));
    assert!(guard.accept(5));
    assert!(!guard.accept(5));
    assert!(!guard.accept(3));
    assert_eq!(guard.last_seen(), 5);
    guard.reset();
    assert_eq!(guard.last_seen(), 0);
    assert!(guard.accept(1));
}

#[test]
fn sequence_numbers_count_from_one() {
    let mut counter = SequenceCounter::new();
    assert_eq!(counter.next_seq(), Some(1));
    assert_eq!(counter.next_seq(), Some(2));
    assert_eq!(counter.next_seq(), Some(3));
}
