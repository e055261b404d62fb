use kant::collab_session::CollabSession;
use kant::concept_editor::{ConceptEditorState, ConceptFormField, QuickCreateState};
use kant::concepts::{BelongsToDomain, Concept, ValidationError};
use kant::crypto::{encrypt, CollabKey};
use kant::editor::{CollabState, SaveStatus};
use kant::information_model::{Attribute, InformationClass, InformationModel, Multiplicity, PrimitiveType};
use kant::network::ConnectionStatus;
use kant::protocol::{CollabPayload, ModelMutation};
use kant::search::filtered_concepts;

#[test]
fn session_summaries() {
    let mut s = CollabSession::new();
    assert_eq!(s.status_summary(), "Offline");
    s.start(CollabKey::from_bytes([1u8; 32]), CollabState::Host);
    s.set_status(ConnectionStatus::Connected);
    s.set_participants(1);
    assert_eq!(s.status_summary(), "Live: Vært (1 deltager)");
    s.set_participants(3);
    assert_eq!(s.status_summary(), "Live: Vært (3 deltagere)");
    s.set_status(ConnectionStatus::Reconnecting);
    assert_eq!(s.status_summary(), "Genforbinder...");
    s.set_status(ConnectionStatus::Connecting);
    assert_eq!(s.status_summary(), "Live: Vært (Forbinder...)");
    let mut g = CollabSession::new();
    g.start(CollabKey::from_bytes([1u8; 32]), CollabState::Guest);
    g.set_status(ConnectionStatus::Connected);
    assert_eq!(g.status_summary(), "Live: Gæst (Forbundet til Vært)");
    g.set_status(ConnectionStatus::Disconnected);
    assert_eq!(g.status_summary(), "Live: Gæst (Afbrudt)");
}

#[test]
fn leaving_and_being_left() {
    let mut host = CollabSession::new();
    host.start(CollabKey::from_bytes([2u8; 32]), CollabState::Host);
    assert!(host.host_ended().is_none());
    assert!(host.disconnect());
    assert_eq!(host.role(), CollabState::Offline);
    assert!(host.key().is_none());
    assert!(!host.disconnect());

    let mut guest = CollabSession::new();
    guest.start(CollabKey::from_bytes([2u8; 32]), CollabState::Guest);
    assert!(!guest.autosaves());
    let notice = guest.host_ended().unwrap();
    assert_eq!(notice.message, "Værten har afsluttet sessionen. Vil du gemme en kopi af modellen lokalt?");
    assert_eq!(guest.role(), CollabState::Offline);
    assert_eq!(guest.status(), ConnectionStatus::Disconnected);
    assert!(guest.autosaves());
}

#[test]
fn envelopes_are_numbered_and_replays_refused() {
    let mut s = CollabSession::new();
    let payload = CollabPayload::Mutation(ModelMutation::ConceptDeleted(1));
    assert!(s.next_envelope(10, payload.clone()).is_none());
    s.start(CollabKey::from_bytes([3u8; 32]), CollabState::Host);
    let e1 = s.next_envelope(10, payload.clone()).unwrap();
    let e2 = s.next_envelope(11, payload).unwrap();
    assert_eq!((e1.seq, e2.seq, e2.timestamp), (1, 2, 11));
    assert!(s.accept(1));
    assert!(!s.accept(1));
    assert!(s.accept(4));
    assert!(!s.accept(2));
}

#[test]
fn frames_open_only_with_the_session_key() {
    let key = CollabKey::from_bytes([4u8; 32]);
    let frame = encrypt(&key, b"model").unwrap();
    let mut s = CollabSession::new();
    assert_eq!(s.open_frame(&frame), None);
    s.start(CollabKey::from_bytes([4u8; 32]), CollabState::Guest);
    assert_eq!(s.open_frame(&frame), Some(b"model".to_vec()));
    s.start(CollabKey::from_bytes([5u8; 32]), CollabState::Guest);
    assert_eq!(s.open_frame(&frame), None);
}

#[test]
fn node_moves_are_throttled() {
    let mut s = CollabSession::new();
    assert!(!s.node_move_due(0));
    s.start(CollabKey::from_bytes([6u8; 32]), CollabState::Host);
    assert!(s.node_move_due(1000));
    assert!(!s.node_move_due(1030));
    assert!(s.node_move_due(1066));
    assert!(!s.node_move_due(1100));
}

#[test]
fn footer_texts() {
    let mut s = CollabSession::new();
    let unsaved = SaveStatus::Unsaved;
    assert_eq!(s.footer_status_text(&unsaved, None), "⚠️ Nyt projekt (ikke gemt til disk - tryk Gem)");
    s.start(CollabKey::from_bytes([7u8; 32]), CollabState::Host);
    assert_eq!(s.footer_status_text(&unsaved, Some("a.json")), "👑 Live Session (Host) • ⚠️ Ikke gemte ændringer");
    s.start(CollabKey::from_bytes([7u8; 32]), CollabState::Guest);
    assert_eq!(
        s.footer_status_text(&unsaved, None),
        "👥 Live Session (Guest) - Autosave deaktiveret (Brug 'Gem som...')"
    );
}

#[test]
fn editor_form_round_trips_a_concept() {
    let mut c = Concept::new("Vej", "Færdselsareal", BelongsToDomain::ModelRef("https://m".to_string()));
    c.set_example(Some("Strøget".to_string()));
    let mut form = ConceptEditorState::from_concept(&c);
    assert_eq!(form.belongs_to_domain, "https://m");
    assert!(form.show_supplementary);
    assert_eq!(form.accepted_term, "");
    form.update_field(ConceptFormField::AcceptedTerm, "  Gade  ".to_string());
    form.update_field(ConceptFormField::Example, "   ".to_string());
    let built = form.build_concept().unwrap();
    assert_eq!(built.id(), c.id());
    assert_eq!(built.accepted_term(), Some("Gade"));
    assert_eq!(built.example(), None);
    assert_eq!(built.belongs_to_domain(), &BelongsToDomain::ModelRef("https://m".to_string()));

    let mut empty = ConceptEditorState::new_empty();
    assert!(!empty.show_supplementary);
    empty.update_field(ConceptFormField::PreferredTerm, "Sti".to_string());
    assert_eq!(empty.build_concept(), Err(ValidationError::MissingRequiredField("Definition")));
    empty.update_field(ConceptFormField::Definition, "Gangareal".to_string());
    empty.update_field(ConceptFormField::BelongsToDomain, "nej".to_string());
    let fresh = empty.build_concept().unwrap();
    assert_eq!(fresh.belongs_to_domain(), &BelongsToDomain::No);
}

#[test]
fn quick_create_trims_and_validates() {
    let mut q = QuickCreateState::new(40, 80);
    assert_eq!(q.position, (40, 80));
    assert_eq!(q.build_concept(), Err(ValidationError::MissingRequiredField("Foretrukken dansk term")));
    q.preferred_term = "  Bro ".to_string();
    q.definition = " Overgang ".to_string();
    let c = q.build_concept().unwrap();
    assert_eq!((c.preferred_term(), c.definition()), ("Bro", "Overgang"));
    assert!(c.belongs_to_domain().is_local());
}

#[test]
fn concept_search_ignores_case_and_blank_queries() {
    let mut a = Concept::new("Vej", "Et færdselsareal", BelongsToDomain::Yes);
    a.set_source(Some("Vejloven".to_string()));
    let b = Concept::new("Bygning", "En KONSTRUKTION", BelongsToDomain::Yes);
    let all = [a, b];
    assert_eq!(filtered_concepts(&all, "   ").len(), 2);
    let hits = filtered_concepts(&all, " konstruktion ");
    assert_eq!(hits.len(), 1);
    assert_eq!(hits[0].preferred_term(), "Bygning");
    assert_eq!(filtered_concepts(&all, "VEJLOV").len(), 1);
    assert_eq!(filtered_concepts(&all, "zzz").len(), 0);
    assert_eq!(filtered_concepts(&all, "E").len(), 2);
}

#[test]
fn attributes_linked_to_a_concept() {
    let mut model = InformationModel::new();
    let mut k1 = InformationClass::new("K1");
    k1.add_attribute(Attribute::new("a", PrimitiveType::Integer, Multiplicity::exactly_one()).with_concepts(vec![9]));
    k1.add_attribute(Attribute::new("b", PrimitiveType::Integer, Multiplicity::exactly_one()));
    let mut k2 = InformationClass::new("K2");
    k2.add_attribute(Attribute::new("c", PrimitiveType::Date, Multiplicity::zero_or_one()).with_concepts(vec![8, 9]));
    model.add_class(k1);
    model.add_class(k2);
    let links = model.attributes_for_concept(9);
    let names: Vec<(&str, &str)> = links.iter().map(|(c, a)| (c.name(), a.name())).collect();
    assert_eq!(names, vec![("K1", "a"), ("K2", "c")]);
    assert!(model.attributes_for_concept(7).is_empty());
}
