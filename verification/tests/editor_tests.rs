use kant::editor::{CollabState, MetadataField, JoinSessionModalState, ModelMetadataModalState, RelayServerPreset, SaveStatus,
    StartSessionModalState};
use kant::model::{ModelMetadata, ModelStatus};
use kant::crypto::{CollabKey, RoomId};
use kant::ticket::SessionTicket;

#[test]
fn metadata_form_hides_placeholders() {
    let form = ModelMetadataModalState::from_metadata(&ModelMetadata::placeholder());
    assert_eq!(form.name, "");
    assert_eq!(form.version, "");
    assert_eq!(form.uri, "");
    assert_eq!(form.status, ModelStatus::Draft);
    let meta = ModelMetadata::new("Vejmodel", "D", "https://x", "O", "E", "1.0", ModelStatus::Candidate);
    let form = ModelMetadataModalState::from_metadata(&meta);
    assert_eq!(form.name, "Vejmodel");
    assert_eq!(form.status, ModelStatus::Candidate);
}

#[test]
fn relay_presets() {
    let all = RelayServerPreset::all();
    assert_eq!(all.len(), 4);
    assert_eq!(RelayServerPreset::default_preset(), RelayServerPreset::Koyeb);
    assert_eq!(RelayServerPreset::LocalDocker.default_url(), "ws://localhost:8080/ws");
    assert_eq!(RelayServerPreset::Custom.default_url(), "");
    assert_eq!(RelayServerPreset::InternalOrg.label(), "Intern Organisation");
}

#[test]
fn start_dialog_ticket_follows_the_relay() {
    let mut dialog = StartSessionModalState::new();
    assert_eq!(dialog.current_url(), "wss://edge-relay.koyeb.app/ws");
    let room = dialog.ticket.room_id.as_str().to_string();
    dialog.set_preset(RelayServerPreset::LocalDocker);
    assert_eq!(dialog.ticket.relay_url, "ws://localhost:8080/ws");
    dialog.set_preset(RelayServerPreset::Custom);
    assert_eq!(dialog.current_url(), "");
    dialog.set_custom_url("wss://mine.example/ws".to_string());
    assert_eq!(dialog.current_url(), "wss://mine.example/ws");
    assert_eq!(dialog.ticket.relay_url, "wss://mine.example/ws");
    assert_eq!(dialog.ticket.room_id.as_str(), room);
}

#[test]
fn join_dialog_parses_the_token() {
    let mut dialog = JoinSessionModalState::new();
    assert!(!dialog.is_valid());
    dialog.set_token_input("edge:v1:garbage".to_string());
    assert!(!dialog.is_valid());
    let ticket = SessionTicket::new("wss://r/ws", RoomId::new("K"), CollabKey::from_bytes([1u8; 32]));
    dialog.set_token_input(format!("  {}  ", ticket.to_ticket_string()));
    assert!(dialog.is_valid());
}

#[test]
fn save_status_lines() {
    assert!(SaveStatus::Saved { path: "a".to_string(), timestamp: "12:00".to_string() }.is_saved());
    assert!(!SaveStatus::Saving.is_saved());
    assert_eq!(SaveStatus::Saving.status_line(None, true), "⏳ Gemmer...");
    assert_eq!(SaveStatus::Unsaved.status_line(None, true), "⚠️ Ikke gemte ændringer");
    assert_eq!(SaveStatus::Unsaved.status_line(None, false), "⚠️ Nyt projekt (ikke gemt til disk - tryk Gem)");
    assert_eq!(SaveStatus::Error("disk".to_string()).status_line(None, true), "❌ Fejl ved gemning: disk");
    let saved = SaveStatus::Saved { path: "/tmp/m/model.edge.json".to_string(), timestamp: "12:00".to_string() };
    assert_eq!(saved.display_text(Some("/tmp/m/model.edge.json")), "💾 Sidst gemt kl. 12:00 • model.edge.json");
    assert_eq!(saved.status_line(None, true), "💾 Sidst gemt kl. 12:00 • /tmp/m/model.edge.json");
}

#[test]
fn collab_roles() {
    assert_eq!(CollabState::default(), CollabState::Offline);
    assert!(!CollabState::Offline.is_active());
    assert!(CollabState::Host.is_host() && CollabState::Host.is_active());
    assert!(CollabState::Guest.is_guest() && !CollabState::Guest.is_host());
}

#[test]
fn metadata_form_is_written_back() {
    let mut meta = ModelMetadata::placeholder();
    meta.set_legal_source(Some("Lov".to_string()));
    let mut form = ModelMetadataModalState::from_metadata(&meta);
    form.update_field(MetadataField::Description, "Veje".to_string());
    form.update_field(MetadataField::Uri, "https://vej".to_string());
    form.update_field(MetadataField::Version, "  ".to_string());
    form.status = ModelStatus::Approved;
    form.apply_to(&mut meta);
    assert_eq!(meta.name(), "Nyt FDA Modelprojekt");
    assert_eq!(meta.description(), "Veje");
    assert_eq!(meta.uri(), "https://vej");
    assert_eq!(meta.version(), "0.1.0");
    assert_eq!(meta.domain_area(), "");
    assert_eq!(meta.status(), ModelStatus::Approved);
    assert_eq!(meta.legal_source(), Some("Lov"));
    form.update_field(MetadataField::Name, "Vejmodel".to_string());
    form.apply_to(&mut meta);
    assert_eq!(meta.name(), "Vejmodel");
}

#[test]
fn join_dialog_names_a_bad_prefix() {
    let mut dialog = JoinSessionModalState::new();
    dialog.set_token_input("  invalid:prefix:xyz ".to_string());
    assert_eq!(dialog.token_input, "  invalid:prefix:xyz ");
    assert!(dialog.parsed_ticket.is_none());
    assert_eq!(
        dialog.error_message.as_deref(),
        Some("Ugyldig sessionskode: Ugyldigt sessionsbillet-præfiks (skal starte med 'edge:v1:')")
    );
    dialog.set_token_input("   ".to_string());
    assert!(dialog.error_message.is_none());
}

#[test]
fn saved_paths_show_their_last_segment() {
    let saved = SaveStatus::Saved { path: "projekter/vej/model.json".to_string(), timestamp: "09:15".to_string() };
    assert_eq!(saved.display_text(None), "💾 Sidst gemt kl. 09:15 • model.json");
    let bare = SaveStatus::Saved { path: "model.json".to_string(), timestamp: "09:15".to_string() };
    assert_eq!(bare.display_text(None), "💾 Sidst gemt kl. 09:15 • model.json");
}
