//! The pure state of the editor's forms and dialogs: the metadata form, the
//! concept form, the dialogs that start and join a live session, and the
//! save indicator.
use vstd::prelude::*;
use vstd::string::StrSliceExecFns;
use crate::crypto::{CollabKey, RoomId};
use crate::model::{default_metadata, MetadataView, ModelMetadata, ModelStatus};
use crate::ticket::{ticket_error_message, ticket_error_text, ticket_parse, SessionTicket};
use crate::text::{str_equal, trim, trimmed};

verus! {

/// The fields of the metadata form.
#[derive(Debug, Clone, Copy, PartialEq, Eq, Structural)]
pub enum MetadataField {
    Name,
    Description,
    DomainArea,
    ResponsibleOrg,
    Uri,
    Version,
}

/// The metadata form.
#[derive(Debug, Clone)]
pub struct ModelMetadataModalState {
    pub name: String,
    pub description: String,
    pub status: ModelStatus,
    pub domain_area: String,
    pub responsible_org: String,
    pub uri: String,
    pub version: String,
}

/// A field's value as the form shows it: blank while it still holds the
/// placeholder of a new project.
pub open spec fn form_value(value: Seq<char>, placeholder: Seq<char>) -> Seq<char> {
    if value == placeholder { Seq::empty() } else { value }
}

fn unless_placeholder(value: &str, placeholder: &str) -> (res: String)
    ensures
        res@ == form_value(value@, placeholder@),
{
    if str_equal(value, placeholder) {
        String::new()
    } else {
        String::from_str(value)
    }
}

/// Whether a metadata form shows the metadata, placeholders blank.
pub open spec fn metadata_form(f: ModelMetadataModalState, m: MetadataView) -> bool {
    &&& f.name@ == form_value(m.name, default_metadata().name)
    &&& f.description@ == form_value(m.description, default_metadata().description)
    &&& f.status == m.status
    &&& f.domain_area@ == form_value(m.domain_area, default_metadata().domain_area)
    &&& f.responsible_org@ == form_value(m.responsible_org, default_metadata().responsible_org)
    &&& f.uri@ == form_value(m.uri, default_metadata().uri)
    &&& f.version@ == form_value(m.version, default_metadata().version)
}

/// The metadata a form writes: a blank name or version falls back to the
/// placeholder of a new project; the legal source is kept.
pub open spec fn metadata_from_form(f: ModelMetadataModalState, m: MetadataView) -> MetadataView {
    MetadataView {
        name: if trimmed(f.name@).len() == 0 { default_metadata().name } else { f.name@ },
        description: f.description@,
        uri: f.uri@,
        responsible_org: f.responsible_org@,
        domain_area: f.domain_area@,
        version: if trimmed(f.version@).len() == 0 { default_metadata().version } else { f.version@ },
        status: f.status,
        legal_source: m.legal_source,
    }
}

impl ModelMetadataModalState {
    /// The form filled from metadata, placeholders shown blank.
    pub fn from_metadata(meta: &ModelMetadata) -> (res: ModelMetadataModalState)
        ensures
            metadata_form(res, meta@),
    {
        ModelMetadataModalState {
            name: unless_placeholder(meta.name(), "Nyt FDA Modelprojekt"),
            description: unless_placeholder(meta.description(), "Beskrivelse af modelprojektet"),
            status: meta.status(),
            domain_area: unless_placeholder(meta.domain_area(), "Emneområde"),
            responsible_org: unless_placeholder(meta.responsible_org(), "Ansvarlig Myndighed"),
            uri: unless_placeholder(meta.uri(), "https://data.gov.dk/model/core/new-model"),
            version: unless_placeholder(meta.version(), "0.1.0"),
        }
    }

    /// Sets one field's text.
    pub fn update_field(&mut self, field: MetadataField, value: String)
        ensures
            final(self).status == old(self).status,
            final(self).name@ == if field == MetadataField::Name { value@ } else { old(self).name@ },
            final(self).description@ == if field == MetadataField::Description { value@ } else { old(self).description@ },
            final(self).domain_area@ == if field == MetadataField::DomainArea { value@ } else { old(self).domain_area@ },
            final(self).responsible_org@ == if field == MetadataField::ResponsibleOrg {
                value@
            } else {
                old(self).responsible_org@
            },
            final(self).uri@ == if field == MetadataField::Uri { value@ } else { old(self).uri@ },
            final(self).version@ == if field == MetadataField::Version { value@ } else { old(self).version@ },
    {
        match field {
            MetadataField::Name => self.name = value,
            MetadataField::Description => self.description = value,
            MetadataField::DomainArea => self.domain_area = value,
            MetadataField::ResponsibleOrg => self.responsible_org = value,
            MetadataField::Uri => self.uri = value,
            MetadataField::Version => self.version = value,
        }
    }

    /// Writes the form into the metadata: a blank name or version falls
    /// back to the placeholder of a new project; the legal source is kept.
    pub fn apply_to(&self, meta: &mut ModelMetadata)
        ensures
            final(meta)@ == metadata_from_form(*self, old(meta)@),
    {
        if trim(self.name.as_str()).unicode_len() == 0 {
            meta.set_name("Nyt FDA Modelprojekt");
        } else {
            meta.set_name(self.name.as_str());
        }
        meta.set_description(self.description.as_str());
        meta.set_status(self.status);
        meta.set_domain_area(self.domain_area.as_str());
        meta.set_responsible_org(self.responsible_org.as_str());
        meta.set_uri(self.uri.as_str());
        if trim(self.version.as_str()).unicode_len() == 0 {
            meta.set_version("0.1.0");
        } else {
            meta.set_version(self.version.as_str());
        }
    }
}

/// The relay servers offered when a session starts.
#[derive(Debug, Clone, Copy, PartialEq, Eq, Structural)]
pub enum RelayServerPreset {
    Koyeb,
    InternalOrg,
    LocalDocker,
    Custom,
}

/// The label of a preset.
pub open spec fn preset_label(p: RelayServerPreset) -> Seq<char> {
    match p {
        RelayServerPreset::Koyeb => "Koyeb Cloud (Standard - Frankfurt)"@,
        RelayServerPreset::InternalOrg => "Intern Organisation"@,
        RelayServerPreset::LocalDocker => "Lokal Docker (ws://localhost:8080/ws)"@,
        RelayServerPreset::Custom => "Brugerdefineret URL..."@,
    }
}

/// The address of a preset; the custom preset has none of its own.
pub open spec fn preset_url(p: RelayServerPreset) -> Seq<char> {
    match p {
        RelayServerPreset::Koyeb => "wss://edge-relay.koyeb.app/ws"@,
        RelayServerPreset::InternalOrg => "wss://collab.intern.org/ws"@,
        RelayServerPreset::LocalDocker => "ws://localhost:8080/ws"@,
        RelayServerPreset::Custom => ""@,
    }
}

/// Whether a preset lets the user type the address.
pub open spec fn preset_takes_custom(p: RelayServerPreset) -> bool {
    p == RelayServerPreset::Custom || p == RelayServerPreset::InternalOrg
}

/// The address used for a preset and a typed address: the typed one when
/// the preset takes one and it is not empty, else the preset's own.
pub open spec fn chosen_url(p: RelayServerPreset, custom: Seq<char>) -> Seq<char> {
    if preset_takes_custom(p) && custom.len() > 0 { custom } else { preset_url(p) }
}

impl RelayServerPreset {
    /// Every preset, in the order offered.
    pub fn all() -> (res: [RelayServerPreset; 4])
        ensures
            res@ == seq![
                RelayServerPreset::Koyeb,
                RelayServerPreset::InternalOrg,
                RelayServerPreset::LocalDocker,
                RelayServerPreset::Custom,
            ],
    {
        let r = [
            RelayServerPreset::Koyeb,
            RelayServerPreset::InternalOrg,
            RelayServerPreset::LocalDocker,
            RelayServerPreset::Custom,
        ];
        assert(r@ =~= seq![
            RelayServerPreset::Koyeb,
            RelayServerPreset::InternalOrg,
            RelayServerPreset::LocalDocker,
            RelayServerPreset::Custom,
        ]);
        r
    }

    /// The default preset.
    pub fn default_preset() -> (res: RelayServerPreset)
        ensures
            res == RelayServerPreset::Koyeb,
    {
        RelayServerPreset::Koyeb
    }

    pub fn label(&self) -> (res: &'static str)
        ensures
            res@ == preset_label(*self),
    {
        match self {
            RelayServerPreset::Koyeb => "Koyeb Cloud (Standard - Frankfurt)",
            RelayServerPreset::InternalOrg => "Intern Organisation",
            RelayServerPreset::LocalDocker => "Lokal Docker (ws://localhost:8080/ws)",
            RelayServerPreset::Custom => "Brugerdefineret URL...",
        }
    }

    pub fn default_url(&self) -> (res: &'static str)
        ensures
            res@ == preset_url(*self),
    {
        match self {
            RelayServerPreset::Koyeb => "wss://edge-relay.koyeb.app/ws",
            RelayServerPreset::InternalOrg => "wss://collab.intern.org/ws",
            RelayServerPreset::LocalDocker => "ws://localhost:8080/ws",
            RelayServerPreset::Custom => "",
        }
    }
}

fn takes_custom(p: RelayServerPreset) -> (res: bool)
    ensures
        res == preset_takes_custom(p),
{
    match p {
        RelayServerPreset::Custom | RelayServerPreset::InternalOrg => true,
        _ => false,
    }
}

/// The dialog that starts a live session as host.
#[derive(Debug, Clone)]
pub struct StartSessionModalState {
    pub preset: RelayServerPreset,
    pub custom_url: String,
    pub remember_choice: bool,
    pub ticket: SessionTicket,
    pub copied: bool,
}

impl StartSessionModalState {
    /// The dialog for a fresh session: the default relay, a new random room
    /// and a new random key.
    pub fn new() -> (res: StartSessionModalState)
        ensures
            res.preset == RelayServerPreset::Koyeb,
            res.custom_url@ == Seq::<char>::empty(),
            !res.remember_choice,
            !res.copied,
            res.ticket@.0 == preset_url(RelayServerPreset::Koyeb),
            res.ticket@.1.len() == 36,
            res.ticket@.2.len() == 32,
    {
        let preset = RelayServerPreset::Koyeb;
        let room = RoomId::generate();
        let key = CollabKey::generate();
        let ticket = SessionTicket::new(preset.default_url(), room, key);
        StartSessionModalState { preset, custom_url: String::new(), remember_choice: false, ticket, copied: false }
    }

    /// The relay address in use.
    pub fn current_url(&self) -> (res: &str)
        ensures
            res@ == chosen_url(self.preset, self.custom_url@),
    {
        if takes_custom(self.preset) && self.custom_url.as_str().unicode_len() > 0 {
            self.custom_url.as_str()
        } else {
            self.preset.default_url()
        }
    }

    /// Chooses a preset; the ticket follows to the address now in use and
    /// keeps its room and key.
    pub fn set_preset(&mut self, preset: RelayServerPreset)
        ensures
            final(self).preset == preset,
            final(self).custom_url@ == old(self).custom_url@,
            final(self).remember_choice == old(self).remember_choice,
            final(self).copied == old(self).copied,
            final(self).ticket@ == (chosen_url(preset, old(self).custom_url@), old(self).ticket@.1, old(self).ticket@.2),
    {
        self.preset = preset;
        let room = RoomId::new(self.ticket.room_id.as_str());
        let key = CollabKey::from_bytes(self.ticket.key.0);
        let url = String::from_str(self.current_url());
        self.ticket = SessionTicket::new(url.as_str(), room, key);
    }

    /// Types a relay address; when the preset takes typed addresses the
    /// ticket follows to it (even when it is empty), keeping room and key.
    pub fn set_custom_url(&mut self, url: String)
        ensures
            final(self).preset == old(self).preset,
            final(self).custom_url@ == url@,
            final(self).remember_choice == old(self).remember_choice,
            final(self).copied == old(self).copied,
            final(self).ticket@ == (if preset_takes_custom(old(self).preset) {
                (url@, old(self).ticket@.1, old(self).ticket@.2)
            } else {
                old(self).ticket@
            }),
    {
        if takes_custom(self.preset) {
            let room = RoomId::new(self.ticket.room_id.as_str());
            let key = CollabKey::from_bytes(self.ticket.key.0);
            self.ticket = SessionTicket::new(url.as_str(), room, key);
        }
        self.custom_url = url;
    }
}

/// The dialog that joins a live session as guest.
#[derive(Debug, Clone)]
pub struct JoinSessionModalState {
    pub token_input: String,
    pub parsed_ticket: Option<SessionTicket>,
    pub error_message: Option<String>,
}

impl JoinSessionModalState {
    /// The empty dialog.
    pub fn new() -> (res: JoinSessionModalState)
        ensures
            res.token_input@ == Seq::<char>::empty(),
            res.parsed_ticket is None,
            res.error_message is None,
    {
        JoinSessionModalState { token_input: String::new(), parsed_ticket: None, error_message: None }
    }

    /// Takes the typed code: a blank code clears ticket and error; any other
    /// code is parsed, without its surrounding white space, into a ticket or
    /// an error message.
    pub fn set_token_input(&mut self, token: String)
        ensures
            final(self).token_input@ == token@,
            trimmed(token@).len() == 0 ==> final(self).parsed_ticket is None && final(self).error_message is None,
            trimmed(token@).len() > 0 ==> match ticket_parse(trimmed(token@)) {
                Ok(v) => (final(self).parsed_ticket matches Some(t) && t@ == v) && final(self).error_message is None,
                Err(_) => final(self).parsed_ticket is None && (final(self).error_message matches Some(m)
                    && m@ == "Ugyldig sessionskode: "@ + ticket_error_message(trimmed(token@))),
            },
    {
        let t = String::from_str(trim(token.as_str()));
        self.token_input = token;
        if t.as_str().unicode_len() == 0 {
            self.parsed_ticket = None;
            self.error_message = None;
        } else {
            match SessionTicket::from_ticket_string(t.as_str()) {
                Ok(ticket) => {
                    self.parsed_ticket = Some(ticket);
                    self.error_message = None;
                },
                Err(err) => {
                    self.parsed_ticket = None;
                    let m = String::from_str("Ugyldig sessionskode: ").concat(err.message().as_str());
                    assert(m@ == "Ugyldig sessionskode: "@ + ticket_error_text(err));
                    self.error_message = Some(m);
                },
            }
        }
    }

    /// Whether the typed code is a valid ticket.
    pub fn is_valid(&self) -> (res: bool)
        ensures
            res == self.parsed_ticket is Some,
    {
        self.parsed_ticket.is_some()
    }
}

/// The notice shown to a guest whose host ended the session.
#[derive(Debug, Clone)]
pub struct GuestEndedNoticeModalState {
    pub message: String,
}

/// The tabs of the main window.
#[derive(Debug, Clone, Copy, PartialEq, Eq, Structural)]
pub enum Tab {
    ConceptList,
    ConceptModel,
    InformationModel,
}

/// Whether the project is saved.
#[derive(Debug, Clone, PartialEq, Eq)]
pub enum SaveStatus {
    Saved { path: String, timestamp: String },
    Saving,
    Unsaved,
    Error(String),
}

/// What follows the last `/` of a path (the whole path where it has none).
pub open spec fn last_segment(p: Seq<char>) -> Seq<char>
    decreases p.len(),
{
    if p.len() == 0 {
        Seq::empty()
    } else if p.last() == '/' {
        Seq::empty()
    } else {
        last_segment(p.drop_last()).push(p.last())
    }
}

/// A path whose file name every platform reads the same way: it holds no
/// `\` and no `:` and does not start with `//` (so it has no Windows
/// prefix, and `/` is its only separator), and its last segment is a name,
/// not empty, `.` or `..`.
pub open spec fn plain_path(p: Seq<char>) -> bool {
    &&& !p.contains('\\')
    &&& !p.contains(':')
    &&& !(p.len() >= 2 && p[0] == '/' && p[1] == '/')
    &&& last_segment(p).len() > 0
    &&& last_segment(p) != "."@
    &&& last_segment(p) != ".."@
}

/// The file name of a path as the operating system's path rules give it
/// (`std::path::Path::file_name`, as UTF-8).
///
/// Trusted: a file name is never empty (a path component never is); on a
/// plain path, where `/` is the only separator on every platform, it is the
/// last segment, the path's final component.  Nothing is stated of other
/// paths, whose reading depends on the platform.
#[verifier::external_body]
fn path_file_name(path: &str) -> (res: Option<String>)
    ensures
        crate::concepts::opt_view(res) != Some(Seq::<char>::empty()),
        plain_path(path@) ==> crate::concepts::opt_view(res) == Some(last_segment(path@)),
{
    std::path::Path::new(path).file_name().and_then(|f| f.to_str()).map(|s| s.to_string())
}

/// The status line for a save status, given the file name of the saved path
/// (none when it has none) and whether a project file is chosen.
pub open spec fn save_status_line(s: SaveStatus, file_name: Option<Seq<char>>, has_file: bool) -> Seq<char> {
    match s {
        SaveStatus::Saved { path, timestamp } => "💾 Sidst gemt kl. "@ + timestamp@ + " • "@ + match file_name {
            Some(f) => f,
            None => path@,
        },
        SaveStatus::Saving => "⏳ Gemmer..."@,
        SaveStatus::Unsaved => if has_file {
            "⚠️ Ikke gemte ændringer"@
        } else {
            "⚠️ Nyt projekt (ikke gemt til disk - tryk Gem)"@
        },
        SaveStatus::Error(m) => "❌ Fejl ved gemning: "@ + m@,
    }
}

impl SaveStatus {
    pub fn is_saved(&self) -> (res: bool)
        ensures
            res == (*self is Saved),
    {
        match self {
            SaveStatus::Saved { .. } => true,
            _ => false,
        }
    }

    /// The status line, given the saved path's file name.
    pub fn status_line(&self, file_name: Option<&str>, has_file: bool) -> (res: String)
        ensures
            res@ == save_status_line(*self, crate::concepts::opt_str_view(file_name), has_file),
    {
        match self {
            SaveStatus::Saved { path, timestamp } => {
                let name = match file_name {
                    Some(f) => f,
                    None => path.as_str(),
                };
                String::from_str("💾 Sidst gemt kl. ").concat(timestamp.as_str()).concat(" • ").concat(name)
            },
            SaveStatus::Saving => String::from_str("⏳ Gemmer..."),
            SaveStatus::Unsaved => {
                if has_file {
                    String::from_str("⚠️ Ikke gemte ændringer")
                } else {
                    String::from_str("⚠️ Nyt projekt (ikke gemt til disk - tryk Gem)")
                }
            },
            SaveStatus::Error(m) => String::from_str("❌ Fejl ved gemning: ").concat(m.as_str()),
        }
    }

    /// The status line shown in the footer: the saved path is shown by its
    /// file name, as the platform's path rules find it.
    pub fn display_text(&self, current_file_path: Option<&str>) -> (res: String)
        ensures
            exists|f: Option<Seq<char>>| res@ == #[trigger] save_status_line(*self, f, current_file_path is Some),
            *self matches SaveStatus::Saved { path: saved, .. } ==> (plain_path(saved@) ==> res@ == save_status_line(
                *self,
                Some(last_segment(saved@)),
                current_file_path is Some,
            )),
    {
        let name = match self {
            SaveStatus::Saved { path, .. } => path_file_name(path.as_str()),
            _ => None,
        };
        let r = match &name {
            Some(f) => self.status_line(Some(f.as_str()), current_file_path.is_some()),
            None => self.status_line(None, current_file_path.is_some()),
        };
        let ghost f = match name {
            Some(n) => Some(n@),
            None => None::<Seq<char>>,
        };
        assert(r@ == save_status_line(*self, f, current_file_path is Some));
        r
    }
}

/// The open dialog of the file chooser.
#[derive(Debug, Clone, Copy, PartialEq, Eq, Structural)]
pub enum FileDialogMode {
    Open,
    SaveAs,
}

/// The menus of the menu bar.
#[derive(Debug, Clone, Copy, PartialEq, Eq, Structural)]
pub enum MenuType {
    File,
    Help,
    Collab,
}

/// The role of this editor in live collaboration.
#[derive(Debug, Clone, Copy, PartialEq, Eq, Structural)]
pub enum CollabState {
    Offline,
    Host,
    Guest,
}

impl Default for CollabState {
    fn default() -> (res: Self)
        ensures
            res == CollabState::Offline,
    {
        CollabState::Offline
    }
}

impl CollabState {
    pub fn is_guest(&self) -> (res: bool)
        ensures
            res == (*self == CollabState::Guest),
    {
        match self {
            CollabState::Guest => true,
            _ => false,
        }
    }

    pub fn is_host(&self) -> (res: bool)
        ensures
            res == (*self == CollabState::Host),
    {
        match self {
            CollabState::Host => true,
            _ => false,
        }
    }

    /// Whether a live session is going on, as host or guest.
    pub fn is_active(&self) -> (res: bool)
        ensures
            res == (*self != CollabState::Offline),
    {
        match self {
            CollabState::Offline => false,
            _ => true,
        }
    }
}

} // verus!
