//! The editor's side of a live session: its role, the connection state the
//! channel reports, how many take part, the session key, the sequence
//! numbers it stamps and accepts, and the texts it shows. The channel and
//! the window live outside; they report events here and ask what to do.
use vstd::prelude::*;
use crate::crypto::{decrypt, decryption_of, CollabKey};
use crate::editor::{CollabState, GuestEndedNoticeModalState, SaveStatus};
use crate::network::{status_label, ConnectionStatus};
use crate::protocol::{CollabEnvelope, CollabPayload, ReplayGuard, SequenceCounter};
use crate::text::{decimal, to_decimal};

verus! {

/// How long the editor waits between two broadcasts of a dragged node, in
/// milliseconds (about fifteen a second).
pub const NODE_MOVE_INTERVAL_MS: u64 = 66;

/// The state of the editor's live session.
pub struct CollabSession {
    role: CollabState,
    status: ConnectionStatus,
    participants: u64,
    key: Option<CollabKey>,
    guard: ReplayGuard,
    counter: SequenceCounter,
    last_node_broadcast: Option<u64>,
}

/// What a session holds, as values.
pub struct SessionView {
    pub role: CollabState,
    pub status: ConnectionStatus,
    pub participants: u64,
    pub key: Option<Seq<u8>>,
    pub last_seen: u64,
    pub sent: u64,
    pub last_node_broadcast: Option<u64>,
}

pub open spec fn key_view(k: Option<CollabKey>) -> Option<Seq<u8>> {
    match k {
        Some(key) => Some(key@),
        None => None,
    }
}

impl View for CollabSession {
    type V = SessionView;

    closed spec fn view(&self) -> SessionView {
        SessionView {
            role: self.role,
            status: self.status,
            participants: self.participants,
            key: key_view(self.key),
            last_seen: self.guard.last(),
            sent: self.counter.count(),
            last_node_broadcast: self.last_node_broadcast,
        }
    }
}

/// The message shown to a guest whose host ended the session.
pub open spec fn host_ended_message() -> Seq<char> {
    "Værten har afsluttet sessionen. Vil du gemme en kopi af modellen lokalt?"@
}

/// How many take part, as the status shows it.
pub open spec fn participants_text(n: u64) -> Seq<char> {
    if n == 1 { "1 deltager"@ } else { decimal(n as nat) + " deltagere"@ }
}

/// The session summary shown in the menu bar.
pub open spec fn summary_text(role: CollabState, status: ConnectionStatus, participants: u64) -> Seq<char> {
    match role {
        CollabState::Offline => "Offline"@,
        CollabState::Host => match status {
            ConnectionStatus::Connected => "Live: Vært ("@ + participants_text(participants) + ")"@,
            ConnectionStatus::Reconnecting => "Genforbinder..."@,
            _ => "Live: Vært ("@ + status_label(status) + ")"@,
        },
        CollabState::Guest => match status {
            ConnectionStatus::Connected => "Live: Gæst (Forbundet til Vært)"@,
            ConnectionStatus::Reconnecting => "Genforbinder..."@,
            _ => "Live: Gæst ("@ + status_label(status) + ")"@,
        },
    }
}

/// The footer of a guest, whose edits are never saved automatically.
pub open spec fn guest_footer() -> Seq<char> {
    "👥 Live Session (Guest) - Autosave deaktiveret (Brug 'Gem som...')"@
}

impl CollabSession {
    /// No session: offline, disconnected, the editor alone taking part.
    pub fn new() -> (res: CollabSession)
        ensures
            res@.role == CollabState::Offline,
            res@.status == ConnectionStatus::Disconnected,
            res@.participants == 1,
            res@.key is None,
            res@.last_seen == 0,
            res@.sent == 0,
            res@.last_node_broadcast is None,
    {
        CollabSession {
            role: CollabState::Offline,
            status: ConnectionStatus::Disconnected,
            participants: 1,
            key: None,
            guard: ReplayGuard::new(),
            counter: SequenceCounter::new(),
            last_node_broadcast: None,
        }
    }

    pub fn role(&self) -> (res: CollabState)
        ensures
            res == self@.role,
    {
        self.role
    }

    pub fn status(&self) -> (res: ConnectionStatus)
        ensures
            res == self@.status,
    {
        self.status
    }

    pub fn participants(&self) -> (res: u64)
        ensures
            res == self@.participants,
    {
        self.participants
    }

    /// The session key, while a session is on.
    pub fn key(&self) -> (res: Option<&CollabKey>)
        ensures
            match res {
                Some(k) => self@.key == Some(k@),
                None => self@.key is None,
            },
    {
        match &self.key {
            Some(k) => Some(k),
            None => None,
        }
    }

    /// A session starts in a role with a key; nothing has been accepted
    /// from it yet.
    pub fn start(&mut self, key: CollabKey, role: CollabState)
        ensures
            final(self)@ == (SessionView { key: Some(key@), role, last_seen: 0, ..old(self)@ }),
    {
        self.key = Some(key);
        self.role = role;
        self.guard.reset();
    }

    /// The host starts a session with its key: connected, and alone in it
    /// so far.
    pub fn begin_hosting(&mut self, key: CollabKey)
        ensures
            final(self)@ == (SessionView {
                key: Some(key@),
                role: CollabState::Host,
                status: ConnectionStatus::Connected,
                participants: 1,
                last_seen: 0,
                ..old(self)@
            }),
    {
        self.start(key, CollabState::Host);
        self.set_status(ConnectionStatus::Connected);
        self.set_participants(1);
    }

    /// A guest joins a session with the key of its ticket: connected.
    pub fn begin_guest(&mut self, key: CollabKey)
        ensures
            final(self)@ == (SessionView {
                key: Some(key@),
                role: CollabState::Guest,
                status: ConnectionStatus::Connected,
                last_seen: 0,
                ..old(self)@
            }),
    {
        self.start(key, CollabState::Guest);
        self.set_status(ConnectionStatus::Connected);
    }

    /// The channel reported a connection state.
    pub fn set_status(&mut self, status: ConnectionStatus)
        ensures
            final(self)@ == (SessionView { status, ..old(self)@ }),
    {
        self.status = status;
    }

    /// The relay reported how many take part.
    pub fn set_participants(&mut self, count: u64)
        ensures
            final(self)@ == (SessionView { participants: count, ..old(self)@ }),
    {
        self.participants = count;
    }

    /// Leaves the session. Returns whether the host's farewell must be sent
    /// first (only a host says goodbye).
    pub fn disconnect(&mut self) -> (res: bool)
        ensures
            res == (old(self)@.role == CollabState::Host),
            final(self)@ == (SessionView {
                key: None,
                role: CollabState::Offline,
                status: ConnectionStatus::Disconnected,
                last_seen: 0,
                ..old(self)@
            }),
    {
        let was_host = self.role.is_host();
        self.key = None;
        self.role = CollabState::Offline;
        self.status = ConnectionStatus::Disconnected;
        self.guard.reset();
        was_host
    }

    /// The host ended the session: a guest goes offline and is told so; a
    /// host or an offline editor ignores it.
    pub fn host_ended(&mut self) -> (res: Option<GuestEndedNoticeModalState>)
        ensures
            old(self)@.role == CollabState::Guest ==> {
                &&& res matches Some(n) && n.message@ == host_ended_message()
                &&& final(self)@ == (SessionView {
                    key: None,
                    role: CollabState::Offline,
                    status: ConnectionStatus::Disconnected,
                    ..old(self)@
                })
            },
            old(self)@.role != CollabState::Guest ==> res is None && final(self)@ == old(self)@,
    {
        if self.role.is_guest() {
            self.role = CollabState::Offline;
            self.key = None;
            self.status = ConnectionStatus::Disconnected;
            Some(
                GuestEndedNoticeModalState {
                    message: String::from_str(
                        "Værten har afsluttet sessionen. Vil du gemme en kopi af modellen lokalt?",
                    ),
                },
            )
        } else {
            None
        }
    }

    /// Whether the editor saves by itself: never as a guest.
    pub fn autosaves(&self) -> (res: bool)
        ensures
            res == (self@.role != CollabState::Guest),
    {
        !self.role.is_guest()
    }

    /// The session summary shown in the menu bar.
    pub fn status_summary(&self) -> (res: String)
        ensures
            res@ == summary_text(self@.role, self@.status, self@.participants),
    {
        match self.role {
            CollabState::Offline => String::from_str("Offline"),
            CollabState::Host => match self.status {
                ConnectionStatus::Connected => {
                    let n = if self.participants == 1 {
                        String::from_str("1 deltager")
                    } else {
                        to_decimal(self.participants).concat(" deltagere")
                    };
                    String::from_str("Live: Vært (").concat(n.as_str()).concat(")")
                },
                ConnectionStatus::Reconnecting => String::from_str("Genforbinder..."),
                _ => String::from_str("Live: Vært (").concat(self.status.label()).concat(")"),
            },
            CollabState::Guest => match self.status {
                ConnectionStatus::Connected => String::from_str("Live: Gæst (Forbundet til Vært)"),
                ConnectionStatus::Reconnecting => String::from_str("Genforbinder..."),
                _ => String::from_str("Live: Gæst (").concat(self.status.label()).concat(")"),
            },
        }
    }

    /// The footer's status text: a guest's fixed notice, the save status
    /// behind a crown for a host, the save status alone offline.
    pub fn footer_status_text(&self, save: &SaveStatus, current_file_path: Option<&str>) -> (res: String)
        ensures
            self@.role == CollabState::Guest ==> res@ == guest_footer(),
            self@.role == CollabState::Host ==> exists|f: Option<Seq<char>>|
                res@ == "👑 Live Session (Host) • "@ + #[trigger] crate::editor::save_status_line(
                    *save,
                    f,
                    current_file_path is Some,
                ),
            self@.role == CollabState::Offline ==> exists|f: Option<Seq<char>>|
                res@ == #[trigger] crate::editor::save_status_line(*save, f, current_file_path is Some),
    {
        if self.role.is_guest() {
            String::from_str("👥 Live Session (Guest) - Autosave deaktiveret (Brug 'Gem som...')")
        } else if self.role.is_host() {
            let line = save.display_text(current_file_path);
            let res = String::from_str("👑 Live Session (Host) • ").concat(line.as_str());
            proof {
                let f = choose|f: Option<Seq<char>>| line@ == #[trigger] crate::editor::save_status_line(
                    *save,
                    f,
                    current_file_path is Some,
                );
                assert(res@ == "👑 Live Session (Host) • "@ + crate::editor::save_status_line(
                    *save,
                    f,
                    current_file_path is Some,
                ));
            }
            res
        } else {
            save.display_text(current_file_path)
        }
    }

    /// Stamps a payload for sending: only while a session is on, with the
    /// next sequence number (none once the numbers are used up).
    pub fn next_envelope(&mut self, timestamp: u64, payload: CollabPayload) -> (res: Option<CollabEnvelope>)
        ensures
            old(self)@.role == CollabState::Offline || old(self)@.key is None ==> res is None && final(self)@
                == old(self)@,
            old(self)@.role != CollabState::Offline && old(self)@.key is Some ==> {
                if old(self)@.sent < u64::MAX {
                    &&& res matches Some(e) && e.seq == old(self)@.sent + 1 && e.timestamp == timestamp
                        && e.payload == payload
                    &&& final(self)@ == (SessionView { sent: (old(self)@.sent + 1) as u64, ..old(self)@ })
                } else {
                    res is None && final(self)@ == old(self)@
                }
            },
    {
        if !self.role.is_active() || self.key.is_none() {
            return None;
        }
        match self.counter.next_seq() {
            Some(seq) => Some(CollabEnvelope::new(seq, timestamp, payload)),
            None => None,
        }
    }

    /// Opens an inbound frame with the session key; none without a key or
    /// when the frame does not open.
    pub fn open_frame(&self, frame: &[u8]) -> (res: Option<Vec<u8>>)
        ensures
            match self@.key {
                None => res is None,
                Some(k) => match res {
                    Some(p) => decryption_of(k, frame@) == Some(p@),
                    None => decryption_of(k, frame@) is None,
                },
            },
    {
        match &self.key {
            None => None,
            Some(k) => match decrypt(k, frame) {
                Ok(p) => Some(p),
                Err(_) => None,
            },
        }
    }

    /// Whether an inbound envelope is newer than the last accepted; it is
    /// remembered when it is.
    pub fn accept(&mut self, seq: u64) -> (res: bool)
        ensures
            res == (seq > old(self)@.last_seen),
            final(self)@ == (SessionView { last_seen: if res { seq } else { old(self)@.last_seen }, ..old(self)@ }),
    {
        self.guard.accept(seq)
    }

    /// Whether a dragged node's position is broadcast now: only in a
    /// session, and at most once per [`NODE_MOVE_INTERVAL_MS`]; the time of
    /// a broadcast is remembered.
    pub fn node_move_due(&mut self, now_ms: u64) -> (res: bool)
        ensures
            res == (old(self)@.role != CollabState::Offline && match old(self)@.last_node_broadcast {
                Some(last) => now_ms >= last && now_ms - last >= NODE_MOVE_INTERVAL_MS,
                None => true,
            }),
            final(self)@ == (SessionView {
                last_node_broadcast: if res { Some(now_ms) } else { old(self)@.last_node_broadcast },
                ..old(self)@
            }),
    {
        if !self.role.is_active() {
            return false;
        }
        let due = match self.last_node_broadcast {
            Some(last) => now_ms >= last && now_ms - last >= NODE_MOVE_INTERVAL_MS,
            None => true,
        };
        if due {
            self.last_node_broadcast = Some(now_ms);
        }
        due
    }
}

/// Leaving a session always ends offline and disconnected with no key, and
/// the farewell is owed exactly by a host.
pub proof fn leaving_ends_the_session(before: SessionView, after: SessionView, farewell: bool)
    requires
        farewell == (before.role == CollabState::Host),
        after == (SessionView {
            key: None,
            role: CollabState::Offline,
            status: ConnectionStatus::Disconnected,
            last_seen: 0,
            ..before
        }),
    ensures
        after.role == CollabState::Offline,
        after.key is None,
        summary_text(after.role, after.status, after.participants) == "Offline"@,
{
}

} // verus!
