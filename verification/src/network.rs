//! The decisions of the collaboration channel: how a relay address becomes
//! a WebSocket URL, what an inbound frame means, and how long to wait before
//! the next connection attempt.  The socket itself is driven outside.
use vstd::prelude::*;
use vstd::string::StrSliceExecFns;
use crate::crypto::RoomId;
use crate::text::{
    ends_with, has_prefix, has_suffix, starts_with, trim, trim_end_char, trim_end_matches_char,
    trimmed,
};

verus! {

/// Lifecycle state of the connection.
#[derive(Debug, Clone, Copy, PartialEq, Eq, Structural)]
pub enum ConnectionStatus {
    Disconnected,
    Connecting,
    Connected,
    Reconnecting,
}

/// The text shown for a connection state.
pub open spec fn status_label(s: ConnectionStatus) -> Seq<char> {
    match s {
        ConnectionStatus::Disconnected => "Afbrudt"@,
        ConnectionStatus::Connecting => "Forbinder..."@,
        ConnectionStatus::Connected => "Forbundet"@,
        ConnectionStatus::Reconnecting => "Genforbinder..."@,
    }
}

impl ConnectionStatus {
    /// The text shown for this state.
    pub fn label(&self) -> (res: &'static str)
        ensures
            res@ == status_label(*self),
    {
        match self {
            ConnectionStatus::Disconnected => "Afbrudt",
            ConnectionStatus::Connecting => "Forbinder...",
            ConnectionStatus::Connected => "Forbundet",
            ConnectionStatus::Reconnecting => "Genforbinder...",
        }
    }
}

/// What the channel reports to the editor.
#[derive(Debug, Clone, PartialEq, Eq)]
pub enum CollabNetworkEvent {
    StatusChanged(ConnectionStatus),
    MessageReceived(Vec<u8>),
    PresenceUpdated(usize),
    HostEndedSession,
    Error(String),
}

/// The meaning of a channel event, with its data as mathematical values.
pub enum EventView {
    Status(ConnectionStatus),
    Message(Seq<u8>),
    Presence(int),
    HostEnded,
    Error(Seq<char>),
}

impl View for CollabNetworkEvent {
    type V = EventView;

    open spec fn view(&self) -> EventView {
        match self {
            CollabNetworkEvent::StatusChanged(s) => EventView::Status(*s),
            CollabNetworkEvent::MessageReceived(v) => EventView::Message(v@),
            CollabNetworkEvent::PresenceUpdated(n) => EventView::Presence(*n as int),
            CollabNetworkEvent::HostEndedSession => EventView::HostEnded,
            CollabNetworkEvent::Error(m) => EventView::Error(m@),
        }
    }
}

/// The big-endian number in four bytes.
pub open spec fn be_u32(b0: u8, b1: u8, b2: u8, b3: u8) -> int {
    b0 * 0x1000000 + b1 * 0x10000 + b2 * 0x100 + b3
}

/// What an inbound binary frame means:
/// * `0x03` with four more bytes: the participant count, big-endian;
/// * `0x04`: the host ended the session;
/// * `0x01` or `0x02`: a snapshot or mutation, whose ciphertext follows;
/// * anything else: an unframed message, passed on whole.
pub open spec fn inbound_meaning(frame: Seq<u8>) -> EventView {
    if frame.len() >= 5 && frame[0] == 0x03 {
        EventView::Presence(be_u32(frame[1], frame[2], frame[3], frame[4]))
    } else if frame.len() >= 1 && frame[0] == 0x04 {
        EventView::HostEnded
    } else if frame.len() >= 1 && (frame[0] == 0x01 || frame[0] == 0x02) {
        EventView::Message(frame.skip(1))
    } else {
        EventView::Message(frame)
    }
}

/// Decodes an inbound binary frame into the event it stands for.
pub fn classify_inbound(frame: &[u8]) -> (res: CollabNetworkEvent)
    ensures
        res@ == inbound_meaning(frame@),
{
    let n: usize = frame.len();
    if n >= 5 && frame[0] == 0x03 {
        let count: u32 = (frame[1] as u32) * 0x1000000 + (frame[2] as u32) * 0x10000 + (frame[3] as u32)
            * 0x100 + (frame[4] as u32);
        CollabNetworkEvent::PresenceUpdated(count as usize)
    } else if n >= 1 && frame[0] == 0x04 {
        CollabNetworkEvent::HostEndedSession
    } else if n >= 1 && (frame[0] == 0x01 || frame[0] == 0x02) {
        let rest = vstd::slice::slice_subrange(frame, 1, n);
        assert(rest@ =~= frame@.skip(1));
        CollabNetworkEvent::MessageReceived(vstd::slice::slice_to_vec(rest))
    } else {
        CollabNetworkEvent::MessageReceived(vstd::slice::slice_to_vec(frame))
    }
}

/// The first pause before reconnecting, in milliseconds.
pub const INITIAL_BACKOFF_MS: u64 = 500;
/// The longest pause before reconnecting, in milliseconds.
pub const MAX_BACKOFF_MS: u64 = 10_000;

/// The reconnect policy of the channel: exponential backoff from half a
/// second, doubling up to ten seconds, reset by every successful connection.
pub struct ReconnectBackoff {
    delay_ms: u64,
    reconnecting: bool,
}

impl ReconnectBackoff {
    /// The pause that the next wait takes.
    pub closed spec fn delay(&self) -> u64 {
        self.delay_ms
    }

    /// Whether an attempt has been made before.
    pub closed spec fn is_reconnect(&self) -> bool {
        self.reconnecting
    }

    /// The policy's invariant: the pause stays between the first and the
    /// longest.
    pub open spec fn wf(&self) -> bool {
        INITIAL_BACKOFF_MS <= self.delay() <= MAX_BACKOFF_MS
    }

    /// The policy before the first attempt.
    pub fn new() -> (res: ReconnectBackoff)
        ensures
            res.wf(),
            res.delay() == INITIAL_BACKOFF_MS,
            !res.is_reconnect(),
    {
        ReconnectBackoff { delay_ms: INITIAL_BACKOFF_MS, reconnecting: false }
    }

    /// The state announced when an attempt starts: connecting at first,
    /// reconnecting afterwards.
    pub fn attempt_status(&self) -> (res: ConnectionStatus)
        ensures
            res == (if self.is_reconnect() {
                ConnectionStatus::Reconnecting
            } else {
                ConnectionStatus::Connecting
            }),
    {
        if self.reconnecting {
            ConnectionStatus::Reconnecting
        } else {
            ConnectionStatus::Connecting
        }
    }

    /// A connection was established: the pause starts over.
    pub fn on_connected(&mut self)
        ensures
            final(self).wf(),
            final(self).delay() == INITIAL_BACKOFF_MS,
            final(self).is_reconnect(),
    {
        self.delay_ms = INITIAL_BACKOFF_MS;
        self.reconnecting = true;
    }

    /// An attempt failed or timed out.
    pub fn on_failed(&mut self)
        requires
            old(self).wf(),
        ensures
            final(self).wf(),
            final(self).delay() == old(self).delay(),
            final(self).is_reconnect(),
    {
        self.reconnecting = true;
    }

    /// Takes the pause to wait now; the next one is twice as long, capped.
    pub fn next_delay(&mut self) -> (res: u64)
        requires
            old(self).wf(),
        ensures
            res == old(self).delay(),
            final(self).wf(),
            final(self).delay() == (if 2 * old(self).delay() <= MAX_BACKOFF_MS {
                2 * old(self).delay()
            } else {
                MAX_BACKOFF_MS as int
            }),
            final(self).is_reconnect() == old(self).is_reconnect(),
    {
        let d = self.delay_ms;
        self.delay_ms = if d <= MAX_BACKOFF_MS / 2 { 2 * d } else { MAX_BACKOFF_MS };
        d
    }
}

/// What `url::Url::parse` makes of a text: the path of the parsed URL, or
/// the text of the parse error.
pub uninterp spec fn url_parse_path(text: Seq<char>) -> Result<Seq<char>, Seq<char>>;

/// The serialisation of the URL parsed from `text` after its path is set to
/// `path` (when given) and its query to `query`.
pub uninterp spec fn url_rebuilt(text: Seq<char>, path: Option<Seq<char>>, query: Seq<char>) -> Seq<char>;

/// Parses a URL and returns its path (`url::Url::parse`, `Url::path`).
///
/// Trusted: the outcome, path or rendered `ParseError`, is the named parse.
#[verifier::external_body]
pub(crate) fn url_path_of(text: &str) -> (res: Result<String, String>)
    ensures
        match (res, url_parse_path(text@)) {
            (Ok(p), Ok(q)) => p@ == q,
            (Err(m), Err(e)) => m@ == e,
            _ => false,
        },
{
    match url::Url::parse(text) {
        Ok(u) => Ok(u.path().to_string()),
        Err(e) => Err(e.to_string()),
    }
}

/// The user name (`Url::username`) of the URL parsed from `text` after its
/// path is set to `path` (when given) and its query to `query`.
pub uninterp spec fn url_rebuilt_username(text: Seq<char>, path: Option<Seq<char>>, query: Seq<char>) -> Seq<char>;

/// The password (`Url::password`) of that URL.
pub uninterp spec fn url_rebuilt_password(text: Seq<char>, path: Option<Seq<char>>, query: Seq<char>) -> Option<Seq<char>>;

/// The fragment (`Url::fragment`) of that URL.
pub uninterp spec fn url_rebuilt_fragment(text: Seq<char>, path: Option<Seq<char>>, query: Seq<char>) -> Option<Seq<char>>;

/// The view of an optional path argument.
pub open spec fn opt_view(path: Option<&str>) -> Option<Seq<char>> {
    match path {
        Some(p) => Some(p@),
        None => None,
    }
}

/// The parts of a rebuilt URL that a relay address must not carry.
struct UrlExtras {
    username: String,
    password: Option<String>,
    fragment: Option<String>,
}

/// Parses a URL, sets its path (when given) and its query, and returns the
/// serialisation with the user name, password and fragment of the result
/// (`Url::parse`, `Url::set_path`, `Url::set_query`, `Url::as_str`,
/// `Url::username`, `Url::password`, `Url::fragment`).
///
/// Trusted: each returned part is the named part of the rebuilt URL.  The
/// text is one that parses, so the error arm is never taken.
#[verifier::external_body]
fn url_with_path_and_query(text: &str, path: Option<&str>, query: &str) -> (res: (String, UrlExtras))
    requires
        url_parse_path(text@) is Ok,
    ensures
        res.0@ == url_rebuilt(text@, opt_view(path), query@),
        res.1.username@ == url_rebuilt_username(text@, opt_view(path), query@),
        opt_text(res.1.password) == url_rebuilt_password(text@, opt_view(path), query@),
        opt_text(res.1.fragment) == url_rebuilt_fragment(text@, opt_view(path), query@),
{
    match url::Url::parse(text) {
        Ok(mut u) => {
            if let Some(p) = path {
                u.set_path(p);
            }
            u.set_query(Some(query));
            let extras = UrlExtras {
                username: u.username().to_string(),
                password: u.password().map(|p| p.to_string()),
                fragment: u.fragment().map(|f| f.to_string()),
            };
            (u.as_str().to_string(), extras)
        },
        Err(_) => (String::new(), UrlExtras { username: String::new(), password: None, fragment: None }),
    }
}

/// The view of an optional text.
pub open spec fn opt_text(t: Option<String>) -> Option<Seq<char>> {
    match t {
        Some(s) => Some(s@),
        None => None,
    }
}

/// The WebSocket form of a relay address: `http` becomes `ws`, `https`
/// becomes `wss`, a `ws`/`wss` address stays, and a bare address gets `ws://`.
pub open spec fn ws_address(t: Seq<char>) -> Seq<char> {
    if has_prefix(t, "http://"@) {
        "ws://"@ + t.skip(7)
    } else if has_prefix(t, "https://"@) {
        "wss://"@ + t.skip(8)
    } else if has_prefix(t, "ws://"@) || has_prefix(t, "wss://"@) {
        t
    } else {
        "ws://"@ + t
    }
}

/// The path that the URL must be given so that it ends in the `/ws`
/// endpoint, or none when it already does.
pub open spec fn ws_path(path: Seq<char>) -> Option<Seq<char>> {
    let p = trim_end_char(path, '/');
    if has_suffix(p, "/ws"@) {
        None
    } else if p.len() == 0 {
        Some("/ws"@)
    } else {
        Some(p + "/ws"@)
    }
}

/// The message for an empty relay address.
pub open spec fn empty_relay_message() -> Seq<char> {
    "Relay-URL kan ikke være tom"@
}

/// Whether the URL built for a room carries no user name, password or
/// fragment: nothing but the server address and the room.
pub open spec fn address_only(a: Seq<char>, w: Option<Seq<char>>, q: Seq<char>) -> bool {
    &&& url_rebuilt_username(a, w, q).len() == 0
    &&& url_rebuilt_password(a, w, q) is None
    &&& url_rebuilt_fragment(a, w, q) is None
}

/// The message for a relay address that carries more than the server.
pub open spec fn extras_message() -> Seq<char> {
    "Ugyldig relay-URL: kun serveradresse er tilladt (uden brugeroplysninger og fragment)"@
}

/// The WebSocket URL of a room on a relay: the relay address, as a `ws` or
/// `wss` URL ending in `/ws`, with the query `room=<room id>` and nothing
/// else.  In particular the room's key never appears in it, and an address
/// that carries user information or a fragment is refused.
pub fn build_relay_ws_url(relay_url: &str, room_id: &RoomId) -> (res: Result<String, String>)
    ensures
        trimmed(relay_url@).len() == 0 ==> (res matches Err(m) && m@ == empty_relay_message()),
        trimmed(relay_url@).len() > 0 ==> match url_parse_path(ws_address(trimmed(relay_url@))) {
            Err(e) => res matches Err(m) && m@ == "Ugyldig relay-URL: "@ + e,
            Ok(p) => {
                let (a, w, q) = (ws_address(trimmed(relay_url@)), ws_path(p), "room="@ + room_id@);
                if address_only(a, w, q) {
                    res matches Ok(u) && u@ == url_rebuilt(a, w, q)
                } else {
                    res matches Err(m) && m@ == extras_message()
                }
            },
        },
{
    let t = trim(relay_url);
    if t.unicode_len() == 0 {
        return Err(String::from_str("Relay-URL kan ikke være tom"));
    }
    proof {
        reveal_strlit("http://");
        reveal_strlit("https://");
        reveal_strlit("ws://");
        reveal_strlit("wss://");
    }
    let n: usize = t.unicode_len();
    let addr = if starts_with(t, "http://") {
        String::from_str("ws://").concat(t.substring_char(7, n))
    } else if starts_with(t, "https://") {
        String::from_str("wss://").concat(t.substring_char(8, n))
    } else if starts_with(t, "ws://") || starts_with(t, "wss://") {
        String::from_str(t)
    } else {
        String::from_str("ws://").concat(t)
    };
    assert(addr@ =~= ws_address(t@));
    let path = match url_path_of(addr.as_str()) {
        Ok(p) => p,
        Err(e) => {
            return Err(String::from_str("Ugyldig relay-URL: ").concat(e.as_str()));
        },
    };
    let current = trim_end_matches_char(path.as_str(), '/');
    proof {
        reveal_strlit("/ws");
    }
    let query = String::from_str("room=").concat(room_id.as_str());
    let (res, extras) = if ends_with(current, "/ws") {
        url_with_path_and_query(addr.as_str(), None, query.as_str())
    } else if current.unicode_len() == 0 {
        url_with_path_and_query(addr.as_str(), Some("/ws"), query.as_str())
    } else {
        let new_path = String::from_str(current).concat("/ws");
        url_with_path_and_query(addr.as_str(), Some(new_path.as_str()), query.as_str())
    };
    if extras.username.unicode_len() > 0 || extras.password.is_some() || extras.fragment.is_some() {
        return Err(String::from_str(
            "Ugyldig relay-URL: kun serveradresse er tilladt (uden brugeroplysninger og fragment)",
        ));
    }
    Ok(res)
}

} // verus!
