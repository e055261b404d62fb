//! Session tickets: everything a guest needs to join a live session, in one
//! copyable text.
//!
//! A ticket reads `edge:v1:` followed by the base64 of a JSON object with the
//! members `relay_url`, `room_id` and `key` (the key itself in base64).  The
//! key never travels to the relay: the relay learns the room alone.
use vstd::prelude::*;
use vstd::string::StrSliceExecFns;
use crate::text::starts_with;
use crate::crypto::{crypto_error_text, key_of_text, wrong_key_length_message, CollabKey, CryptoError, RoomId};
use crate::encoding::{
    base64_decode, base64_decode_text, base64_encode, base64_encode_bytes, field_lookup,
    json_decode_object, json_encode_object, json_object_parse, json_object_text, pairs_view,
    utf8_decode_bytes, utf8_error_text,
};

verus! {

/// A session ticket.
#[derive(Debug, Clone, PartialEq, Eq)]
pub struct SessionTicket {
    pub relay_url: String,
    pub room_id: RoomId,
    pub key: CollabKey,
}

impl View for SessionTicket {
    type V = (Seq<char>, Seq<char>, Seq<u8>);

    open spec fn view(&self) -> (Seq<char>, Seq<char>, Seq<u8>) {
        (self.relay_url@, self.room_id@, self.key@)
    }
}

/// Errors of ticket parsing.
#[derive(Debug, PartialEq, Eq)]
pub enum SessionTicketError {
    /// The text does not start with `edge:v1:`.
    InvalidPrefix,
    /// The payload is not base64.
    InvalidBase64(String),
    /// The decoded payload is not a JSON object of strings.
    InvalidJson(String),
    /// A member of the ticket is missing.
    InvalidFormat(String),
    /// The key member is not a key.
    InvalidKey(CryptoError),
}

/// The text shown for a ticket error.
pub open spec fn ticket_error_text(e: SessionTicketError) -> Seq<char> {
    match e {
        SessionTicketError::InvalidPrefix => "Ugyldigt sessionsbillet-præfiks (skal starte med 'edge:v1:')"@,
        SessionTicketError::InvalidBase64(m) => "Ugyldig base64-kodning: "@ + m@,
        SessionTicketError::InvalidJson(m) => "Ugyldig JSON-struktur: "@ + m@,
        SessionTicketError::InvalidFormat(m) => "Ugyldigt billetformat: "@ + m@,
        SessionTicketError::InvalidKey(k) => "Ugyldig kryptonøgle i billet: "@ + crypto_error_text(k),
    }
}

impl SessionTicketError {
    /// The text shown for this error.
    pub fn message(&self) -> (res: String)
        ensures
            res@ == ticket_error_text(*self),
    {
        match self {
            SessionTicketError::InvalidPrefix => String::from_str(
                "Ugyldigt sessionsbillet-præfiks (skal starte med 'edge:v1:')",
            ),
            SessionTicketError::InvalidBase64(m) => String::from_str("Ugyldig base64-kodning: ").concat(m.as_str()),
            SessionTicketError::InvalidJson(m) => String::from_str("Ugyldig JSON-struktur: ").concat(m.as_str()),
            SessionTicketError::InvalidFormat(m) => String::from_str("Ugyldigt billetformat: ").concat(m.as_str()),
            SessionTicketError::InvalidKey(k) => String::from_str("Ugyldig kryptonøgle i billet: ").concat(
                k.message().as_str(),
            ),
        }
    }
}

/// The kinds of ticket failure.
#[derive(Debug, Clone, Copy, PartialEq, Eq, Structural)]
pub enum TicketFault {
    Prefix,
    Base64,
    Json,
    Format,
    Key,
}

/// The kind of a ticket error.
pub open spec fn fault_of(e: SessionTicketError) -> TicketFault {
    match e {
        SessionTicketError::InvalidPrefix => TicketFault::Prefix,
        SessionTicketError::InvalidBase64(_) => TicketFault::Base64,
        SessionTicketError::InvalidJson(_) => TicketFault::Json,
        SessionTicketError::InvalidFormat(_) => TicketFault::Format,
        SessionTicketError::InvalidKey(_) => TicketFault::Key,
    }
}

/// The prefix of every ticket.
pub open spec fn ticket_prefix() -> Seq<char> {
    "edge:v1:"@
}

/// The member names of a ticket.
pub open spec fn relay_url_field() -> Seq<char> {
    "relay_url"@
}

pub open spec fn room_id_field() -> Seq<char> {
    "room_id"@
}

pub open spec fn key_field() -> Seq<char> {
    "key"@
}

/// A text starts with the ticket prefix.
pub open spec fn has_ticket_prefix(s: Seq<char>) -> bool {
    s.len() >= 8 && s.take(8) == ticket_prefix()
}

/// The members that a ticket text carries, or the kind of its failure
/// before the members are read.
pub open spec fn ticket_members(s: Seq<char>) -> Result<Seq<(Seq<char>, Seq<char>)>, TicketFault> {
    if !has_ticket_prefix(s) {
        Err(TicketFault::Prefix)
    } else {
        match base64_decode(s.skip(8)) {
            Err(_) => Err(TicketFault::Base64),
            Ok(b) => if !vstd::utf8::valid_utf8(b) {
                Err(TicketFault::Json)
            } else {
                match json_object_parse(vstd::utf8::decode_utf8(b)) {
                    Err(_) => Err(TicketFault::Json),
                    Ok(p) => Ok(p),
                }
            },
        }
    }
}

/// What a ticket text stands for: relay URL, room and key, or the kind of
/// its failure.
pub open spec fn ticket_parse(s: Seq<char>) -> Result<(Seq<char>, Seq<char>, Seq<u8>), TicketFault> {
    match ticket_members(s) {
        Err(f) => Err(f),
        Ok(p) => match (
            field_lookup(p, relay_url_field()),
            field_lookup(p, room_id_field()),
            field_lookup(p, key_field()),
        ) {
            (Some(u), Some(r), Some(k)) => match key_of_text(k) {
                Some(kb) => Ok((u, r, kb)),
                None => Err(TicketFault::Key),
            },
            _ => Err(TicketFault::Format),
        },
    }
}

/// The detail given when a ticket lacks one of its members.
pub open spec fn missing_member_message() -> Seq<char> {
    "billetten mangler relay_url, room_id eller key"@
}

/// The text of the key error for a key member that is not a key: the
/// decoder's complaint, or the wrong length.
pub open spec fn key_member_error_text(k: Seq<char>) -> Seq<char> {
    match base64_decode(k) {
        Err(e) => "Ugyldigt dataformat: "@ + e,
        Ok(_) => "Ugyldig nøgle: "@ + wrong_key_length_message(),
    }
}

/// The full text of the error that parsing a ticket text reports, checked
/// in order: prefix, base64, UTF-8 and JSON, the three members, the key.
/// (Only meaningful where [`ticket_parse`] fails.)
pub open spec fn ticket_error_message(s: Seq<char>) -> Seq<char> {
    if !has_ticket_prefix(s) {
        "Ugyldigt sessionsbillet-præfiks (skal starte med 'edge:v1:')"@
    } else {
        match base64_decode(s.skip(8)) {
            Err(m) => "Ugyldig base64-kodning: "@ + m,
            Ok(b) => if !vstd::utf8::valid_utf8(b) {
                "Ugyldig JSON-struktur: "@ + utf8_error_text(b)
            } else {
                match json_object_parse(vstd::utf8::decode_utf8(b)) {
                    Err(m) => "Ugyldig JSON-struktur: "@ + m,
                    Ok(p) => match (
                        field_lookup(p, relay_url_field()),
                        field_lookup(p, room_id_field()),
                        field_lookup(p, key_field()),
                    ) {
                        (Some(_), Some(_), Some(k)) => "Ugyldig kryptonøgle i billet: "@ + key_member_error_text(k),
                        _ => "Ugyldigt billetformat: "@ + missing_member_message(),
                    },
                }
            },
        }
    }
}

/// The members of a ticket's JSON object, in the order written.
pub open spec fn ticket_entries(url: Seq<char>, room: Seq<char>, key_text: Seq<char>) -> Seq<(Seq<char>, Seq<char>)> {
    seq![(relay_url_field(), url), (room_id_field(), room), (key_field(), key_text)]
}

/// The text of a ticket.
pub open spec fn ticket_text(t: (Seq<char>, Seq<char>, Seq<u8>)) -> Seq<char> {
    ticket_prefix() + base64_encode(
        vstd::utf8::encode_utf8(json_object_text(ticket_entries(t.0, t.1, base64_encode(t.2)))),
    )
}

/// The value of a member, if the list of pairs has it (last occurrence).
fn find_member(entries: &Vec<(String, String)>, key: &str) -> (res: Option<String>)
    ensures
        match (res, field_lookup(pairs_view(entries@), key@)) {
            (Some(v), Some(w)) => v@ == w,
            (None, None) => true,
            _ => false,
        },
{
    let mut i: usize = entries.len();
    let key_s = String::from_str(key);
    assert(entries@.take(i as int) =~= entries@);
    while i > 0
        invariant
            i <= entries@.len(),
            key_s@ == key@,
            field_lookup(pairs_view(entries@), key@) == field_lookup(pairs_view(entries@.take(i as int)), key@),
        decreases i,
    {
        let ghost pv = pairs_view(entries@.take(i as int));
        assert(pairs_view(entries@.take(i as int)).drop_last() =~= pairs_view(entries@.take(i - 1)));
        if entries[i - 1].0 == key_s {
            return Some(entries[i - 1].1.clone());
        }
        i -= 1;
    }
    assert(pairs_view(entries@.take(0)) =~= Seq::<(Seq<char>, Seq<char>)>::empty());
    None
}

impl SessionTicket {
    /// A ticket for a room on a relay, with its key.
    pub fn new(relay_url: &str, room_id: RoomId, key: CollabKey) -> (res: SessionTicket)
        ensures
            res@ == (relay_url@, room_id@, key@),
    {
        SessionTicket { relay_url: String::from_str(relay_url), room_id, key }
    }

    /// The ticket as text.  Parsing that text gives this ticket back.
    pub fn to_ticket_string(&self) -> (res: String)
        ensures
            res@ == ticket_text(self@),
            ticket_parse(res@) == Ok::<(Seq<char>, Seq<char>, Seq<u8>), TicketFault>(self@),
    {
        let key_text = self.key.to_base64();
        let mut entries: Vec<(String, String)> = Vec::new();
        entries.push((String::from_str("relay_url"), self.relay_url.clone()));
        entries.push((String::from_str("room_id"), String::from_str(self.room_id.as_str())));
        entries.push((String::from_str("key"), key_text.clone()));
        proof {
            reveal_strlit("relay_url");
            reveal_strlit("room_id");
            reveal_strlit("key");
            reveal_strlit("edge:v1:");
        }
        assert(pairs_view(entries@) =~= ticket_entries(self.relay_url@, self.room_id@, key_text@));
        let json = json_encode_object(&entries);
        let bytes = json.as_str().as_bytes();
        let payload = base64_encode_bytes(bytes);
        let res = String::from_str("edge:v1:").concat(payload.as_str());
        proof {
            let ents = ticket_entries(self.relay_url@, self.room_id@, key_text@);
            assert(res@.take(8) =~= ticket_prefix());
            assert(res@.skip(8) =~= payload@);
            vstd::utf8::encode_utf8_valid_utf8(json@);
            vstd::utf8::encode_utf8_decode_utf8(json@);
            let p = json_object_parse(json@)->Ok_0;
            assert(field_lookup(p, relay_url_field()) == field_lookup(ents, relay_url_field()));
            assert(field_lookup(p, room_id_field()) == field_lookup(ents, room_id_field()));
            assert(field_lookup(p, key_field()) == field_lookup(ents, key_field()));
            let e2 = seq![(relay_url_field(), self.relay_url@), (room_id_field(), self.room_id@)];
            let e1 = seq![(relay_url_field(), self.relay_url@)];
            assert(ents.drop_last() =~= e2);
            assert(e2.drop_last() =~= e1);
            assert(e1.drop_last() =~= Seq::<(Seq<char>, Seq<char>)>::empty());
            assert(key_field() != relay_url_field()) by { assert(key_field().len() != relay_url_field().len()); }
            assert(key_field() != room_id_field()) by { assert(key_field().len() != room_id_field().len()); }
            assert(room_id_field() != relay_url_field()) by { assert(room_id_field().len() != relay_url_field().len()); }
            assert(field_lookup(e1, relay_url_field()) == Some(self.relay_url@));
            assert(field_lookup(e2, relay_url_field()) == Some(self.relay_url@));
            assert(field_lookup(ents, relay_url_field()) == Some(self.relay_url@));
            assert(field_lookup(e2, room_id_field()) == Some(self.room_id@));
            assert(field_lookup(ents, room_id_field()) == Some(self.room_id@));
            assert(field_lookup(ents, key_field()) == Some(key_text@));
        }
        res
    }

    /// Parses a ticket text.
    pub fn from_ticket_string(s: &str) -> (res: Result<SessionTicket, SessionTicketError>)
        ensures
            match (res, ticket_parse(s@)) {
                (Ok(t), Ok(v)) => t@ == v,
                (Err(e), Err(f)) => fault_of(e) == f,
                _ => false,
            },
            res matches Err(SessionTicketError::InvalidBase64(m)) ==> base64_decode(s@.skip(8))
                == Err::<Seq<u8>, Seq<char>>(m@),
            res matches Err(e) ==> ticket_error_text(e) == ticket_error_message(s@),
    {
        if !starts_with(s, "edge:v1:") {
            proof { reveal_strlit("edge:v1:"); }
            return Err(SessionTicketError::InvalidPrefix);
        }
        proof { reveal_strlit("edge:v1:"); }
        let payload = s.substring_char(8, s.unicode_len());
        assert(payload@ =~= s@.skip(8));
        let bytes = match base64_decode_text(payload) {
            Ok(b) => b,
            Err(e) => { return Err(SessionTicketError::InvalidBase64(e)); },
        };
        let text = match utf8_decode_bytes(bytes) {
            Ok(t) => t,
            Err(e) => { return Err(SessionTicketError::InvalidJson(e)); },
        };
        let members = match json_decode_object(text.as_str()) {
            Ok(m) => m,
            Err(e) => { return Err(SessionTicketError::InvalidJson(e)); },
        };
        let url = find_member(&members, "relay_url");
        let room = find_member(&members, "room_id");
        let key_text = find_member(&members, "key");
        proof {
            reveal_strlit("relay_url");
            reveal_strlit("room_id");
            reveal_strlit("key");
        }
        match (url, room, key_text) {
            (Some(u), Some(r), Some(k)) => {
                match CollabKey::from_base64(k.as_str()) {
                    Ok(key) => Ok(SessionTicket { relay_url: u, room_id: RoomId::new(r.as_str()), key }),
                    Err(e) => Err(SessionTicketError::InvalidKey(e)),
                }
            },
            _ => Err(SessionTicketError::InvalidFormat(String::from_str("billetten mangler relay_url, room_id eller key"))),
        }
    }
}

} // verus!
