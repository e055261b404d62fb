//! Text encodings that the wire formats rest on: base64 and UTF-8.
use vstd::prelude::*;
use base64::Engine;

verus! {

/// What the standard, padded base64 alphabet of RFC 4648 turns a byte
/// string into.
pub uninterp spec fn base64_encode(bytes: Seq<u8>) -> Seq<char>;

/// What decoding a text as standard, padded base64 gives: the bytes, or the
/// text of the decoder's error.
pub uninterp spec fn base64_decode(text: Seq<char>) -> Result<Seq<u8>, Seq<char>>;

/// A text decodes as base64 to exactly the given bytes.
pub open spec fn base64_decodes_to(text: Seq<char>, bytes: Seq<u8>) -> bool {
    base64_decode(text) matches Ok(b) && b == bytes
}

/// Encodes bytes as standard base64 with padding
/// (`base64::engine::general_purpose::STANDARD.encode`).
///
/// Trusted: the result is the named encoding of the bytes, and decoding it
/// with the same engine gives the bytes back (decoding is
/// the inverse of encoding, as the crate documents).
#[verifier::external_body]
pub(crate) fn base64_encode_bytes(bytes: &[u8]) -> (res: String)
    ensures
        res@ == base64_encode(bytes@),
        base64_decodes_to(res@, bytes@),
{
    base64::engine::general_purpose::STANDARD.encode(bytes)
}

/// Decodes standard, padded base64
/// (`base64::engine::general_purpose::STANDARD.decode`).
///
/// Trusted: the outcome, bytes or the rendered `DecodeError`, is the named
/// decoding of the text.
#[verifier::external_body]
pub(crate) fn base64_decode_text(text: &str) -> (res: Result<Vec<u8>, String>)
    ensures
        match (res, base64_decode(text@)) {
            (Ok(v), Ok(b)) => v@ == b,
            (Err(m), Err(e)) => m@ == e,
            _ => false,
        },
{
    match base64::engine::general_purpose::STANDARD.decode(text) {
        Ok(v) => Ok(v),
        Err(e) => Err(e.to_string()),
    }
}

/// The text of the error that decoding invalid UTF-8 reports.
pub uninterp spec fn utf8_error_text(bytes: Seq<u8>) -> Seq<char>;

/// Decodes bytes as UTF-8 (`String::from_utf8`).
///
/// Trusted: the standard library accepts exactly the valid UTF-8 byte
/// strings and then yields the characters they encode; on invalid input the
/// rendered error is the named text.
#[verifier::external_body]
pub(crate) fn utf8_decode_bytes(bytes: Vec<u8>) -> (res: Result<String, String>)
    ensures
        match res {
            Ok(s) => vstd::utf8::valid_utf8(bytes@) && s@ == vstd::utf8::decode_utf8(bytes@),
            Err(m) => !vstd::utf8::valid_utf8(bytes@) && m@ == utf8_error_text(bytes@),
        },
{
    match String::from_utf8(bytes) {
        Ok(s) => Ok(s),
        Err(e) => Err(e.to_string()),
    }
}

/// The views of a list of text pairs.
pub open spec fn pairs_view(v: Seq<(String, String)>) -> Seq<(Seq<char>, Seq<char>)> {
    v.map_values(|p: (String, String)| (p.0@, p.1@))
}

/// The value of a key in a list of pairs, the last occurrence winning, as
/// when the pairs are inserted into a map one after the other.
pub open spec fn field_lookup(entries: Seq<(Seq<char>, Seq<char>)>, key: Seq<char>) -> Option<Seq<char>>
    decreases entries.len(),
{
    if entries.len() == 0 {
        None
    } else if entries.last().0 == key {
        Some(entries.last().1)
    } else {
        field_lookup(entries.drop_last(), key)
    }
}

/// Two lists of pairs give every key the same value.
pub open spec fn same_fields(a: Seq<(Seq<char>, Seq<char>)>, b: Seq<(Seq<char>, Seq<char>)>) -> bool {
    forall|k: Seq<char>| #[trigger] field_lookup(a, k) == field_lookup(b, k)
}

/// The JSON text of an object whose members are the given string pairs.
pub uninterp spec fn json_object_text(entries: Seq<(Seq<char>, Seq<char>)>) -> Seq<char>;

/// What parsing a JSON text as an object of string members gives: its
/// members, or the text of the parser's error.
pub uninterp spec fn json_object_parse(text: Seq<char>) -> Result<Seq<(Seq<char>, Seq<char>)>, Seq<char>>;

/// The JSON text holds exactly the members of the given pairs.
pub open spec fn json_holds(text: Seq<char>, entries: Seq<(Seq<char>, Seq<char>)>) -> bool {
    json_object_parse(text) matches Ok(p) && same_fields(p, entries)
}

/// Renders string pairs as a JSON object (`serde_json::to_string` of the
/// `BTreeMap<&str, &str>` that the pairs make, later pairs overriding
/// earlier ones).
///
/// Trusted: the result is the named rendering, and parsing it back as an
/// object of strings gives every key the value it had in the pairs
/// (serialisation of a string map cannot fail, as the crate documents, and
/// `serde_json` reads back what it writes).
#[verifier::external_body]
pub(crate) fn json_encode_object(entries: &Vec<(String, String)>) -> (res: String)
    ensures
        res@ == json_object_text(pairs_view(entries@)),
        json_holds(res@, pairs_view(entries@)),
{
    let map: std::collections::BTreeMap<&str, &str> =
        entries.iter().map(|(k, v)| (k.as_str(), v.as_str())).collect();
    match serde_json::to_string(&map) {
        Ok(s) => s,
        Err(_) => String::new(),
    }
}

/// Parses a JSON object whose members are all strings
/// (`serde_json::from_str::<BTreeMap<String, String>>`).
///
/// Trusted: the outcome, members or the rendered error, is the named parse.
#[verifier::external_body]
pub(crate) fn json_decode_object(text: &str) -> (res: Result<Vec<(String, String)>, String>)
    ensures
        match (res, json_object_parse(text@)) {
            (Ok(v), Ok(p)) => pairs_view(v@) == p,
            (Err(m), Err(e)) => m@ == e,
            _ => false,
        },
{
    match serde_json::from_str::<std::collections::BTreeMap<String, String>>(text) {
        Ok(m) => Ok(m.into_iter().collect()),
        Err(e) => Err(e.to_string()),
    }
}

} // verus!
