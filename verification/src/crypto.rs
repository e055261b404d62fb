//! End-to-end encryption of collaboration traffic.
//!
//! A collaboration key is 32 random bytes shared out of band; every message
//! is sealed with AES-256-GCM under a fresh random 96-bit nonce, and the
//! nonce travels in front of the ciphertext.  The relay only ever sees
//! `nonce || ciphertext || tag`.
use vstd::prelude::*;
use aes_gcm::aead::{Aead, AeadCore, KeyInit, OsRng};
use aes_gcm::{Aes256Gcm, Key, Nonce};
use crate::encoding::{base64_decode, base64_decode_text, base64_encode, base64_encode_bytes};

verus! {

/// Length of a collaboration key in bytes.
pub const KEY_LEN: usize = 32;
/// Length of the nonce that precedes every ciphertext.
pub const NONCE_LEN: usize = 12;
/// Length of the authentication tag that ends every ciphertext.
pub const TAG_LEN: usize = 16;
/// The longest plaintext that AES-GCM accepts, in bytes.
pub const MAX_PLAINTEXT_LEN: u64 = 0x10_0000_0000;

/// A symmetric collaboration key.
#[derive(Debug, Clone, PartialEq, Eq)]
pub struct CollabKey(pub [u8; 32]);

impl View for CollabKey {
    type V = Seq<u8>;

    open spec fn view(&self) -> Seq<u8> {
        self.0@
    }
}

/// Errors of the cryptographic layer.
#[derive(Debug, PartialEq, Eq)]
pub enum CryptoError {
    /// Wrong key or manipulated data.
    AuthenticationFailed,
    /// The data does not have the shape of an encrypted message or key.
    InvalidFormat(String),
    /// The key material is unusable.
    InvalidKey(String),
}

/// The text shown for a cryptographic error.
pub open spec fn crypto_error_text(e: CryptoError) -> Seq<char> {
    match e {
        CryptoError::AuthenticationFailed => "Kryptografisk godkendelse fejlede: ugyldig nøgle eller manipuleret data"@,
        CryptoError::InvalidFormat(m) => "Ugyldigt dataformat: "@ + m@,
        CryptoError::InvalidKey(m) => "Ugyldig nøgle: "@ + m@,
    }
}

impl CryptoError {
    /// The text shown for this error.
    pub fn message(&self) -> (res: String)
        ensures
            res@ == crypto_error_text(*self),
    {
        match self {
            CryptoError::AuthenticationFailed => String::from_str(
                "Kryptografisk godkendelse fejlede: ugyldig nøgle eller manipuleret data",
            ),
            CryptoError::InvalidFormat(m) => String::from_str("Ugyldigt dataformat: ").concat(m.as_str()),
            CryptoError::InvalidKey(m) => String::from_str("Ugyldig nøgle: ").concat(m.as_str()),
        }
    }
}

/// What AES-256-GCM with an empty associated-data string makes of a
/// plaintext under a key and a nonce: the ciphertext followed by the tag.
pub uninterp spec fn aes256gcm_seal(key: Seq<u8>, nonce: Seq<u8>, plaintext: Seq<u8>) -> Seq<u8>;

/// What AES-256-GCM decryption with an empty associated-data string makes of
/// `ciphertext || tag` under a key and a nonce: the plaintext, or nothing
/// when the tag does not authenticate.
pub uninterp spec fn aes256gcm_open(key: Seq<u8>, nonce: Seq<u8>, sealed: Seq<u8>) -> Option<Seq<u8>>;

/// Fills a key from the operating system's random source
/// (`Aes256Gcm::generate_key(OsRng)`).
///
/// Trusted for its type alone: the bytes are random and nothing is stated of
/// them.  The source panics when the operating system has no randomness.
#[verifier::external_body]
fn random_key_bytes() -> (res: [u8; 32]) {
    Aes256Gcm::generate_key(OsRng).into()
}

/// Draws a fresh 96-bit nonce from the operating system's random source
/// (`Aes256Gcm::generate_nonce(&mut OsRng)`).
///
/// Trusted for its type alone: the bytes are random and nothing is stated of
/// them.
#[verifier::external_body]
fn random_nonce() -> (res: [u8; 12]) {
    Aes256Gcm::generate_nonce(&mut OsRng).into()
}

/// Seals a plaintext with AES-256-GCM (`Aead::encrypt` of `Aes256Gcm`).
///
/// Trusted: the source refuses plaintexts longer than 2^36 bytes and accepts
/// all others; the output is the named sealing, sixteen bytes longer than the
/// plaintext; opening it with the same key and nonce gives the plaintext back
/// (AEAD correctness, as the crate's documentation shows).
#[verifier::external_body]
fn aes_seal(key: &[u8; 32], nonce: &[u8; 12], plaintext: &[u8]) -> (res: Option<Vec<u8>>)
    ensures
        plaintext@.len() <= MAX_PLAINTEXT_LEN ==> res is Some,
        res matches Some(c) ==> {
            &&& c@ == aes256gcm_seal(key@, nonce@, plaintext@)
            &&& c@.len() == plaintext@.len() + TAG_LEN
            &&& aes256gcm_open(key@, nonce@, c@) == Some(plaintext@)
        },
        res is None ==> plaintext@.len() > MAX_PLAINTEXT_LEN,
{
    let cipher = Aes256Gcm::new(Key::<Aes256Gcm>::from_slice(key));
    cipher.encrypt(Nonce::from_slice(nonce), plaintext).ok()
}

/// Opens `ciphertext || tag` with AES-256-GCM (`Aead::decrypt` of
/// `Aes256Gcm`).
///
/// Trusted: the outcome is the named opening of the input.
#[verifier::external_body]
fn aes_open(key: &[u8; 32], nonce: &[u8], sealed: &[u8]) -> (res: Option<Vec<u8>>)
    requires
        nonce@.len() == NONCE_LEN,
    ensures
        match (res, aes256gcm_open(key@, nonce@, sealed@)) {
            (Some(v), Some(p)) => v@ == p,
            (None, None) => true,
            _ => false,
        },
{
    let cipher = Aes256Gcm::new(Key::<Aes256Gcm>::from_slice(key));
    cipher.decrypt(Nonce::from_slice(nonce), sealed).ok()
}

/// The key that a base64 text stands for: it decodes, and to exactly
/// [`KEY_LEN`] bytes.
pub open spec fn key_of_text(text: Seq<char>) -> Option<Seq<u8>> {
    match base64_decode(text) {
        Ok(b) => if b.len() == KEY_LEN { Some(b) } else { None },
        Err(_) => None,
    }
}

/// The message of the key error for decoded material of the wrong length.
pub open spec fn wrong_key_length_message() -> Seq<char> {
    "nøglen skal være præcis 32 bytes"@
}

impl CollabKey {
    /// A fresh random key.
    pub fn generate() -> (res: CollabKey)
        ensures
            res@.len() == KEY_LEN,
    {
        CollabKey(random_key_bytes())
    }

    /// Wraps given key bytes.
    pub fn from_bytes(bytes: [u8; 32]) -> (res: CollabKey)
        ensures
            res@ == bytes@,
    {
        CollabKey(bytes)
    }

    /// The key bytes.
    pub fn as_bytes(&self) -> (res: &[u8; 32])
        ensures
            res@ == self@,
    {
        &self.0
    }

    /// The key as standard base64 text.  Parsing that text gives this key
    /// back.
    pub fn to_base64(&self) -> (res: String)
        ensures
            res@ == base64_encode(self@),
            key_of_text(res@) == Some(self@),
    {
        base64_encode_bytes(vstd::array::array_as_slice(&self.0))
    }

    /// Parses a key from standard base64 text.
    pub fn from_base64(s: &str) -> (res: Result<CollabKey, CryptoError>)
        ensures
            match base64_decode(s@) {
                Err(e) => res matches Err(CryptoError::InvalidFormat(m)) && m@ == e,
                Ok(b) => if b.len() == KEY_LEN {
                    res matches Ok(k) && k@ == b
                } else {
                    res matches Err(CryptoError::InvalidKey(m)) && m@ == wrong_key_length_message()
                },
            },
            res is Ok <==> key_of_text(s@) is Some,
            res matches Ok(k) ==> Some(k@) == key_of_text(s@),
    {
        match base64_decode_text(s) {
            Err(e) => Err(CryptoError::InvalidFormat(e)),
            Ok(v) => {
                if v.len() != KEY_LEN {
                    return Err(CryptoError::InvalidKey(String::from_str("nøglen skal være præcis 32 bytes")));
                }
                let mut arr = [0u8; 32];
                let mut i: usize = 0;
                while i < KEY_LEN
                    invariant
                        v@.len() == KEY_LEN,
                        0 <= i <= KEY_LEN,
                        arr@.len() == KEY_LEN,
                        forall|j: int| 0 <= j < i ==> arr@[j] == v@[j],
                    decreases KEY_LEN - i,
                {
                    arr[i] = v[i];
                    i += 1;
                }
                assert(arr@ =~= v@);
                Ok(CollabKey(arr))
            },
        }
    }
}

/// The identifier of a collaboration room on the relay.
#[derive(Debug, Clone, PartialEq, Eq, Hash)]
pub struct RoomId(String);

impl View for RoomId {
    type V = Seq<char>;

    closed spec fn view(&self) -> Seq<char> {
        self.0@
    }
}

/// Draws a random version-4 UUID and renders it in its hyphenated form
/// (`uuid::Uuid::new_v4().to_string()`).
///
/// Trusted: the hyphenated rendering is 36 characters long with a hyphen
/// after the first eight (the `8-4-4-4-12` form the crate documents); the
/// digits are random and nothing else is stated of them.
#[verifier::external_body]
pub(crate) fn random_uuid_text() -> (res: String)
    ensures
        res@.len() == 36,
        res@[8] == '-',
{
    uuid::Uuid::new_v4().to_string()
}

impl RoomId {
    /// A room identifier with the given text.
    pub fn new(id: &str) -> (res: RoomId)
        ensures
            res@ == id@,
    {
        RoomId(String::from_str(id))
    }

    /// A fresh random room identifier: a hyphenated UUID.
    pub fn generate() -> (res: RoomId)
        ensures
            res@.len() == 36,
            res@.contains('-'),
    {
        let t = random_uuid_text();
        assert(t@[8] == '-');
        RoomId(t)
    }

    /// The identifier's text.
    pub fn as_str(&self) -> (res: &str)
        ensures
            res@ == self@,
    {
        self.0.as_str()
    }
}

/// An encrypted message `framed` opens under `key` to `plaintext`: it is long
/// enough to hold a nonce and a tag, and the sealed part after the nonce
/// authenticates and decrypts to the plaintext.
pub open spec fn opens_to(key: Seq<u8>, framed: Seq<u8>, plaintext: Seq<u8>) -> bool {
    &&& framed.len() >= NONCE_LEN + TAG_LEN
    &&& aes256gcm_open(key, framed.take(NONCE_LEN as int), framed.skip(NONCE_LEN as int))
        == Some(plaintext)
}

/// What decrypting `framed` under `key` gives: nothing when it is too short
/// to hold a nonce and a tag, else the opening of the part after the nonce.
pub open spec fn decryption_of(key: Seq<u8>, framed: Seq<u8>) -> Option<Seq<u8>> {
    if framed.len() < NONCE_LEN + TAG_LEN {
        None
    } else {
        aes256gcm_open(key, framed.take(NONCE_LEN as int), framed.skip(NONCE_LEN as int))
    }
}

/// The message of the format error for input too short to be a ciphertext.
pub open spec fn too_short_message() -> Seq<char> {
    "for kort til nonce og autentificeringstag"@
}

/// The message of the format error for a plaintext that AES-GCM refuses.
pub open spec fn too_long_message() -> Seq<char> {
    "klarteksten er for lang til AES-GCM"@
}

/// Encrypts a plaintext under a collaboration key: a fresh random nonce
/// followed by the AES-256-GCM sealing of the plaintext under that nonce.
/// What comes out decrypts under the same key to the plaintext.
pub fn encrypt(key: &CollabKey, plaintext: &[u8]) -> (res: Result<Vec<u8>, CryptoError>)
    ensures
        plaintext@.len() <= MAX_PLAINTEXT_LEN ==> res is Ok,
        res matches Ok(v) ==> {
            &&& v@.len() == NONCE_LEN + plaintext@.len() + TAG_LEN
            &&& v@.skip(NONCE_LEN as int) == aes256gcm_seal(key@, v@.take(NONCE_LEN as int), plaintext@)
            &&& opens_to(key@, v@, plaintext@)
        },
        res matches Err(e) ==> plaintext@.len() > MAX_PLAINTEXT_LEN && (e matches
            CryptoError::InvalidFormat(m) && m@ == too_long_message()),
{
    let nonce = random_nonce();
    match aes_seal(&key.0, &nonce, plaintext) {
        Some(mut sealed) => {
            let mut out = vstd::slice::slice_to_vec(vstd::array::array_as_slice(&nonce));
            let ghost sealed_view = sealed@;
            out.append(&mut sealed);
            assert(out@.take(NONCE_LEN as int) =~= nonce@);
            assert(out@.skip(NONCE_LEN as int) =~= sealed_view);
            Ok(out)
        },
        None => Err(CryptoError::InvalidFormat(String::from_str("klarteksten er for lang til AES-GCM"))),
    }
}

/// Decrypts `nonce || ciphertext || tag` under a collaboration key.
pub fn decrypt(key: &CollabKey, ciphertext: &[u8]) -> (res: Result<Vec<u8>, CryptoError>)
    ensures
        ciphertext@.len() < NONCE_LEN + TAG_LEN ==> (res matches Err(
            CryptoError::InvalidFormat(m)) && m@ == too_short_message()),
        ciphertext@.len() >= NONCE_LEN + TAG_LEN ==> match aes256gcm_open(
            key@,
            ciphertext@.take(NONCE_LEN as int),
            ciphertext@.skip(NONCE_LEN as int),
        ) {
            Some(p) => res matches Ok(v) && v@ == p,
            None => res matches Err(CryptoError::AuthenticationFailed),
        },
        res matches Ok(v) ==> opens_to(key@, ciphertext@, v@),
        res is Ok <==> decryption_of(key@, ciphertext@) is Some,
        res matches Ok(v) ==> decryption_of(key@, ciphertext@) == Some(v@),
{
    if ciphertext.len() < NONCE_LEN + TAG_LEN {
        return Err(CryptoError::InvalidFormat(String::from_str("for kort til nonce og autentificeringstag")));
    }
    let nonce = vstd::slice::slice_subrange(ciphertext, 0, NONCE_LEN);
    let sealed = vstd::slice::slice_subrange(ciphertext, NONCE_LEN, ciphertext.len());
    assert(nonce@ =~= ciphertext@.take(NONCE_LEN as int));
    assert(sealed@ =~= ciphertext@.skip(NONCE_LEN as int));
    match aes_open(&key.0, nonce, sealed) {
        Some(p) => Ok(p),
        None => Err(CryptoError::AuthenticationFailed),
    }
}

/// Decryption undoes encryption: whatever `encrypt` hands out for a
/// plaintext under a key (it opens to the plaintext), `decrypt` turns back
/// into that plaintext under the same key.
pub proof fn decrypt_inverts_encrypt(key: Seq<u8>, plaintext: Seq<u8>, framed: Seq<u8>)
    requires
        opens_to(key, framed, plaintext),
    ensures
        decryption_of(key, framed) == Some(plaintext),
{
}

} // verus!
