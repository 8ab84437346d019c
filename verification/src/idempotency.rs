//! Idempotency of deliveries: request hashes, record keys and stable
//! transaction IDs.

use vstd::prelude::*;
use vstd::utf8::*;

use crate::digest::{self, hex_digest, push_text};
use crate::message::MessageFormat;
use crate::text::{self, concat3, take_bytes};

verus! {

/// Nothing where there is no text.
pub open spec fn text_or_empty(text: Option<Seq<char>>) -> Seq<char> {
    match text {
        Some(text) => text,
        None => Seq::empty(),
    }
}

/// Fields set off from each other by zero bytes.
pub open spec fn delimited(
    message: Seq<u8>,
    room_id: Seq<u8>,
    format: Seq<u8>,
    mode: u8,
    image_url: Seq<u8>,
    image_alt: Seq<u8>,
) -> Seq<u8> {
    message + seq![0u8] + room_id + seq![0u8] + format + seq![0u8] + seq![mode] + seq![0u8]
        + image_url + seq![0u8] + image_alt
}

/// The bytes that identify the content and the options of a delivery: message,
/// room, format, encryption mode, image URL and image alt text, each set off
/// from the next by a zero byte.
pub open spec fn request_preimage(
    message: Seq<char>,
    room_id: Seq<char>,
    format: MessageFormat,
    encrypted: bool,
    image_url: Option<Seq<char>>,
    image_alt: Option<Seq<char>>,
) -> Seq<u8> {
    delimited(
        encode_utf8(message),
        encode_utf8(room_id),
        encode_utf8(format.name()),
        if encrypted {
            1
        } else {
            0
        },
        encode_utf8(text_or_empty(image_url)),
        encode_utf8(text_or_empty(image_alt)),
    )
}

/// The bytes that identify a request ID within a room.
pub open spec fn key_preimage(request_id: Seq<char>, room_id: Seq<char>) -> Seq<u8> {
    encode_utf8(request_id) + seq![0u8] + encode_utf8(room_id)
}

/// The digest by which a retry is told from a different request.
pub fn request_hash(
    message: &str,
    room_id: &str,
    format: MessageFormat,
    encrypted: bool,
    image_url: Option<&str>,
    image_alt: Option<&str>,
) -> (hash: String)
    ensures
        hash@ == digest::hex_sha256(
            request_preimage(
                message@,
                room_id@,
                format,
                encrypted,
                image_url.deep_view(),
                image_alt.deep_view(),
            ),
        ),
        hash@.len() == 64,
        digest::is_digest_text(hash@),
{
    let mut data: Vec<u8> = Vec::new();
    push_text(&mut data, message);
    data.push(0);
    push_text(&mut data, room_id);
    data.push(0);
    push_text(&mut data, format.as_str());
    data.push(0);
    data.push(if encrypted { 1 } else { 0 });
    data.push(0);
    if let Some(image_url) = image_url {
        push_text(&mut data, image_url);
    }
    data.push(0);
    if let Some(image_alt) = image_alt {
        push_text(&mut data, image_alt);
    }
    assert(data@ =~= request_preimage(
        message@,
        room_id@,
        format,
        encrypted,
        image_url.deep_view(),
        image_alt.deep_view(),
    ));
    hex_digest(data.as_slice())
}

/// The key of the record of a request ID within a room.
pub fn idempotency_key(request_id: &str, room_id: &str) -> (key: String)
    ensures
        key@ == digest::hex_sha256(key_preimage(request_id@, room_id@)),
        key@.len() == 64,
        digest::is_digest_text(key@),
{
    let mut data: Vec<u8> = Vec::new();
    push_text(&mut data, request_id);
    data.push(0);
    push_text(&mut data, room_id);
    assert(data@ =~= key_preimage(request_id@, room_id@));
    hex_digest(data.as_slice())
}

/// A record of a delivery, as it was stored under its key.
#[derive(Debug)]
pub struct IdempotencyRecord {
    pub request_hash: String,
    pub room_id: String,
    pub encrypted: bool,
    pub event_id: Option<String>,
    pub image_event_id: Option<String>,
    pub monitor_verified: Option<bool>,
}

/// The contents of an [`IdempotencyRecord`].
pub struct RecordView {
    pub request_hash: Seq<char>,
    pub room_id: Seq<char>,
    pub encrypted: bool,
    pub event_id: Option<Seq<char>>,
    pub image_event_id: Option<Seq<char>>,
    pub monitor_verified: Option<bool>,
}

impl View for IdempotencyRecord {
    type V = RecordView;

    open spec fn view(&self) -> RecordView {
        RecordView {
            request_hash: self.request_hash@,
            room_id: self.room_id@,
            encrypted: self.encrypted,
            event_id: self.event_id.deep_view(),
            image_event_id: self.image_event_id.deep_view(),
            monitor_verified: self.monitor_verified,
        }
    }
}

/// How much of a record key goes into a transaction ID.
pub const KEY_PREFIX_LENGTH: usize = 28;

/// A transaction ID for an event of a kind, told from others by its suffix.
pub open spec fn transaction_id(kind: Seq<char>, suffix: Seq<char>) -> Seq<char> {
    "n8n-"@ + kind + "-"@ + suffix
}

/// The suffix that a record key gives.
pub open spec fn key_suffix(key: Seq<char>) -> Seq<char> {
    text::byte_prefix(key, KEY_PREFIX_LENGTH as int)
}

/// Thirty-two lower-case hexadecimal digits.
pub open spec fn is_nonce(suffix: Seq<char>) -> bool {
    &&& suffix.len() == 32
    &&& forall|i: int|
        0 <= i < 32 ==> '0' <= #[trigger] suffix[i] <= '9' || 'a' <= suffix[i] <= 'f'
}

/// A transaction ID that belongs to the record key, where there is one, and is
/// otherwise a fresh one.
pub open spec fn is_stable_transaction_id(
    request_key: Option<Seq<char>>,
    kind: Seq<char>,
    id: Seq<char>,
) -> bool {
    match request_key {
        Some(key) => id == transaction_id(kind, key_suffix(key)),
        None => exists|suffix: Seq<char>| #[trigger]
            is_nonce(suffix) && id == transaction_id(kind, suffix),
    }
}

/// Calls `uuid::Uuid::new_v4` and writes the UUID in its simple form: 32
/// lower-case hexadecimal digits without hyphens. Which digits is left to chance.
#[verifier::external_body]
fn random_nonce() -> (nonce: String)
    ensures
        is_nonce(nonce@),
{
    uuid::Uuid::new_v4().simple().to_string()
}

fn tagged_transaction_id(kind: &str, suffix: &str) -> (id: String)
    ensures
        id@ == transaction_id(kind@, suffix@),
{
    let mut id = concat3("n8n-", kind, "-");
    id.append(suffix);
    id
}

/// The transaction ID of an event of a delivery: the same one at every retry of
/// a request that has a record key, and a fresh one for a request without.
pub fn stable_transaction_id(request_key: Option<&str>, kind: &str) -> (id: String)
    requires
        request_key matches Some(key) ==> is_char_boundary(
            encode_utf8(key@),
            KEY_PREFIX_LENGTH as int,
        ),
    ensures
        is_stable_transaction_id(request_key.deep_view(), kind@, id@),
{
    match request_key {
        Some(key) => tagged_transaction_id(kind, take_bytes(key, KEY_PREFIX_LENGTH)),
        None => {
            let nonce = random_nonce();
            tagged_transaction_id(kind, nonce.as_str())
        },
    }
}

} // verus!
