//! What a request comes down to: how its defaults are filled in, what identifies it, and
//! how two requests are told apart.

use vstd::prelude::*;
use vstd::utf8::*;

use crate::delivery::DeliveryPlan;
use crate::digest::{self, hex_digest};
use crate::error::{ApiError, Status};
use crate::idempotency::{self, idempotency_key, request_hash, stable_transaction_id};
use crate::identifier;
use crate::identity_laws;
use crate::message::{MessageFormat, SendMessageRequest};
use crate::text;

verus! {

/// The text holds a character that is not white space.
pub open spec fn says_something(s: Seq<char>) -> bool {
    exists|i: int| 0 <= i < s.len() && !text::is_white_space(#[trigger] s[i])
}

/// The room that a request names, or else the default room.
pub open spec fn room_of(request: SendMessageRequest, default_room_id: &str) -> Seq<char> {
    if request.room_id is Some {
        request.room_id->0@
    } else {
        default_room_id@
    }
}

/// A request is accepted exactly where its message says something and its room ID, given
/// or default, begins with an exclamation mark and holds no NUL. Otherwise it is answered
/// with the status 400 and what is wrong, the message first.
pub proof fn law_requests_need_a_message_and_a_room(
    request: SendMessageRequest,
    default_room_id: &str,
    outcome: Result<DeliveryPlan, ApiError>,
)
    requires
        call_ensures(DeliveryPlan::from_request, (request, default_room_id), outcome),
    ensures
        ({
            let room_id = room_of(request, default_room_id);
            let is_room = room_id.len() > 0 && room_id[0] == '!' && forall|i: int|
                0 <= i < room_id.len() ==> room_id[i] != '\0';
            &&& outcome is Ok <==> says_something(request.message@) && is_room
            &&& outcome is Err ==> outcome->Err_0.status == Status::BadRequest
                && outcome->Err_0.code@ == "INVALID_REQUEST"@
            &&& outcome is Err && !says_something(request.message@) ==> outcome->Err_0.message@
                == "message must not be empty"@
            &&& outcome is Err && says_something(request.message@) ==> outcome->Err_0.message@
                == "room_id must be a canonical Matrix room ID"@
        }),
{
    let room_id = room_of(request, default_room_id);
    if room_id.contains('\0') {
        let i = choose|i: int| 0 <= i < room_id.len() && room_id[i] == '\0';
        assert(room_id[i] == '\0');
    } else {
        assert forall|i: int| 0 <= i < room_id.len() implies room_id[i] != '\0' by {
            assert(room_id.contains(room_id[i]));
        }
    }
}

/// A plan carries over what its request says: the message, the image URL, and the room,
/// format and encryption mode where they are given. Without, the message goes to the
/// default room, in Markdown and encrypted.
pub proof fn law_plan_carries_the_request_over(
    request: SendMessageRequest,
    default_room_id: &str,
    plan: DeliveryPlan,
)
    requires
        call_ensures(DeliveryPlan::from_request, (request, default_room_id), Ok(plan)),
    ensures
        plan.message@ == request.message@,
        request.room_id is Some ==> plan.room_id@ == request.room_id->0@,
        request.room_id is None ==> plan.room_id@ == default_room_id@,
        request.format is Some ==> plan.format == request.format->0,
        request.format is None ==> plan.format == MessageFormat::Markdown,
        request.encrypted is Some ==> plan.encrypted == request.encrypted->0,
        request.encrypted is None ==> plan.encrypted,
        plan.image_url is Some <==> request.image_url is Some,
        request.image_url is Some ==> plan.image_url->0@ == request.image_url->0@,
        plan.request_key is Some <==> request.request_id is Some,
        request.image_alt is Some && says_something(request.image_alt->0@) ==> plan.image_alt@
            == request.image_alt->0@,
        request.image_alt is None || !says_something(request.image_alt->0@) ==> plan.image_alt@
            == "Image attachment"@,
{
    let given = request@;
    assert(given.image_url == request.image_url.deep_view());
    assert(plan@.image_url == plan.image_url.deep_view());
}

/// The bytes that a request is identified by: the message, the room, the name of the
/// format, one or zero for the encryption mode, the image URL and the alt text, each as
/// UTF-8 and set off from the next by a zero byte.
pub open spec fn identifying_bytes(
    message: Seq<char>,
    room_id: Seq<char>,
    format: MessageFormat,
    encrypted: bool,
    image_url: Seq<char>,
    image_alt: Seq<char>,
) -> Seq<u8> {
    encode_utf8(message).push(0) + encode_utf8(room_id).push(0) + (match format {
        MessageFormat::Text => encode_utf8("text"@),
        MessageFormat::Markdown => encode_utf8("markdown"@),
        MessageFormat::Html => encode_utf8("html"@),
    }).push(0) + seq![
        if encrypted {
            1u8
        } else {
            0u8
        },
        0u8,
    ] + encode_utf8(image_url).push(0) + encode_utf8(image_alt)
}

/// An optional text, which is empty where there is none.
pub open spec fn if_any(s: Option<String>) -> Seq<char> {
    if s is Some {
        s->0@
    } else {
        Seq::empty()
    }
}

/// The hash of a plan is the SHA-256 digest of all that identifies the request: message,
/// room, format, encryption mode, image URL and alt text, defaults filled in.
pub proof fn law_plan_hash_is_of_content_and_options(
    request: SendMessageRequest,
    default_room_id: &str,
    plan: DeliveryPlan,
)
    requires
        call_ensures(DeliveryPlan::from_request, (request, default_room_id), Ok(plan)),
    ensures
        plan.request_hash@ == digest::hex_sha256(
            identifying_bytes(
                request.message@,
                plan.room_id@,
                plan.format,
                plan.encrypted,
                if_any(request.image_url),
                if_any(request.image_alt),
            ),
        ),
        digest::is_digest_text(plan.request_hash@),
{
    assert(request@.image_url == request.image_url.deep_view());
    assert(request@.image_alt == request.image_alt.deep_view());
    assert(identifying_bytes(
        request.message@,
        plan.room_id@,
        plan.format,
        plan.encrypted,
        if_any(request.image_url),
        if_any(request.image_alt),
    ) =~= request@.identity(default_room_id@));
}

/// However the bytes are put together, they are the same.
proof fn lemma_identifying_bytes(
    message: Seq<char>,
    room_id: Seq<char>,
    format: MessageFormat,
    encrypted: bool,
    url: Seq<char>,
    alt: Seq<char>,
)
    ensures
        identifying_bytes(message, room_id, format, encrypted, url, alt)
            == idempotency::request_preimage(
            message,
            room_id,
            format,
            encrypted,
            Some(url),
            Some(alt),
        ),
{
    assert(identifying_bytes(message, room_id, format, encrypted, url, alt)
        =~= idempotency::request_preimage(
        message,
        room_id,
        format,
        encrypted,
        Some(url),
        Some(alt),
    ));
}

/// The fields can be read off the bytes that they make up.
proof fn lemma_fields_of_identifying_bytes(
    message: Seq<char>,
    room_id: Seq<char>,
    format: MessageFormat,
    encrypted: bool,
    url: Seq<char>,
    alt: Seq<char>,
    other_message: Seq<char>,
    other_room_id: Seq<char>,
    other_format: MessageFormat,
    other_encrypted: bool,
    other_url: Seq<char>,
    other_alt: Seq<char>,
)
    requires
        identifier::is_room_id_text(room_id),
        identifier::is_room_id_text(other_room_id),
        identity_laws::two_of_three(
            identity_laws::is_nul_free(message) && identity_laws::is_nul_free(other_message),
            identity_laws::is_nul_free(url) && identity_laws::is_nul_free(other_url),
            identity_laws::is_nul_free(alt) && identity_laws::is_nul_free(other_alt),
        ),
        identifying_bytes(message, room_id, format, encrypted, url, alt) == identifying_bytes(
            other_message,
            other_room_id,
            other_format,
            other_encrypted,
            other_url,
            other_alt,
        ),
    ensures
        message == other_message,
        room_id == other_room_id,
        format == other_format,
        encrypted == other_encrypted,
        url == other_url,
        alt == other_alt,
{
    lemma_identifying_bytes(message, room_id, format, encrypted, url, alt);
    lemma_identifying_bytes(
        other_message,
        other_room_id,
        other_format,
        other_encrypted,
        other_url,
        other_alt,
    );
    identity_laws::law_request_hash_covers_content_and_options(
        message,
        room_id,
        format,
        encrypted,
        Some(url),
        Some(alt),
        other_message,
        other_room_id,
        other_format,
        other_encrypted,
        Some(other_url),
        Some(other_alt),
    );
}

/// Two accepted requests have the same hash exactly where they ask for the same: the same
/// message in the same room, format and encryption mode, with the same image URL and alt
/// text, where an absent one counts as an empty one. It is so as long as the digests of
/// what identifies them do not collide, and two of message, URL and alt text hold no NUL.
pub proof fn law_same_hash_same_request(
    request: SendMessageRequest,
    default_room_id: &str,
    plan: DeliveryPlan,
    other_request: SendMessageRequest,
    other_default_room_id: &str,
    other_plan: DeliveryPlan,
)
    requires
        call_ensures(DeliveryPlan::from_request, (request, default_room_id), Ok(plan)),
        call_ensures(
            DeliveryPlan::from_request,
            (other_request, other_default_room_id),
            Ok(other_plan),
        ),
        ({
            let bytes = identifying_bytes(
                plan.message@,
                plan.room_id@,
                plan.format,
                plan.encrypted,
                if_any(request.image_url),
                if_any(request.image_alt),
            );
            let other_bytes = identifying_bytes(
                other_plan.message@,
                other_plan.room_id@,
                other_plan.format,
                other_plan.encrypted,
                if_any(other_request.image_url),
                if_any(other_request.image_alt),
            );
            digest::hex_sha256(bytes) == digest::hex_sha256(other_bytes) ==> bytes == other_bytes
        }),
        identity_laws::two_of_three(
            identity_laws::is_nul_free(request.message@) && identity_laws::is_nul_free(
                other_request.message@,
            ),
            identity_laws::is_nul_free(if_any(request.image_url)) && identity_laws::is_nul_free(
                if_any(other_request.image_url),
            ),
            identity_laws::is_nul_free(if_any(request.image_alt)) && identity_laws::is_nul_free(
                if_any(other_request.image_alt),
            ),
        ),
    ensures
        plan.request_hash@ == other_plan.request_hash@ <==> {
            &&& request.message@ == other_request.message@
            &&& plan.room_id@ == other_plan.room_id@
            &&& plan.format == other_plan.format
            &&& plan.encrypted == other_plan.encrypted
            &&& if_any(request.image_url) == if_any(other_request.image_url)
            &&& if_any(request.image_alt) == if_any(other_request.image_alt)
        },
{
    law_plan_hash_is_of_content_and_options(request, default_room_id, plan);
    law_plan_hash_is_of_content_and_options(other_request, other_default_room_id, other_plan);
    assert(plan.message@ == request.message@ && other_plan.message@ == other_request.message@);
    law_requests_need_a_message_and_a_room(request, default_room_id, Ok(plan));
    law_requests_need_a_message_and_a_room(other_request, other_default_room_id, Ok(other_plan));
    if plan.request_hash@ == other_plan.request_hash@ {
        lemma_fields_of_identifying_bytes(
            plan.message@,
            plan.room_id@,
            plan.format,
            plan.encrypted,
            if_any(request.image_url),
            if_any(request.image_alt),
            other_plan.message@,
            other_plan.room_id@,
            other_plan.format,
            other_plan.encrypted,
            if_any(other_request.image_url),
            if_any(other_request.image_alt),
        );
    }
}

/// The hash of a request is the same whether it is taken of the request as such or in the
/// course of planning it.
pub proof fn law_request_hash_is_of_content_and_options(
    message: &str,
    room_id: &str,
    format: MessageFormat,
    encrypted: bool,
    image_url: Option<&str>,
    image_alt: Option<&str>,
    hash: String,
)
    requires
        call_ensures(
            request_hash,
            (message, room_id, format, encrypted, image_url, image_alt),
            hash,
        ),
    ensures
        hash@ == digest::hex_sha256(
            identifying_bytes(
                message@,
                room_id@,
                format,
                encrypted,
                if image_url is Some {
                    image_url->0@
                } else {
                    Seq::empty()
                },
                if image_alt is Some {
                    image_alt->0@
                } else {
                    Seq::empty()
                },
            ),
        ),
{
    assert(identifying_bytes(
        message@,
        room_id@,
        format,
        encrypted,
        if image_url is Some {
            image_url->0@
        } else {
            Seq::empty()
        },
        if image_alt is Some {
            image_alt->0@
        } else {
            Seq::empty()
        },
    ) =~= idempotency::request_preimage(
        message@,
        room_id@,
        format,
        encrypted,
        image_url.deep_view(),
        image_alt.deep_view(),
    ));
}

/// A request has a record exactly where it has a request ID. The record is kept under the
/// digest of the request ID and the room, set off by a zero byte, so a request ID says
/// nothing of another room.
pub proof fn law_record_key_is_of_request_id_and_room(
    request: SendMessageRequest,
    default_room_id: &str,
    plan: DeliveryPlan,
    request_id: &str,
    room_id: &str,
    key: String,
)
    requires
        call_ensures(DeliveryPlan::from_request, (request, default_room_id), Ok(plan)),
        request.request_id is Some,
        request_id@ == request.request_id->0@,
        room_id@ == plan.room_id@,
        call_ensures(idempotency_key, (request_id, room_id), key),
    ensures
        plan.request_key is Some,
        plan.request_key->0@ == key@,
        key@ == digest::hex_sha256(encode_utf8(request_id@).push(0) + encode_utf8(room_id@)),
{
    assert(request@.request_id == request.request_id.deep_view());
    assert(plan@.request_key == plan.request_key.deep_view());
    assert(encode_utf8(request_id@).push(0) + encode_utf8(room_id@) =~= idempotency::key_preimage(
        request_id@,
        room_id@,
    ));
}

/// Two accepted requests share a record exactly where they have the same request ID in the
/// same room, as long as the digests of those do not collide.
pub proof fn law_same_record_same_request_id_and_room(
    request: SendMessageRequest,
    default_room_id: &str,
    plan: DeliveryPlan,
    other_request: SendMessageRequest,
    other_default_room_id: &str,
    other_plan: DeliveryPlan,
)
    requires
        call_ensures(DeliveryPlan::from_request, (request, default_room_id), Ok(plan)),
        call_ensures(
            DeliveryPlan::from_request,
            (other_request, other_default_room_id),
            Ok(other_plan),
        ),
        request.request_id is Some,
        other_request.request_id is Some,
        ({
            let bytes = encode_utf8(request.request_id->0@).push(0) + encode_utf8(plan.room_id@);
            let other_bytes = encode_utf8(other_request.request_id->0@).push(0) + encode_utf8(
                other_plan.room_id@,
            );
            digest::hex_sha256(bytes) == digest::hex_sha256(other_bytes) ==> bytes == other_bytes
        }),
    ensures
        plan.request_key is Some,
        other_plan.request_key is Some,
        plan.request_key->0@ == other_plan.request_key->0@ <==> request.request_id->0@
            == other_request.request_id->0@ && plan.room_id@ == other_plan.room_id@,
{
    let id = request.request_id->0@;
    let other_id = other_request.request_id->0@;
    assert(request@.request_id == Some(id));
    assert(other_request@.request_id == Some(other_id));
    assert(plan@.request_key == plan.request_key.deep_view());
    assert(other_plan@.request_key == other_plan.request_key.deep_view());
    assert(encode_utf8(id).push(0) + encode_utf8(plan.room_id@) =~= idempotency::key_preimage(
        id,
        plan.room_id@,
    ));
    assert(encode_utf8(other_id).push(0) + encode_utf8(other_plan.room_id@)
        =~= idempotency::key_preimage(other_id, other_plan.room_id@));
    identity_laws::law_record_keys_are_scoped_to_the_room(
        id,
        plan.room_id@,
        other_id,
        other_plan.room_id@,
    );
}

/// The text is 32 lower-case hexadecimal digits.
pub open spec fn is_fresh(s: Seq<char>) -> bool {
    s.len() == 32 && forall|i: int|
        0 <= i < 32 ==> '0' <= #[trigger] s[i] <= '9' || 'a' <= s[i] <= 'f'
}

proof fn lemma_transaction_id_texts(suffix: Seq<char>)
    ensures
        idempotency::transaction_id("image"@, suffix) == "n8n-image-"@ + suffix,
        idempotency::transaction_id("message"@, suffix) == "n8n-message-"@ + suffix,
{
    reveal_strlit("n8n-");
    reveal_strlit("image");
    reveal_strlit("message");
    reveal_strlit("-");
    reveal_strlit("n8n-image-");
    reveal_strlit("n8n-message-");
    assert("n8n-"@ + "image"@ + "-"@ =~= "n8n-image-"@);
    assert("n8n-"@ + "message"@ + "-"@ =~= "n8n-message-"@);
}

/// The transaction IDs of a request with a request ID end in the first 28 characters of
/// its record key, so they are the same at every retry. Those of a request without end in
/// 32 hexadecimal digits.
pub proof fn law_transaction_ids_name_their_event(
    request: SendMessageRequest,
    default_room_id: &str,
    plan: DeliveryPlan,
)
    requires
        call_ensures(DeliveryPlan::from_request, (request, default_room_id), Ok(plan)),
    ensures
        plan.request_key is Some ==> {
            &&& plan.image_transaction_id@ == "n8n-image-"@ + plan.request_key->0@.take(28)
            &&& plan.message_transaction_id@ == "n8n-message-"@ + plan.request_key->0@.take(28)
        },
        plan.request_key is None ==> {
            &&& exists|suffix: Seq<char>|
                is_fresh(suffix) && plan.image_transaction_id@ == #[trigger] ("n8n-image-"@
                    + suffix)
            &&& exists|suffix: Seq<char>|
                is_fresh(suffix) && plan.message_transaction_id@ == #[trigger] ("n8n-message-"@
                    + suffix)
        },
{
    assert(plan@.request_key == plan.request_key.deep_view());
    assert(request@.request_id == request.request_id.deep_view());
    if plan.request_key is Some {
        let key = plan.request_key->0@;
        let bytes = idempotency::key_preimage(request@.request_id->0, plan.room_id@);
        assert(key == digest::hex_sha256(bytes));
        assert(key.len() == 64);
        digest::lemma_hex_text_prefix(digest::sha256(bytes), 28);
        lemma_transaction_id_texts(key.take(28));
    } else {
        let suffix = choose|suffix: Seq<char>| #[trigger]
            idempotency::is_nonce(suffix) && plan.image_transaction_id@
                == idempotency::transaction_id("image"@, suffix);
        lemma_transaction_id_texts(suffix);
        assert(plan.image_transaction_id@ == "n8n-image-"@ + suffix);
        let other = choose|suffix: Seq<char>| #[trigger]
            idempotency::is_nonce(suffix) && plan.message_transaction_id@
                == idempotency::transaction_id("message"@, suffix);
        lemma_transaction_id_texts(other);
        assert(plan.message_transaction_id@ == "n8n-message-"@ + other);
    }
}

/// A transaction ID for a record key ends in the first 28 bytes of the key: two keys that
/// agree in them give the same ID for an event of the same kind.
pub proof fn law_transaction_ids_are_stable(
    key: &str,
    kind: &str,
    id: String,
    retry: String,
)
    requires
        call_ensures(stable_transaction_id, (Some(key), kind), id),
        call_ensures(stable_transaction_id, (Some(key), kind), retry),
        is_ascii_chars(key@),
        key@.len() >= 28,
    ensures
        id@ == retry@,
        id@ == "n8n-"@ + kind@ + "-"@ + key@.take(28),
{
    let whole = key@;
    let head = whole.take(28);
    let bytes = encode_utf8(whole);
    is_ascii_chars_encode_utf8(whole);
    is_ascii_chars_encode_utf8(head);
    assert(encode_utf8(head) =~= bytes.subrange(0, 28)) by {
        assert forall|i: int| 0 <= i < 28 implies encode_utf8(head)[i] == bytes[i] by {
            assert(head[i] == whole[i]);
        }
    }
    encode_utf8_decode_utf8(head);
}

/// The number that a hexadecimal digit stands for.
pub open spec fn digit_value(c: char) -> int {
    if c <= '9' {
        c as int - '0' as int
    } else {
        c as int - 'a' as int + 10
    }
}

/// A digest is written as 64 digits from 0 to 9 and a to f. Each pair of them, read as a
/// number to the base sixteen, is a byte of the SHA-256 digest, in their order.
pub proof fn law_digest_digits_are_the_bytes(data: &[u8], text: String, i: int)
    requires
        call_ensures(hex_digest, (data,), text),
        0 <= i < 32,
    ensures
        text@.len() == 64,
        digest::sha256(data@).len() == 32,
        '0' <= text@[2 * i] <= '9' || 'a' <= text@[2 * i] <= 'f',
        '0' <= text@[2 * i + 1] <= '9' || 'a' <= text@[2 * i + 1] <= 'f',
        16 * digit_value(text@[2 * i]) + digit_value(text@[2 * i + 1]) == digest::sha256(
            data@,
        )[i],
{
    let byte = digest::sha256(data@)[i] as int;
    assert(text@ == digest::hex_text(digest::sha256(data@)));
    assert(text@[2 * i] == digest::hex_digit(byte / 16));
    assert(text@[2 * i + 1] == digest::hex_digit(byte % 16));
}

} // verus!
