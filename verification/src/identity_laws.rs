//! What request hashes, record keys and transaction IDs tell apart.

use vstd::prelude::*;
use vstd::utf8::*;

use crate::delivery::PlanView;
use crate::idempotency;
use crate::identifier;
use crate::message::{MessageFormat, RequestView};

verus! {

/// No NUL character.
pub open spec fn is_nul_free(s: Seq<char>) -> bool {
    !s.contains('\0')
}

/// No NUL character where there is a text.
pub open spec fn is_nul_free_if_any(s: Option<Seq<char>>) -> bool {
    is_nul_free(idempotency::text_or_empty(s))
}

/// No zero byte.
spec fn is_zero_free(data: Seq<u8>) -> bool {
    forall|i: int| 0 <= i < data.len() ==> #[trigger] data[i] != 0
}

/// A character other than NUL is encoded without a zero byte.
proof fn lemma_scalar_is_zero_free(c: char)
    requires
        c != '\0',
    ensures
        is_zero_free(encode_scalar(c as u32)),
{
    let u = c as u32;
    assert(u != 0);
    assert(u <= 0x7f ==> (u & 0x7f) as u8 != 0) by (bit_vector)
        requires
            u != 0,
    ;
    assert(forall|x: u8| #[trigger] (0xc0u8 | x) != 0) by (bit_vector);
    assert(forall|x: u8| #[trigger] (0xe0u8 | x) != 0) by (bit_vector);
    assert(forall|x: u8| #[trigger] (0xf0u8 | x) != 0) by (bit_vector);
    assert(forall|x: u8| #[trigger] (0x80u8 | x) != 0) by (bit_vector);
}

/// A text without NUL is encoded without a zero byte.
proof fn lemma_text_is_zero_free(s: Seq<char>)
    requires
        is_nul_free(s),
    ensures
        is_zero_free(encode_utf8(s)),
    decreases s.len(),
{
    if s.len() > 0 {
        let rest = s.drop_first();
        assert(s.contains(s[0]));
        lemma_scalar_is_zero_free(s[0]);
        assert(is_nul_free(rest)) by {
            if rest.contains('\0') {
                let i = choose|i: int| 0 <= i < rest.len() && rest[i] == '\0';
                assert(s[i + 1] == '\0');
            }
        }
        lemma_text_is_zero_free(rest);
    }
}

/// The part before the first zero byte, and the part after it, are determined.
proof fn lemma_split_at_first_zero(a: Seq<u8>, x: Seq<u8>, b: Seq<u8>, y: Seq<u8>)
    requires
        is_zero_free(a),
        is_zero_free(b),
        a + seq![0u8] + x == b + seq![0u8] + y,
    ensures
        a == b,
        x == y,
{
    let left = a + seq![0u8] + x;
    let right = b + seq![0u8] + y;
    if a.len() < b.len() {
        assert(left[a.len() as int] == 0);
        assert(right[a.len() as int] == b[a.len() as int]);
    } else if b.len() < a.len() {
        assert(right[b.len() as int] == 0);
        assert(left[b.len() as int] == a[b.len() as int]);
    }
    assert(a =~= left.take(a.len() as int));
    assert(b =~= right.take(b.len() as int));
    assert(x =~= left.skip(a.len() as int + 1));
    assert(y =~= right.skip(b.len() as int + 1));
}

/// The part after the last zero byte, and the part before it, are determined.
proof fn lemma_split_at_last_zero(x: Seq<u8>, a: Seq<u8>, y: Seq<u8>, b: Seq<u8>)
    requires
        is_zero_free(a),
        is_zero_free(b),
        x + seq![0u8] + a == y + seq![0u8] + b,
    ensures
        a == b,
        x == y,
{
    let left = x + seq![0u8] + a;
    let right = y + seq![0u8] + b;
    let n = left.len() as int;
    if a.len() < b.len() {
        let k = n - a.len() - 1;
        assert(left[k] == 0);
        assert(right[k] == b[k - y.len() - 1]);
    } else if b.len() < a.len() {
        let k = n - b.len() - 1;
        assert(right[k] == 0);
        assert(left[k] == a[k - x.len() - 1]);
    }
    assert(x =~= left.take(x.len() as int));
    assert(y =~= right.take(y.len() as int));
    assert(a =~= left.skip(x.len() as int + 1));
    assert(b =~= right.skip(y.len() as int + 1));
}

/// The same bytes are the encoding of the same text.
proof fn lemma_encoding_is_injective(a: Seq<char>, b: Seq<char>)
    requires
        encode_utf8(a) == encode_utf8(b),
    ensures
        a == b,
{
    encode_utf8_decode_utf8(a);
    encode_utf8_decode_utf8(b);
}

/// Formats are told apart by their names, which hold no NUL.
proof fn lemma_format_names(a: MessageFormat, b: MessageFormat)
    ensures
        is_nul_free(a.name()),
        a.name() == b.name() ==> a == b,
{
    reveal_strlit("text");
    reveal_strlit("markdown");
    reveal_strlit("html");
    assert("text"@[0] != "html"@[0]);
}

/// A request ID names one request in one room: the bytes that a record key is the
/// digest of are the same only for the same request ID and the same room.
pub proof fn law_record_keys_are_scoped_to_the_room(
    request_id: Seq<char>,
    room_id: Seq<char>,
    other_request_id: Seq<char>,
    other_room_id: Seq<char>,
)
    requires
        identifier::is_room_id_text(room_id),
        identifier::is_room_id_text(other_room_id),
    ensures
        idempotency::key_preimage(request_id, room_id) == idempotency::key_preimage(
            other_request_id,
            other_room_id,
        ) <==> request_id == other_request_id && room_id == other_room_id,
{
    if idempotency::key_preimage(request_id, room_id) == idempotency::key_preimage(
        other_request_id,
        other_room_id,
    ) {
        lemma_text_is_zero_free(room_id);
        lemma_text_is_zero_free(other_room_id);
        lemma_split_at_last_zero(
            encode_utf8(request_id),
            encode_utf8(room_id),
            encode_utf8(other_request_id),
            encode_utf8(other_room_id),
        );
        lemma_encoding_is_injective(request_id, other_request_id);
        lemma_encoding_is_injective(room_id, other_room_id);
    }
}

/// Of message, image URL and alt text, two hold no NUL.
pub open spec fn is_plainly_delimited(
    message: Seq<char>,
    image_url: Option<Seq<char>>,
    image_alt: Option<Seq<char>>,
    other_message: Seq<char>,
    other_image_url: Option<Seq<char>>,
    other_image_alt: Option<Seq<char>>,
) -> bool {
    let messages = is_nul_free(message) && is_nul_free(other_message);
    let urls = is_nul_free_if_any(image_url) && is_nul_free_if_any(other_image_url);
    let alts = is_nul_free_if_any(image_alt) && is_nul_free_if_any(other_image_alt);
    two_of_three(messages, urls, alts)
}

/// At least two of three.
pub open spec fn two_of_three(a: bool, b: bool, c: bool) -> bool {
    a && b || a && c || b && c
}

/// Fields set off by zero bytes.
spec fn frame(m: Seq<u8>, r: Seq<u8>, f: Seq<u8>, e: u8) -> Seq<u8> {
    m + seq![0u8] + r + seq![0u8] + f + seq![0u8] + seq![e]
}

/// Three fields without zero bytes, read from the left, and what follows them.
proof fn lemma_frame_from_the_left(
    m1: Seq<u8>,
    r1: Seq<u8>,
    f1: Seq<u8>,
    e1: u8,
    v1: Seq<u8>,
    m2: Seq<u8>,
    r2: Seq<u8>,
    f2: Seq<u8>,
    e2: u8,
    v2: Seq<u8>,
)
    requires
        is_zero_free(m1) && is_zero_free(m2),
        is_zero_free(r1) && is_zero_free(r2),
        is_zero_free(f1) && is_zero_free(f2),
        frame(m1, r1, f1, e1) + seq![0u8] + v1 == frame(m2, r2, f2, e2) + seq![0u8] + v2,
    ensures
        m1 == m2,
        r1 == r2,
        f1 == f2,
        e1 == e2,
        v1 == v2,
{
    let z = seq![0u8];
    let t1 = seq![e1] + z + v1;
    let t2 = seq![e2] + z + v2;
    let s1 = f1 + z + t1;
    let s2 = f2 + z + t2;
    assert(frame(m1, r1, f1, e1) + z + v1 =~= m1 + z + (r1 + z + s1));
    assert(frame(m2, r2, f2, e2) + z + v2 =~= m2 + z + (r2 + z + s2));
    lemma_split_at_first_zero(m1, r1 + z + s1, m2, r2 + z + s2);
    lemma_split_at_first_zero(r1, s1, r2, s2);
    lemma_split_at_first_zero(f1, t1, f2, t2);
    assert(t1[0] == e1 && t2[0] == e2);
    assert(v1 =~= t1.skip(2));
    assert(v2 =~= t2.skip(2));
}

/// Two fields without zero bytes, read from the right, and what precedes them.
proof fn lemma_frame_from_the_right(
    m1: Seq<u8>,
    r1: Seq<u8>,
    f1: Seq<u8>,
    e1: u8,
    m2: Seq<u8>,
    r2: Seq<u8>,
    f2: Seq<u8>,
    e2: u8,
)
    requires
        is_zero_free(r1) && is_zero_free(r2),
        is_zero_free(f1) && is_zero_free(f2),
        frame(m1, r1, f1, e1) == frame(m2, r2, f2, e2),
    ensures
        m1 == m2,
        r1 == r2,
        f1 == f2,
        e1 == e2,
{
    let z = seq![0u8];
    let p1 = frame(m1, r1, f1, e1);
    let p2 = frame(m2, r2, f2, e2);
    assert(p1.last() == e1 && p2.last() == e2);
    let h1 = (m1 + z + r1) + z + f1;
    let h2 = (m2 + z + r2) + z + f2;
    assert(h1 =~= p1.take(p1.len() - 2));
    assert(h2 =~= p2.take(p2.len() - 2));
    lemma_split_at_last_zero(m1 + z + r1, f1, m2 + z + r2, f2);
    lemma_split_at_last_zero(m1, r1, m2, r2);
}

/// The six fields are determined where two of the first, the fifth and the sixth
/// hold no zero byte, nor the second and the third.
proof fn lemma_delimited_fields(
    m1: Seq<u8>,
    r1: Seq<u8>,
    f1: Seq<u8>,
    e1: u8,
    u1: Seq<u8>,
    a1: Seq<u8>,
    m2: Seq<u8>,
    r2: Seq<u8>,
    f2: Seq<u8>,
    e2: u8,
    u2: Seq<u8>,
    a2: Seq<u8>,
)
    requires
        is_zero_free(r1) && is_zero_free(r2),
        is_zero_free(f1) && is_zero_free(f2),
        two_of_three(
            is_zero_free(m1) && is_zero_free(m2),
            is_zero_free(u1) && is_zero_free(u2),
            is_zero_free(a1) && is_zero_free(a2),
        ),
        idempotency::delimited(m1, r1, f1, e1, u1, a1) == idempotency::delimited(
            m2,
            r2,
            f2,
            e2,
            u2,
            a2,
        ),
    ensures
        m1 == m2,
        r1 == r2,
        f1 == f2,
        e1 == e2,
        u1 == u2,
        a1 == a2,
{
    let z = seq![0u8];
    let p1 = frame(m1, r1, f1, e1);
    let p2 = frame(m2, r2, f2, e2);
    if is_zero_free(m1) && is_zero_free(m2) {
        assert(p1 + z + (u1 + z + a1) =~= idempotency::delimited(m1, r1, f1, e1, u1, a1));
        assert(p2 + z + (u2 + z + a2) =~= idempotency::delimited(m2, r2, f2, e2, u2, a2));
        lemma_frame_from_the_left(m1, r1, f1, e1, u1 + z + a1, m2, r2, f2, e2, u2 + z + a2);
        if is_zero_free(u1) && is_zero_free(u2) {
            lemma_split_at_first_zero(u1, a1, u2, a2);
        } else {
            lemma_split_at_last_zero(u1, a1, u2, a2);
        }
    } else {
        assert((p1 + z + u1) + z + a1 =~= idempotency::delimited(m1, r1, f1, e1, u1, a1));
        assert((p2 + z + u2) + z + a2 =~= idempotency::delimited(m2, r2, f2, e2, u2, a2));
        lemma_split_at_last_zero(p1 + z + u1, a1, p2 + z + u2, a2);
        lemma_split_at_last_zero(p1, u1, p2, u2);
        lemma_frame_from_the_right(m1, r1, f1, e1, m2, r2, f2, e2);
    }
}

/// A text without NUL, if it is one, is encoded without a zero byte.
proof fn lemma_zero_free_if_nul_free(s: Seq<char>)
    ensures
        is_nul_free(s) ==> is_zero_free(encode_utf8(s)),
{
    if is_nul_free(s) {
        lemma_text_is_zero_free(s);
    }
}

/// What identifies a delivery tells deliveries apart: where two of message, image
/// URL and alt text hold no NUL, the bytes that a request hash is the digest of
/// are the same only for the same message, room, format, encryption mode, image
/// URL and alt text. An absent URL or alt text counts as an empty one.
pub proof fn law_request_hash_covers_content_and_options(
    message: Seq<char>,
    room_id: Seq<char>,
    format: MessageFormat,
    encrypted: bool,
    image_url: Option<Seq<char>>,
    image_alt: Option<Seq<char>>,
    other_message: Seq<char>,
    other_room_id: Seq<char>,
    other_format: MessageFormat,
    other_encrypted: bool,
    other_image_url: Option<Seq<char>>,
    other_image_alt: Option<Seq<char>>,
)
    requires
        identifier::is_room_id_text(room_id),
        identifier::is_room_id_text(other_room_id),
        is_plainly_delimited(
            message,
            image_url,
            image_alt,
            other_message,
            other_image_url,
            other_image_alt,
        ),
        idempotency::request_preimage(message, room_id, format, encrypted, image_url, image_alt)
            == idempotency::request_preimage(
            other_message,
            other_room_id,
            other_format,
            other_encrypted,
            other_image_url,
            other_image_alt,
        ),
    ensures
        message == other_message,
        room_id == other_room_id,
        format == other_format,
        encrypted == other_encrypted,
        idempotency::text_or_empty(image_url) == idempotency::text_or_empty(other_image_url),
        idempotency::text_or_empty(image_alt) == idempotency::text_or_empty(other_image_alt),
{
    let url = idempotency::text_or_empty(image_url);
    let other_url = idempotency::text_or_empty(other_image_url);
    let alt = idempotency::text_or_empty(image_alt);
    let other_alt = idempotency::text_or_empty(other_image_alt);
    lemma_format_names(format, other_format);
    lemma_format_names(other_format, format);
    lemma_zero_free_if_nul_free(message);
    lemma_zero_free_if_nul_free(other_message);
    lemma_zero_free_if_nul_free(room_id);
    lemma_zero_free_if_nul_free(other_room_id);
    lemma_zero_free_if_nul_free(format.name());
    lemma_zero_free_if_nul_free(other_format.name());
    lemma_zero_free_if_nul_free(url);
    lemma_zero_free_if_nul_free(other_url);
    lemma_zero_free_if_nul_free(alt);
    lemma_zero_free_if_nul_free(other_alt);
    lemma_delimited_fields(
        encode_utf8(message),
        encode_utf8(room_id),
        encode_utf8(format.name()),
        if encrypted { 1 } else { 0 },
        encode_utf8(url),
        encode_utf8(alt),
        encode_utf8(other_message),
        encode_utf8(other_room_id),
        encode_utf8(other_format.name()),
        if other_encrypted { 1 } else { 0 },
        encode_utf8(other_url),
        encode_utf8(other_alt),
    );
    lemma_encoding_is_injective(message, other_message);
    lemma_encoding_is_injective(room_id, other_room_id);
    lemma_encoding_is_injective(format.name(), other_format.name());
    lemma_encoding_is_injective(url, other_url);
    lemma_encoding_is_injective(alt, other_alt);
}

/// A retry of a request with a request ID uses the transaction IDs of the first
/// attempt, so that Matrix does not take it for another event.
pub proof fn law_retry_keeps_the_transaction_ids(
    request: RequestView,
    default_room_id: Seq<char>,
    plan: PlanView,
    retry: PlanView,
)
    requires
        request.request_id is Some,
        plan.is_for(request, default_room_id),
        retry.is_for(request, default_room_id),
    ensures
        plan == retry,
{
}

/// The two events of a delivery have different transaction IDs.
pub proof fn law_image_and_message_have_different_transaction_ids(
    request: RequestView,
    default_room_id: Seq<char>,
    plan: PlanView,
)
    requires
        plan.is_for(request, default_room_id),
    ensures
        plan.image_transaction_id != plan.message_transaction_id,
{
    reveal_strlit("n8n-");
    reveal_strlit("image");
    reveal_strlit("message");
    assert forall|suffix: Seq<char>|
        (#[trigger] idempotency::transaction_id("image"@, suffix))[4] == 'i' by {}
    assert forall|suffix: Seq<char>|
        (#[trigger] idempotency::transaction_id("message"@, suffix))[4] == 'm' by {}
    assert(plan.image_transaction_id[4] == 'i');
    assert(plan.message_transaction_id[4] == 'm');
}

} // verus!
