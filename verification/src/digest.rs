//! SHA-256 digests in hexadecimal.

use vstd::prelude::*;
use vstd::utf8::*;

use crate::text;

verus! {

/// The SHA-256 digest of `data`.
pub uninterp spec fn sha256(data: Seq<u8>) -> Seq<u8>;

/// The lower-case hexadecimal digit of a value below sixteen.
pub open spec fn hex_digit(value: int) -> char {
    if value < 10 {
        ('0' as int + value) as char
    } else {
        ('a' as int + value - 10) as char
    }
}

/// Two lower-case hexadecimal digits for each byte, the high half first.
pub open spec fn hex_text(data: Seq<u8>) -> Seq<char> {
    Seq::new(
        2 * data.len(),
        |i: int|
            if i % 2 == 0 {
                hex_digit(data[i / 2] as int / 16)
            } else {
                hex_digit(data[i / 2] as int % 16)
            },
    )
}

/// The digest of `data` as hexadecimal text.
pub open spec fn hex_sha256(data: Seq<u8>) -> Seq<char> {
    hex_text(sha256(data))
}

/// Sixty-four lower-case hexadecimal digits.
pub open spec fn is_digest_text(text: Seq<char>) -> bool {
    &&& text.len() == 64
    &&& forall|i: int|
        0 <= i < 64 ==> '0' <= #[trigger] text[i] <= '9' || 'a' <= text[i] <= 'f'
}

/// Calls `sha2::Sha256::digest`: the 32 bytes of the SHA-256 digest of `data`.
#[verifier::external_body]
fn sha256_digest(data: &[u8]) -> (digest: Vec<u8>)
    ensures
        digest@ == sha256(data@),
        digest@.len() == 32,
{
    <sha2::Sha256 as sha2::Digest>::digest(data).to_vec()
}

/// Calls `hex::encode`: two lower-case hexadecimal digits for each byte.
#[verifier::external_body]
fn hex_encode(data: &[u8]) -> (text: String)
    ensures
        text@ == hex_text(data@),
{
    hex::encode(data)
}

/// Hexadecimal text is ASCII, two characters a byte.
pub proof fn lemma_hex_text_is_ascii(data: Seq<u8>)
    ensures
        is_ascii_chars(hex_text(data)),
        hex_text(data).len() == 2 * data.len(),
{
}

/// Hexadecimal text can be cut after any of its characters, which take a byte
/// each.
pub proof fn lemma_hex_text_prefix(data: Seq<u8>, n: int)
    requires
        0 <= n <= 2 * data.len(),
    ensures
        is_char_boundary(encode_utf8(hex_text(data)), n),
        text::byte_prefix(hex_text(data), n) == hex_text(data).take(n),
{
    let whole = hex_text(data);
    let bytes = encode_utf8(whole);
    lemma_hex_text_is_ascii(data);
    is_ascii_chars_encode_utf8(whole);
    encode_utf8_valid_utf8(whole);
    is_char_boundary_start_end_of_seq(bytes);
    if n < bytes.len() {
        is_char_boundary_iff_not_is_continuation_byte(bytes, n);
        assert(whole[n] as u8 == bytes[n]);
    }
    let head = whole.take(n);
    is_ascii_chars_encode_utf8(head);
    assert(encode_utf8(head) =~= bytes.subrange(0, n)) by {
        assert forall|i: int| 0 <= i < head.len() implies encode_utf8(head)[i] == bytes[i] by {
            assert(head[i] == whole[i]);
        }
    }
    encode_utf8_decode_utf8(head);
}

/// The SHA-256 digest of `data` in lower-case hexadecimal.
pub fn hex_digest(data: &[u8]) -> (text: String)
    ensures
        text@ == hex_sha256(data@),
        is_digest_text(text@),
{
    let digest = sha256_digest(data);
    hex_encode(digest.as_slice())
}

/// Appends the UTF-8 encoding of `s`.
pub(crate) fn push_text(out: &mut Vec<u8>, s: &str)
    ensures
        final(out)@ == old(out)@ + encode_utf8(s@),
{
    out.extend_from_slice(s.as_bytes());
    assert(out@ =~= old(out)@ + encode_utf8(s@));
}

} // verus!
