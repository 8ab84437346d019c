//! Text operations of the standard library with their meaning on `Seq<char>`.

use vstd::prelude::*;
use vstd::utf8::*;

verus! {

/// Characters with the Unicode property `White_Space`.
pub open spec fn is_white_space(c: char) -> bool {
    let u = c as u32;
    ||| 0x09 <= u <= 0x0d
    ||| u == 0x20
    ||| u == 0x85
    ||| u == 0xa0
    ||| u == 0x1680
    ||| 0x2000 <= u <= 0x200a
    ||| u == 0x2028
    ||| u == 0x2029
    ||| u == 0x202f
    ||| u == 0x205f
    ||| u == 0x3000
}

/// `s` without the white space at its two ends.
pub open spec fn trimmed(s: Seq<char>) -> Seq<char>
    decreases s.len(),
{
    if s.len() > 0 && is_white_space(s.first()) {
        trimmed(s.drop_first())
    } else if s.len() > 0 && is_white_space(s.last()) {
        trimmed(s.drop_last())
    } else {
        s
    }
}

/// Nothing but white space.
pub open spec fn is_blank_text(s: Seq<char>) -> bool {
    forall|i: int| 0 <= i < s.len() ==> is_white_space(#[trigger] s[i])
}

/// The characters `0` to `9`.
pub open spec fn is_decimal_digit(c: char) -> bool {
    '0' <= c <= '9'
}

/// The number that a run of decimal digits denotes.
pub open spec fn decimal_value(digits: Seq<char>) -> int
    decreases digits.len(),
{
    if digits.len() == 0 {
        0
    } else {
        10 * decimal_value(digits.drop_last()) + (digits.last() as int - '0' as int)
    }
}

/// One or more decimal digits and nothing else.
pub open spec fn is_decimal(s: Seq<char>) -> bool {
    s.len() > 0 && forall|i: int| 0 <= i < s.len() ==> is_decimal_digit(#[trigger] s[i])
}

/// The number denoted by decimal digits after an optional sign, where it fits.
pub open spec fn signed_decimal(s: Seq<char>) -> Option<i64> {
    let signed = s.len() > 0 && (s[0] == '-' || s[0] == '+');
    let digits = if signed {
        s.drop_first()
    } else {
        s
    };
    let value = if signed && s[0] == '-' {
        -decimal_value(digits)
    } else {
        decimal_value(digits)
    };
    if is_decimal(digits) && i64::MIN <= value <= i64::MAX {
        Some(value as i64)
    } else {
        None
    }
}

/// The number denoted by decimal digits after an optional plus sign, where it fits.
pub open spec fn unsigned_decimal(s: Seq<char>) -> Option<usize> {
    let digits = if s.len() > 0 && s[0] == '+' {
        s.drop_first()
    } else {
        s
    };
    if is_decimal(digits) && decimal_value(digits) <= usize::MAX {
        Some(decimal_value(digits) as usize)
    } else {
        None
    }
}

/// The text that the first `n` bytes of the UTF-8 encoding of `s` hold.
pub open spec fn byte_prefix(s: Seq<char>, n: int) -> Seq<char> {
    decode_utf8(encode_utf8(s).subrange(0, n))
}

/// Calls `str::eq`: two texts are equal exactly when they hold the same characters.
#[verifier::external_body]
pub(crate) fn same_text(a: &str, b: &str) -> (same: bool)
    ensures
        same == (a@ == b@),
{
    a == b
}

/// Calls `str::trim`: the text without leading and trailing characters of the
/// Unicode property `White_Space`.
#[verifier::external_body]
pub(crate) fn trim(s: &str) -> (rest: &str)
    ensures
        rest@ == trimmed(s@),
{
    s.trim()
}

/// Calls `str::strip_prefix`: what follows `prefix`, if the text begins with it.
#[verifier::external_body]
pub(crate) fn strip_prefix<'a>(s: &'a str, prefix: &str) -> (rest: Option<&'a str>)
    ensures
        match rest {
            Some(rest) => s@ == prefix@ + rest@,
            None => !prefix@.is_prefix_of(s@),
        },
{
    s.strip_prefix(prefix)
}

/// Calls `str::split_once`: the text before the first `delimiter` and the text
/// after it, if there is one.
#[verifier::external_body]
pub(crate) fn split_once(s: &str, delimiter: char) -> (parts: Option<(&str, &str)>)
    ensures
        match parts {
            Some(parts) => {
                &&& s@ == parts.0@ + seq![delimiter] + parts.1@
                &&& !parts.0@.contains(delimiter)
            },
            None => !s@.contains(delimiter),
        },
{
    s.split_once(delimiter)
}

/// Calls `str::parse` for `i64`: an optional sign followed by decimal digits
/// only, with a value that fits.
#[verifier::external_body]
pub(crate) fn parse_i64(s: &str) -> (value: Option<i64>)
    ensures
        value == signed_decimal(s@),
{
    s.parse::<i64>().ok()
}

/// Calls `str::parse` for `usize`: an optional plus sign followed by decimal digits
/// only, with a value that fits.
#[verifier::external_body]
pub(crate) fn parse_usize(s: &str) -> (value: Option<usize>)
    ensures
        value == unsigned_decimal(s@),
{
    s.parse::<usize>().ok()
}

/// `String::push`: the character is added at the end of the text.
pub assume_specification[ String::push ](s: &mut String, c: char)
    ensures
        final(s)@ == old(s)@.push(c),
;

/// The characters of a text.
pub(crate) fn chars_of(s: &str) -> (chars: Vec<char>)
    ensures
        chars@ == s@,
{
    let mut chars: Vec<char> = Vec::new();
    for c in it: s.chars()
        invariant
            chars@ == it.seq().take(it.index()),
            it.seq() == s@,
    {
        chars.push(c);
        assert(it.seq().take(it.index() + 1) =~= it.seq().take(it.index()).push(c));
    }
    assert(s@.take(s@.len() as int) =~= s@);
    chars
}

/// The text of the characters from `first` on, up to `end`.
pub(crate) fn text_of(chars: &[char], first: usize, end: usize) -> (text: String)
    requires
        first <= end <= chars@.len(),
    ensures
        text@ == chars@.subrange(first as int, end as int),
{
    let length: usize = chars.len();
    let mut text = String::new();
    let mut i: usize = first;
    while i < end
        invariant
            first <= i <= end <= length,
            length == chars@.len(),
            text@ == chars@.subrange(first as int, i as int),
        decreases end - i,
    {
        text.push(chars[i]);
        i += 1;
        assert(text@ =~= chars@.subrange(first as int, i as int));
    }
    text
}

/// Trimming leaves nothing exactly when there is nothing but white space.
pub proof fn lemma_trimmed_is_empty_iff_blank(s: Seq<char>)
    ensures
        trimmed(s).len() == 0 <==> is_blank_text(s),
    decreases s.len(),
{
    if s.len() > 0 && is_white_space(s.first()) {
        let rest = s.drop_first();
        lemma_trimmed_is_empty_iff_blank(rest);
        if is_blank_text(rest) {
            assert forall|i: int| 0 <= i < s.len() implies is_white_space(#[trigger] s[i]) by {
                if i > 0 {
                    assert(rest[i - 1] == s[i]);
                }
            }
        }
        if is_blank_text(s) {
            assert forall|i: int| 0 <= i < rest.len() implies is_white_space(
                #[trigger] rest[i],
            ) by {
                assert(rest[i] == s[i + 1]);
            }
        }
    } else if s.len() > 0 && is_white_space(s.last()) {
        assert(!is_white_space(s[0]));
        let rest = s.drop_last();
        lemma_trimmed_is_empty_iff_blank(rest);
        if rest.len() > 0 {
            assert(rest[0] == s[0]);
        }
    } else if s.len() > 0 {
        assert(!is_white_space(s[0]));
    }
}

/// Whether a character is white space.
pub(crate) fn is_white(c: char) -> (is: bool)
    ensures
        is == is_white_space(c),
{
    let u: u32 = c as u32;
    (0x09 <= u && u <= 0x0d) || u == 0x20 || u == 0x85 || u == 0xa0 || u == 0x1680 || (0x2000 <= u
        && u <= 0x200a) || u == 0x2028 || u == 0x2029 || u == 0x202f || u == 0x205f || u == 0x3000
}

/// Whether a text holds nothing but white space.
pub fn is_blank(s: &str) -> (blank: bool)
    ensures
        blank == is_blank_text(s@),
{
    proof {
        lemma_trimmed_is_empty_iff_blank(s@);
    }
    trim(s).is_empty()
}

/// Puts the parts together in their order.
pub(crate) fn concat3(a: &str, b: &str, c: &str) -> (whole: String)
    ensures
        whole@ == a@ + b@ + c@,
{
    let mut whole: String = a.to_owned();
    whole.append(b);
    whole.append(c);
    whole
}

/// The text in the first `n` bytes.
pub(crate) fn take_bytes(s: &str, n: usize) -> (head: &str)
    requires
        is_char_boundary(encode_utf8(s@), n as int),
    ensures
        head@ == byte_prefix(s@, n as int),
{
    let (head, _) = s.split_at(n);
    proof {
        encode_utf8_decode_utf8(head@);
    }
    head
}

} // verus!
