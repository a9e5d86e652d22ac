//! Text as bindings hold and compare it: UTF-8 decoding, trimming of
//! surrounding whitespace, and comparison that ignores ASCII case.

use vstd::prelude::*;
use vstd::utf8::{decode_utf8, valid_utf8};

verus! {

/// The error of `core::str::from_utf8`, carried through unread.
#[verifier::external_type_specification]
#[verifier::external_body]
pub struct ExUtf8Error(core::str::Utf8Error);

/// Whether `c` is whitespace, as `char::is_whitespace` tells: the Unicode
/// property `White_Space`.
pub uninterp spec fn white_space(c: char) -> bool;

/// `text` without its leading whitespace.
pub open spec fn strip_start(text: Seq<char>) -> Seq<char>
    decreases text.len(),
{
    if text.len() > 0 && white_space(text.first()) {
        strip_start(text.drop_first())
    } else {
        text
    }
}

/// `text` without its trailing whitespace.
pub open spec fn strip_end(text: Seq<char>) -> Seq<char>
    decreases text.len(),
{
    if text.len() > 0 && white_space(text.last()) {
        strip_end(text.drop_last())
    } else {
        text
    }
}

/// `text` without the whitespace that surrounds it.
pub open spec fn stripped(text: Seq<char>) -> Seq<char> {
    strip_end(strip_start(text))
}

/// The lower-case form of an ASCII capital letter; any other character itself.
pub open spec fn ascii_lowercase(c: char) -> char {
    if 'A' <= c <= 'Z' {
        ((c as u32) + 32) as char
    } else {
        c
    }
}

/// Whether two texts are equal up to the case of their ASCII letters.
pub open spec fn equal_ignoring_ascii_case(a: Seq<char>, b: Seq<char>) -> bool {
    &&& a.len() == b.len()
    &&& forall|i: int| 0 <= i < a.len() ==> ascii_lowercase(#[trigger] a[i]) == ascii_lowercase(b[i])
}

/// A text equals itself, and equals its own lower-case form, up to the case of
/// its ASCII letters; and the comparison does not depend on the side a text
/// stands on.
pub proof fn lemma_case_is_ignored(a: Seq<char>, b: Seq<char>)
    ensures
        equal_ignoring_ascii_case(a, a),
        equal_ignoring_ascii_case(a, a.map_values(|c: char| ascii_lowercase(c))),
        equal_ignoring_ascii_case(a, b) == equal_ignoring_ascii_case(b, a),
{
}

/// The bytes of a value that may be missing.
pub open spec fn bytes_of(value: Option<Vec<u8>>) -> Option<Seq<u8>> {
    match value {
        Some(bytes) => Some(bytes@),
        None => None,
    }
}

/// The characters of a text that may be missing.
pub open spec fn text_of(value: Option<String>) -> Option<Seq<char>> {
    match value {
        Some(text) => Some(text@),
        None => None,
    }
}

/// The text that `bytes` encode, trimmed.
pub open spec fn trimmed_text(bytes: Seq<u8>) -> Seq<char> {
    stripped(decode_utf8(bytes))
}

/// Trusted: `core::str::from_utf8` accepts exactly the byte strings that are
/// valid UTF-8, and hands back the text they encode.
pub assume_specification<'a>[ core::str::from_utf8 ](bytes: &'a [u8]) -> (decoded: Result<
    &'a str,
    core::str::Utf8Error,
>)
    ensures
        decoded is Ok <==> valid_utf8(bytes@),
        decoded matches Ok(text) ==> text@ == decode_utf8(bytes@),
;

/// Trusted: `char::is_whitespace` tells whether a character is whitespace; the
/// contract gives its answer a name and claims no more.
pub assume_specification[ char::is_whitespace ](c: char) -> (whitespace: bool)
    ensures
        whitespace == white_space(c),
;

/// Trusted: `str::eq_ignore_ascii_case` compares two texts as if every ASCII
/// capital letter were its lower-case form; other characters must be equal.
pub assume_specification[ str::eq_ignore_ascii_case ](a: &str, b: &str) -> (same: bool)
    ensures
        same == equal_ignoring_ascii_case(a@, b@),
;

/// The characters of a text, one by one.
pub fn chars_of(text: &str) -> (chars: Vec<char>)
    ensures
        chars@ == text@,
{
    let mut chars: Vec<char> = Vec::new();
    for c in iter: text.chars()
        invariant
            iter.seq() == text@,
            chars@ == iter.seq().take(iter.index() as int),
    {
        chars.push(c);
    }
    chars
}

/// Returns `text` without the whitespace that surrounds it.
pub fn trim(text: &str) -> (trimmed: String)
    ensures
        trimmed@ == stripped(text@),
{
    let chars = chars_of(text);
    let mut start: usize = 0;
    assert(chars@.skip(0) =~= chars@);
    while start < chars.len() && chars[start].is_whitespace()
        invariant
            start <= chars.len(),
            strip_start(chars@) == strip_start(chars@.skip(start as int)),
        decreases chars.len() - start,
    {
        assert(chars@.skip(start as int).drop_first() =~= chars@.skip(start + 1));
        start += 1;
    }
    let ghost rest = chars@.skip(start as int);
    let mut end: usize = chars.len();
    assert(chars@.subrange(start as int, end as int) =~= rest);
    while end > start && chars[end - 1].is_whitespace()
        invariant
            start <= end <= chars.len(),
            strip_end(rest) == strip_end(chars@.subrange(start as int, end as int)),
        decreases end,
    {
        assert(chars@.subrange(start as int, end as int).drop_last() =~= chars@.subrange(
            start as int,
            end - 1,
        ));
        end -= 1;
    }
    text.substring_char(start, end).to_owned()
}

/// Decodes `bytes` as UTF-8 and trims the text.
pub fn decode_trimmed(bytes: &Vec<u8>) -> (text: String)
    requires
        valid_utf8(bytes@),
    ensures
        text@ == trimmed_text(bytes@),
{
    match core::str::from_utf8(bytes.as_slice()) {
        Ok(decoded) => trim(decoded),
        Err(_) => unreached(),
    }
}

} // verus!
