//! The rule that every key of a binding has to meet.

use vstd::prelude::*;

verus! {

/// The pattern of a valid key, in the syntax of the `regex` crate.
pub const VALID_SECRET_KEY: &'static str = "^[A-Za-z0-9\\-_.]+$";

/// The characters a key may be made of: ASCII letters, digits, `-`, `_` and `.`.
pub open spec fn is_key_char(c: char) -> bool {
    ||| 'A' <= c <= 'Z'
    ||| 'a' <= c <= 'z'
    ||| '0' <= c <= '9'
    ||| c == '-'
    ||| c == '_'
    ||| c == '.'
}

/// A key is valid when it is not empty and holds key characters only.
pub open spec fn valid_secret_key(key: Seq<char>) -> bool {
    &&& key.len() > 0
    &&& forall|i: int| 0 <= i < key.len() ==> is_key_char(#[trigger] key[i])
}

/// Compiles `pattern` with `regex::Regex::new` and runs `regex::Regex::is_match`
/// on `text`; `None` if the pattern does not compile.
///
/// Trusted. The contract speaks of the key pattern only. By the syntax that
/// the `regex` crate documents, `^` and `$` stand for the two ends of the
/// text, the class holds exactly the key characters and `+` asks for one or
/// more of them, so the pattern compiles and matches exactly the valid keys.
#[verifier::external_body]
fn pattern_matches(pattern: &str, text: &str) -> (matched: Option<bool>)
    requires
        pattern@ == VALID_SECRET_KEY@,
    ensures
        matched == Some(valid_secret_key(text@)),
{
    match regex::Regex::new(pattern) {
        Ok(re) => Some(re.is_match(text)),
        Err(_) => None,
    }
}

/// Tests whether `key` is a valid key of a binding.
pub fn is_valid_secret_key(key: &str) -> (valid: bool)
    ensures
        valid == valid_secret_key(key@),
{
    match pattern_matches(VALID_SECRET_KEY, key) {
        Some(matched) => matched,
        None => unreached(),
    }
}

/// A valid key holds no character outside the key characters: no path
/// separator, no control character, no `^`.
pub proof fn lemma_valid_key_excludes(key: Seq<char>, c: char)
    requires
        valid_secret_key(key),
        !is_key_char(c),
    ensures
        !key.contains(c),
{
}

} // verus!
