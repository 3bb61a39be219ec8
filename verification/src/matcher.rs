//! Regular expressions, as far as word counting calls the `regex` crate.
//!
//! The contracts in this file are not proved: they restate what the source
//! and the documentation of `regex` and `regex-syntax` say of the functions
//! that the bodies call.

use vstd::prelude::*;

verus! {

/// The characters that have a meaning of their own in a regular expression:
/// the set that `regex_syntax::is_meta_character` accepts.
pub open spec fn is_meta_character(c: char) -> bool {
    c == '\\' || c == '.' || c == '+' || c == '*' || c == '?' || c == '(' || c == ')' || c == '|'
        || c == '[' || c == ']' || c == '{' || c == '}' || c == '^' || c == '$' || c == '#' || c
        == '&' || c == '-' || c == '~'
}

/// `text` with a backslash before each of its meta characters.
pub open spec fn escaped(text: Seq<char>) -> Seq<char>
    decreases text.len(),
{
    if text.len() == 0 {
        Seq::empty()
    } else if is_meta_character(text.last()) {
        escaped(text.drop_last()).push('\\').push(text.last())
    } else {
        escaped(text.drop_last()).push(text.last())
    }
}

/// Whether `regex::Regex::new` accepts `pattern`, with the syntax and the
/// size limit that it has by default.
pub uninterp spec fn regex_compiles(pattern: Seq<char>) -> bool;

/// The number of matches, one after the other and without overlap, that the
/// regular expression compiled from `pattern` by `regex::Regex::new` finds
/// in `haystack`.
pub uninterp spec fn regex_match_count(pattern: Seq<char>, haystack: Seq<char>) -> nat;

/// Calls `regex::escape`, which goes through the characters of `text` in
/// order and writes each one out, after a backslash where it is a meta
/// character.
#[verifier::external_body]
pub(crate) fn escape(text: &str) -> (r: String)
    ensures
        r@ == escaped(text@),
{
    regex::escape(text)
}

/// Calls `regex::Regex::new` and tells whether it accepted the pattern.
#[verifier::external_body]
pub(crate) fn pattern_compiles(pattern: &str) -> (ok: bool)
    ensures
        ok == regex_compiles(pattern@),
{
    regex::Regex::new(pattern).is_ok()
}

/// Compiles `pattern` with `regex::Regex::new` and, where that succeeds,
/// counts what `regex::Regex::find_iter` yields on `haystack`: the
/// successive non-overlapping matches.
#[verifier::external_body]
pub(crate) fn match_count(pattern: &str, haystack: &str) -> (r: Option<usize>)
    ensures
        r is Some <==> regex_compiles(pattern@),
        r matches Some(n) ==> n == regex_match_count(pattern@, haystack@),
{
    match regex::Regex::new(pattern) {
        Ok(re) => Some(re.find_iter(haystack).count()),
        Err(_) => None,
    }
}

} // verus!
