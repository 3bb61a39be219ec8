//! URLs, as far as the file-name helpers call the `url` and the
//! `percent-encoding` crate.
//!
//! The contracts in this file are not proved: they restate what the source
//! and the documentation of the two crates say of the functions that the
//! bodies call.

use vstd::prelude::*;
use crate::text::views;

verus! {

/// The path segments of `url` as `url::Url::path_segments` gives them for
/// the URL that `url::Url::parse` reads from it: `None` where the text is no
/// absolute URL or the URL cannot be a base.
pub uninterp spec fn url_path_segments(url: Seq<char>) -> Option<Seq<Seq<char>>>;

/// `text` with its percent-encoded bytes decoded, read as UTF-8 with the
/// replacement character in place of what is no UTF-8: the result of
/// `percent_encoding::percent_decode_str` followed by `decode_utf8_lossy`.
pub uninterp spec fn percent_decoded(text: Seq<char>) -> Seq<char>;

/// Parses `url` with `url::Url::parse` and hands out the segments that
/// `url::Url::path_segments` yields for it, in order, each as it stands in
/// the parsed URL.
#[verifier::external_body]
pub(crate) fn path_segments(url: &str) -> (r: Option<Vec<String>>)
    ensures
        match r {
            Some(segments) => url_path_segments(url@) == Some(views(segments@)),
            None => url_path_segments(url@) is None,
        },
{
    match url::Url::parse(url) {
        Ok(parsed) => parsed.path_segments().map(|s| s.map(|p| p.to_string()).collect()),
        Err(_) => None,
    }
}

/// Calls `percent_encoding::percent_decode_str` and then
/// `decode_utf8_lossy`. The decoder copies every byte but a `%` that two
/// hexadecimal digits follow, so a text without `%` comes back unchanged.
#[verifier::external_body]
pub(crate) fn percent_decode(text: &str) -> (r: String)
    ensures
        r@ == percent_decoded(text@),
        !text@.contains('%') ==> r@ == text@,
{
    percent_encoding::percent_decode_str(text).decode_utf8_lossy().into_owned()
}

} // verus!
