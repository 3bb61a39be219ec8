//! File names for downloaded images.
//!
//! A download is stored under the last piece of its URL, percent-decoded.
//! The helpers also give the extension of a download, from the last path
//! segment of the URL or else from the content type, and a generic name
//! made of the number of the download and that extension.

use vstd::prelude::*;
use crate::text::{chars_of, last_piece, last_piece_start, string_of};
use crate::web::{path_segments, percent_decode, percent_decoded, url_path_segments};

verus! {

/// The extension that stands for a content type: known for four image
/// types, `.bin` for every other one and for none.
pub open spec fn guessed_extension(content_type: Option<Seq<char>>) -> Seq<char> {
    match content_type {
        Some(t) => if t == "image/png"@ {
            ".png"@
        } else if t == "image/jpeg"@ {
            ".jpg"@
        } else if t == "image/gif"@ {
            ".gif"@
        } else if t == "image/webp"@ {
            ".webp"@
        } else {
            ".bin"@
        },
        None => ".bin"@,
    }
}

/// The extension of a file name: a dot and what follows the last dot of the
/// name (all of the name where it has no dot), or none where nothing follows.
pub open spec fn extension_of(name: Seq<char>) -> Option<Seq<char>> {
    let tail = last_piece(name, '.');
    if tail.len() == 0 {
        None
    } else {
        Some(seq!['.'] + tail)
    }
}

/// The extension of a download: that of the last path segment of its URL,
/// or, where the URL has no path segments or the last one has no extension,
/// the one that stands for the content type.
pub open spec fn file_extension_spec(url: Seq<char>, content_type: Option<Seq<char>>) -> Seq<char> {
    match url_path_segments(url) {
        Some(segments) => if segments.len() > 0 && extension_of(segments.last()) is Some {
            extension_of(segments.last())->Some_0
        } else {
            guessed_extension(content_type)
        },
        None => guessed_extension(content_type),
    }
}

/// The character of a decimal digit.
pub open spec fn digit(d: nat) -> char {
    if d == 0 {
        '0'
    } else if d == 1 {
        '1'
    } else if d == 2 {
        '2'
    } else if d == 3 {
        '3'
    } else if d == 4 {
        '4'
    } else if d == 5 {
        '5'
    } else if d == 6 {
        '6'
    } else if d == 7 {
        '7'
    } else if d == 8 {
        '8'
    } else {
        '9'
    }
}

/// A number in decimal notation, without leading zeros.
pub open spec fn decimal(n: nat) -> Seq<char>
    decreases n,
{
    if n < 10 {
        seq![digit(n)]
    } else {
        decimal(n / 10).push(digit(n % 10))
    }
}

/// The generic name of download number `index`.
pub open spec fn generic_filename_spec(index: nat, extension: Seq<char>) -> Seq<char> {
    "file_"@ + decimal(index) + extension
}

/// The name under which a download is stored: what follows the last slash
/// of its URL, percent-decoded.
pub open spec fn destination_filename_spec(url: Seq<char>) -> Seq<char> {
    percent_decoded(last_piece(url, '/'))
}

/// The text of an optional string slice.
pub open spec fn text_of(s: Option<&str>) -> Option<Seq<char>> {
    match s {
        Some(t) => Some(t@),
        None => None,
    }
}

/// Gives the extension that stands for a content type.
pub fn guess_extension_from_content_type(content_type: Option<&str>) -> (r: String)
    ensures
        r@ == guessed_extension(text_of(content_type)),
{
    match content_type {
        Some(t) => {
            if t.eq("image/png") {
                String::from_str(".png")
            } else if t.eq("image/jpeg") {
                String::from_str(".jpg")
            } else if t.eq("image/gif") {
                String::from_str(".gif")
            } else if t.eq("image/webp") {
                String::from_str(".webp")
            } else {
                String::from_str(".bin")
            }
        },
        None => String::from_str(".bin"),
    }
}

/// Gives the extension of a file name, if it has one.
pub fn name_extension(name: &str) -> (r: Option<String>)
    ensures
        match r {
            Some(e) => extension_of(name@) == Some(e@),
            None => extension_of(name@) is None,
        },
{
    let chars: Vec<char> = chars_of(name);
    let start: usize = last_piece_start(chars.as_slice(), '.');
    if start == chars.len() {
        None
    } else {
        let tail: String = string_of(chars.as_slice(), start, chars.len());
        let mut e: String = String::new();
        e.push('.');
        e.append(tail.as_str());
        assert(e@ =~= seq!['.'] + tail@);
        Some(e)
    }
}

/// Gives the extension of a download from its URL and its content type.
pub fn file_extension(url: &str, content_type: Option<&str>) -> (r: String)
    ensures
        r@ == file_extension_spec(url@, text_of(content_type)),
{
    match path_segments(url) {
        Some(segments) => {
            if segments.len() > 0 {
                match name_extension(segments[segments.len() - 1].as_str()) {
                    Some(e) => {
                        return e;
                    },
                    None => {},
                }
            }
        },
        None => {},
    }
    guess_extension_from_content_type(content_type)
}

/// Writes a number in decimal notation.
pub fn decimal_string(n: usize) -> (r: String)
    ensures
        r@ == decimal(n as nat),
{
    let mut digits: Vec<char> = Vec::new();
    let mut rest: usize = n;
    // The digits come out lowest first.
    loop
        invariant_except_break
            decimal(n as nat) == decimal(rest as nat) + digits@.reverse(),
            rest == n || digits@.len() > 0,
        ensures
            decimal(n as nat) == digits@.reverse(),
            digits@.len() > 0,
        decreases rest,
    {
        let d: usize = rest % 10;
        let c: char = if d == 0 {
            '0'
        } else if d == 1 {
            '1'
        } else if d == 2 {
            '2'
        } else if d == 3 {
            '3'
        } else if d == 4 {
            '4'
        } else if d == 5 {
            '5'
        } else if d == 6 {
            '6'
        } else if d == 7 {
            '7'
        } else if d == 8 {
            '8'
        } else {
            '9'
        };
        let ghost before = digits@;
        digits.push(c);
        proof {
            assert(digits@.reverse() =~= seq![c] + before.reverse());
        }
        if rest < 10 {
            proof {
                assert(decimal(rest as nat) =~= seq![c]);
                assert(decimal(rest as nat) + before.reverse() =~= digits@.reverse());
            }
            break;
        }
        proof {
            assert(decimal(rest as nat) == decimal((rest / 10) as nat).push(c));
            assert(decimal(rest as nat) + before.reverse() =~= decimal((rest / 10) as nat)
                + digits@.reverse());
        }
        rest = rest / 10;
    }
    let mut r: String = String::new();
    let mut i: usize = digits.len();
    while i > 0
        invariant
            i <= digits@.len(),
            r@ == digits@.reverse().take(digits@.len() - i),
        decreases i,
    {
        i = i - 1;
        r.push(digits[i]);
        proof {
            let rev = digits@.reverse();
            let k = digits@.len() - i - 1;
            assert(rev[k] == digits@[i as int]);
            assert(rev.take(k).push(rev[k]) =~= rev.take(k + 1));
        }
    }
    assert(digits@.reverse().take(digits@.len() as int) =~= digits@.reverse());
    r
}

/// Makes the generic name of download number `index`: `file_`, the number
/// and the extension.
pub fn generic_filename(index: usize, extension: &str) -> (r: String)
    ensures
        r@ == generic_filename_spec(index as nat, extension@),
{
    let mut r: String = String::from_str("file_");
    let number: String = decimal_string(index);
    r.append(number.as_str());
    r.append(extension);
    r
}

/// Gives the name under which the download of `url` is stored. Every URL
/// has a last piece, if only an empty one, so the generic name of
/// [`generic_filename`] never has to stand in for it.
pub fn destination_filename(url: &str) -> (r: String)
    ensures
        r@ == destination_filename_spec(url@),
        !url@.contains('%') ==> r@ == last_piece(url@, '/'),
{
    let chars: Vec<char> = chars_of(url);
    let start: usize = last_piece_start(chars.as_slice(), '/');
    let piece: String = string_of(chars.as_slice(), start, chars.len());
    proof {
        if !url@.contains('%') {
            assert forall|i: int| 0 <= i < piece@.len() implies piece@[i] != '%' by {
                assert(piece@[i] == url@[start + i]);
                assert(url@.contains(url@[start + i]));
            }
        }
    }
    percent_decode(piece.as_str())
}

} // verus!
