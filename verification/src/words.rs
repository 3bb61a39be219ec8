//! Counting the whole-word occurrences of a word in a text, line by line.
//!
//! A line ends at a line feed; one carriage return before it, or at the end
//! of the last line, does not belong to the line. An occurrence is a match
//! of the word, taken literally and with regard to case, that begins and
//! ends at a word boundary.

use vstd::prelude::*;
use crate::matcher::{escape, escaped, match_count, pattern_compiles, regex_compiles, regex_match_count};
use crate::text::{chars_of, string_of, views};

verus! {

/// Why a count could not be given.
#[derive(Debug, Clone, Copy, PartialEq, Eq, Structural)]
pub enum WordCountError {
    /// The regular expression for the word was not accepted.
    PatternRejected,
    /// There are more occurrences than a `usize` can count.
    CountOverflow,
}

/// The regular expression that matches `word` as a whole word: the word
/// with its meta characters escaped, between two word boundaries.
pub open spec fn word_pattern_spec(word: Seq<char>) -> Seq<char> {
    seq!['\\', 'b'] + escaped(word) + seq!['\\', 'b']
}

/// The pieces of a text between its line feeds. There is always at least
/// one; the last is what follows the last line feed.
pub open spec fn pieces(text: Seq<char>) -> Seq<Seq<char>>
    decreases text.len(),
{
    if text.len() == 0 {
        seq![Seq::empty()]
    } else {
        let front = pieces(text.drop_last());
        if text.last() == '\n' {
            front.push(Seq::empty())
        } else {
            front.drop_last().push(front.last().push(text.last()))
        }
    }
}

/// A piece without the carriage return at its end, if it has one.
pub open spec fn without_carriage_return(piece: Seq<char>) -> Seq<char> {
    if piece.len() > 0 && piece.last() == '\r' {
        piece.drop_last()
    } else {
        piece
    }
}

/// The lines of a text: its pieces, but for an empty last one, each without
/// its carriage return.
pub open spec fn text_lines(text: Seq<char>) -> Seq<Seq<char>> {
    let all = pieces(text);
    let kept = if all.last().len() == 0 {
        all.drop_last()
    } else {
        all
    };
    stripped(kept)
}

/// Every piece of a list without its carriage return.
pub open spec fn stripped(all: Seq<Seq<char>>) -> Seq<Seq<char>> {
    all.map_values(|piece: Seq<char>| without_carriage_return(piece))
}

/// Stripping goes piece by piece.
proof fn lemma_stripped_push(all: Seq<Seq<char>>, piece: Seq<char>)
    ensures
        stripped(all.push(piece)) == stripped(all).push(without_carriage_return(piece)),
{
    assert(stripped(all.push(piece)) =~= stripped(all).push(without_carriage_return(piece)));
}

/// The texts of a list of strings go string by string.
proof fn lemma_views_push(strings: Seq<String>, s: String)
    ensures
        views(strings.push(s)) == views(strings).push(s@),
{
    assert(views(strings.push(s)) =~= views(strings).push(s@));
}

/// The sum of a list of counts.
pub open spec fn total(counts: Seq<usize>) -> nat
    decreases counts.len(),
{
    if counts.len() == 0 {
        0
    } else {
        total(counts.drop_last()) + counts.last() as nat
    }
}

/// The number of matches of `pattern` in all of `lines` together.
pub open spec fn matches_in_lines(pattern: Seq<char>, lines: Seq<Seq<char>>) -> nat
    decreases lines.len(),
{
    if lines.len() == 0 {
        0
    } else {
        matches_in_lines(pattern, lines.drop_last()) + regex_match_count(pattern, lines.last())
    }
}

/// The pieces of a text are never none.
pub proof fn lemma_pieces_nonempty(text: Seq<char>)
    ensures
        pieces(text).len() >= 1,
    decreases text.len(),
{
    if text.len() > 0 {
        lemma_pieces_nonempty(text.drop_last());
    }
}

/// Builds the regular expression that matches `word` as a whole word.
pub fn word_pattern(word: &str) -> (pattern: String)
    ensures
        pattern@ == word_pattern_spec(word@),
{
    let escaped_word: String = escape(word);
    let mut pattern: String = String::new();
    pattern.push('\\');
    pattern.push('b');
    pattern.append(escaped_word.as_str());
    pattern.push('\\');
    pattern.push('b');
    assert(pattern@ =~= word_pattern_spec(word@));
    pattern
}

/// Splits a text into its lines.
pub fn split_lines(content: &str) -> (lines: Vec<String>)
    ensures
        views(lines@) == text_lines(content@),
{
    let chars: Vec<char> = chars_of(content);
    let mut lines: Vec<String> = Vec::new();
    let mut start: usize = 0;
    let mut i: usize = 0;
    proof {
        assert(chars@.take(0) =~= Seq::<char>::empty());
        assert(chars@.subrange(0, 0) =~= Seq::<char>::empty());
        assert(pieces(chars@.take(0)) =~= seq![Seq::<char>::empty()]);
        assert(pieces(chars@.take(0)).drop_last() =~= Seq::<Seq<char>>::empty());
        assert(views(lines@) =~= stripped(pieces(chars@.take(0)).drop_last()));
    }
    while i < chars.len()
        invariant
            chars@ == content@,
            start <= i <= chars@.len(),
            pieces(chars@.take(i as int)).len() >= 1,
            pieces(chars@.take(i as int)).last() == chars@.subrange(start as int, i as int),
            views(lines@) == stripped(pieces(chars@.take(i as int)).drop_last()),
        decreases chars@.len() - i,
    {
        let ghost before = pieces(chars@.take(i as int));
        proof {
            let next = chars@.take(i + 1);
            assert(next.drop_last() =~= chars@.take(i as int));
            assert(next.last() == chars@[i as int]);
            lemma_pieces_nonempty(next);
        }
        if chars[i] == '\n' {
            let end: usize = if i > start && chars[i - 1] == '\r' {
                i - 1
            } else {
                i
            };
            let line: String = string_of(chars.as_slice(), start, end);
            let ghost old_lines = lines@;
            lines.push(line);
            proof {
                let piece = chars@.subrange(start as int, i as int);
                if i > start && chars@[i - 1] == '\r' {
                    assert(piece.last() == '\r');
                    assert(piece.drop_last() =~= chars@.subrange(start as int, end as int));
                } else {
                    assert(piece =~= chars@.subrange(start as int, end as int));
                }
                assert(line@ == without_carriage_return(piece));
                let after = pieces(chars@.take(i + 1));
                assert(after == before.push(Seq::<char>::empty()));
                assert(after.drop_last() =~= before);
                assert(before =~= before.drop_last().push(piece));
                lemma_stripped_push(before.drop_last(), piece);
                lemma_views_push(old_lines, line);
                assert(chars@.subrange(i + 1, i + 1) =~= Seq::<char>::empty());
            }
            start = i + 1;
        } else {
            proof {
                let after = pieces(chars@.take(i + 1));
                assert(after == before.drop_last().push(before.last().push(chars@[i as int])));
                assert(after.drop_last() =~= before.drop_last());
                assert(chars@.subrange(start as int, i + 1) =~= chars@.subrange(
                    start as int,
                    i as int,
                ).push(chars@[i as int]));
            }
        }
        i = i + 1;
    }
    proof {
        assert(chars@.take(chars@.len() as int) =~= chars@);
    }
    if start < chars.len() {
        let n: usize = chars.len();
        let end: usize = if chars[n - 1] == '\r' {
            n - 1
        } else {
            n
        };
        let line: String = string_of(chars.as_slice(), start, end);
        let ghost old_lines = lines@;
        lines.push(line);
        proof {
            let all = pieces(chars@);
            let piece = chars@.subrange(start as int, n as int);
            if chars@[n - 1] == '\r' {
                assert(piece.last() == '\r');
                assert(piece.drop_last() =~= chars@.subrange(start as int, end as int));
            } else {
                assert(piece =~= chars@.subrange(start as int, end as int));
            }
            assert(all =~= all.drop_last().push(piece));
            lemma_stripped_push(all.drop_last(), piece);
            lemma_views_push(old_lines, line);
        }
    }
    lines
}

/// Adds up the counts of the lines, or tells that the sum is out of range.
pub fn total_matches(counts: &[usize]) -> (r: Result<usize, WordCountError>)
    ensures
        match r {
            Ok(n) => n == total(counts@),
            Err(e) => e == WordCountError::CountOverflow && total(counts@) > usize::MAX,
        },
{
    let mut sum: usize = 0;
    let mut i: usize = 0;
    while i < counts.len()
        invariant
            i <= counts@.len(),
            sum == total(counts@.take(i as int)),
        decreases counts@.len() - i,
    {
        proof {
            let next = counts@.take(i + 1);
            assert(next.drop_last() =~= counts@.take(i as int));
            assert(next.last() == counts@[i as int]);
        }
        match sum.checked_add(counts[i]) {
            Some(s) => {
                sum = s;
            },
            None => {
                proof {
                    lemma_total_grows(counts@, i + 1);
                }
                return Err(WordCountError::CountOverflow);
            },
        }
        i = i + 1;
    }
    assert(counts@.take(counts@.len() as int) =~= counts@);
    Ok(sum)
}

/// The sum of the first counts never exceeds the sum of all.
proof fn lemma_total_grows(counts: Seq<usize>, n: int)
    requires
        0 <= n <= counts.len(),
    ensures
        total(counts.take(n)) <= total(counts),
    decreases counts.len() - n,
{
    if n < counts.len() {
        let next = counts.take(n + 1);
        assert(next.drop_last() =~= counts.take(n));
        lemma_total_grows(counts, n + 1);
    } else {
        assert(counts.take(n) =~= counts);
    }
}

/// Counts the whole-word occurrences of `word` in `content`, line by line.
///
/// The count fails with `PatternRejected` where the regular expression for
/// the word does not compile, and with `CountOverflow` where the sum over
/// the lines exceeds `usize`.
pub fn find_word_matches(content: &str, word: &str) -> (r: Result<usize, WordCountError>)
    ensures
        match r {
            Ok(n) => regex_compiles(word_pattern_spec(word@)) && n == matches_in_lines(
                word_pattern_spec(word@),
                text_lines(content@),
            ),
            Err(WordCountError::PatternRejected) => !regex_compiles(word_pattern_spec(word@)),
            Err(WordCountError::CountOverflow) => regex_compiles(word_pattern_spec(word@))
                && matches_in_lines(word_pattern_spec(word@), text_lines(content@)) > usize::MAX,
        },
{
    let pattern: String = word_pattern(word);
    if !pattern_compiles(pattern.as_str()) {
        return Err(WordCountError::PatternRejected);
    }
    let lines: Vec<String> = split_lines(content);
    let mut counts: Vec<usize> = Vec::new();
    let mut i: usize = 0;
    while i < lines.len()
        invariant
            i <= lines@.len(),
            counts@.len() == i,
            regex_compiles(pattern@),
            total(counts@) == matches_in_lines(pattern@, views(lines@).take(i as int)),
        decreases lines@.len() - i,
    {
        let n: usize = match match_count(pattern.as_str(), lines[i].as_str()) {
            Some(n) => n,
            None => {
                return Err(WordCountError::PatternRejected);
            },
        };
        let ghost old_counts = counts@;
        counts.push(n);
        proof {
            let next = views(lines@).take(i + 1);
            assert(next.drop_last() =~= views(lines@).take(i as int));
            assert(next.last() == lines@[i as int]@);
            assert(counts@.drop_last() =~= old_counts);
        }
        i = i + 1;
    }
    proof {
        assert(views(lines@).take(lines@.len() as int) =~= views(lines@));
    }
    total_matches(counts.as_slice())
}

} // verus!
