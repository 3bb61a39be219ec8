//! Text as sequences of characters: the pieces that the helpers for word
//! counting and for file names share.

use vstd::prelude::*;

verus! {

/// `String::push` appends one character to the end of the string.
pub assume_specification[ String::push ](s: &mut String, c: char)
    ensures
        final(s)@ == old(s)@.push(c),
;

/// Equality of two string slices means that they hold the same characters.
pub assume_specification[ <str as PartialEq>::eq ](a: &str, b: &str) -> (r: bool)
    ensures
        r == (a@ == b@),
;

/// The texts of a list of strings.
pub open spec fn views(strings: Seq<String>) -> Seq<Seq<char>> {
    strings.map_values(|s: String| s@)
}

/// What follows the last `separator` in `text`: all of `text` where it holds
/// no separator, nothing where it ends with one.
pub open spec fn last_piece(text: Seq<char>, separator: char) -> Seq<char>
    decreases text.len(),
{
    if text.len() == 0 {
        Seq::empty()
    } else if text.last() == separator {
        Seq::empty()
    } else {
        last_piece(text.drop_last(), separator).push(text.last())
    }
}

/// The last piece is the longest tail of the text that is free of the
/// separator: it ends the text, holds no separator, and either is the whole
/// text or comes right after a separator.
pub proof fn lemma_last_piece(text: Seq<char>, separator: char)
    ensures
        last_piece(text, separator).len() <= text.len(),
        last_piece(text, separator) == text.subrange(
            text.len() - last_piece(text, separator).len(),
            text.len() as int,
        ),
        !last_piece(text, separator).contains(separator),
        last_piece(text, separator).len() == text.len() || text[text.len() - last_piece(
            text,
            separator,
        ).len() - 1] == separator,
        !text.contains(separator) ==> last_piece(text, separator) == text,
    decreases text.len(),
{
    let piece = last_piece(text, separator);
    if text.len() == 0 {
        assert(piece =~= text.subrange(0, 0));
        assert(piece =~= text);
    } else if text.last() == separator {
        assert(piece =~= text.subrange(text.len() as int, text.len() as int));
        assert(text.contains(separator));
    } else {
        let front = text.drop_last();
        let inner = last_piece(front, separator);
        lemma_last_piece(front, separator);
        assert(piece =~= text.subrange(text.len() - piece.len(), text.len() as int));
        assert forall|i: int| 0 <= i < piece.len() implies piece[i] != separator by {
            if i < inner.len() {
                assert(inner.contains(inner[i]));
            }
        }
        if !text.contains(separator) {
            assert forall|i: int| 0 <= i < front.len() implies front[i] != separator by {
                assert(text[i] == front[i]);
                assert(text.contains(text[i]));
            }
            assert(inner == front);
            assert(piece =~= text);
        }
    }
}

/// Copies the characters of a string slice into a vector.
pub(crate) fn chars_of(s: &str) -> (chars: Vec<char>)
    ensures
        chars@ == s@,
{
    let mut chars: Vec<char> = Vec::new();
    for c in it: s.chars()
        invariant
            chars@ == it.seq().take(it.index() as int),
            it.seq() == s@,
    {
        chars.push(c);
    }
    chars
}

/// Makes a string of the characters `chars[from..to]`.
pub(crate) fn string_of(chars: &[char], from: usize, to: usize) -> (s: String)
    requires
        from <= to <= chars@.len(),
    ensures
        s@ == chars@.subrange(from as int, to as int),
{
    let mut s: String = String::new();
    let mut i: usize = from;
    while i < to
        invariant
            from <= i <= to <= chars@.len(),
            s@ == chars@.subrange(from as int, i as int),
        decreases to - i,
    {
        s.push(chars[i]);
        assert(chars@.subrange(from as int, i as int).push(chars@[i as int]) =~= chars@.subrange(
            from as int,
            i + 1,
        ));
        i = i + 1;
    }
    s
}

/// Finds where the last piece of `chars` begins.
pub(crate) fn last_piece_start(chars: &[char], separator: char) -> (start: usize)
    ensures
        start <= chars@.len(),
        chars@.subrange(start as int, chars@.len() as int) == last_piece(chars@, separator),
{
    let mut start: usize = 0;
    let mut i: usize = 0;
    while i < chars.len()
        invariant
            start <= i <= chars@.len(),
            chars@.subrange(start as int, i as int) == last_piece(chars@.take(i as int), separator),
        decreases chars@.len() - i,
    {
        proof {
            let next = chars@.take(i + 1);
            assert(next.drop_last() =~= chars@.take(i as int));
            assert(next.last() == chars@[i as int]);
            if chars@[i as int] == separator {
                assert(chars@.subrange(i + 1, i + 1) =~= Seq::<char>::empty());
            } else {
                assert(chars@.subrange(start as int, i + 1) =~= chars@.subrange(
                    start as int,
                    i as int,
                ).push(chars@[i as int]));
            }
        }
        if chars[i] == separator {
            start = i + 1;
        }
        i = i + 1;
    }
    assert(chars@.take(chars@.len() as int) =~= chars@);
    start
}

} // verus!
