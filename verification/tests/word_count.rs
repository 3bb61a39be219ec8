use node_helpers::words::{
    find_word_matches, split_lines, total_matches, word_pattern, WordCountError,
};
use rayon::iter::ParallelIterator;
use rayon::str::ParallelString;
use regex::Regex;

fn by_hand(content: &str, word: &str) -> usize {
    let re = Regex::new(&format!(r"\b{}\b", regex::escape(word))).unwrap();
    content.par_lines().map(|line| re.find_iter(line).count()).sum()
}

#[test]
fn pattern_of_a_plain_word() {
    assert_eq!(word_pattern("cat"), r"\bcat\b");
    assert_eq!(word_pattern(""), r"\b\b");
    assert_eq!(word_pattern("two words"), r"\btwo words\b");
}

#[test]
fn pattern_escapes_meta_characters() {
    assert_eq!(word_pattern("a.b"), r"\ba\.b\b");
    assert_eq!(word_pattern("c++"), r"\bc\+\+\b");
    assert_eq!(
        word_pattern(r"\.+*?()|[]{}^$#&-~"),
        r"\b\\\.\+\*\?\(\)\|\[\]\{\}\^\$\#\&\-\~\b"
    );
    assert_eq!(word_pattern("a%b/c!d\"e"), "\\ba%b/c!d\"e\\b");
}

#[test]
fn lines_end_at_line_feeds() {
    assert_eq!(split_lines("a\nb"), vec!["a", "b"]);
    assert_eq!(split_lines("a\nb\n"), vec!["a", "b"]);
    assert_eq!(split_lines("one line"), vec!["one line"]);
    assert_eq!(split_lines("a\n\nb"), vec!["a", "", "b"]);
    assert_eq!(split_lines("\n"), vec![""]);
    assert_eq!(split_lines("\n\n"), vec!["", ""]);
    assert_eq!(split_lines("\na"), vec!["", "a"]);
}

#[test]
fn empty_text_has_no_line() {
    assert_eq!(split_lines(""), Vec::<String>::new());
}

#[test]
fn one_carriage_return_is_dropped() {
    assert_eq!(split_lines("a\r\nb\r\n"), vec!["a", "b"]);
    assert_eq!(split_lines("a\r"), vec!["a"]);
    assert_eq!(split_lines("\r"), vec![""]);
    assert_eq!(split_lines("\r\n"), vec![""]);
    assert_eq!(split_lines("a\r\r\nb"), vec!["a\r", "b"]);
    assert_eq!(split_lines("a\rb\nc"), vec!["a\rb", "c"]);
    assert_eq!(split_lines("a\n\r"), vec!["a", ""]);
}

#[test]
fn lines_agree_with_the_parallel_splitter() {
    let texts = [
        "",
        "\n",
        "\r",
        "\r\n",
        "a",
        "a\n",
        "a\r\n",
        "a\r",
        "a\n\r",
        "a\n\n",
        "\n\na\r\r\n\r\nb\r",
        "été\nñandú\r\n日本語",
        "x\ny\nz\n",
    ];
    for t in texts {
        let expected: Vec<String> = t.par_lines().map(|l| l.to_string()).collect();
        assert_eq!(split_lines(t), expected);
    }
}

#[test]
fn counts_add_up() {
    assert_eq!(total_matches(&[]), Ok(0));
    assert_eq!(total_matches(&[3]), Ok(3));
    assert_eq!(total_matches(&[1, 0, 2, 4]), Ok(7));
    assert_eq!(total_matches(&[usize::MAX, 0]), Ok(usize::MAX));
    assert_eq!(total_matches(&[usize::MAX - 1, 1]), Ok(usize::MAX));
}

#[test]
fn too_many_counts_overflow() {
    assert_eq!(total_matches(&[usize::MAX, 1]), Err(WordCountError::CountOverflow));
    assert_eq!(total_matches(&[1, usize::MAX, 5]), Err(WordCountError::CountOverflow));
    assert_eq!(
        total_matches(&[usize::MAX / 2 + 1, usize::MAX / 2 + 1]),
        Err(WordCountError::CountOverflow)
    );
}

#[test]
fn whole_words_are_counted() {
    let text = "the cat sat on the cat mat\ncat\ncategory cat.\n";
    assert_eq!(find_word_matches(text, "cat"), Ok(4));
    assert_eq!(find_word_matches(text, "the"), Ok(2));
    assert_eq!(find_word_matches(text, "dog"), Ok(0));
    assert_eq!(find_word_matches(text, "category"), Ok(1));
    assert_eq!(find_word_matches("", "cat"), Ok(0));
    assert_eq!(find_word_matches("concatenate\nbobcat", "cat"), Ok(0));
}

#[test]
fn counting_regards_case() {
    assert_eq!(find_word_matches("Cat cat CAT cat", "cat"), Ok(2));
    assert_eq!(find_word_matches("Cat cat CAT cat", "Cat"), Ok(1));
}

#[test]
fn meta_characters_are_taken_literally() {
    assert_eq!(find_word_matches("a.b axb a.b", "a.b"), Ok(2));
    assert_eq!(find_word_matches("aaa a+ a", "a+"), Ok(0));
    // After `++` a word boundary needs a word character.
    assert_eq!(find_word_matches("c++x c++", "c++"), Ok(1));
}

#[test]
fn words_do_not_reach_over_lines() {
    assert_eq!(find_word_matches("a\nb", "a\nb"), Ok(0));
    assert_eq!(find_word_matches("a b\na b", "a b"), Ok(2));
    assert_eq!(find_word_matches("cat\r\ncat\r\n", "cat"), Ok(2));
}

#[test]
fn counts_agree_with_the_expression_by_hand() {
    let text = "x-ray x ray\nx_ray x\tX x.\n\n x\r\nxx x";
    for word in ["x", "ray", "x-ray", "X", "x.", "", " "] {
        assert_eq!(find_word_matches(text, word), Ok(by_hand(text, word)));
    }
}

#[test]
fn oversized_word_is_rejected() {
    // The compiled expression of so long a word exceeds the size limit.
    let word = "ab".repeat(300_000);
    assert!(Regex::new(&format!(r"\b{}\b", regex::escape(&word))).is_err());
    assert_eq!(find_word_matches("ab ab", &word), Err(WordCountError::PatternRejected));
    assert_eq!(find_word_matches("", &word), Err(WordCountError::PatternRejected));
}
