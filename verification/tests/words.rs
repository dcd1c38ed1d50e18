use wavefront_rs::fields::{read_integers, read_numbers, read_text, word_is};
use wavefront_rs::error::ParseError;
use wavefront_rs::number::check_number;
use wavefront_rs::text::{
    append_space, chars_of, check_normalized, is_space, join_words, normalize, scan_tokens, Span,
};

fn spans_of(line: &str) -> Vec<(usize, usize)> {
    let chars = chars_of(line);
    scan_tokens(&chars).iter().map(|s| (s.start, s.end)).collect()
}

#[test]
fn whitespace_is_the_unicode_property() {
    for c in '\0'..='\u{3100}' {
        assert_eq!(is_space(c), c.is_whitespace(), "{:?}", c);
    }
    assert!(!is_space('\u{feff}'));
    assert!(!is_space('\u{10ffff}'));
}

#[test]
fn chars_of_gives_each_character() {
    assert_eq!(chars_of(""), Vec::<char>::new());
    assert_eq!(chars_of("aé立"), vec!['a', 'é', '立']);
}

#[test]
fn scan_finds_maximal_runs() {
    assert_eq!(spans_of(""), vec![]);
    assert_eq!(spans_of("   "), vec![]);
    assert_eq!(spans_of("a"), vec![(0, 1)]);
    assert_eq!(spans_of("v 1.0  2.0"), vec![(0, 1), (2, 5), (7, 10)]);
    assert_eq!(spans_of("\t ab\ncd \r"), vec![(2, 4), (5, 7)]);
}

#[test]
fn scan_counts_characters_not_bytes() {
    assert_eq!(spans_of("é 立方 x"), vec![(0, 1), (2, 4), (5, 6)]);
}

#[test]
fn scan_agrees_with_split_whitespace() {
    for line in ["", " ", "a b", "  a  b  ", "v 1 2 3", "# x\ty\u{a0}z", "o\u{2003}wide\u{3000}space", "tail \n"] {
        let chars = chars_of(line);
        let words: Vec<String> = scan_tokens(&chars)
            .iter()
            .map(|s| chars[s.start..s.end].iter().collect())
            .collect();
        let expected: Vec<String> = line.split_whitespace().map(|w| w.to_string()).collect();
        assert_eq!(words, expected, "{:?}", line);
    }
}

#[test]
fn word_is_compares_the_whole_stretch() {
    let chars = chars_of("map_Kd x");
    let head = Span { start: 0, end: 6 };
    assert!(word_is(&chars, head, "map_Kd"));
    assert!(!word_is(&chars, head, "map_Ka"));
    assert!(!word_is(&chars, head, "map_K"));
    assert!(!word_is(&chars, head, "map_Kdx"));
    assert!(word_is(&chars, Span { start: 3, end: 3 }, ""));
}

#[test]
fn read_text_joins_the_fields_with_single_spaces() {
    let line = "#  a   bc \t d ";
    let chars = chars_of(line);
    let spans = scan_tokens(&chars);
    assert_eq!(read_text(line, &chars, &spans), "a bc d");
    let line = "#";
    let chars = chars_of(line);
    let spans = scan_tokens(&chars);
    assert_eq!(read_text(line, &chars, &spans), "");
}

#[test]
fn read_numbers_checks_count_then_fields() {
    let line = "v 1 2.5 -3e2";
    let chars = chars_of(line);
    let spans = scan_tokens(&chars);
    let numbers = read_numbers(line, &chars, &spans, 3, 4).unwrap();
    let texts: Vec<&str> = numbers.iter().map(|n| n.as_str()).collect();
    assert_eq!(texts, vec!["1", "2.5", "-3e2"]);
    assert_eq!(read_numbers(line, &chars, &spans, 4, 4), Err(ParseError::WrongArity { found: 3 }));
    assert_eq!(read_numbers(line, &chars, &spans, 1, 2), Err(ParseError::WrongArity { found: 3 }));
    let line = "v 1 two three";
    let chars = chars_of(line);
    let spans = scan_tokens(&chars);
    assert_eq!(
        read_numbers(line, &chars, &spans, 3, 3),
        Err(ParseError::MalformedNumber { field: 1 })
    );
}

#[test]
fn read_integers_reports_the_first_malformed_field() {
    let chars = chars_of("l 1 -2 +3");
    let spans = scan_tokens(&chars);
    assert_eq!(read_integers(&chars, &spans), Ok(vec![1, -2, 3]));
    let chars = chars_of("l 1 2 x y");
    let spans = scan_tokens(&chars);
    assert_eq!(read_integers(&chars, &spans), Err(ParseError::MalformedInteger { field: 2 }));
}

#[test]
fn check_number_looks_at_the_stretch_only() {
    let chars = chars_of("x1.5e3y");
    assert!(check_number(&chars, Span { start: 1, end: 6 }));
    assert!(!check_number(&chars, Span { start: 0, end: 6 }));
    assert!(!check_number(&chars, Span { start: 1, end: 7 }));
    assert!(!check_number(&chars, Span { start: 2, end: 2 }));
}

#[test]
fn append_space_adds_one_space() {
    let mut out = String::from("v");
    append_space(&mut out);
    assert_eq!(out, "v ");
}

#[test]
fn normalize_joins_the_words_with_single_spaces() {
    assert_eq!(normalize(""), "");
    assert_eq!(normalize(" \t "), "");
    assert_eq!(normalize("one"), "one");
    assert_eq!(normalize("  two   words\n"), "two words");
    assert_eq!(normalize("a\u{3000}b\tc"), "a b c");
}

#[test]
fn normalize_leaves_normalized_text_as_it_is() {
    for text in ["", "a", "a b", "hello world", "-bm 1 bumps.png"] {
        assert_eq!(normalize(text), text);
        assert_eq!(normalize(&normalize(text)), normalize(text));
    }
}

#[test]
fn join_words_starts_at_the_word_asked_for() {
    let line = " a  b c ";
    let chars = chars_of(line);
    let spans = scan_tokens(&chars);
    assert_eq!(join_words(line, &chars, &spans, 0), "a b c");
    assert_eq!(join_words(line, &chars, &spans, 2), "c");
    assert_eq!(join_words(line, &chars, &spans, 3), "");
}

#[test]
fn check_normalized_accepts_words_with_single_spaces() {
    for text in ["", "a", "a b", "hello world", "x y z", "-bm 1 bumps.png", "立方体 é"] {
        assert!(check_normalized(text), "{:?}", text);
    }
}

#[test]
fn check_normalized_refuses_other_whitespace() {
    for text in [" ", " a", "a ", "a  b", "a\tb", "a\nb", "a b\n", "a\u{a0}b", "\u{3000}"] {
        assert!(!check_normalized(text), "{:?}", text);
    }
}
