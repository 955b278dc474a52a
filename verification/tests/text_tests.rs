use ship::text::{chars_of, concat_text, decimal, join, output_lines, parse_u64, replace_all, same_text, string_from_chars, text_less};

#[test]
fn parse_u64_reads_plain_and_plus_numbers() {
    assert_eq!(parse_u64("0"), Some(0));
    assert_eq!(parse_u64("42"), Some(42));
    assert_eq!(parse_u64("+7"), Some(7));
    assert_eq!(parse_u64("18446744073709551615"), Some(u64::MAX));
}

#[test]
fn parse_u64_rejects_bad_numbers() {
    assert_eq!(parse_u64(""), None);
    assert_eq!(parse_u64("+"), None);
    assert_eq!(parse_u64("-1"), None);
    assert_eq!(parse_u64("12a"), None);
    assert_eq!(parse_u64(" 1"), None);
    assert_eq!(parse_u64("18446744073709551616"), None);
}

#[test]
fn decimal_then_parse_gives_the_number_back() {
    for n in [0usize, 7, 10, 99, 100, 12345, 4294967295] {
        let text = decimal(n);
        assert_eq!(parse_u64(text.as_str()), Some(n as u64));
    }
    assert_eq!(decimal(305), "305");
}

#[test]
fn replace_all_replaces_every_occurrence_from_the_left() {
    assert_eq!(replace_all("a{id}b{id}", "{id}", "X"), "aXbX");
    assert_eq!(replace_all("aaa", "aa", "b"), "ba");
    assert_eq!(replace_all("{project}", "{project}", ""), "");
}

#[test]
fn replace_all_leaves_text_without_the_pattern() {
    assert_eq!(replace_all("docker image ls", "{id}", "abc"), "docker image ls");
    assert_eq!(replace_all("", "{id}", "abc"), "");
}

#[test]
fn output_lines_drops_the_part_after_the_last_newline() {
    assert_eq!(output_lines("a\nb\n"), vec!["a".to_string(), "b".to_string()]);
    assert_eq!(output_lines("a\nb"), vec!["a".to_string()]);
    assert_eq!(output_lines(""), Vec::<String>::new());
    assert_eq!(output_lines("\n\n"), vec!["".to_string(), "".to_string()]);
}

#[test]
fn join_puts_the_separator_between_items() {
    let items = vec!["a".to_string(), "b".to_string(), "c".to_string()];
    assert_eq!(join(&items, ", "), "a, b, c");
    assert_eq!(join(&vec!["only".to_string()], ", "), "only");
    assert_eq!(join(&Vec::new(), ", "), "");
}

#[test]
fn text_helpers_agree_with_std() {
    assert_eq!(concat_text("ab", "cd"), "abcd");
    assert!(same_text("x", "x"));
    assert!(!same_text("x", "y"));
    assert!(text_less("a", "b"));
    assert!(text_less("a", "ab"));
    assert!(!text_less("b", "a"));
    assert!(!text_less("a", "a"));
    let cs = chars_of("h\u{e9}");
    assert_eq!(cs, vec!['h', '\u{e9}']);
    assert_eq!(string_from_chars(&cs), "h\u{e9}");
}

#[test]
fn replace_all_with_an_empty_pattern_matches_std() {
    for (s, w) in [("abc", "X"), ("", "X"), ("h\u{e9}", "--"), ("ab", "")] {
        assert_eq!(replace_all(s, "", w), s.replace("", w));
    }
}
