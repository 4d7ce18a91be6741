use first_link::text::{ends_with, is_white_space, occurs_at, spans, starts_with, trim_bounds};

#[test]
fn white_space_is_that_of_the_standard_library() {
    let mut code: u32 = 0;
    while code <= 0x10ffff {
        if let Some(c) = char::from_u32(code) {
            assert_eq!(is_white_space(c), c.is_whitespace(), "U+{:04X}", code);
        }
        code += 1;
    }
}

#[test]
fn white_space_by_example() {
    assert!(is_white_space(' '));
    assert!(is_white_space('\t'));
    assert!(is_white_space('\n'));
    assert!(is_white_space('\r'));
    assert!(is_white_space('\u{a0}'));
    assert!(is_white_space('\u{3000}'));
    assert!(!is_white_space('a'));
    assert!(!is_white_space('<'));
    assert!(!is_white_space('\u{200b}'));
    assert!(!is_white_space('\u{8}'));
    assert!(!is_white_space('\u{e}'));
}

#[test]
fn trim_bounds_count_characters() {
    assert_eq!(trim_bounds(""), (0, 0));
    assert_eq!(trim_bounds("abc"), (0, 3));
    assert_eq!(trim_bounds("  abc \t"), (2, 5));
    assert_eq!(trim_bounds(" a b "), (1, 4));
    assert_eq!(trim_bounds("\u{a0}é\u{3000}ü "), (1, 4));
}

#[test]
fn trim_bounds_agree_with_the_standard_library() {
    for s in ["", " ", "   ", "x", " x", "x ", "  <page>  ", "\t a  b \r", "\u{2003}é é\u{85}"] {
        let (from, to) = trim_bounds(s);
        let part: String = s.chars().skip(from).take(to - from).collect();
        assert_eq!(part, s.trim(), "{:?}", s);
    }
}

#[test]
fn trim_bounds_of_white_space_are_empty() {
    let (from, to) = trim_bounds(" \t \n");
    assert_eq!(from, to);
}

#[test]
fn occurs_at_counts_characters_not_bytes() {
    assert!(occurs_at("héllo", 2, "llo"));
    assert!(!occurs_at("héllo", 3, "llo"));
    assert!(occurs_at("héllo", 1, "é"));
    assert!(occurs_at("héllo", 5, ""));
    assert!(!occurs_at("héllo", 6, ""));
    assert!(!occurs_at("héllo", 4, "oo"));
    assert!(occurs_at("", 0, ""));
    assert!(!occurs_at("", 0, "a"));
}

#[test]
fn starts_with_by_example() {
    assert!(starts_with("#REDIRECT [[Bar]]", "#REDIRECT"));
    assert!(starts_with("#REDIRECT", "#REDIRECT"));
    assert!(starts_with("anything", ""));
    assert!(!starts_with("#REDIREC", "#REDIRECT"));
    assert!(!starts_with(" #REDIRECT", "#REDIRECT"));
    assert!(!starts_with("#redirect [[Bar]]", "#REDIRECT"));
    assert!(!starts_with("", "#REDIRECT"));
}

#[test]
fn ends_with_by_example() {
    assert!(ends_with("Foo (disambiguation)", "(disambiguation)"));
    assert!(ends_with("(disambiguation)", "(disambiguation)"));
    assert!(ends_with("anything", ""));
    assert!(ends_with("Café (disambiguation)", "(disambiguation)"));
    assert!(!ends_with("Foo (disambiguation) ", "(disambiguation)"));
    assert!(!ends_with("disambiguation)", "(disambiguation)"));
    assert!(!ends_with("Foo (Disambiguation)", "(disambiguation)"));
    assert!(!ends_with("", "(disambiguation)"));
}

#[test]
fn spans_compares_the_whole_range() {
    assert!(spans("  <page> ", 2, 8, "<page>"));
    assert!(!spans("  <page> ", 2, 9, "<page>"));
    assert!(!spans("  <page> ", 2, 7, "<page>"));
    assert!(!spans("  <page> ", 2, 8, "</page"));
    assert!(spans("abc", 1, 1, ""));
    assert!(spans("héllo", 1, 3, "él"));
}

#[test]
fn spans_of_no_part_is_false() {
    assert!(!spans("abc", 2, 1, ""));
    assert!(!spans("abc", 1, 4, "bcd"));
    assert!(!spans("abc", 4, 4, ""));
    assert!(!spans("abc", 3, 5, "  "));
}
