use mcp_server::order::{not_after, sort_names};
use mcp_server::text::{
    begins_at, chars_of, contains_char, decimal_text, drop_back, drop_front, pad, position,
    same_text, slice, spells, starts_with, string_of, strip_prefix, trim, whole, CharSet,
};

#[test]
fn characters_come_in_order() {
    assert_eq!(chars_of("a\u{e9}b"), vec!['a', '\u{e9}', 'b']);
    assert_eq!(string_of(&chars_of("a\u{e9}bc"), 1, 3), "\u{e9}b");
    assert_eq!(whole(&chars_of("a\u{e9}bc")), "a\u{e9}bc");
    assert_eq!(slice(&chars_of("hello"), 1, 4), vec!['e', 'l', 'l']);
}

#[test]
fn white_space_is_what_the_standard_library_says() {
    for n in 0..=0x10ffffu32 {
        if let Some(c) = char::from_u32(n) {
            assert_eq!(CharSet::Whitespace.contains(c), c.is_whitespace(), "{}", n);
        }
    }
    assert!(CharSet::Only('x').contains('x'));
    assert!(!CharSet::Only('x').contains('y'));
}

#[test]
fn trimming_agrees_with_the_standard_library() {
    for s in [
        "", " ", "a", "  a b ", "\t\u{3000}x\u{a0}\n", "\u{200b}z", "\r\n", " \u{2003}mid dle\u{85}",
    ] {
        let trimmed = whole(&trim(&chars_of(s)));
        assert_eq!(trimmed, s.trim());
        assert_eq!(whole(&trim(&chars_of(&trimmed))), trimmed);
    }
    let angle = drop_back(&drop_front(&chars_of("<<a<b>>"), CharSet::Only('<')), CharSet::Only('>'));
    assert_eq!(whole(&angle), "a<b");
}

#[test]
fn prefixes_and_positions() {
    assert!(starts_with("/mcp add x", "/mcp add"));
    assert!(!starts_with("/mcp", "/mcp add"));
    assert!(starts_with("", ""));
    assert!(begins_at(&chars_of("xxab"), 2, "ab"));
    assert!(!begins_at(&chars_of("xxab"), 1, "ab"));
    assert_eq!(strip_prefix(&chars_of("abc"), "ab"), Some(vec!['c']));
    assert_eq!(strip_prefix(&chars_of("abc"), "b"), None);
    assert_eq!(position(&chars_of("a b c"), ' '), Some(1));
    assert_eq!(position(&chars_of("abc"), ' '), None);
    assert!(contains_char("a/b", '/'));
    assert!(!contains_char("ab", '/'));
    assert!(spells(&chars_of("help"), "help"));
    assert!(!spells(&chars_of("help"), "hell"));
    assert!(same_text("x", "x"));
    assert!(!same_text("x", "xy"));
}

#[test]
fn numbers_in_decimal() {
    for n in [0u64, 7, 9, 10, 42, 99, 100, 9000, 65535, u64::MAX] {
        assert_eq!(decimal_text(n), n.to_string());
    }
}

#[test]
fn padding_counts_characters() {
    assert_eq!(pad("ab", 4), "ab  ");
    assert_eq!(pad("abcd", 4), "abcd");
    assert_eq!(pad("abcde", 4), "abcde");
    assert_eq!(pad("\u{e9}", 3), "\u{e9}  ");
}

#[test]
fn names_are_sorted_as_strings_are() {
    let names: Vec<String> = ["b", "a", "ab", "", "B", "\u{e9}", "a-1", "a_1", "a1", "z", "\u{10000}", "\u{ffff}"]
        .iter()
        .map(|s| s.to_string())
        .collect();
    let mut expected = names.clone();
    expected.sort();
    assert_eq!(sort_names(names), expected);
    assert!(not_after("a", "a"));
    assert!(not_after("a", "ab"));
    assert!(!not_after("b", "ab"));
}
