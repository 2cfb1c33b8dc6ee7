use hgrep::text::{has_part, is_whitespace, matches_at, parse_list, same_text, to_chars, trim};

fn chars(s: &str) -> Vec<char> {
    s.chars().collect()
}

#[test]
fn to_chars_keeps_order_and_non_ascii() {
    assert_eq!(to_chars("añb"), vec!['a', 'ñ', 'b']);
    assert_eq!(to_chars(""), Vec::<char>::new());
}

#[test]
fn same_text_compares_every_character() {
    assert!(same_text(&chars("abc"), &chars("abc")));
    assert!(!same_text(&chars("abc"), &chars("abd")));
    assert!(!same_text(&chars("abc"), &chars("ab")));
    assert!(same_text(&chars(""), &chars("")));
}

#[test]
fn matches_at_checks_one_offset() {
    assert!(matches_at(&chars("hello"), &chars("ll"), 2));
    assert!(!matches_at(&chars("hello"), &chars("ll"), 1));
    assert!(matches_at(&chars("hello"), &chars(""), 5));
}

#[test]
fn matches_at_is_false_beyond_the_end() {
    assert!(!matches_at(&chars("hello"), &chars("lo"), 4));
    assert!(!matches_at(&chars("hello"), &chars(""), 6));
    assert!(!matches_at(&chars("hi"), &chars("high"), 0));
    assert!(!matches_at(&chars(""), &chars("a"), 0));
    assert!(!matches_at(&chars("hello"), &chars("h"), usize::MAX));
}

#[test]
fn has_part_finds_a_part_anywhere() {
    assert!(has_part(&chars("src/node_modules/x"), &chars("node_modules")));
    assert!(has_part(&chars("abc"), &chars("abc")));
    assert!(has_part(&chars("abc"), &chars("c")));
    assert!(has_part(&chars("abc"), &chars("")));
    assert!(has_part(&chars(""), &chars("")));
    assert!(!has_part(&chars("abc"), &chars("abcd")));
    assert!(!has_part(&chars("abc"), &chars("ca")));
    assert!(!has_part(&chars("aab"), &chars("aba")));
    assert!(has_part(&chars("aaab"), &chars("aab")));
}

#[test]
fn is_whitespace_agrees_with_the_unicode_property() {
    let mut code: u32 = 0;
    while code <= 0x10FFFF {
        if let Some(c) = char::from_u32(code) {
            assert_eq!(is_whitespace(c), c.is_whitespace(), "U+{:04X}", code);
        }
        code += 1;
    }
}

#[test]
fn trim_removes_white_space_at_both_ends_only() {
    assert_eq!(trim("  a b \t\n"), "a b");
    assert_eq!(trim("\u{3000}x\u{2003}"), "x");
    assert_eq!(trim("x"), "x");
    assert_eq!(trim("   "), "");
    assert_eq!(trim(""), "");
}

#[test]
fn trim_agrees_with_the_standard_library() {
    for s in [" a", "a ", " a ", "\u{a0}a\u{a0}", "\u{85}\u{1680}b c\u{2028}\u{2029}", "\u{200b}a"] {
        assert_eq!(trim(s), s.trim());
    }
}

#[test]
fn parse_list_splits_on_commas_and_trims() {
    assert_eq!(parse_list("a, b ,c"), vec!["a", "b", "c"]);
    assert_eq!(parse_list("node_modules"), vec!["node_modules"]);
    assert_eq!(parse_list(" target , .git "), vec!["target", ".git"]);
}

#[test]
fn parse_list_keeps_empty_items() {
    assert_eq!(parse_list(""), vec![""]);
    assert_eq!(parse_list(","), vec!["", ""]);
    assert_eq!(parse_list("a,,b,"), vec!["a", "", "b", ""]);
    assert_eq!(parse_list(" , "), vec!["", ""]);
}
