use hgrep::entry::{Entry, EntryKind};
use hgrep::pattern::{get_re, CompiledPattern};
use hgrep::report::{
    content_records, display_line, entry_records, found_record, matches_name, name_records,
    wants_contents, Record, ELLIPSIS, SHOWN,
};

fn compile(is_ignore: bool, is_whole: bool, pattern: &str) -> CompiledPattern {
    match get_re(is_ignore, is_whole, pattern) {
        Ok(re) => re,
        Err(e) => panic!("{:?}", e),
    }
}

fn file(path: &str) -> Entry {
    Entry { kind: EntryKind::File, path: String::from(path) }
}

fn dir(path: &str) -> Entry {
    Entry { kind: EntryKind::Directory, path: String::from(path) }
}

fn lines(items: &[&str]) -> Vec<Option<String>> {
    items.iter().map(|s| Some(String::from(*s))).collect()
}

fn found(kind: EntryKind, name: &str) -> Record {
    Record::Found { kind, name: String::from(name) }
}

fn line(number: usize, text: &str) -> Record {
    Record::Line { number, text: String::from(text) }
}

#[test]
fn limits_are_fifty_characters_and_three_dots() {
    assert_eq!(SHOWN, 50);
    assert_eq!(ELLIPSIS, "...");
}

#[test]
fn short_line_is_shown_whole() {
    assert_eq!(display_line("fn foo() {}", 3), "fn foo() {}");
    assert_eq!(display_line("", 0), "");
    let fifty = "x".repeat(50);
    assert_eq!(display_line(&fifty, 49), fifty);
}

#[test]
fn long_line_with_a_short_remainder_keeps_the_remainder() {
    let text = format!("{}{}", "a".repeat(60), "b".repeat(20));
    assert_eq!(text.chars().count(), 80);
    assert_eq!(display_line(&text, 60), format!("{}...", "b".repeat(20)));
}

#[test]
fn long_line_is_cut_to_fifty_characters_from_the_match() {
    let text = format!("{}{}{}", "a".repeat(10), "b".repeat(50), "c".repeat(20));
    assert_eq!(display_line(&text, 10), format!("{}...", "b".repeat(50)));
    assert_eq!(display_line(&text, 0), format!("{}{}...", "a".repeat(10), "b".repeat(40)));
}

#[test]
fn remainder_of_exactly_fifty_is_not_cut() {
    let text = format!("{}{}", "a".repeat(1), "b".repeat(50));
    assert_eq!(display_line(&text, 1), format!("{}...", "b".repeat(50)));
    assert_eq!(display_line(&text, 0), format!("a{}...", "b".repeat(49)));
    assert_eq!(display_line(&text, 51), "...");
}

#[test]
fn line_length_is_counted_in_characters() {
    let fifty = "é".repeat(50);
    assert_eq!(display_line(&fifty, 10), fifty);
    let long = format!("{}{}", "é".repeat(30), "ü".repeat(30));
    assert_eq!(display_line(&long, 5), format!("{}{}...", "é".repeat(25), "ü".repeat(25)));
    assert_eq!(display_line(&long, 30), format!("{}...", "ü".repeat(30)));
}

#[test]
fn found_record_carries_the_path_as_it_is() {
    assert_eq!(found_record(&file("a/\"b\".rs")), found(EntryKind::File, "a/\"b\".rs"));
    assert_eq!(found_record(&dir("src")), found(EntryKind::Directory, "src"));
    assert_eq!(found_record(&dir("./src/")), found(EntryKind::Directory, "./src/"));
}

#[test]
fn name_is_matched_in_the_final_component_only() {
    let re = compile(false, false, "foo");
    assert!(matches_name(&file("src/foo.rs"), &re));
    assert!(!matches_name(&file("foo/bar.rs"), &re));
    assert!(matches_name(&dir("a/b/xfoox"), &re));
    assert!(matches_name(&dir("foo/"), &re));
    assert!(matches_name(&dir("x/foo/./"), &re));
    assert!(!matches_name(&dir("foo/.."), &re));
    assert!(!matches_name(&dir("foo/bar/"), &re));
}

#[test]
fn name_rows_follow_kind_and_mode() {
    let re = compile(false, false, "foo");
    let f = file("x/foo.rs");
    let d = dir("x/foo");
    assert_eq!(name_records(&f, &re, true, true), vec![found(EntryKind::File, "x/foo.rs")]);
    assert_eq!(name_records(&f, &re, false, true), vec![found(EntryKind::File, "x/foo.rs")]);
    assert_eq!(name_records(&f, &re, true, false), vec![]);
    assert_eq!(name_records(&d, &re, true, false), vec![found(EntryKind::Directory, "x/foo")]);
    assert_eq!(name_records(&d, &re, false, true), vec![]);
    assert_eq!(name_records(&file("x/bar.rs"), &re, true, true), vec![]);
}

#[test]
fn contents_give_a_header_once_and_numbered_lines() {
    let re = compile(false, false, "foo");
    let f = file("src/a.rs");
    let rows = content_records(&f, &lines(&["x", "a foo", "y", "foo b", "foo"]), &re);
    assert_eq!(
        rows,
        vec![found(EntryKind::File, "src/a.rs"), line(2, "a foo"), line(4, "foo b"), line(5, "foo")]
    );
}

#[test]
fn contents_without_a_match_give_nothing() {
    let re = compile(false, false, "foo");
    assert_eq!(content_records(&file("a"), &lines(&["x", "y"]), &re), vec![]);
    assert_eq!(content_records(&file("a"), &lines(&[]), &re), vec![]);
}

#[test]
fn undecodable_line_is_skipped_and_still_counted() {
    let re = compile(false, false, "foo");
    let text = vec![None, Some(String::from("foo")), None, Some(String::from("foo 2"))];
    assert_eq!(
        content_records(&file("a"), &text, &re),
        vec![found(EntryKind::File, "a"), line(2, "foo"), line(4, "foo 2")]
    );
    assert_eq!(content_records(&file("a"), &vec![None, None], &re), vec![]);
}

#[test]
fn matching_line_is_cut_at_the_match() {
    let re = compile(false, false, "needle");
    let text = format!("{}needle{}", "a".repeat(60), "b".repeat(14));
    assert_eq!(text.len(), 80);
    let rows = content_records(&file("a"), &lines(&[&text]), &re);
    assert_eq!(rows, vec![found(EntryKind::File, "a"), line(1, &format!("needle{}...", "b".repeat(14)))]);
    let long = format!("{}needle{}", "a".repeat(5), "b".repeat(100));
    let rows = content_records(&file("a"), &lines(&[&long]), &re);
    assert_eq!(rows, vec![found(EntryKind::File, "a"), line(1, &format!("needle{}...", "b".repeat(44)))]);
}

#[test]
fn contents_are_read_for_files_in_content_mode_only() {
    assert!(wants_contents(&file("a"), true));
    assert!(!wants_contents(&file("a"), false));
    assert!(!wants_contents(&dir("a"), true));
    assert!(!wants_contents(&dir("a"), false));
}

#[test]
fn entry_rows_are_name_rows_then_content_rows() {
    let re = compile(false, false, "foo");
    let f = file("foo.txt");
    let text = lines(&["a", "foo"]);
    assert_eq!(
        entry_records(&f, &text, &re, true, true, true),
        vec![found(EntryKind::File, "foo.txt"), found(EntryKind::File, "foo.txt"), line(2, "foo")]
    );
    assert_eq!(entry_records(&f, &text, &re, true, true, false), vec![found(EntryKind::File, "foo.txt")]);
    assert_eq!(
        entry_records(&f, &text, &re, true, false, true),
        vec![found(EntryKind::File, "foo.txt"), line(2, "foo")]
    );
    assert_eq!(entry_records(&f, &text, &re, false, false, false), vec![]);
    let d = dir("foo");
    assert_eq!(entry_records(&d, &text, &re, true, true, true), vec![found(EntryKind::Directory, "foo")]);
}
