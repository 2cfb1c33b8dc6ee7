use hgrep::rules::{
    all_empty, check_exclude, check_include_directory, check_include_file, listed, part_listed,
    Config, NodeKind,
};

fn list(items: &[&str]) -> Vec<String> {
    items.iter().map(|s| String::from(*s)).collect()
}

fn rules(ex_dir: &[&str], ex_ext: &[&str], in_dir: &[&str], in_ext: &[&str]) -> Config {
    Config { ex_dir: list(ex_dir), ex_ext: list(ex_ext), in_dir: list(in_dir), in_ext: list(in_ext) }
}

fn chars(s: &str) -> Vec<char> {
    s.chars().collect()
}

#[test]
fn empty_rules_exclude_nothing_and_include_everything() {
    let blank = rules(&[""], &[""], &[""], &[""]);
    let none = rules(&[], &[], &[], &[]);
    for config in [&blank, &none] {
        assert!(!check_exclude("src", NodeKind::Directory, config));
        assert!(!check_exclude("src/a.rs", NodeKind::File, config));
        assert!(check_include_directory("src", config));
        assert!(check_include_file("src/a.rs", config));
        assert!(check_include_file("Makefile", config));
    }
}

#[test]
fn directory_is_excluded_by_a_part_of_its_path() {
    let config = rules(&["node_modules"], &[], &[], &[]);
    assert!(check_exclude("./node_modules", NodeKind::Directory, &config));
    assert!(check_exclude("./a/node_modules_old/b", NodeKind::Directory, &config));
    assert!(!check_exclude("./node_module", NodeKind::Directory, &config));
    assert!(!check_exclude("./node_modules/sub", NodeKind::Other, &config));
}

#[test]
fn directory_rule_does_not_touch_files() {
    let config = rules(&["node_modules"], &[], &[], &[]);
    assert!(!check_exclude("./node_modules/a.js", NodeKind::File, &config));
    assert!(!check_exclude("./node_modules", NodeKind::File, &config));
}

#[test]
fn directory_path_is_searched_as_it_is() {
    let quoted = rules(&["a\"b"], &[], &["c\"d"], &[]);
    assert!(check_exclude("a\"b", NodeKind::Directory, &quoted));
    assert!(check_exclude("x/a\"b/y", NodeKind::Directory, &quoted));
    assert!(check_include_directory("c\"d", &quoted));
    assert!(!check_include_directory("cd", &quoted));
    let plain = rules(&["ab"], &[], &["cd"], &[]);
    assert!(!check_exclude("x/a\"b", NodeKind::Directory, &plain));
    assert!(!check_include_directory("x/c\"d", &plain));
}

#[test]
fn directory_is_searched_by_its_whole_path() {
    let config = rules(&["src/gen"], &["x"], &["lib/"], &["y"]);
    assert!(check_exclude("./src/gen/out", NodeKind::Directory, &config));
    assert!(!check_exclude("./src/out.x", NodeKind::Directory, &config));
    assert!(check_include_directory("./lib/a", &config));
    assert!(!check_include_directory("./lib", &config));
}

#[test]
fn another_included_directory_never_takes_one_away() {
    let one = rules(&[], &[], &["src"], &[]);
    let two = rules(&[], &[], &["src", "doc"], &[]);
    for path in ["./src", "./src/doc", "./x/src/y"] {
        assert!(check_include_directory(path, &one));
        assert!(check_include_directory(path, &two));
    }
    assert!(!check_include_directory("./doc", &one));
    assert!(check_include_directory("./doc", &two));
}

#[test]
fn file_is_excluded_by_its_exact_extension() {
    let config = rules(&[], &["rs", "o"], &[], &[]);
    assert!(check_exclude("src/a.rs", NodeKind::File, &config));
    assert!(check_exclude("a.o", NodeKind::File, &config));
    assert!(!check_exclude("src/a.rsx", NodeKind::File, &config));
    assert!(!check_exclude("src/a.r", NodeKind::File, &config));
    assert!(!check_exclude("src/rs", NodeKind::File, &config));
    assert!(!check_exclude("src/.rs", NodeKind::File, &config));
    assert!(!check_exclude("src/a.RS", NodeKind::File, &config));
    assert!(!check_exclude("src.rs/a", NodeKind::File, &config));
    assert!(!check_exclude("src/a.rs", NodeKind::Directory, &config));
}

#[test]
fn empty_items_never_match() {
    let config = rules(&["", "x"], &["", "y"], &["", "z"], &["", "w"]);
    assert!(!check_exclude("abc", NodeKind::Directory, &config));
    assert!(check_exclude("axc", NodeKind::Directory, &config));
    assert!(!check_exclude("a.", NodeKind::File, &config));
    assert!(check_exclude("a.y", NodeKind::File, &config));
    assert!(!check_include_directory("abc", &config));
    assert!(check_include_directory("azc", &config));
    assert!(!check_include_file("a.", &config));
    assert!(check_include_file("a.w", &config));
}

#[test]
fn directory_is_included_by_a_part_of_its_path() {
    let config = rules(&[], &[], &["src", "doc"], &[]);
    assert!(check_include_directory("./src", &config));
    assert!(check_include_directory("./x/docs", &config));
    assert!(!check_include_directory("./target", &config));
}

#[test]
fn file_is_included_by_its_exact_extension() {
    let config = rules(&[], &[], &[], &["rs"]);
    assert!(check_include_file("a.rs", &config));
    assert!(!check_include_file("b.txt", &config));
    assert!(!check_include_file("c", &config));
    assert!(!check_include_file("d.rss", &config));
    assert!(!check_include_file(".rs", &config));
}

#[test]
fn filter_answers_repeat() {
    let config = rules(&["node_modules"], &["o"], &["src"], &["rs"]);
    let same = rules(&["node_modules"], &["o"], &["src"], &["rs"]);
    for path in ["src/a.rs", "node_modules", "x/src/node_modules/a.o", "b"] {
        let again = String::from(path);
        for kind in [NodeKind::Directory, NodeKind::File, NodeKind::Other] {
            assert_eq!(check_exclude(path, kind, &config), check_exclude(&again, kind, &same));
        }
        assert_eq!(check_include_directory(path, &config), check_include_directory(&again, &same));
        assert_eq!(check_include_file(path, &config), check_include_file(&again, &same));
    }
}

#[test]
fn list_helpers_answer_by_item() {
    assert!(all_empty(&list(&[])));
    assert!(all_empty(&list(&["", ""])));
    assert!(!all_empty(&list(&["", "a"])));
    assert!(part_listed(&chars("abcd"), &list(&["x", "bc"])));
    assert!(!part_listed(&chars("abcd"), &list(&["x", ""])));
    assert!(listed(&chars("rs"), &list(&["txt", "rs"])));
    assert!(!listed(&chars("rs"), &list(&["r", "rss", ""])));
    assert!(!listed(&chars(""), &list(&[""])));
}
