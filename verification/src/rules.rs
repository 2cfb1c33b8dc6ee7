//! The filter rules: which directories and files a search leaves out, and
//! which it keeps.

use vstd::prelude::*;
use crate::path::{extension, path_extension};
use crate::text::{contains, has_part, same_text, texts, to_chars};

verus! {

/// What a path names.
#[derive(Clone, Copy, PartialEq, Eq, Structural, Debug)]
pub enum NodeKind {
    Directory,
    File,
    /// Neither a directory nor a regular file.
    Other,
}

/// The persisted filter rules. An empty item restricts nothing, and so does
/// a list of empty items alone.
#[derive(Clone, Debug, PartialEq, Eq)]
pub struct Config {
    /// Texts that no directory's path may hold.
    pub ex_dir: Vec<String>,
    /// Extensions that no file may have.
    pub ex_ext: Vec<String>,
    /// Texts of which a directory's path must hold one.
    pub in_dir: Vec<String>,
    /// Extensions of which a file must have one.
    pub in_ext: Vec<String>,
}

/// The rules as texts.
pub struct Rules {
    pub ex_dir: Seq<Seq<char>>,
    pub ex_ext: Seq<Seq<char>>,
    pub in_dir: Seq<Seq<char>>,
    pub in_ext: Seq<Seq<char>>,
}

impl View for Config {
    type V = Rules;

    open spec fn view(&self) -> Rules {
        Rules {
            ex_dir: texts(self.ex_dir@),
            ex_ext: texts(self.ex_ext@),
            in_dir: texts(self.in_dir@),
            in_ext: texts(self.in_ext@),
        }
    }
}

/// Every item of `items` is empty: the list restricts nothing.
pub open spec fn unrestricted(items: Seq<Seq<char>>) -> bool {
    forall|i: int| 0 <= i < items.len() ==> (#[trigger] items[i]).len() == 0
}

/// Some item of `items` is not empty and is a part of `text`.
pub open spec fn holds_any(text: Seq<char>, items: Seq<Seq<char>>) -> bool {
    exists|i: int|
        0 <= i < items.len() && (#[trigger] items[i]).len() > 0 && contains(text, items[i])
}

/// Some item of `items` is not empty and equals `text`.
pub open spec fn equals_any(text: Seq<char>, items: Seq<Seq<char>>) -> bool {
    exists|i: int| 0 <= i < items.len() && (#[trigger] items[i]).len() > 0 && items[i] == text
}

/// Whether the rules leave the path out. A directory is left out where its
/// path holds an excluded text; a file where its extension is an excluded
/// one.
pub open spec fn should_exclude(path: Seq<char>, kind: NodeKind, rules: Rules) -> bool {
    match kind {
        NodeKind::Directory => holds_any(path, rules.ex_dir),
        NodeKind::File => extension(path) matches Some(ext) && equals_any(ext, rules.ex_ext),
        NodeKind::Other => false,
    }
}

/// Whether the rules keep a directory: they name no directory text, or the
/// path holds one of those they name.
pub open spec fn should_include_directory(path: Seq<char>, rules: Rules) -> bool {
    unrestricted(rules.in_dir) || holds_any(path, rules.in_dir)
}

/// Whether the rules keep a file: they name no extension, or the file has
/// one of those they name.
pub open spec fn should_include_file(path: Seq<char>, rules: Rules) -> bool {
    unrestricted(rules.in_ext) || (extension(path) matches Some(ext) && equals_any(
        ext,
        rules.in_ext,
    ))
}

/// Whether every item of `items` is empty.
pub fn all_empty(items: &Vec<String>) -> (r: bool)
    ensures
        r == unrestricted(texts(items@)),
{
    let mut i: usize = 0;
    while i < items.len()
        invariant
            i <= items.len(),
            forall|j: int| 0 <= j < i ==> (#[trigger] texts(items@)[j]).len() == 0,
        decreases items.len() - i,
    {
        if !items[i].as_str().is_empty() {
            assert(texts(items@)[i as int].len() > 0);
            return false;
        }
        i += 1;
    }
    true
}

/// Whether some item of `items` is not empty and is a part of `text`.
pub fn part_listed(text: &Vec<char>, items: &Vec<String>) -> (r: bool)
    ensures
        r == holds_any(text@, texts(items@)),
{
    let mut i: usize = 0;
    while i < items.len()
        invariant
            i <= items.len(),
            forall|j: int|
                0 <= j < i ==> !((#[trigger] texts(items@)[j]).len() > 0 && contains(
                    text@,
                    texts(items@)[j],
                )),
        decreases items.len() - i,
    {
        let item = to_chars(items[i].as_str());
        if item.len() > 0 && has_part(text, &item) {
            assert(texts(items@)[i as int] == item@);
            return true;
        }
        assert(texts(items@)[i as int] == item@);
        i += 1;
    }
    false
}

/// Whether some item of `items` is not empty and equals `text`.
pub fn listed(text: &Vec<char>, items: &Vec<String>) -> (r: bool)
    ensures
        r == equals_any(text@, texts(items@)),
{
    let mut i: usize = 0;
    while i < items.len()
        invariant
            i <= items.len(),
            forall|j: int|
                0 <= j < i ==> !((#[trigger] texts(items@)[j]).len() > 0 && texts(items@)[j]
                    == text@),
        decreases items.len() - i,
    {
        let item = to_chars(items[i].as_str());
        if item.len() > 0 && same_text(&item, text) {
            assert(texts(items@)[i as int] == item@);
            return true;
        }
        assert(texts(items@)[i as int] == item@);
        i += 1;
    }
    false
}

/// Whether the rules leave out the node at `path`.
pub fn check_exclude(path: &str, kind: NodeKind, config: &Config) -> (r: bool)
    ensures
        r == should_exclude(path@, kind, config@),
{
    match kind {
        NodeKind::Directory => {
            let full_name = to_chars(path);
            part_listed(&full_name, &config.ex_dir)
        },
        NodeKind::File => {
            match path_extension(path) {
                Some(ext) => {
                    let ext = to_chars(ext.as_str());
                    listed(&ext, &config.ex_ext)
                },
                None => false,
            }
        },
        NodeKind::Other => false,
    }
}

/// Whether the rules keep the directory at `path`.
pub fn check_include_directory(path: &str, config: &Config) -> (r: bool)
    ensures
        r == should_include_directory(path@, config@),
{
    if all_empty(&config.in_dir) {
        return true;
    }
    let full_name = to_chars(path);
    part_listed(&full_name, &config.in_dir)
}

/// Whether the rules keep the file at `path`.
pub fn check_include_file(path: &str, config: &Config) -> (r: bool)
    ensures
        r == should_include_file(path@, config@),
{
    if all_empty(&config.in_ext) {
        return true;
    }
    match path_extension(path) {
        Some(ext) => {
            let ext = to_chars(ext.as_str());
            listed(&ext, &config.in_ext)
        },
        None => false,
    }
}

} // verus!
