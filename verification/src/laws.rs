//! What holds of the library as a whole.

use vstd::prelude::*;
use crate::entry::{entry_views, Entry};
use crate::pattern::CompiledPattern;
use crate::report::{entry_rows, line_views, record_views, Record};
use crate::rules::{
    should_exclude,
    should_include_directory,
    should_include_file,
    Config,
    NodeKind,
    Rules,
};
use crate::walk::{descends, listing, reported, Tree};

verus! {

/// The filter rules answer by the text of the path, the kind of the node
/// and the texts of the rules, and by nothing else: asked twice about the
/// same, they answer the same.
pub proof fn law_rules_answer_alike(
    path: &str,
    again: &str,
    kind: NodeKind,
    config: &Config,
    same: &Config,
)
    requires
        path@ == again@,
        config@ == same@,
    ensures
        should_exclude(path@, kind, config@) == should_exclude(again@, kind, same@),
        should_include_directory(path@, config@) == should_include_directory(again@, same@),
        should_include_file(path@, config@) == should_include_file(again@, same@),
{
}

/// Exclusion comes before inclusion, and it prunes: a walk reports
/// nothing for a directory that the rules leave out, and nothing of what
/// stands below it, recursive or not, whatever the inclusion rules say.
pub proof fn law_excluded_directory_is_pruned(tree: Tree, rules: Rules, is_recursive: bool)
    requires
        should_exclude(tree.node@.path, tree.node@.kind, rules),
    ensures
        listing(seq![tree], rules, is_recursive) == Seq::<crate::entry::EntryView>::empty(),
{
    let forest = seq![tree];
    assert(forest[0] == tree);
    assert(forest.skip(1) =~= Seq::empty());
    assert(listing(forest.skip(1), rules, is_recursive) =~= Seq::empty());
    assert(listing(forest, rules, is_recursive) =~= Seq::empty());
}

/// Inclusion decides whether a directory is reported, not whether it is
/// visited: a recursive walk reports what stands below a directory that
/// the rules do not leave out, also where it does not report the
/// directory itself.
pub proof fn law_directory_is_visited(tree: Tree, rules: Rules)
    requires
        tree.node.kind == NodeKind::Directory,
        !should_exclude(tree.node@.path, tree.node@.kind, rules),
    ensures
        listing(seq![tree], rules, true) == reported(tree.node@, rules) + listing(
            tree.children@,
            rules,
            true,
        ),
        !should_include_directory(tree.node@.path, rules) ==> listing(seq![tree], rules, true)
            == listing(tree.children@, rules, true),
{
    let forest = seq![tree];
    assert(forest[0] == tree);
    assert(descends(tree.node@, rules, true));
    assert(forest.skip(1) =~= Seq::empty());
    assert(listing(forest.skip(1), rules, true) =~= Seq::empty());
    assert(listing(forest, rules, true) =~= reported(tree.node@, rules) + listing(
        tree.children@,
        rules,
        true,
    ));
    if !should_include_directory(tree.node@.path, rules) {
        assert(reported(tree.node@, rules) + listing(tree.children@, rules, true) =~= listing(
            tree.children@,
            rules,
            true,
        ));
    }
}

/// A walk of the same tree under the same rules finds the same entries in
/// the same order, however often it is made.
pub proof fn law_walk_repeats(
    root: &Tree,
    is_recursive: bool,
    config: &Config,
    first: Vec<Entry>,
    second: Vec<Entry>,
)
    requires
        entry_views(first@) == listing(root.children@, config@, is_recursive),
        entry_views(second@) == listing(root.children@, config@, is_recursive),
    ensures
        first.len() == second.len(),
        forall|i: int| 0 <= i < first.len() ==> first[i]@ == second[i]@,
{
    assert(entry_views(first@).len() == first.len());
    assert(entry_views(second@).len() == second.len());
    assert forall|i: int| 0 <= i < first.len() implies first[i]@ == second[i]@ by {
        assert(entry_views(first@)[i] == first[i]@);
        assert(entry_views(second@)[i] == second[i]@);
    }
}

/// A search of the same entry with the same contents, pattern and modes
/// reports the same rows in the same order, however often it is made.
pub proof fn law_report_repeats(
    entry: &Entry,
    lines: &Vec<Option<String>>,
    pattern: &CompiledPattern,
    is_dir: bool,
    is_file: bool,
    is_name: bool,
    first: Vec<Record>,
    second: Vec<Record>,
)
    requires
        record_views(first@) == entry_rows(
            entry@,
            line_views(lines@),
            *pattern,
            is_dir,
            is_file,
            is_name,
        ),
        record_views(second@) == entry_rows(
            entry@,
            line_views(lines@),
            *pattern,
            is_dir,
            is_file,
            is_name,
        ),
    ensures
        first.len() == second.len(),
        forall|i: int| 0 <= i < first.len() ==> first[i]@ == second[i]@,
{
    assert(record_views(first@).len() == first.len());
    assert(record_views(second@).len() == second.len());
    assert forall|i: int| 0 <= i < first.len() implies first[i]@ == second[i]@ by {
        assert(record_views(first@)[i] == first[i]@);
        assert(record_views(second@)[i] == second[i]@);
    }
}

} // verus!
