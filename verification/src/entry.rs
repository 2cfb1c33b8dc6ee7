//! The entries that a walk finds.

use vstd::prelude::*;

verus! {

/// What an entry is.
#[derive(Clone, Copy, PartialEq, Eq, Structural, Debug)]
pub enum EntryKind {
    Directory,
    File,
}

/// One directory or file that a walk found.
#[derive(Clone, Debug, PartialEq, Eq)]
pub struct Entry {
    pub kind: EntryKind,
    /// The path of the entry, as the walk was given it.
    pub path: String,
}

/// An entry as a kind and the text of its path.
pub struct EntryView {
    pub kind: EntryKind,
    pub path: Seq<char>,
}

impl View for Entry {
    type V = EntryView;

    open spec fn view(&self) -> EntryView {
        EntryView { kind: self.kind, path: self.path@ }
    }
}

/// The views of a sequence of entries, element by element.
pub open spec fn entry_views(entries: Seq<Entry>) -> Seq<EntryView> {
    Seq::new(entries.len(), |i: int| entries[i]@)
}

} // verus!
