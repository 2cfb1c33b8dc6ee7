//! The search modes that a run works in.

use vstd::prelude::*;

verus! {

/// The mode flags as given on the command line.
#[derive(Clone, Copy, PartialEq, Eq, Structural, Debug)]
pub struct Flags {
    /// Search with every mode.
    pub all: bool,
    /// Search the names of directories.
    pub dir: bool,
    /// Search the names of files.
    pub file: bool,
    /// Search the contents of files.
    pub name: bool,
    /// Match without regard to case.
    pub ignorecase: bool,
    /// Descend into directories.
    pub recursive: bool,
    /// Match whole words only.
    pub wholeword: bool,
}

impl Flags {
    /// No mode was asked for by name.
    pub open spec fn none_given(self) -> bool {
        !(self.dir || self.file || self.name || self.recursive || self.ignorecase
            || self.wholeword)
    }

    /// Every mode is in force: `all` was given, or nothing was.
    pub open spec fn everything(self) -> bool {
        self.all || self.none_given()
    }
}

/// The modes in force, in the order directory names, file names, contents,
/// recursive, ignore case, whole word. With `all`, or with no mode given,
/// every one of them is in force; otherwise those that were given.
pub fn get_args(args: &Flags) -> (modes: (bool, bool, bool, bool, bool, bool))
    ensures
        modes.0 == (args.everything() || args.dir),
        modes.1 == (args.everything() || args.file),
        modes.2 == (args.everything() || args.name),
        modes.3 == (args.everything() || args.recursive),
        modes.4 == (args.everything() || args.ignorecase),
        modes.5 == (args.everything() || args.wholeword),
{
    let mut is_dir = args.dir;
    let mut is_file = args.file;
    let mut is_name = args.name;
    let mut is_recursive = args.recursive;
    let mut is_ignore = args.ignorecase;
    let mut is_whole = args.wholeword;

    if args.all || !(is_dir || is_file || is_name || is_recursive || is_ignore || is_whole) {
        is_dir = true;
        is_file = true;
        is_name = true;
        is_recursive = true;
        is_ignore = true;
        is_whole = true;
    }
    (is_dir, is_file, is_name, is_recursive, is_ignore, is_whole)
}

} // verus!
