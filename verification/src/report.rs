//! The matcher: which records a search reports for an entry, and how a
//! matching line is shown.

use vstd::prelude::*;
use vstd::string::StringExecFns;
use vstd::string::StrSliceExecFns;
use crate::entry::{Entry, EntryKind, EntryView};
use crate::path::{base_name, file_name};
use crate::pattern::CompiledPattern;

verus! {

/// The number of characters up to which a line is shown whole, and to
/// which a longer one is cut.
pub const SHOWN: usize = 50;

/// What follows a line that is not shown whole.
pub const ELLIPSIS: &'static str = "...";

/// One row of a search's report.
#[derive(Clone, Debug, PartialEq, Eq)]
pub enum Record {
    /// A directory or file whose name matches, or the header that stands
    /// before the matching lines of a file.
    Found { kind: EntryKind, name: String },
    /// A line that matches, with its number counted from 1 and its text
    /// as it is shown.
    Line { number: usize, text: String },
}

/// A record over texts and unbounded numbers.
pub enum RecordView {
    Found { kind: EntryKind, name: Seq<char> },
    Line { number: nat, text: Seq<char> },
}

impl View for Record {
    type V = RecordView;

    open spec fn view(&self) -> RecordView {
        match self {
            Record::Found { kind, name } => RecordView::Found { kind: *kind, name: name@ },
            Record::Line { number, text } => RecordView::Line {
                number: *number as nat,
                text: text@,
            },
        }
    }
}

/// The views of a sequence of records, element by element.
pub open spec fn record_views(records: Seq<Record>) -> Seq<RecordView> {
    Seq::new(records.len(), |i: int| records[i]@)
}

/// The views of a sequence of lines, element by element. `None` stands
/// for a line that could not be decoded.
pub open spec fn line_views(lines: Seq<Option<String>>) -> Seq<Option<Seq<char>>> {
    Seq::new(
        lines.len(),
        |i: int|
            match lines[i] {
                Some(line) => Some(line@),
                None => None,
            },
    )
}

/// How a matching line is shown. A line of up to 50 characters is shown
/// whole. A longer one is shown from the start of the match, cut after 50
/// characters, with the ellipsis after it; where 50 characters or fewer
/// are left from the start of the match, all of them are shown, with the
/// ellipsis after them as well.
pub open spec fn shown_text(line: Seq<char>, start: int) -> Seq<char> {
    if line.len() <= SHOWN {
        line
    } else if line.len() - start <= SHOWN {
        line.skip(start) + ELLIPSIS@
    } else {
        line.subrange(start, start + SHOWN) + ELLIPSIS@
    }
}

/// The row that names an entry: its kind and its path.
pub open spec fn found(entry: EntryView) -> RecordView {
    RecordView::Found { kind: entry.kind, name: entry.path }
}

/// Whether the pattern matches in the final component of the entry's path.
pub open spec fn name_matches(entry: EntryView, pattern: CompiledPattern) -> bool {
    file_name(entry.path) matches Some(name) && pattern.first_match(name) is Some
}

/// The rows for the entry's name: one where the name matches and the mode
/// for the entry's kind is in force, none otherwise.
pub open spec fn name_rows(
    entry: EntryView,
    pattern: CompiledPattern,
    is_dir: bool,
    is_file: bool,
) -> Seq<RecordView> {
    let wanted = match entry.kind {
        EntryKind::Directory => is_dir,
        EntryKind::File => is_file,
    };
    if wanted && name_matches(entry, pattern) {
        seq![found(entry)]
    } else {
        Seq::empty()
    }
}

/// The rows for the matching lines among `lines`, in the order of the
/// lines. A line that could not be decoded gives no row and still counts
/// in the numbering.
pub open spec fn line_rows(lines: Seq<Option<Seq<char>>>, pattern: CompiledPattern) -> Seq<
    RecordView,
>
    decreases lines.len(),
{
    if lines.len() == 0 {
        Seq::empty()
    } else {
        let before = line_rows(lines.drop_last(), pattern);
        match lines.last() {
            Some(line) => match pattern.first_match(line) {
                Some(start) => before.push(
                    RecordView::Line { number: lines.len(), text: shown_text(line, start as int) },
                ),
                None => before,
            },
            None => before,
        }
    }
}

/// The rows for the contents of a file: the header once, before the rows
/// of its matching lines; nothing where no line matches.
pub open spec fn content_rows(
    entry: EntryView,
    lines: Seq<Option<Seq<char>>>,
    pattern: CompiledPattern,
) -> Seq<RecordView> {
    let rows = line_rows(lines, pattern);
    if rows.len() > 0 {
        seq![found(entry)] + rows
    } else {
        Seq::empty()
    }
}

/// Whether a search reads the contents of the entry: it is a file, and the
/// content mode is in force.
pub open spec fn reads_contents(entry: EntryView, is_name: bool) -> bool {
    is_name && entry.kind == EntryKind::File
}

/// All rows for one entry: those for its name, then those for its
/// contents where the search reads them.
pub open spec fn entry_rows(
    entry: EntryView,
    lines: Seq<Option<Seq<char>>>,
    pattern: CompiledPattern,
    is_dir: bool,
    is_file: bool,
    is_name: bool,
) -> Seq<RecordView> {
    name_rows(entry, pattern, is_dir, is_file) + if reads_contents(entry, is_name) {
        content_rows(entry, lines, pattern)
    } else {
        Seq::empty()
    }
}

/// The text that is shown for `line`, in which a match begins at the
/// character offset `start`.
pub fn display_line(line: &str, start: usize) -> (text: String)
    requires
        start <= line@.len(),
    ensures
        text@ == shown_text(line@, start as int),
{
    let len = line.unicode_len();
    if len <= SHOWN {
        line.to_owned()
    } else if len - start <= SHOWN {
        let rest = line.substring_char(start, len);
        assert(line@.skip(start as int) =~= line@.subrange(start as int, len as int));
        String::from_str(rest).concat(ELLIPSIS)
    } else {
        let part = line.substring_char(start, start + SHOWN);
        String::from_str(part).concat(ELLIPSIS)
    }
}

/// The row that names `entry`.
pub fn found_record(entry: &Entry) -> (record: Record)
    ensures
        record@ == found(entry@),
{
    Record::Found { kind: entry.kind, name: entry.path.clone() }
}

/// Whether the pattern matches in the final component of the entry's path.
pub fn matches_name(entry: &Entry, pattern: &CompiledPattern) -> (r: bool)
    ensures
        r == name_matches(entry@, *pattern),
{
    match base_name(entry.path.as_str()) {
        Some(name) => pattern.is_match(name.as_str()),
        None => false,
    }
}

/// The rows for the name of `entry` under the modes `is_dir` and
/// `is_file`.
pub fn name_records(entry: &Entry, pattern: &CompiledPattern, is_dir: bool, is_file: bool) -> (rows:
    Vec<Record>)
    ensures
        record_views(rows@) == name_rows(entry@, *pattern, is_dir, is_file),
{
    let mut rows: Vec<Record> = Vec::new();
    let wanted = match entry.kind {
        EntryKind::Directory => is_dir,
        EntryKind::File => is_file,
    };
    if wanted && matches_name(entry, pattern) {
        rows.push(found_record(entry));
        assert(record_views(rows@) =~= seq![found(entry@)]);
    } else {
        assert(record_views(rows@) =~= Seq::empty());
    }
    rows
}

/// The rows for the contents `lines` of the file `entry`.
pub fn content_records(entry: &Entry, lines: &Vec<Option<String>>, pattern: &CompiledPattern) -> (rows:
    Vec<Record>)
    ensures
        record_views(rows@) == content_rows(entry@, line_views(lines@), *pattern),
{
    let mut rows: Vec<Record> = Vec::new();
    let mut is_first = true;
    let mut i: usize = 0;
    assert(line_views(lines@).take(0) =~= Seq::empty());
    assert(record_views(rows@) =~= Seq::empty());
    while i < lines.len()
        invariant
            i <= lines.len(),
            is_first == (rows.len() == 0),
            record_views(rows@) == content_rows(entry@, line_views(lines@).take(i as int), *pattern),
        decreases lines.len() - i,
    {
        let ghost seen = line_views(lines@).take(i as int);
        let ghost grown = line_views(lines@).take(i + 1);
        let ghost old_rows = record_views(rows@);
        proof {
            assert(grown.drop_last() =~= seen);
            assert(grown.last() == line_views(lines@)[i as int]);
        }
        if let Some(line) = &lines[i] {
            if let Some(start) = pattern.find(line.as_str()) {
                if is_first {
                    is_first = false;
                    assert(old_rows.len() == 0);
                    assert(line_rows(seen, *pattern).len() == 0);
                    rows.push(found_record(entry));
                    assert(record_views(rows@) =~= seq![found(entry@)] + line_rows(
                        seen,
                        *pattern,
                    ));
                }
                let ghost headed = record_views(rows@);
                let text = display_line(line.as_str(), start);
                rows.push(Record::Line { number: i + 1, text });
                proof {
                    let row = RecordView::Line {
                        number: (i + 1) as nat,
                        text: shown_text(line@, start as int),
                    };
                    assert(record_views(rows@) =~= headed.push(row));
                    assert(line_rows(grown, *pattern) == line_rows(seen, *pattern).push(row));
                    assert(record_views(rows@) =~= seq![found(entry@)] + line_rows(
                        seen,
                        *pattern,
                    ).push(row));
                }
            }
        }
        i += 1;
    }
    assert(line_views(lines@).take(lines.len() as int) =~= line_views(lines@));
    rows
}

/// Whether a search reads the contents of `entry` under the mode
/// `is_name`.
pub fn wants_contents(entry: &Entry, is_name: bool) -> (r: bool)
    ensures
        r == reads_contents(entry@, is_name),
{
    is_name && entry.kind == EntryKind::File
}

/// All rows for one entry. `lines` holds the contents of the entry where
/// the search reads them, and is not looked at otherwise.
pub fn entry_records(
    entry: &Entry,
    lines: &Vec<Option<String>>,
    pattern: &CompiledPattern,
    is_dir: bool,
    is_file: bool,
    is_name: bool,
) -> (rows: Vec<Record>)
    ensures
        record_views(rows@) == entry_rows(
            entry@,
            line_views(lines@),
            *pattern,
            is_dir,
            is_file,
            is_name,
        ),
{
    let mut rows = name_records(entry, pattern, is_dir, is_file);
    if wants_contents(entry, is_name) {
        let ghost names = record_views(rows@);
        let mut more = content_records(entry, lines, pattern);
        let ghost contents = record_views(more@);
        rows.append(&mut more);
        assert(record_views(rows@) =~= names + contents);
    } else {
        assert(record_views(rows@) + Seq::empty() =~= record_views(rows@));
    }
    rows
}

} // verus!
