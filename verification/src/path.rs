//! Paths as texts: the final component of a path and its extension.
//! Components are separated by `/`.

use vstd::prelude::*;
use crate::text::{fields, field_len, lemma_field_len, to_chars};

verus! {

/// A component that names nothing: the empty text between two separators
/// or at an end of the path, and `.`.
pub open spec fn is_blank(component: Seq<char>) -> bool {
    component.len() == 0 || component == seq!['.']
}

/// The last of `parts` that names something, unless it is `..`.
pub open spec fn last_named(parts: Seq<Seq<char>>) -> Option<Seq<char>>
    decreases parts.len(),
{
    if parts.len() == 0 {
        None
    } else if is_blank(parts.last()) {
        last_named(parts.drop_last())
    } else if parts.last() == seq!['.', '.'] {
        None
    } else {
        Some(parts.last())
    }
}

/// The final component of `path`. Separators and `.` components at the
/// end of the path are passed over, so that `src/` and `src/.` end in
/// `src`. There is none where the path ends in `..`, and none where it
/// holds no component that names something.
pub open spec fn file_name(path: Seq<char>) -> Option<Seq<char>> {
    last_named(fields(path, '/'))
}

/// The extension of a file name: the text after its last `.`, without the
/// dot. There is none where the name holds no `.`, or only the one it
/// begins with.
pub open spec fn name_extension(name: Seq<char>) -> Option<Seq<char>> {
    let parts = fields(name, '.');
    if parts.len() < 2 || parts.last().len() + 1 == name.len() {
        None
    } else {
        Some(parts.last())
    }
}

/// The extension of the final component of `path`.
pub open spec fn extension(path: Seq<char>) -> Option<Seq<char>> {
    match file_name(path) {
        Some(name) => name_extension(name),
        None => None,
    }
}

/// What `field_len` counts: no separator before that offset, and one at
/// it unless the text ends there.
pub proof fn lemma_field_len_bounds(text: Seq<char>, sep: char)
    ensures
        field_len(text, sep) <= text.len(),
        forall|j: int| 0 <= j < field_len(text, sep) ==> #[trigger] text[j] != sep,
        field_len(text, sep) < text.len() ==> text[field_len(text, sep) as int] == sep,
    decreases text.len(),
{
    if text.len() > 0 && text[0] != sep {
        let rest = text.skip(1);
        lemma_field_len_bounds(rest, sep);
        assert forall|j: int| 0 <= j < field_len(text, sep) implies #[trigger] text[j] != sep by {
            if j > 0 {
                assert(rest[j - 1] == text[j]);
            }
        }
        if field_len(text, sep) < text.len() {
            assert(rest[field_len(rest, sep) as int] == text[field_len(text, sep) as int]);
        }
    }
}

/// The last part of a text begins after its last separator, and there are
/// two parts or more exactly where the text holds a separator.
pub proof fn lemma_last_field(text: Seq<char>, sep: char, start: int)
    requires
        0 <= start <= text.len(),
        forall|j: int| start <= j < text.len() ==> #[trigger] text[j] != sep,
        start > 0 ==> text[start - 1] == sep,
    ensures
        fields(text, sep).len() >= 1,
        fields(text, sep).last() == text.skip(start),
        fields(text, sep).len() >= 2 <==> start > 0,
        start > 0 ==> fields(text, sep).drop_last() == fields(text.take(start - 1), sep),
    decreases text.len(),
{
    let n = field_len(text, sep) as int;
    lemma_field_len_bounds(text, sep);
    if n >= text.len() {
        assert(start == 0) by {
            if start > 0 {
                assert(text[start - 1] != sep);
            }
        }
        assert(text.skip(0) =~= text);
    } else {
        assert(start > n) by {
            if start <= n {
                assert(text[n] != sep);
            }
        }
        let rest = text.skip(n + 1);
        let first = text.take(n);
        assert forall|j: int| start - n - 1 <= j < rest.len() implies #[trigger] rest[j] != sep by {
            assert(rest[j] == text[j + n + 1]);
        }
        if start - n - 1 > 0 {
            assert(rest[start - n - 2] == text[start - 1]);
        }
        lemma_last_field(rest, sep, start - n - 1);
        assert(rest.skip(start - n - 1) =~= text.skip(start));
        let before = text.take(start - 1);
        if start - n - 1 == 0 {
            assert(before =~= first);
            assert forall|j: int| 0 <= j < n implies #[trigger] first[j] != sep by {
                assert(first[j] == text[j]);
            }
            lemma_field_len(first, sep, n);
            assert(fields(text, sep).drop_last() =~= seq![first]);
        } else {
            assert forall|j: int| 0 <= j < n implies #[trigger] before[j] != sep by {
                assert(before[j] == text[j]);
            }
            assert(before[n] == text[n]);
            lemma_field_len(before, sep, n);
            assert(before.take(n) =~= first);
            assert(before.skip(n + 1) =~= rest.take(start - n - 2));
            assert(fields(text, sep).drop_last() =~= seq![first] + fields(rest, sep).drop_last());
        }
    }
}

/// Where in the first `end` characters of `chars` the text after the last
/// `sep` begins: 0 where there is no `sep`.
fn last_field_start(chars: &Vec<char>, sep: char, end: usize) -> (start: usize)
    requires
        end <= chars.len(),
    ensures
        start <= end,
        fields(chars@.take(end as int), sep).len() >= 1,
        fields(chars@.take(end as int), sep).last() == chars@.subrange(start as int, end as int),
        fields(chars@.take(end as int), sep).len() >= 2 <==> start > 0,
        start > 0 ==> fields(chars@.take(end as int), sep).drop_last() == fields(
            chars@.take(start - 1),
            sep,
        ),
{
    let mut start: usize = end;
    while start > 0 && chars[start - 1] != sep
        invariant
            start <= end <= chars.len(),
            forall|j: int| start <= j < end ==> #[trigger] chars[j] != sep,
        decreases start,
    {
        start -= 1;
    }
    proof {
        let text = chars@.take(end as int);
        assert forall|j: int| start <= j < text.len() implies #[trigger] text[j] != sep by {
            assert(text[j] == chars[j]);
        }
        lemma_last_field(text, sep, start as int);
        assert(text.skip(start as int) =~= chars@.subrange(start as int, end as int));
        if start > 0 {
            assert(text.take(start - 1) =~= chars@.take(start - 1));
        }
    }
    start
}

/// The final component of `path`, if it has one.
pub fn base_name(path: &str) -> (name: Option<String>)
    ensures
        match name {
            Some(n) => file_name(path@) == Some(n@),
            None => file_name(path@) is None,
        },
{
    let chars = to_chars(path);
    let mut end: usize = chars.len();
    assert(chars@.take(end as int) =~= path@);
    loop
        invariant
            chars@ == path@,
            end <= chars.len(),
            file_name(path@) == last_named(fields(chars@.take(end as int), '/')),
        decreases end,
    {
        let start = last_field_start(&chars, '/', end);
        let len = end - start;
        proof {
            let last = chars@.subrange(start as int, end as int);
            if len == 1 {
                assert(last =~= seq![chars[start as int]]);
            }
            if len == 2 {
                assert(last =~= seq![chars[start as int], chars[start + 1]]);
            }
            assert(seq!['.'].len() == 1 && seq!['.'][0] == '.');
            assert(seq!['.', '.'].len() == 2 && seq!['.', '.'][0] == '.' && seq!['.', '.'][1]
                == '.');
        }
        if len == 0 || (len == 1 && chars[start] == '.') {
            if start == 0 {
                proof {
                    let parts = fields(chars@.take(end as int), '/');
                    assert(parts.drop_last().len() == 0);
                    assert(last_named(parts.drop_last()) is None);
                    assert(is_blank(parts.last()));
                }
                return None;
            }
            end = start - 1;
        } else if len == 2 && chars[start] == '.' && chars[start + 1] == '.' {
            return None;
        } else {
            return Some(path.substring_char(start, end).to_owned());
        }
    }
}

/// The extension of the file name `name`, if it has one.
pub fn extension_of_name(name: &str) -> (ext: Option<String>)
    ensures
        match ext {
            Some(e) => name_extension(name@) == Some(e@),
            None => name_extension(name@) is None,
        },
{
    let chars = to_chars(name);
    let start = last_field_start(&chars, '.', chars.len());
    assert(chars@.take(chars.len() as int) =~= name@);
    if start <= 1 {
        return None;
    }
    Some(name.substring_char(start, chars.len()).to_owned())
}

/// The extension of the final component of `path`, if it has one.
pub fn path_extension(path: &str) -> (ext: Option<String>)
    ensures
        match ext {
            Some(e) => extension(path@) == Some(e@),
            None => extension(path@) is None,
        },
{
    match base_name(path) {
        Some(name) => extension_of_name(name.as_str()),
        None => None,
    }
}

} // verus!
