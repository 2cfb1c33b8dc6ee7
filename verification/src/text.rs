//! Character-level text operations that the filter rules and the
//! configuration commands are built from. Every text is modelled as the
//! sequence of its characters.

use vstd::prelude::*;

verus! {

broadcast use vstd::string::group_string_axioms;

/// The views of a sequence of strings, element by element.
pub open spec fn texts(items: Seq<String>) -> Seq<Seq<char>> {
    Seq::new(items.len(), |i: int| items[i]@)
}

/// `needle` stands in `hay` at offset `at`.
pub open spec fn occurs_at(hay: Seq<char>, needle: Seq<char>, at: int) -> bool {
    &&& 0 <= at
    &&& at + needle.len() <= hay.len()
    &&& hay.subrange(at, at + needle.len()) == needle
}

/// `needle` is a contiguous part of `hay`.
pub open spec fn contains(hay: Seq<char>, needle: Seq<char>) -> bool {
    exists|at: int| occurs_at(hay, needle, at)
}

/// The characters with the Unicode property White_Space.
pub open spec fn is_space(c: char) -> bool {
    let u = c as u32;
    ||| 0x09 <= u <= 0x0D
    ||| u == 0x20
    ||| u == 0x85
    ||| u == 0xA0
    ||| u == 0x1680
    ||| 0x2000 <= u <= 0x200A
    ||| u == 0x2028
    ||| u == 0x2029
    ||| u == 0x202F
    ||| u == 0x205F
    ||| u == 0x3000
}

/// The number of white-space characters that `text` begins with.
pub open spec fn leading_spaces(text: Seq<char>) -> nat
    decreases text.len(),
{
    if text.len() > 0 && is_space(text[0]) {
        1 + leading_spaces(text.skip(1))
    } else {
        0
    }
}

/// The number of white-space characters that `text` ends with.
pub open spec fn trailing_spaces(text: Seq<char>) -> nat
    decreases text.len(),
{
    if text.len() > 0 && is_space(text.last()) {
        1 + trailing_spaces(text.drop_last())
    } else {
        0
    }
}

/// `text` without the white space around it. A text of white space alone
/// becomes empty.
pub open spec fn trimmed(text: Seq<char>) -> Seq<char> {
    let rest = text.skip(leading_spaces(text) as int);
    rest.take(rest.len() - trailing_spaces(rest))
}

/// The number of characters before the first `sep` in `text`, or the length
/// of `text` where it holds none.
pub open spec fn field_len(text: Seq<char>, sep: char) -> nat
    decreases text.len(),
{
    if text.len() == 0 || text[0] == sep {
        0
    } else {
        1 + field_len(text.skip(1), sep)
    }
}

/// The parts of `text` between occurrences of `sep`. There is always at
/// least one part: the empty text has one empty part.
pub open spec fn fields(text: Seq<char>, sep: char) -> Seq<Seq<char>>
    decreases text.len(),
{
    let n = field_len(text, sep);
    if n >= text.len() {
        seq![text]
    } else {
        seq![text.take(n as int)] + fields(text.skip(n as int + 1), sep)
    }
}

/// The comma-separated items of `text`, each without the white space
/// around it.
pub open spec fn list_items(text: Seq<char>) -> Seq<Seq<char>> {
    fields(text, ',').map_values(|item: Seq<char>| trimmed(item))
}

/// `leading_spaces` is the offset of the first character that is no white
/// space.
pub proof fn lemma_leading_spaces(text: Seq<char>, k: int)
    requires
        0 <= k <= text.len(),
        forall|j: int| 0 <= j < k ==> is_space(#[trigger] text[j]),
        k < text.len() ==> !is_space(text[k]),
    ensures
        leading_spaces(text) == k,
    decreases k,
{
    if k > 0 {
        let rest = text.skip(1);
        assert forall|j: int| 0 <= j < k - 1 implies is_space(#[trigger] rest[j]) by {
            assert(rest[j] == text[j + 1]);
        }
        lemma_leading_spaces(rest, k - 1);
    }
}

/// `trailing_spaces` is the distance from the end to the last character
/// that is no white space.
pub proof fn lemma_trailing_spaces(text: Seq<char>, k: int)
    requires
        0 <= k <= text.len(),
        forall|j: int| text.len() - k <= j < text.len() ==> is_space(#[trigger] text[j]),
        k < text.len() ==> !is_space(text[text.len() - k - 1]),
    ensures
        trailing_spaces(text) == k,
    decreases k,
{
    if k > 0 {
        let rest = text.drop_last();
        assert forall|j: int| rest.len() - (k - 1) <= j < rest.len() implies is_space(
            #[trigger] rest[j],
        ) by {
            assert(rest[j] == text[j]);
        }
        lemma_trailing_spaces(rest, k - 1);
    }
}

/// `field_len` is the offset of the first separator.
pub proof fn lemma_field_len(text: Seq<char>, sep: char, k: int)
    requires
        0 <= k <= text.len(),
        forall|j: int| 0 <= j < k ==> #[trigger] text[j] != sep,
        k < text.len() ==> text[k] == sep,
    ensures
        field_len(text, sep) == k,
    decreases k,
{
    if k > 0 {
        let rest = text.skip(1);
        assert forall|j: int| 0 <= j < k - 1 implies #[trigger] rest[j] != sep by {
            assert(rest[j] == text[j + 1]);
        }
        lemma_field_len(rest, sep, k - 1);
    }
}

/// The characters of `s`, in order.
pub fn to_chars(s: &str) -> (v: Vec<char>)
    ensures
        v@ == s@,
{
    let mut v: Vec<char> = Vec::new();
    for c in it: s.chars()
        invariant
            it.seq() == s@,
            v@ == it.seq().take(it.index()),
    {
        v.push(c);
    }
    v
}

/// Whether two texts hold the same characters.
pub fn same_text(a: &Vec<char>, b: &Vec<char>) -> (r: bool)
    ensures
        r == (a@ == b@),
{
    if a.len() != b.len() {
        return false;
    }
    let mut i: usize = 0;
    while i < a.len()
        invariant
            a.len() == b.len(),
            i <= a.len(),
            forall|j: int| 0 <= j < i ==> a[j] == b[j],
        decreases a.len() - i,
    {
        if a[i] != b[i] {
            return false;
        }
        i += 1;
    }
    assert(a@ =~= b@);
    true
}

/// Whether `needle` stands in `hay` at offset `at`. It does not where it
/// would reach beyond the end of `hay`.
pub fn matches_at(hay: &Vec<char>, needle: &Vec<char>, at: usize) -> (r: bool)
    ensures
        r == occurs_at(hay@, needle@, at as int),
{
    if needle.len() > hay.len() || at > hay.len() - needle.len() {
        return false;
    }
    let mut k: usize = 0;
    while k < needle.len()
        invariant
            at + needle.len() <= hay.len(),
            k <= needle.len(),
            forall|j: int| 0 <= j < k ==> hay[at + j] == needle[j],
        decreases needle.len() - k,
    {
        if hay[at + k] != needle[k] {
            assert(hay@.subrange(at as int, at + needle.len())[k as int] == hay[at + k]);
            return false;
        }
        k += 1;
    }
    assert(hay@.subrange(at as int, at + needle.len()) =~= needle@);
    true
}

/// Whether `needle` is a contiguous part of `hay`.
pub fn has_part(hay: &Vec<char>, needle: &Vec<char>) -> (r: bool)
    ensures
        r == contains(hay@, needle@),
{
    if needle.len() > hay.len() {
        return false;
    }
    let last: usize = hay.len() - needle.len();
    let mut at: usize = 0;
    loop
        invariant
            last == hay.len() - needle.len(),
            at <= last,
            forall|j: int| 0 <= j < at ==> !occurs_at(hay@, needle@, j),
        decreases last - at,
    {
        if matches_at(hay, needle, at) {
            return true;
        }
        if at == last {
            return false;
        }
        at += 1;
    }
}

/// Whether `c` is white space.
pub fn is_whitespace(c: char) -> (b: bool)
    ensures
        b == is_space(c),
{
    let u: u32 = c as u32;
    (0x09 <= u && u <= 0x0D) || u == 0x20 || u == 0x85 || u == 0xA0 || u == 0x1680 || (0x2000 <= u
        && u <= 0x200A) || u == 0x2028 || u == 0x2029 || u == 0x202F || u == 0x205F || u == 0x3000
}

/// A copy of `s` without the white space around it.
pub fn trim(s: &str) -> (r: String)
    ensures
        r@ == trimmed(s@),
{
    let chars = to_chars(s);
    let mut start: usize = 0;
    while start < chars.len() && is_whitespace(chars[start])
        invariant
            start <= chars.len(),
            forall|j: int| 0 <= j < start ==> is_space(#[trigger] chars[j]),
        decreases chars.len() - start,
    {
        start += 1;
    }
    let mut end: usize = chars.len();
    while end > start && is_whitespace(chars[end - 1])
        invariant
            start <= end <= chars.len(),
            forall|j: int| end <= j < chars.len() ==> is_space(#[trigger] chars[j]),
        decreases end,
    {
        end -= 1;
    }
    proof {
        lemma_leading_spaces(chars@, start as int);
        let rest = chars@.skip(start as int);
        assert forall|j: int| rest.len() - (chars.len() - end) <= j < rest.len() implies is_space(
            #[trigger] rest[j],
        ) by {
            assert(rest[j] == chars[j + start]);
        }
        if chars.len() - end < rest.len() {
            assert(rest[rest.len() - (chars.len() - end) - 1] == chars[end - 1]);
        }
        lemma_trailing_spaces(rest, chars.len() - end);
        assert(trimmed(s@) =~= s@.subrange(start as int, end as int));
    }
    s.substring_char(start, end).to_owned()
}

/// The comma-separated items of `text`, each without the white space
/// around it, in the order in which they stand.
pub fn parse_list(text: &str) -> (items: Vec<String>)
    ensures
        texts(items@) == list_items(text@),
{
    let chars = to_chars(text);
    let mut items: Vec<String> = Vec::new();
    let mut start: usize = 0;
    let mut i: usize = 0;
    assert(text@.skip(0) =~= text@);
    assert(texts(items@) + list_items(text@) =~= list_items(text@));
    while i < chars.len()
        invariant
            chars@ == text@,
            start <= i <= chars.len(),
            forall|j: int| start <= j < i ==> chars[j] != ',',
            list_items(text@) == texts(items@) + list_items(text@.skip(start as int)),
        decreases chars.len() - i,
    {
        if chars[i] == ',' {
            let item = trim(text.substring_char(start, i));
            proof {
                let rest = text@.skip(start as int);
                assert forall|j: int| 0 <= j < i - start implies #[trigger] rest[j] != ',' by {
                    assert(rest[j] == chars[j + start]);
                }
                lemma_field_len(rest, ',', i - start);
                assert(rest.take(i - start) =~= text@.subrange(start as int, i as int));
                assert(rest.skip(i - start + 1) =~= text@.skip(i + 1));
                assert(list_items(rest) =~= seq![item@] + list_items(text@.skip(i + 1)));
                assert(texts(items@.push(item)) =~= texts(items@) + seq![item@]);
            }
            items.push(item);
            start = i + 1;
        }
        i += 1;
    }
    let item = trim(text.substring_char(start, chars.len()));
    proof {
        let rest = text@.skip(start as int);
        assert forall|j: int| 0 <= j < rest.len() implies #[trigger] rest[j] != ',' by {
            assert(rest[j] == chars[j + start]);
        }
        lemma_field_len(rest, ',', rest.len() as int);
        assert(rest =~= text@.subrange(start as int, chars.len() as int));
        assert(list_items(rest) =~= seq![item@]);
        assert(texts(items@.push(item)) =~= texts(items@) + seq![item@]);
    }
    items.push(item);
    items
}

} // verus!
