//! The pattern compiler: how the regular expression of a search is put
//! together from the raw pattern and the two modifiers, and what a compiled
//! pattern finds in a text.

use vstd::prelude::*;
use vstd::string::StringExecFns;
use vstd::string::StrSliceExecFns;
use vstd::string::StringSliceAdditionalSpecFns;
use vstd::utf8::{decode_utf8, encode_utf8, is_char_boundary};

verus! {

broadcast use vstd::string::group_string_axioms;

/// What opens a whole-word pattern: a run of boundary characters, or the
/// start of the text. The boundary characters are `-`, `_`, `.`, `/`, `(`,
/// `)`, `[`, `]` and white space.
pub const WORD_START: &'static str = "([\\-_./()\\[\\][[:space:]]]+|^)";

/// What closes a whole-word pattern: a run of boundary characters, or the
/// end of the text.
pub const WORD_END: &'static str = "([\\-_./()\\[\\][[:space:]]]+|$)";

/// The flag that makes the expression match without regard to case.
pub const IGNORE_CASE: &'static str = "(?i)";

/// The flag that makes the expression match with regard to case.
pub const MATCH_CASE: &'static str = "(?-i)";

/// `regex::Regex`, a compiled regular expression. Nothing is known of what
/// it holds.
#[verifier::external_type_specification]
#[verifier::external_body]
pub struct ExRegex(regex::Regex);

/// `regex::Error`, the reason for which an expression was refused. Nothing
/// is known of what it holds.
#[verifier::external_type_specification]
#[verifier::external_body]
pub struct ExRegexError(regex::Error);

/// Whether `Regex::new` accepts `source`: it is a regular expression, and
/// it compiles within the size limit that `Regex::new` sets.
pub uninterp spec fn regex_accepts(source: Seq<char>) -> bool;

/// Where the first match of the regular expression `source` begins in
/// `text`, as a byte offset into the UTF-8 encoding of `text`, as
/// `Regex::find` gives it for an expression that `Regex::new` compiled.
pub uninterp spec fn regex_find(source: Seq<char>, text: Seq<char>) -> Option<usize>;

/// A compiled search pattern. It is made once and serves every comparison
/// of a run. Only `compile` makes one, so that `re` is always what
/// `Regex::new` made of `source`.
#[derive(Debug)]
pub struct CompiledPattern {
    source: String,
    re: regex::Regex,
}

/// A pattern whose expression `Regex::new` refused.
#[derive(Debug)]
pub struct InvalidPattern {
    /// The expression that was refused.
    pub source: String,
    /// Why it was refused.
    pub cause: regex::Error,
}

/// The regular expression that a search compiles. The flag in front says
/// whether case counts; the pattern itself stands as it was given, with
/// all that it means as a regular expression. With `is_whole` it stands
/// between two word boundaries; without, it stands alone and may match
/// anywhere.
pub open spec fn pattern_text(is_ignore: bool, is_whole: bool, pattern: Seq<char>) -> Seq<char> {
    let flag = if is_ignore {
        IGNORE_CASE@
    } else {
        MATCH_CASE@
    };
    if is_whole {
        flag + WORD_START@ + pattern + WORD_END@
    } else {
        flag + pattern
    }
}

/// The number of characters of `text` that are encoded before the byte
/// offset `offset`.
pub open spec fn chars_before(text: Seq<char>, offset: int) -> nat {
    decode_utf8(encode_utf8(text).subrange(0, offset)).len()
}

/// `Regex::new`: compiles `source`. A pattern comes back exactly where
/// `Regex::new` accepts the expression, and it holds the expression that
/// it was compiled from.
#[verifier::external_body]
fn compile(source: String) -> (outcome: Result<CompiledPattern, regex::Error>)
    ensures
        outcome is Ok <==> regex_accepts(source@),
        outcome matches Ok(p) ==> p.source == source,
{
    match regex::Regex::new(&source) {
        Ok(re) => Ok(CompiledPattern { source, re }),
        Err(e) => Err(e),
    }
}

/// `Regex::find` and `Match::start`: the byte offset at which the first
/// match of the pattern begins in `text`, if there is a match. The offset
/// never falls inside the encoding of a character.
#[verifier::external_body]
fn find_start(pattern: &CompiledPattern, text: &str) -> (start: Option<usize>)
    ensures
        start == regex_find(pattern.source@, text@),
        start matches Some(at) ==> is_char_boundary(text.spec_bytes(), at as int),
{
    pattern.re.find(text).map(|m| m.start())
}

/// The text of the regular expression for a search.
pub fn pattern_source(is_ignore: bool, is_whole: bool, pattern: &str) -> (source: String)
    ensures
        source@ == pattern_text(is_ignore, is_whole, pattern@),
{
    let mut source = String::from_str(if is_ignore { IGNORE_CASE } else { MATCH_CASE });
    if is_whole {
        source.append(WORD_START);
    }
    source.append(pattern);
    if is_whole {
        source.append(WORD_END);
    }
    source
}

/// What a search makes of the compiler's answer for the expression
/// `source`: the compiled pattern, or the refusal with the expression that
/// caused it.
pub fn compiled(source: String, outcome: Result<CompiledPattern, regex::Error>) -> (r: Result<
    CompiledPattern,
    InvalidPattern,
>)
    ensures
        match outcome {
            Ok(p) => r == Ok::<CompiledPattern, InvalidPattern>(p),
            Err(e) => r == Err::<CompiledPattern, InvalidPattern>(
                (InvalidPattern { source, cause: e }),
            ),
        },
{
    match outcome {
        Ok(p) => Ok(p),
        Err(e) => Err(InvalidPattern { source, cause: e }),
    }
}

/// Compiles the pattern of a search. A pattern comes back exactly where
/// `Regex::new` accepts the expression built from `pattern`; a refusal is
/// an error that holds the expression and the reason.
pub fn get_re(is_ignore: bool, is_whole: bool, pattern: &str) -> (r: Result<
    CompiledPattern,
    InvalidPattern,
>)
    ensures
        r is Ok <==> regex_accepts(pattern_text(is_ignore, is_whole, pattern@)),
        match r {
            Ok(p) => p.source() == pattern_text(is_ignore, is_whole, pattern@),
            Err(e) => e.source@ == pattern_text(is_ignore, is_whole, pattern@),
        },
{
    let source = pattern_source(is_ignore, is_whole, pattern);
    let outcome = compile(source.clone());
    compiled(source, outcome)
}

impl CompiledPattern {
    /// The regular expression that the pattern was compiled from.
    pub closed spec fn source(&self) -> Seq<char> {
        self.source@
    }

    /// Where the first match begins in `text`, counted in characters, if
    /// the pattern matches in `text` at all.
    pub open spec fn first_match(&self, text: Seq<char>) -> Option<nat> {
        match regex_find(self.source(), text) {
            Some(at) => Some(chars_before(text, at as int)),
            None => None,
        }
    }

    /// The regular expression that the pattern was compiled from.
    pub fn as_str(&self) -> (source: &str)
        ensures
            source@ == self.source(),
    {
        self.source.as_str()
    }

    /// Where the first match begins in `text`, counted in characters.
    pub fn find(&self, text: &str) -> (start: Option<usize>)
        ensures
            match start {
                Some(at) => self.first_match(text@) == Some(at as nat) && at <= text@.len(),
                None => self.first_match(text@) is None,
            },
    {
        match find_start(self, text) {
            Some(at) => {
                let (head, _tail) = text.split_at(at);
                proof {
                    let bytes = text.spec_bytes();
                    vstd::utf8::encode_utf8_valid_utf8(text@);
                    vstd::utf8::encode_utf8_decode_utf8(text@);
                    vstd::utf8::encode_utf8_decode_utf8(head@);
                    vstd::utf8::decode_utf8_split(bytes, at as int);
                    assert(head@ == decode_utf8(bytes.subrange(0, at as int)));
                }
                Some(head.unicode_len())
            },
            None => None,
        }
    }

    /// Whether the pattern matches somewhere in `text`.
    pub fn is_match(&self, text: &str) -> (r: bool)
        ensures
            r == self.first_match(text@) is Some,
    {
        self.find(text).is_some()
    }
}

} // verus!
