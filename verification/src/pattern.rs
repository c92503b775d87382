use vstd::prelude::*;
use regex::Regex;
use crate::offsets::{byte_offset, is_char_start};

verus! {

/// `regex::Regex`, carried as an opaque value.
#[verifier::external_type_specification]
#[verifier::external_body]
pub struct ExRegex(Regex);

/// Whether `Regex::new` accepts `pattern`.
pub uninterp spec fn regex_compiles(pattern: Seq<char>) -> bool;

/// The byte offsets, within the UTF-8 encoding of `haystack`, of the start
/// and end of the first match that `Regex::find` reports for the regex
/// compiled from `pattern`, if there is one.
pub uninterp spec fn regex_first_match(pattern: Seq<char>, haystack: Seq<char>) -> Option<(usize, usize)>;

/// A regular expression together with the pattern it was compiled from.
pub struct CompiledPattern {
    source: String,
    regex: Regex,
}

impl View for CompiledPattern {
    type V = Seq<char>;

    /// The pattern the regular expression was compiled from.
    closed spec fn view(&self) -> Seq<char> {
        self.source@
    }
}

/// `Regex::new`: compiles `pattern` with the default settings. It returns
/// a regular expression exactly when the pattern is accepted; the result
/// depends on the pattern alone and is not stated beyond that.
#[verifier::external_body]
pub(crate) fn compile_pattern(pattern: &str) -> (compiled: Option<CompiledPattern>)
    ensures
        compiled is Some <==> regex_compiles(pattern@),
        compiled matches Some(c) ==> c@ == pattern@,
{
    match Regex::new(pattern) {
        Ok(regex) => Some(CompiledPattern { source: pattern.to_string(), regex }),
        Err(_) => None,
    }
}

/// `Regex::find`, with `Match::start` and `Match::end` of what it returns:
/// the first match in `haystack`, as byte offsets. The crate documents that
/// the start is at most the end and that both fall on char boundaries of
/// the haystack; which match is reported is named, not stated.
#[verifier::external_body]
pub(crate) fn regex_find(pattern: &CompiledPattern, haystack: &str) -> (found: Option<(usize, usize)>)
    ensures
        found == regex_first_match(pattern@, haystack@),
        found matches Some((s, e)) ==> s <= e && is_char_start(haystack@, s as int)
            && is_char_start(haystack@, e as int),
{
    match pattern.regex.find(haystack) {
        Some(m) => Some((m.start(), m.end())),
        None => None,
    }
}

/// Slicing a `str` from a byte offset (`&s[from_byte..]`): the chars from
/// the char that begins at that offset on. It panics unless the offset is
/// a char boundary, which `requires` rules out.
#[verifier::external_body]
pub(crate) fn str_tail(s: &str, from_byte: usize) -> (tail: &str)
    requires
        is_char_start(s@, from_byte as int),
    ensures
        forall|k: int|
            0 <= k <= s@.len() && #[trigger] byte_offset(s@, k) == from_byte ==> tail@ == s@.skip(k),
{
    &s[from_byte..]
}

} // verus!
