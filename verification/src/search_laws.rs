use vstd::prelude::*;
use crate::edit::splice;
use crate::engine::{
    is_match_char_range, lemma_match_char_range, match_char_range, replace_all_from, search_spec,
};
use crate::offsets::{byte_offset, lemma_utf8_len_concat, utf8_len};
use crate::pattern::{regex_compiles, regex_first_match};

verus! {

/// A search for `pattern` from char index `start` of `text` runs the regex
/// over the whole rest of the text, `text.skip(start)`: with an invalid
/// pattern, or from the end of the text, it finds nothing; otherwise it
/// finds exactly what the regex's first match in that rest is, with both
/// offsets moved by the byte offset at which the rest begins.
pub proof fn law_search_covers_whole_rest(text: Seq<char>, pattern: Seq<char>, start: int)
    requires
        0 <= start,
    ensures
        !regex_compiles(pattern) ==> search_spec(text, pattern, start) is None,
        start >= text.len() ==> search_spec(text, pattern, start) is None,
        regex_compiles(pattern) && start < text.len() ==> {
            &&& (search_spec(text, pattern, start) is None <==> regex_first_match(
                pattern,
                text.skip(start),
            ) is None)
            &&& regex_first_match(pattern, text.skip(start)) matches Some((s, e)) ==> search_spec(
                text,
                pattern,
                start,
            ) == Some(
                (utf8_len(text.take(start)) + s as int, utf8_len(text.take(start)) + e as int),
            )
        },
{
}

/// The char range that a search names lies within the text, from the
/// search's start on, and its bounds are the chars at whose encodings the
/// search's byte offsets lie; a search that finds nothing names no range.
pub proof fn law_match_char_range_meaning(text: Seq<char>, pattern: Seq<char>, start: int)
    ensures
        search_spec(text, pattern, start) is None ==> match_char_range(text, pattern, start) is None,
        match_char_range(text, pattern, start) matches Some((cs, ce)) ==> {
            &&& 0 <= start <= cs <= ce <= text.len()
            &&& search_spec(text, pattern, start) == Some(
                (utf8_len(text.take(cs)) as int, utf8_len(text.take(ce)) as int),
            )
        },
{
    if exists|cs: int, ce: int| is_match_char_range(text, pattern, start, cs, ce) {
        let (cs, ce) = choose|cs: int, ce: int| is_match_char_range(text, pattern, start, cs, ce);
        assert(is_match_char_range(text, pattern, start, cs, ce));
    }
}

/// Byte offsets in a text that follows `prefix` are those in the text
/// alone, moved by the byte length of `prefix`.
proof fn lemma_byte_offset_after_prefix(prefix: Seq<char>, s: Seq<char>, k: int)
    requires
        0 <= k <= s.len(),
    ensures
        byte_offset(prefix + s, prefix.len() + k) == utf8_len(prefix) + byte_offset(s, k),
{
    assert((prefix + s).take(prefix.len() + k) =~= prefix + s.take(k));
    lemma_utf8_len_concat(prefix, s.take(k));
}

/// A search in `prefix + s` from a position within `s` finds what the same
/// search in `s` finds, moved by the byte length of `prefix`.
proof fn lemma_search_after_prefix(prefix: Seq<char>, s: Seq<char>, pattern: Seq<char>, j: int)
    requires
        0 <= j <= s.len(),
    ensures
        search_spec(prefix + s, pattern, prefix.len() + j) == match search_spec(s, pattern, j) {
            Some((a, b)) => Some((a + utf8_len(prefix), b + utf8_len(prefix))),
            None => None,
        },
{
    let t = prefix + s;
    assert(t.skip(prefix.len() + j) =~= s.skip(j));
    lemma_byte_offset_after_prefix(prefix, s, j);
}

/// The char range found in `prefix + s` from a position within `s` is the
/// one found in `s`, moved by the length of `prefix`.
proof fn lemma_match_range_after_prefix(prefix: Seq<char>, s: Seq<char>, pattern: Seq<char>, j: int)
    requires
        0 <= j <= s.len(),
    ensures
        match_char_range(prefix + s, pattern, prefix.len() + j) == match match_char_range(
            s,
            pattern,
            j,
        ) {
            Some((cs, ce)) => Some((cs + prefix.len(), ce + prefix.len())),
            None => None,
        },
{
    let t = prefix + s;
    let l = prefix.len() as int;
    lemma_search_after_prefix(prefix, s, pattern, j);
    if exists|cs: int, ce: int| is_match_char_range(s, pattern, j, cs, ce) {
        let (cs, ce) = choose|cs: int, ce: int| is_match_char_range(s, pattern, j, cs, ce);
        assert(is_match_char_range(s, pattern, j, cs, ce));
        lemma_match_char_range(s, pattern, j, cs, ce);
        lemma_byte_offset_after_prefix(prefix, s, cs);
        lemma_byte_offset_after_prefix(prefix, s, ce);
        assert(is_match_char_range(t, pattern, l + j, l + cs, l + ce));
        lemma_match_char_range(t, pattern, l + j, l + cs, l + ce);
    } else {
        assert forall|x: int, y: int| !#[trigger] is_match_char_range(t, pattern, l + j, x, y) by {
            if is_match_char_range(t, pattern, l + j, x, y) {
                lemma_byte_offset_after_prefix(prefix, s, x - l);
                lemma_byte_offset_after_prefix(prefix, s, y - l);
                assert(is_match_char_range(s, pattern, j, x - l, y - l));
            }
        }
    }
}

/// Replacing from a position within `s` in `prefix + s` leaves `prefix`
/// alone and does in `s` what replacing in `s` alone does, with the same
/// count.
proof fn lemma_replace_all_after_prefix(
    prefix: Seq<char>,
    s: Seq<char>,
    pattern: Seq<char>,
    replacement: Seq<char>,
    j: int,
)
    requires
        0 <= j <= s.len(),
    ensures
        replace_all_from(prefix + s, pattern, replacement, prefix.len() + j) == (
            prefix + replace_all_from(s, pattern, replacement, j).0,
            replace_all_from(s, pattern, replacement, j).1,
        ),
    decreases s.len() - j,
{
    let t = prefix + s;
    let l = prefix.len() as int;
    lemma_match_range_after_prefix(prefix, s, pattern, j);
    match match_char_range(s, pattern, j) {
        None => {},
        Some((cs, ce)) => {
            let replaced_s = splice(s, cs, ce - cs, replacement);
            let replaced_t = splice(t, l + cs, ce - cs, replacement);
            let next_s = if cs == ce {
                cs + replacement.len() + 1
            } else {
                cs + replacement.len()
            };
            if j <= cs <= ce <= s.len() {
                assert(replaced_t =~= prefix + replaced_s);
            }
            if j <= cs <= ce <= s.len() && next_s <= replaced_s.len() && replaced_s.len() - next_s
                < s.len() - j {
                lemma_replace_all_after_prefix(prefix, replaced_s, pattern, replacement, next_s);
            }
        },
    }
}

/// Replacing every match from `pos` on, when no match is found from `pos`,
/// changes nothing and counts no replacement.
pub proof fn law_replace_all_without_match(
    text: Seq<char>,
    pattern: Seq<char>,
    replacement: Seq<char>,
    pos: int,
)
    requires
        0 <= pos <= text.len(),
        match_char_range(text, pattern, pos) is None,
    ensures
        replace_all_from(text, pattern, replacement, pos) == (text, 0nat),
{
}

/// Replacing every match from `pos` on, when the first match found from
/// `pos` covers the chars `cs..ce` (not empty): the text up to `cs` stays,
/// the match gives way to `replacement`, and the rest of the original text
/// after the match is treated as a text of its own, from its start; the
/// count is one more than the count for that rest. So every match is
/// replaced, left to right, the search never skips past original text, and
/// the count is the number of replacements.
pub proof fn law_replace_all_nonempty_match(
    text: Seq<char>,
    pattern: Seq<char>,
    replacement: Seq<char>,
    pos: int,
    cs: int,
    ce: int,
)
    requires
        0 <= pos <= text.len(),
        match_char_range(text, pattern, pos) == Some((cs, ce)),
        cs < ce,
    ensures
        pos <= cs,
        ce <= text.len(),
        replace_all_from(text, pattern, replacement, pos).0 == text.take(cs) + replacement
            + replace_all_from(text.skip(ce), pattern, replacement, 0).0,
        replace_all_from(text, pattern, replacement, pos).1 == replace_all_from(
            text.skip(ce),
            pattern,
            replacement,
            0,
        ).1 + 1,
{
    law_match_char_range_meaning(text, pattern, pos);
    let prefix = text.take(cs) + replacement;
    let rest = text.skip(ce);
    assert(splice(text, cs, ce - cs, replacement) =~= prefix + rest);
    lemma_replace_all_after_prefix(prefix, rest, pattern, replacement, 0);
}

/// Replacing every match from `pos` on, when the first match found from
/// `pos` is empty, at char `cs` before the end: `replacement` is put before
/// that char, which stays, and the rest of the original text after it is
/// treated as a text of its own; the count is one more than for that rest.
/// An empty match at the very end appends `replacement` and counts one.
pub proof fn law_replace_all_empty_match(
    text: Seq<char>,
    pattern: Seq<char>,
    replacement: Seq<char>,
    pos: int,
    cs: int,
)
    requires
        0 <= pos <= text.len(),
        match_char_range(text, pattern, pos) == Some((cs, cs)),
    ensures
        pos <= cs <= text.len(),
        cs < text.len() ==> {
            &&& replace_all_from(text, pattern, replacement, pos).0 == text.take(cs) + replacement
                + seq![text[cs]] + replace_all_from(text.skip(cs + 1), pattern, replacement, 0).0
            &&& replace_all_from(text, pattern, replacement, pos).1 == replace_all_from(
                text.skip(cs + 1),
                pattern,
                replacement,
                0,
            ).1 + 1
        },
        cs == text.len() ==> replace_all_from(text, pattern, replacement, pos) == (
            text + replacement,
            1nat,
        ),
{
    law_match_char_range_meaning(text, pattern, pos);
    if cs < text.len() {
        let prefix = text.take(cs) + replacement + seq![text[cs]];
        let rest = text.skip(cs + 1);
        assert(splice(text, cs, 0, replacement) =~= prefix + rest);
        lemma_replace_all_after_prefix(prefix, rest, pattern, replacement, 0);
    } else {
        assert(splice(text, cs, 0, replacement) =~= text + replacement);
    }
}

} // verus!
