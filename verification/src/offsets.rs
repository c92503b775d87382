use vstd::prelude::*;
use vstd::utf8::*;

verus! {

/// The number of bytes that the UTF-8 encoding of `chars` takes.
pub open spec fn utf8_len(chars: Seq<char>) -> nat {
    encode_utf8(chars).len()
}

/// The byte offset, in the UTF-8 encoding of `text`, at which the char with
/// index `char_idx` begins (the byte length of the text when `char_idx` is
/// its char length).
pub open spec fn byte_offset(text: Seq<char>, char_idx: int) -> nat {
    utf8_len(text.take(char_idx))
}

/// `byte` is the offset at which some char of `text` begins, or the end of
/// its encoding.
pub open spec fn is_char_start(text: Seq<char>, byte: int) -> bool {
    exists|k: int| 0 <= k <= text.len() && #[trigger] byte_offset(text, k) == byte
}

/// Every char takes at least one byte.
pub proof fn lemma_encode_scalar_nonempty(c: char)
    ensures
        encode_scalar(c as u32).len() >= 1,
{
}

/// The encoding of a concatenation is the concatenation of the encodings.
pub proof fn lemma_encode_utf8_concat(a: Seq<char>, b: Seq<char>)
    ensures
        encode_utf8(a + b) == encode_utf8(a) + encode_utf8(b),
    decreases a.len(),
{
    if a.len() == 0 {
        assert(a + b =~= b);
        assert(encode_utf8(a) =~= Seq::<u8>::empty());
        assert(encode_utf8(a) + encode_utf8(b) =~= encode_utf8(b));
    } else {
        assert((a + b)[0] == a[0]);
        assert((a + b).drop_first() =~= a.drop_first() + b);
        lemma_encode_utf8_concat(a.drop_first(), b);
        let h = encode_scalar(a[0] as u32);
        assert(encode_utf8(a + b) == h + encode_utf8(a.drop_first() + b));
        assert(encode_utf8(a) == h + encode_utf8(a.drop_first()));
        assert(h + (encode_utf8(a.drop_first()) + encode_utf8(b)) =~= (h + encode_utf8(
            a.drop_first(),
        )) + encode_utf8(b));
    }
}

/// A text has at least as many bytes as chars.
pub proof fn lemma_utf8_len_at_least_chars(s: Seq<char>)
    ensures
        utf8_len(s) >= s.len(),
    decreases s.len(),
{
    if s.len() > 0 {
        lemma_encode_scalar_nonempty(s[0]);
        lemma_utf8_len_at_least_chars(s.drop_first());
    }
}

/// Byte length is additive over concatenation.
pub proof fn lemma_utf8_len_concat(a: Seq<char>, b: Seq<char>)
    ensures
        utf8_len(a + b) == utf8_len(a) + utf8_len(b),
{
    lemma_encode_utf8_concat(a, b);
}

/// Splitting a text at a char index splits its byte length at the byte
/// offset of that index; the offsets grow strictly with the char index.
pub proof fn lemma_byte_offset_split(text: Seq<char>, k: int)
    requires
        0 <= k <= text.len(),
    ensures
        utf8_len(text) == byte_offset(text, k) + utf8_len(text.skip(k)),
        k < text.len() ==> byte_offset(text, k) < utf8_len(text),
        utf8_len(text.skip(k)) >= text.len() - k,
{
    assert(text =~= text.take(k) + text.skip(k));
    lemma_utf8_len_concat(text.take(k), text.skip(k));
    lemma_utf8_len_at_least_chars(text.skip(k));
}

/// The byte offset of a char index in a suffix of a text, shifted by the
/// offset at which the suffix begins, is the offset in the whole text.
pub proof fn lemma_byte_offset_in_suffix(text: Seq<char>, k: int, j: int)
    requires
        0 <= k <= text.len(),
        0 <= j <= text.len() - k,
    ensures
        byte_offset(text, k + j) == byte_offset(text, k) + byte_offset(text.skip(k), j),
{
    assert(text.take(k + j) =~= text.take(k) + text.skip(k).take(j));
    lemma_utf8_len_concat(text.take(k), text.skip(k).take(j));
}

/// Byte offsets grow strictly with the char index.
pub proof fn lemma_byte_offset_strict(text: Seq<char>, i: int, j: int)
    requires
        0 <= i < j <= text.len(),
    ensures
        byte_offset(text, i) < byte_offset(text, j),
{
    lemma_byte_offset_in_suffix(text, i, j - i);
    assert(text.skip(i).take(j - i).len() == j - i);
    lemma_utf8_len_at_least_chars(text.skip(i).take(j - i));
}

/// A char start lies within the encoding of the text.
pub proof fn lemma_char_start_bounded(text: Seq<char>, k: int)
    requires
        0 <= k <= text.len(),
    ensures
        byte_offset(text, k) <= utf8_len(text),
{
    lemma_byte_offset_split(text, k);
}

} // verus!
