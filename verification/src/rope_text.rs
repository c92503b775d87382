use vstd::prelude::*;
use ropey::Rope;
use crate::offsets::{byte_offset, utf8_len};

verus! {

/// `ropey::Rope`, carried through the engine as an opaque value whose
/// contents are known only through `rope_chars`.
#[verifier::external_type_specification]
#[verifier::external_body]
pub struct ExRope(Rope);

/// The chars that a rope holds, in order.
pub uninterp spec fn rope_chars(rope: Rope) -> Seq<char>;

/// `Rope::new`: the rope it returns holds no chars.
#[verifier::external_body]
pub(crate) fn rope_new() -> (rope: Rope)
    ensures
        rope_chars(rope) == Seq::<char>::empty(),
{
    Rope::new()
}

/// `Rope::from_str`: the rope it returns holds exactly the chars of `text`.
#[verifier::external_body]
pub(crate) fn rope_from_str(text: &str) -> (rope: Rope)
    ensures
        rope_chars(rope) == text@,
{
    Rope::from_str(text)
}

/// `Rope::len_chars`: the number of chars the rope holds.
#[verifier::external_body]
pub(crate) fn rope_len_chars(rope: &Rope) -> (n: usize)
    ensures
        n == rope_chars(*rope).len(),
{
    rope.len_chars()
}

/// `Rope::insert`: puts the chars of `text` before the char at `char_idx`;
/// it panics when `char_idx` is past the end, which `requires` rules out.
#[verifier::external_body]
pub(crate) fn rope_insert(rope: &mut Rope, char_idx: usize, text: &str)
    requires
        char_idx <= rope_chars(*old(rope)).len(),
    ensures
        rope_chars(*final(rope)) == rope_chars(*old(rope)).take(char_idx as int) + text@
            + rope_chars(*old(rope)).skip(char_idx as int),
{
    rope.insert(char_idx, text)
}

/// `Rope::remove` on the char range `start..end`: drops those chars; it
/// panics when `start > end` or `end` is past the end, which `requires`
/// rules out.
#[verifier::external_body]
pub(crate) fn rope_remove(rope: &mut Rope, start: usize, end: usize)
    requires
        start <= end <= rope_chars(*old(rope)).len(),
    ensures
        rope_chars(*final(rope)) == rope_chars(*old(rope)).take(start as int) + rope_chars(
            *old(rope),
        ).skip(end as int),
{
    rope.remove(start..end)
}

/// `Rope::char_to_byte`: the byte index, in the rope's UTF-8 text, at which
/// the char with index `char_idx` begins (the byte length when `char_idx` is
/// one past the end); it panics past the end, which `requires` rules out.
#[verifier::external_body]
pub(crate) fn rope_char_to_byte(rope: &Rope, char_idx: usize) -> (byte: usize)
    requires
        char_idx <= rope_chars(*rope).len(),
    ensures
        byte == byte_offset(rope_chars(*rope), char_idx as int),
{
    rope.char_to_byte(char_idx)
}

/// `Rope::to_string` (through its `Display` impl): a `String` holding the
/// rope's chars. The byte length of a `String` is a `usize`.
#[verifier::external_body]
pub(crate) fn rope_to_string(rope: &Rope) -> (text: String)
    ensures
        text@ == rope_chars(*rope),
        utf8_len(text@) <= usize::MAX,
{
    rope.to_string()
}

/// `Rope::byte_to_char`: the index of the char that the byte with index
/// `byte` belongs to (one past the last char for the byte length). It
/// panics past the byte length, which `requires` rules out. What it returns
/// for a byte inside a char's encoding is not stated here: only the case of
/// a byte at which a char begins.
#[verifier::external_body]
pub(crate) fn rope_byte_to_char(rope: &Rope, byte: usize) -> (char_idx: usize)
    requires
        byte <= utf8_len(rope_chars(*rope)),
    ensures
        char_idx <= rope_chars(*rope).len(),
        forall|k: int|
            0 <= k <= rope_chars(*rope).len() && #[trigger] byte_offset(rope_chars(*rope), k)
                == byte ==> char_idx == k,
{
    rope.byte_to_char(byte)
}

} // verus!
