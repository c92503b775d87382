use vstd::prelude::*;
use vstd::utf8::{
    char_is_scalar, decode_utf8, encode_scalar, encode_utf8, encode_utf8_decode_utf8,
    encode_utf8_valid_utf8, has_width_1_encoding, has_width_2_encoding, has_width_3_encoding,
    has_width_4_encoding, valid_utf8,
};

verus! {

/// The encodings that the engine reads files in.
#[derive(Clone, Copy, Debug, PartialEq, Eq, Structural)]
pub enum TextEncoding {
    Utf8,
    ShiftJis,
}

/// The text and the had-errors flag that `Encoding::decode` returns for the
/// encoding `encoding` (with its BOM sniffing) on the complete input `bytes`.
pub uninterp spec fn encoding_decode(encoding: TextEncoding, bytes: Seq<u8>) -> (Seq<char>, bool);

/// The input begins with the UTF-8 byte order mark EF BB BF.
pub open spec fn has_utf8_bom(bytes: Seq<u8>) -> bool {
    bytes.len() >= 3 && bytes[0] == 0xEFu8 && bytes[1] == 0xBBu8 && bytes[2] == 0xBFu8
}

/// The input without its UTF-8 byte order mark, if it has one.
pub open spec fn without_utf8_bom(bytes: Seq<u8>) -> Seq<u8> {
    if has_utf8_bom(bytes) {
        bytes.skip(3)
    } else {
        bytes
    }
}

/// `Encoding::decode` of `encoding_rs` on `UTF_8` or `SHIFT_JIS`: decodes
/// the whole input, with BOM sniffing, replacing malformed sequences. Its
/// text and had-errors flag are named; the crate documents that valid UTF-8
/// decoded as UTF-8 comes back unchanged, with no errors and without its BOM.
/// It panics when the size of its output buffer overflows `usize`, which
/// the bound in `requires` rules out.
#[verifier::external_body]
pub(crate) fn decode_bytes(encoding: TextEncoding, bytes: &[u8]) -> (decoded: (String, bool))
    requires
        bytes@.len() <= usize::MAX / 4,
    ensures
        (decoded.0@, decoded.1) == encoding_decode(encoding, bytes@),
        encoding == TextEncoding::Utf8 && valid_utf8(bytes@) ==> decoded.0@ == decode_utf8(
            without_utf8_bom(bytes@),
        ) && !decoded.1,
{
    let coder = match encoding {
        TextEncoding::Utf8 => encoding_rs::UTF_8,
        TextEncoding::ShiftJis => encoding_rs::SHIFT_JIS,
    };
    let (text, _, had_errors) = coder.decode(bytes);
    (text.into_owned(), had_errors)
}

/// The text of a file with contents `bytes`: its UTF-8 decoding when that
/// has no errors, else its Shift_JIS decoding.
pub open spec fn file_text(bytes: Seq<u8>) -> Seq<char> {
    if !encoding_decode(TextEncoding::Utf8, bytes).1 {
        encoding_decode(TextEncoding::Utf8, bytes).0
    } else {
        encoding_decode(TextEncoding::ShiftJis, bytes).0
    }
}

/// Decodes the contents of a file: as UTF-8 when that succeeds without
/// errors, else as Shift_JIS. Valid UTF-8 comes back as its chars, less a
/// leading byte order mark.
pub fn decode_file_bytes(bytes: &[u8]) -> (text: String)
    requires
        bytes@.len() <= usize::MAX / 4,
    ensures
        text@ == file_text(bytes@),
        !encoding_decode(TextEncoding::Utf8, bytes@).1 ==> text@ == encoding_decode(
            TextEncoding::Utf8,
            bytes@,
        ).0,
        encoding_decode(TextEncoding::Utf8, bytes@).1 ==> text@ == encoding_decode(
            TextEncoding::ShiftJis,
            bytes@,
        ).0,
        valid_utf8(bytes@) ==> text@ == decode_utf8(without_utf8_bom(bytes@)),
{
    let (text, had_errors) = decode_bytes(TextEncoding::Utf8, bytes);
    if !had_errors {
        text
    } else {
        let (text, _) = decode_bytes(TextEncoding::ShiftJis, bytes);
        text
    }
}

/// The only char whose UTF-8 encoding begins like a byte order mark is
/// U+FEFF itself: a text that does not begin with it encodes to bytes
/// without a byte order mark.
pub proof fn lemma_no_bom_without_bom_char(text: Seq<char>)
    requires
        text.len() > 0 ==> text[0] != '\u{FEFF}',
    ensures
        !has_utf8_bom(encode_utf8(text)),
{
    if text.len() > 0 {
        let c = text[0] as u32;
        char_is_scalar(text[0]);
        let head = encode_scalar(c);
        let bytes = encode_utf8(text);
        assert(bytes == head + encode_utf8(text.drop_first()));
        if has_width_1_encoding(c) {
            assert((c & 0x7F) as u8 != 0xEFu8) by (bit_vector)
                requires
                    c <= 0x7F,
            ;
        } else if has_width_2_encoding(c) {
            assert(0xC0u8 | ((c >> 6) & 0x1F) as u8 != 0xEFu8) by (bit_vector)
                requires
                    0x80 <= c <= 0x7FF,
            ;
        } else if has_width_3_encoding(c) {
            if has_utf8_bom(bytes) {
                assert(bytes[0] == head[0] && bytes[1] == head[1] && bytes[2] == head[2]);
                assert(c == 0xFEFF) by (bit_vector)
                    requires
                        0x800 <= c <= 0xFFFF,
                        0xE0u8 | ((c >> 12) & 0x0F) as u8 == 0xEFu8,
                        0x80u8 | ((c >> 6) & 0x3F) as u8 == 0xBBu8,
                        0x80u8 | (c & 0x3F) as u8 == 0xBFu8,
                ;
                assert(('\u{FEFF}' as u32) == 0xFEFF);
                vstd::utf8::char_u32_cast(text[0], c);
                vstd::utf8::char_u32_cast('\u{FEFF}', 0xFEFF);
                assert(text[0] == '\u{FEFF}');
            }
        } else {
            assert(has_width_4_encoding(c));
            assert(0xF0u8 | ((c >> 18) & 0x7) as u8 != 0xEFu8) by (bit_vector);
        }
    }
}

/// A text written out as UTF-8, as the editor saves files, loads back as
/// the same text, unless it begins with U+FEFF, which reads as a byte
/// order mark: the bytes are valid UTF-8, and their decoding without a
/// byte order mark is the text.
pub proof fn law_saved_text_loads_back(text: Seq<char>)
    requires
        text.len() > 0 ==> text[0] != '\u{FEFF}',
    ensures
        valid_utf8(encode_utf8(text)),
        decode_utf8(without_utf8_bom(encode_utf8(text))) == text,
{
    lemma_no_bom_without_bom_char(text);
    encode_utf8_valid_utf8(text);
    encode_utf8_decode_utf8(text);
}

/// A file's text is its UTF-8 decoding exactly when that decoding reports
/// no errors; whenever it reports errors, whatever the bytes are, the text
/// is the Shift_JIS decoding instead.
pub proof fn law_file_text_falls_back_on_errors(bytes: Seq<u8>)
    ensures
        !encoding_decode(TextEncoding::Utf8, bytes).1 ==> file_text(bytes) == encoding_decode(
            TextEncoding::Utf8,
            bytes,
        ).0,
        encoding_decode(TextEncoding::Utf8, bytes).1 ==> file_text(bytes) == encoding_decode(
            TextEncoding::ShiftJis,
            bytes,
        ).0,
{
}

} // verus!
