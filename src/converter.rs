//! Converting bytes in a source encoding to UTF-8 text.

use crate::encoding::{
    ascii_chars, decode_with, decoded, encoding_label, has_bom, is_ascii_bytes, is_single_byte,
    label_of, EncodingKind, MAX_DECODE_LEN, REPLACEMENT_CHAR,
};
use crate::text::chars_of;
use vstd::prelude::*;
use vstd::utf8::{decode_utf8, encode_utf8, valid_utf8};

verus! {

/// How often `c` occurs in `s`.
pub open spec fn occurrences(s: Seq<char>, c: char) -> nat
    decreases s.len(),
{
    if s.len() == 0 {
        0
    } else {
        occurrences(s.drop_last(), c) + if s.last() == c {
            1nat
        } else {
            0nat
        }
    }
}

/// `bytes` without the `'\n'` and `'\r'` bytes at its end.
pub open spec fn without_newlines(bytes: Seq<u8>) -> Seq<u8>
    decreases bytes.len(),
{
    if bytes.len() > 0 && (bytes.last() == 0x0A || bytes.last() == 0x0D) {
        without_newlines(bytes.drop_last())
    } else {
        bytes
    }
}

/// What one conversion did.
pub struct ConversionAnalysis {
    pub original_bytes: usize,
    pub converted_bytes: usize,
    pub replacement_characters: usize,
    pub had_errors: bool,
    pub encoding_used: String,
}

impl ConversionAnalysis {
    /// The conversion reported no malformed input and produced no U+FFFD.
    pub fn is_successful(&self) -> (r: bool)
        ensures
            r == (!self.had_errors && self.replacement_characters == 0),
    {
        !self.had_errors && self.replacement_characters == 0
    }
}

/// How often `c` occurs in `s`.
pub fn count_char(s: &Vec<char>, c: char) -> (r: usize)
    ensures
        r == occurrences(s@, c),
{
    let mut n: usize = 0;
    let mut i: usize = 0;
    while i < s.len()
        invariant
            i <= s@.len(),
            n == occurrences(s@.take(i as int), c),
            n <= i,
        decreases s.len() - i,
    {
        assert(s@.take(i as int + 1).drop_last() =~= s@.take(i as int));
        if s[i] == c {
            n += 1;
        }
        i += 1;
    }
    assert(s@.take(s@.len() as int) =~= s@);
    n
}

pub struct EncodingConverter;

impl EncodingConverter {
    /// Decodes `bytes` as `source_encoding` (a leading byte order mark picks
    /// the encoding instead), with malformed sequences replaced by U+FFFD;
    /// also says whether any were. Without a byte order mark, ASCII decodes to
    /// itself under every encoding; a single-byte encoding gives one character
    /// per byte, never U+FFFD, and windows-1252 gives each byte from 0xA0 up
    /// as the character of the same value; UTF-8 decodes valid input as
    /// `decode_utf8` and yields at least one U+FFFD exactly when the bytes
    /// are not valid UTF-8.
    pub fn convert_bytes_to_utf8(bytes: &[u8], source_encoding: EncodingKind) -> (r: (
        String,
        bool,
    ))
        requires
            bytes@.len() <= MAX_DECODE_LEN,
        ensures
            r.0@ == decoded(source_encoding, bytes@).0,
            r.1 == decoded(source_encoding, bytes@).1,
            r.1 ==> r.0@.contains(REPLACEMENT_CHAR),
            !has_bom(bytes@) && is_ascii_bytes(bytes@) ==> r.0@ == ascii_chars(bytes@) && !r.1,
            !has_bom(bytes@) && is_single_byte(source_encoding) ==> !r.1 && !r.0@.contains(
                REPLACEMENT_CHAR,
            ) && r.0@.len() == bytes@.len(),
            !has_bom(bytes@) && is_single_byte(source_encoding) ==> forall|i: int|
                0 <= i < bytes@.len() && bytes@[i] < 0x80 ==> r.0@[i] == (bytes@[i] as char),
            !has_bom(bytes@) && source_encoding == EncodingKind::Windows1252 ==> forall|i: int|
                0 <= i < bytes@.len() && bytes@[i] >= 0xA0 ==> r.0@[i] == (bytes@[i] as char),
            !has_bom(bytes@) && source_encoding == EncodingKind::Utf8 && valid_utf8(bytes@)
                ==> r.0@ == decode_utf8(bytes@),
            !has_bom(bytes@) && source_encoding == EncodingKind::Utf8 ==> (r.1
                <==> !valid_utf8(bytes@)),
            !has_bom(bytes@) && source_encoding == EncodingKind::Utf8 && !valid_utf8(bytes@)
                ==> r.0@.contains(REPLACEMENT_CHAR),
    {
        decode_with(source_encoding, bytes)
    }

    /// Removes the trailing `'\n'` and `'\r'` bytes.
    pub fn trim_newline_bytes(bytes: &[u8]) -> (r: &[u8])
        ensures
            r@ == without_newlines(bytes@),
            r@.len() <= bytes@.len(),
    {
        let mut end = bytes.len();
        assert(bytes@.take(end as int) =~= bytes@);
        while end > 0 && (bytes[end - 1] == 0x0A || bytes[end - 1] == 0x0D)
            invariant
                end <= bytes@.len(),
                without_newlines(bytes@) == without_newlines(bytes@.take(end as int)),
            decreases end,
        {
            assert(bytes@.take(end as int).drop_last() =~= bytes@.take(end as int - 1));
            end -= 1;
        }
        assert(bytes@.take(end as int) =~= bytes@.subrange(0, end as int));
        &bytes[0..end]
    }

    /// Decodes one line after removing its line ending.
    pub fn convert_line_to_utf8(line_bytes: &[u8], source_encoding: EncodingKind) -> (r: String)
        requires
            line_bytes@.len() <= MAX_DECODE_LEN,
        ensures
            r@ == decoded(source_encoding, without_newlines(line_bytes@)).0,
    {
        let trimmed = Self::trim_newline_bytes(line_bytes);
        let (text, _) = Self::convert_bytes_to_utf8(trimmed, source_encoding);
        text
    }

    /// Whether decoding `sample_bytes` would be free of malformed sequences.
    pub fn test_conversion_safety(sample_bytes: &[u8], source_encoding: EncodingKind) -> (r:
        bool)
        requires
            sample_bytes@.len() <= MAX_DECODE_LEN,
        ensures
            r == !decoded(source_encoding, sample_bytes@).1,
    {
        let (_, had_errors) = Self::convert_bytes_to_utf8(sample_bytes, source_encoding);
        !had_errors
    }

    /// Sizes, replacement count and error flag of decoding `sample_bytes`.
    pub fn analyze_conversion(sample_bytes: &[u8], source_encoding: EncodingKind) -> (r:
        ConversionAnalysis)
        requires
            sample_bytes@.len() <= MAX_DECODE_LEN,
        ensures
            r.original_bytes == sample_bytes@.len(),
            r.converted_bytes == encode_utf8(decoded(source_encoding, sample_bytes@).0).len(),
            r.replacement_characters == occurrences(
                decoded(source_encoding, sample_bytes@).0,
                REPLACEMENT_CHAR,
            ),
            r.had_errors == decoded(source_encoding, sample_bytes@).1,
            r.encoding_used@ == label_of(source_encoding),
    {
        let (text, had_errors) = Self::convert_bytes_to_utf8(sample_bytes, source_encoding);
        let cs = chars_of(text.as_str());
        let replacements = count_char(&cs, REPLACEMENT_CHAR);
        ConversionAnalysis {
            original_bytes: sample_bytes.len(),
            converted_bytes: text.as_str().as_bytes().len(),
            replacement_characters: replacements,
            had_errors,
            encoding_used: encoding_label(source_encoding).to_owned(),
        }
    }
}

} // verus!
