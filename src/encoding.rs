//! The text encodings that wordlists come in, and decoding bytes to text
//! through encoding_rs.

use vstd::prelude::*;
use vstd::utf8::{decode_utf8, valid_utf8};

verus! {

/// One of the encodings that input files are read in.
#[derive(Clone, Copy, Debug, PartialEq, Eq, Structural)]
pub enum EncodingKind {
    Utf8,
    Windows1252,
    Iso8859_15,
    Iso8859_2,
}

/// The largest input handed to the decoder in one piece; beyond it the
/// decoder's buffer size computation could overflow.
pub const MAX_DECODE_LEN: usize = usize::MAX / 8;

/// The replacement character that stands for an undecodable sequence.
pub const REPLACEMENT_CHAR: char = '\u{FFFD}';

/// The WHATWG name of `enc`.
pub open spec fn label_of(enc: EncodingKind) -> Seq<char> {
    match enc {
        EncodingKind::Utf8 => "UTF-8"@,
        EncodingKind::Windows1252 => "windows-1252"@,
        EncodingKind::Iso8859_15 => "ISO-8859-15"@,
        EncodingKind::Iso8859_2 => "ISO-8859-2"@,
    }
}

/// Whether `enc` maps each byte to one character.
pub open spec fn is_single_byte(enc: EncodingKind) -> bool {
    enc != EncodingKind::Utf8
}

/// Whether `b` starts with a byte order mark that the decoder recognises
/// (UTF-8, UTF-16LE or UTF-16BE).
pub open spec fn has_bom(b: Seq<u8>) -> bool {
    (b.len() >= 3 && b[0] == 0xEF && b[1] == 0xBB && b[2] == 0xBF) || (b.len() >= 2 && b[0]
        == 0xFF && b[1] == 0xFE) || (b.len() >= 2 && b[0] == 0xFE && b[1] == 0xFF)
}

/// Every byte of `b` is 7-bit ASCII.
pub open spec fn is_ascii_bytes(b: Seq<u8>) -> bool {
    forall|i: int| 0 <= i < b.len() ==> b[i] < 0x80
}

/// The characters that ASCII bytes stand for.
pub open spec fn ascii_chars(b: Seq<u8>) -> Seq<char> {
    b.map_values(|x: u8| x as char)
}

/// What encoding_rs's `Encoding::decode` gives for `bytes` read as `enc`:
/// the text, and whether a malformed sequence was replaced.
pub uninterp spec fn decoded(enc: EncodingKind, bytes: Seq<u8>) -> (Seq<char>, bool);

/// Relies on encoding_rs's `Encoding::name`, the WHATWG name of the encoding.
#[verifier::external_body]
pub(crate) fn encoding_label(enc: EncodingKind) -> (r: &'static str)
    ensures
        r@ == label_of(enc),
{
    match enc {
        EncodingKind::Utf8 => encoding_rs::UTF_8.name(),
        EncodingKind::Windows1252 => encoding_rs::WINDOWS_1252.name(),
        EncodingKind::Iso8859_15 => encoding_rs::ISO_8859_15.name(),
        EncodingKind::Iso8859_2 => encoding_rs::ISO_8859_2.name(),
    }
}

/// Relies on encoding_rs's `Encoding::decode`: BOM sniffing, then decoding
/// with malformed sequences replaced by U+FFFD. Without a BOM, ASCII input
/// decodes to itself in all four encodings; UTF-8 input decodes as
/// `decode_utf8` and errs exactly where it is not valid UTF-8; the three
/// single-byte tables map every byte to one character other than U+FFFD,
/// ASCII bytes to themselves, and windows-1252 maps 0xA0..=0xFF to
/// U+00A0..=U+00FF.
#[verifier::external_body]
pub(crate) fn decode_with(enc: EncodingKind, bytes: &[u8]) -> (r: (String, bool))
    requires
        bytes@.len() <= MAX_DECODE_LEN,
    ensures
        r.0@ == decoded(enc, bytes@).0,
        r.1 == decoded(enc, bytes@).1,
        r.1 ==> r.0@.contains(REPLACEMENT_CHAR),
        !has_bom(bytes@) && is_ascii_bytes(bytes@) ==> r.0@ == ascii_chars(bytes@) && !r.1,
        !has_bom(bytes@) && enc == EncodingKind::Utf8 ==> (r.1 <==> !valid_utf8(bytes@)),
        !has_bom(bytes@) && enc == EncodingKind::Utf8 && valid_utf8(bytes@) ==> r.0@
            == decode_utf8(bytes@),
        !has_bom(bytes@) && is_single_byte(enc) ==> !r.1 && r.0@.len() == bytes@.len()
            && !r.0@.contains(REPLACEMENT_CHAR),
        !has_bom(bytes@) && is_single_byte(enc) ==> forall|i: int|
            0 <= i < bytes@.len() && bytes@[i] < 0x80 ==> r.0@[i] == (bytes@[i] as char),
        !has_bom(bytes@) && enc == EncodingKind::Windows1252 ==> forall|i: int|
            0 <= i < bytes@.len() && bytes@[i] >= 0xA0 ==> r.0@[i] == (bytes@[i] as char),
{
    let e = match enc {
        EncodingKind::Utf8 => encoding_rs::UTF_8,
        EncodingKind::Windows1252 => encoding_rs::WINDOWS_1252,
        EncodingKind::Iso8859_15 => encoding_rs::ISO_8859_15,
        EncodingKind::Iso8859_2 => encoding_rs::ISO_8859_2,
    };
    let (text, _, had_errors) = e.decode(bytes);
    (text.into_owned(), had_errors)
}

impl EncodingKind {
    /// The WHATWG name of the encoding (`"UTF-8"`, `"windows-1252"`, ...).
    pub fn name(&self) -> (r: &'static str)
        ensures
            r@ == label_of(*self),
    {
        encoding_label(*self)
    }
}

/// The encoding assumed for legacy wordlists: windows-1252.
pub fn default_wordlist_encoding() -> (r: EncodingKind)
    ensures
        r == EncodingKind::Windows1252,
{
    EncodingKind::Windows1252
}

/// The encodings met most often in wordlists, most likely first.
pub fn common_wordlist_encodings() -> (r: Vec<EncodingKind>)
    ensures
        r@ == seq![
            EncodingKind::Utf8,
            EncodingKind::Windows1252,
            EncodingKind::Iso8859_15,
            EncodingKind::Iso8859_2,
        ],
{
    vec![
        EncodingKind::Utf8,
        EncodingKind::Windows1252,
        EncodingKind::Iso8859_15,
        EncodingKind::Iso8859_2,
    ]
}

} // verus!
