//! Guessing the encoding of a file from its length and the first bytes of
//! its content.

use crate::encoding::{decode_with, decoded, EncodingKind, MAX_DECODE_LEN};
use crate::text::{chars_of, is_white_space, is_whitespace_char};
use vstd::prelude::*;
use vstd::utf8::valid_utf8;

verus! {

/// How many leading bytes of a file detection looks at.
pub const DETECTION_SAMPLE_SIZE: usize = 8192;

/// Files longer than this are taken to be windows-1252 without sampling.
pub const MAX_DETECTION_FILE_SIZE: u64 = 100 * 1024 * 1024;

/// The encoding that chardetng guesses for `sample` when it is fed as the
/// whole stream, with no top-level domain and UTF-8 allowed, if it is one of
/// the encodings of `EncodingKind`. The library reads only that closed list
/// of encodings; a guess outside it counts as no guess, and the fallback
/// rule decides.
pub uninterp spec fn guessed_encoding(sample: Seq<u8>) -> Option<EncodingKind>;

/// Relies on chardetng's `EncodingDetector`: `new`, `feed(sample, true)` and
/// `guess(None, true)`; the result depends on the sample alone.
#[verifier::external_body]
fn guess_with_chardetng(sample: &[u8]) -> (r: Option<EncodingKind>)
    ensures
        r == guessed_encoding(sample@),
{
    let mut detector = chardetng::EncodingDetector::new();
    detector.feed(sample, true);
    let e = detector.guess(None, true);
    if e == encoding_rs::UTF_8 {
        Some(EncodingKind::Utf8)
    } else if e == encoding_rs::WINDOWS_1252 {
        Some(EncodingKind::Windows1252)
    } else if e == encoding_rs::ISO_8859_15 {
        Some(EncodingKind::Iso8859_15)
    } else if e == encoding_rs::ISO_8859_2 {
        Some(EncodingKind::Iso8859_2)
    } else {
        None
    }
}

/// Relies on `std::str::from_utf8`, which succeeds exactly on valid UTF-8.
#[verifier::external_body]
fn is_valid_utf8(bytes: &[u8]) -> (r: bool)
    ensures
        r == valid_utf8(bytes@),
{
    std::str::from_utf8(bytes).is_ok()
}

/// A character that wordlists are made of: ASCII letters, digits and
/// punctuation, or whitespace.
pub open spec fn is_common_char(c: char) -> bool {
    (0x21 <= (c as u32) && (c as u32) <= 0x7E) || is_white_space(c)
}

/// How many NUL characters `t` holds.
pub open spec fn nul_count(t: Seq<char>) -> nat
    decreases t.len(),
{
    if t.len() == 0 {
        0
    } else {
        nul_count(t.drop_last()) + if t.last() == '\0' {
            1nat
        } else {
            0nat
        }
    }
}

/// Decoded sample text looks like a wordlist: no malformed sequence, NULs
/// at most 5% of the characters, and at least one common character.
pub open spec fn plausible_text(t: Seq<char>, had_errors: bool) -> bool {
    &&& !had_errors
    &&& !(t.len() > 0 && nul_count(t) * 20 > t.len())
    &&& exists|i: int| 0 <= i < t.len() && is_common_char(#[trigger] t[i])
}

/// Decoding `sample` as `enc` gives plausible text.
pub open spec fn validates(enc: EncodingKind, sample: Seq<u8>) -> bool {
    plausible_text(decoded(enc, sample).0, decoded(enc, sample).1)
}

/// The first bytes of `b` are a UTF-8 byte order mark.
pub open spec fn has_utf8_bom(b: Seq<u8>) -> bool {
    b.len() >= 3 && b[0] == 0xEF && b[1] == 0xBB && b[2] == 0xBF
}

/// Some byte of `b` is above 0x7F.
pub open spec fn has_high_byte(b: Seq<u8>) -> bool {
    exists|i: int| 0 <= i < b.len() && #[trigger] b[i] > 127
}

/// The fallback rule: empty, BOM-marked or valid UTF-8 samples are UTF-8;
/// a sample with a byte above 0x7F is windows-1252; anything else is UTF-8.
pub open spec fn heuristic_encoding(sample: Seq<u8>) -> EncodingKind {
    if sample.len() == 0 || has_utf8_bom(sample) || valid_utf8(sample) {
        EncodingKind::Utf8
    } else if has_high_byte(sample) {
        EncodingKind::Windows1252
    } else {
        EncodingKind::Utf8
    }
}

/// The encoding chosen for a file of `file_len` bytes whose content starts
/// with `sample`, given chardetng's guess and whether that guess validates.
pub open spec fn detection_outcome(
    file_len: u64,
    sample: Seq<u8>,
    guess: Option<EncodingKind>,
    guess_validates: bool,
) -> EncodingKind {
    if file_len > MAX_DETECTION_FILE_SIZE {
        EncodingKind::Windows1252
    } else if file_len == 0 {
        EncodingKind::Utf8
    } else if guess is Some && guess_validates {
        guess->0
    } else {
        heuristic_encoding(sample)
    }
}

/// The encoding detected for a file of `file_len` bytes starting with `sample`.
pub open spec fn detected_encoding(file_len: u64, sample: Seq<u8>) -> EncodingKind {
    let g = guessed_encoding(sample);
    detection_outcome(file_len, sample, g, g is Some && validates(g->0, sample))
}

pub struct EncodingDetector;

impl EncodingDetector {
    /// The part of a file's content that detection samples.
    pub fn sample_of(content: &[u8]) -> (r: &[u8])
        ensures
            r@ == content@.take(
                if content@.len() < DETECTION_SAMPLE_SIZE {
                    content@.len() as int
                } else {
                    DETECTION_SAMPLE_SIZE as int
                },
            ),
    {
        let end = if content.len() < DETECTION_SAMPLE_SIZE {
            content.len()
        } else {
            DETECTION_SAMPLE_SIZE
        };
        let r = &content[0..end];
        assert(r@ =~= content@.take(end as int));
        r
    }

    /// Whether decoded sample text is plausible wordlist content.
    pub fn is_plausible_text(text: &str, had_errors: bool) -> (r: bool)
        ensures
            r == plausible_text(text@, had_errors),
    {
        if had_errors {
            return false;
        }
        let cs = chars_of(text);
        let mut nuls: usize = 0;
        let mut common = false;
        let mut i: usize = 0;
        while i < cs.len()
            invariant
                i <= cs@.len(),
                nuls == nul_count(cs@.take(i as int)),
                nuls <= i,
                common == exists|k: int| 0 <= k < i && is_common_char(#[trigger] cs@[k]),
            decreases cs.len() - i,
        {
            assert(cs@.take(i as int + 1).drop_last() =~= cs@.take(i as int));
            let c = cs[i];
            if c == '\0' {
                nuls += 1;
            }
            let v = c as u32;
            if (0x21 <= v && v <= 0x7E) || is_whitespace_char(c) {
                common = true;
            }
            i += 1;
        }
        assert(cs@.take(cs@.len() as int) =~= cs@);
        let total = cs.len();
        if total > 0 && (nuls as u128) * 20 > total as u128 {
            return false;
        }
        common
    }

    /// Whether decoding `sample` as `encoding` gives plausible text.
    pub fn validate_encoding_with_sample(sample: &[u8], encoding: EncodingKind) -> (r: bool)
        requires
            sample@.len() <= MAX_DECODE_LEN,
        ensures
            r == validates(encoding, sample@),
    {
        let (text, had_errors) = decode_with(encoding, sample);
        Self::is_plausible_text(text.as_str(), had_errors)
    }

    /// Whether some byte is above 0x7F.
    pub fn has_high_bytes(sample: &[u8]) -> (r: bool)
        ensures
            r == has_high_byte(sample@),
    {
        let mut i: usize = 0;
        while i < sample.len()
            invariant
                i <= sample@.len(),
                forall|k: int| 0 <= k < i ==> sample@[k] <= 127,
            decreases sample.len() - i,
        {
            if sample[i] > 127 {
                return true;
            }
            i += 1;
        }
        false
    }

    /// The fallback rule when chardetng's guess does not validate.
    pub fn heuristic_detection(sample: &[u8]) -> (r: EncodingKind)
        ensures
            r == heuristic_encoding(sample@),
    {
        if sample.len() == 0 {
            return EncodingKind::Utf8;
        }
        if sample.len() >= 3 && sample[0] == 0xEF && sample[1] == 0xBB && sample[2] == 0xBF {
            return EncodingKind::Utf8;
        }
        if is_valid_utf8(sample) {
            return EncodingKind::Utf8;
        }
        if Self::has_high_bytes(sample) {
            EncodingKind::Windows1252
        } else {
            EncodingKind::Utf8
        }
    }

    /// The decision chain of detection, given chardetng's guess and whether
    /// it validates: very large files are windows-1252, empty ones UTF-8; a
    /// guess that validates is taken; otherwise the fallback rule decides.
    pub fn resolve_detection(
        file_len: u64,
        sample: &[u8],
        guess: Option<EncodingKind>,
        guess_validates: bool,
    ) -> (r: EncodingKind)
        ensures
            r == detection_outcome(file_len, sample@, guess, guess_validates),
    {
        if file_len > MAX_DETECTION_FILE_SIZE {
            return EncodingKind::Windows1252;
        }
        if file_len == 0 {
            return EncodingKind::Utf8;
        }
        match guess {
            Some(enc) if guess_validates => enc,
            _ => Self::heuristic_detection(sample),
        }
    }

    /// Detects the encoding of a file of `file_len` bytes whose content
    /// starts with `sample`.
    pub fn detect_file(file_len: u64, sample: &[u8]) -> (r: EncodingKind)
        requires
            sample@.len() <= MAX_DECODE_LEN,
        ensures
            r == detected_encoding(file_len, sample@),
    {
        if file_len > MAX_DETECTION_FILE_SIZE || file_len == 0 {
            return Self::resolve_detection(file_len, sample, None, false);
        }
        let guess = guess_with_chardetng(sample);
        let ok = match guess {
            Some(enc) => Self::validate_encoding_with_sample(sample, enc),
            None => false,
        };
        Self::resolve_detection(file_len, sample, guess, ok)
    }

    /// Whether more than a tenth of the sample's bytes are NUL.
    pub fn is_likely_binary(sample: &[u8]) -> (r: bool)
        ensures
            r == (sample@.len() > 0 && sample@.filter(|b: u8| b == 0).len() * 10
                > sample@.len()),
    {
        let mut nuls: usize = 0;
        let mut i: usize = 0;
        while i < sample.len()
            invariant
                i <= sample@.len(),
                nuls == sample@.take(i as int).filter(|b: u8| b == 0).len(),
                nuls <= i,
            decreases sample.len() - i,
        {
            proof {
                sample@.take(i as int).lemma_filter_push(sample@[i as int], |b: u8| b == 0);
                assert(sample@.take(i as int + 1) =~= sample@.take(i as int).push(
                    sample@[i as int],
                ));
            }
            if sample[i] == 0 {
                nuls += 1;
            }
            i += 1;
        }
        assert(sample@.take(sample@.len() as int) =~= sample@);
        sample.len() > 0 && (nuls as u128) * 10 > sample.len() as u128
    }
    /// The parts of a confidence score for `encoding` on `sample`: whether
    /// decoding reported errors, how many decoded characters are ASCII
    /// graphic or whitespace, and how many characters there are.
    pub fn confidence_counts(sample: &[u8], encoding: EncodingKind) -> (r: (bool, usize, usize))
        requires
            sample@.len() <= MAX_DECODE_LEN,
        ensures
            r.0 == decoded(encoding, sample@).1,
            r.1 == decoded(encoding, sample@).0.filter(|c: char| is_common_char(c)).len(),
            r.2 == decoded(encoding, sample@).0.len(),
    {
        let (text, had_errors) = decode_with(encoding, sample);
        let cs = chars_of(text.as_str());
        let ghost pred = |c: char| is_common_char(c);
        let mut printable: usize = 0;
        let mut i: usize = 0;
        while i < cs.len()
            invariant
                i <= cs@.len(),
                pred == (|c: char| is_common_char(c)),
                printable == cs@.take(i as int).filter(pred).len(),
                printable <= i,
            decreases cs.len() - i,
        {
            proof {
                cs@.take(i as int).lemma_filter_push(cs@[i as int], pred);
                assert(cs@.take(i as int + 1) =~= cs@.take(i as int).push(cs@[i as int]));
            }
            let c = cs[i];
            let v = c as u32;
            if (0x21 <= v && v <= 0x7E) || is_whitespace_char(c) {
                printable += 1;
            }
            i += 1;
        }
        assert(cs@.take(cs@.len() as int) =~= cs@);
        (had_errors, printable, cs.len())
    }
}

} // verus!
