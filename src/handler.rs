//! Choosing an encoding per file under a strategy, decoding the file, and
//! keeping statistics of both.

use crate::converter::EncodingConverter;
use crate::detector::{detected_encoding, validates, EncodingDetector, DETECTION_SAMPLE_SIZE};
use crate::encoding::{decoded, encoding_label, label_of, EncodingKind, MAX_DECODE_LEN};
use crate::names::{count_in, sat_add};
use crate::stats::{sat_add64, EncodingStats};
use crate::strategies::EncodingStrategy;
use vstd::prelude::*;

verus! {

/// The first of `encs` that decodes `sample` plausibly.
pub open spec fn first_valid(encs: Seq<EncodingKind>, sample: Seq<u8>) -> Option<EncodingKind>
    decreases encs.len(),
{
    if encs.len() == 0 {
        None
    } else if validates(encs[0], sample) {
        Some(encs[0])
    } else {
        first_valid(encs.drop_first(), sample)
    }
}

/// How an encoding was arrived at.
#[derive(Clone, Copy, Debug, PartialEq, Eq, Structural)]
pub enum Resolution {
    Detected,
    Forced,
    Fallback,
}

/// The encoding a strategy picks for a file of `file_len` bytes starting
/// with `sample`, and how it was arrived at.
pub open spec fn strategy_choice(s: EncodingStrategy, file_len: u64, sample: Seq<u8>) -> (
    EncodingKind,
    Resolution,
) {
    match s {
        EncodingStrategy::AutoDetect => (detected_encoding(file_len, sample), Resolution::Detected),
        EncodingStrategy::ForceEncoding(e) => (e, Resolution::Forced),
        EncodingStrategy::TrySequence(v) => match first_valid(v@, sample) {
            Some(e) => (e, Resolution::Detected),
            None => (EncodingKind::Windows1252, Resolution::Fallback),
        },
    }
}

/// The detection sample of `content`: its first `DETECTION_SAMPLE_SIZE` bytes.
pub open spec fn sample_part(content: Seq<u8>) -> Seq<u8> {
    content.take(
        if content.len() < DETECTION_SAMPLE_SIZE {
            content.len() as int
        } else {
            DETECTION_SAMPLE_SIZE as int
        },
    )
}

/// The encoding chosen for a whole file's content.
pub open spec fn file_encoding(s: EncodingStrategy, content: Seq<u8>) -> EncodingKind {
    strategy_choice(s, content.len() as u64, sample_part(content)).0
}

/// The text of a whole file's content, decoded in the encoding chosen.
pub open spec fn file_text(s: EncodingStrategy, content: Seq<u8>) -> Seq<char> {
    decoded(file_encoding(s, content), content).0
}

/// `n` is `o` with `enc` counted once more in the tally that `how` names.
pub open spec fn tallied(o: EncodingStats, n: EncodingStats, enc: EncodingKind, how: Resolution)
    -> bool {
    &&& n.detected() == if how == Resolution::Detected {
        o.detected().insert(label_of(enc), sat_add(count_in(o.detected(), label_of(enc)), 1))
    } else {
        o.detected()
    }
    &&& n.forced() == if how == Resolution::Forced {
        o.forced().insert(label_of(enc), sat_add(count_in(o.forced(), label_of(enc)), 1))
    } else {
        o.forced()
    }
    &&& n.fallbacks() == if how == Resolution::Fallback {
        o.fallbacks().insert(label_of(enc), sat_add(count_in(o.fallbacks(), label_of(enc)), 1))
    } else {
        o.fallbacks()
    }
}

/// Chooses encodings under a strategy and keeps statistics.
pub struct EncodingHandler {
    strategy: EncodingStrategy,
    stats: EncodingStats,
    verbose: bool,
}

impl EncodingHandler {
    pub closed spec fn wf(&self) -> bool {
        self.stats.wf()
    }

    pub closed spec fn spec_strategy(&self) -> EncodingStrategy {
        self.strategy
    }

    pub closed spec fn spec_stats(&self) -> EncodingStats {
        self.stats
    }

    pub closed spec fn spec_verbose(&self) -> bool {
        self.verbose
    }

    /// A handler that detects each file's encoding.
    pub fn new(verbose: bool) -> (r: Self)
        ensures
            r.wf(),
            r.spec_strategy() == EncodingStrategy::AutoDetect,
            r.spec_stats().spec_files_processed() == 0,
            r.spec_verbose() == verbose,
    {
        EncodingHandler { strategy: EncodingStrategy::AutoDetect, stats: EncodingStats::new(), verbose }
    }

    /// A handler that follows `strategy`.
    pub fn with_strategy(strategy: EncodingStrategy, verbose: bool) -> (r: Self)
        ensures
            r.wf(),
            r.spec_strategy() == strategy,
            r.spec_stats().spec_files_processed() == 0,
            r.spec_verbose() == verbose,
    {
        EncodingHandler { strategy, stats: EncodingStats::new(), verbose }
    }

    /// The strategy followed.
    pub fn strategy(&self) -> (r: &EncodingStrategy)
        ensures
            *r == self.spec_strategy(),
    {
        &self.strategy
    }

    /// The statistics so far.
    pub fn get_stats(&self) -> (r: &EncodingStats)
        ensures
            *r == self.spec_stats(),
    {
        &self.stats
    }

    /// Whether progress messages are wanted.
    pub fn is_verbose(&self) -> (r: bool)
        ensures
            r == self.spec_verbose(),
    {
        self.verbose
    }

    /// The first encoding of `encs` that decodes `sample` plausibly.
    fn try_sequence(encs: &Vec<EncodingKind>, sample: &[u8]) -> (r: Option<EncodingKind>)
        requires
            sample@.len() <= MAX_DECODE_LEN,
        ensures
            r == first_valid(encs@, sample@),
    {
        let mut i: usize = 0;
        assert(encs@.skip(0) =~= encs@);
        while i < encs.len()
            invariant
                i <= encs@.len(),
                sample@.len() <= MAX_DECODE_LEN,
                first_valid(encs@, sample@) == first_valid(encs@.skip(i as int), sample@),
            decreases encs.len() - i,
        {
            assert(encs@.skip(i as int).drop_first() =~= encs@.skip(i as int + 1));
            assert(encs@.skip(i as int)[0] == encs@[i as int]);
            if EncodingDetector::validate_encoding_with_sample(sample, encs[i]) {
                return Some(encs[i]);
            }
            i += 1;
        }
        None
    }

    /// Picks the encoding of a file of `file_len` bytes whose content starts
    /// with `sample`, as the strategy says, and counts the file and the
    /// encoding (as detected, forced, or fallen back to).
    pub fn detect_or_default(&mut self, file_len: u64, sample: &[u8]) -> (r: EncodingKind)
        requires
            old(self).wf(),
            sample@.len() <= MAX_DECODE_LEN,
        ensures
            final(self).wf(),
            final(self).spec_strategy() == old(self).spec_strategy(),
            r == strategy_choice(old(self).spec_strategy(), file_len, sample@).0,
            final(self).spec_stats().spec_files_processed() == sat_add(
                old(self).spec_stats().spec_files_processed(),
                1,
            ),
            final(self).spec_stats().spec_conversion_errors() == old(
                self,
            ).spec_stats().spec_conversion_errors(),
            final(self).spec_stats().spec_bytes_processed() == old(
                self,
            ).spec_stats().spec_bytes_processed(),
            tallied(
                old(self).spec_stats(),
                final(self).spec_stats(),
                r,
                strategy_choice(old(self).spec_strategy(), file_len, sample@).1,
            ),
    {
        self.stats.record_file_processed();
        let (e, how) = Self::choose_encoding(&self.strategy, file_len, sample);
        self.record_choice(e, how);
        e
    }

    /// The encoding `strategy` picks for a file of `file_len` bytes whose
    /// content starts with `sample`, and how it was arrived at.
    pub fn choose_encoding(strategy: &EncodingStrategy, file_len: u64, sample: &[u8]) -> (r: (
        EncodingKind,
        Resolution,
    ))
        requires
            sample@.len() <= MAX_DECODE_LEN,
        ensures
            r == strategy_choice(*strategy, file_len, sample@),
    {
        match strategy {
            EncodingStrategy::AutoDetect => (
                EncodingDetector::detect_file(file_len, sample),
                Resolution::Detected,
            ),
            EncodingStrategy::ForceEncoding(e) => (*e, Resolution::Forced),
            EncodingStrategy::TrySequence(encs) => match Self::try_sequence(encs, sample) {
                Some(e) => (e, Resolution::Detected),
                None => (EncodingKind::Windows1252, Resolution::Fallback),
            },
        }
    }

    /// Counts `enc` in the tally that `how` names.
    pub fn record_choice(&mut self, enc: EncodingKind, how: Resolution)
        requires
            old(self).wf(),
        ensures
            final(self).wf(),
            final(self).spec_strategy() == old(self).spec_strategy(),
            final(self).spec_stats().spec_files_processed() == old(
                self,
            ).spec_stats().spec_files_processed(),
            final(self).spec_stats().spec_conversion_errors() == old(
                self,
            ).spec_stats().spec_conversion_errors(),
            final(self).spec_stats().spec_bytes_processed() == old(
                self,
            ).spec_stats().spec_bytes_processed(),
            tallied(old(self).spec_stats(), final(self).spec_stats(), enc, how),
    {
        match how {
            Resolution::Detected => self.stats.record_encoding_detected(encoding_label(enc)),
            Resolution::Forced => self.stats.record_encoding_forced(encoding_label(enc)),
            Resolution::Fallback => self.stats.record_encoding_fallback(encoding_label(enc)),
        }
    }

    /// Counts one decoded file: the file, its bytes, and a conversion error
    /// if decoding replaced anything.
    pub fn record_conversion(&mut self, byte_len: u64, had_errors: bool)
        requires
            old(self).wf(),
        ensures
            final(self).wf(),
            final(self).spec_strategy() == old(self).spec_strategy(),
            final(self).spec_stats().spec_files_processed() == sat_add(
                old(self).spec_stats().spec_files_processed(),
                1,
            ),
            final(self).spec_stats().spec_conversion_errors() == if had_errors {
                sat_add(old(self).spec_stats().spec_conversion_errors(), 1)
            } else {
                old(self).spec_stats().spec_conversion_errors()
            },
            final(self).spec_stats().spec_bytes_processed() == sat_add64(
                old(self).spec_stats().spec_bytes_processed(),
                byte_len as nat,
            ),
            final(self).spec_stats().detected() == old(self).spec_stats().detected(),
            final(self).spec_stats().forced() == old(self).spec_stats().forced(),
            final(self).spec_stats().fallbacks() == old(self).spec_stats().fallbacks(),
    {
        self.stats.record_file_processed();
        if had_errors {
            self.stats.record_conversion_error();
        }
        self.stats.record_bytes_processed(byte_len);
    }

    /// Chooses the encoding of a file from its whole content, decodes it
    /// (malformed sequences become U+FFFD), and counts the bytes and, if
    /// any sequence was malformed, one conversion error.
    pub fn decode_content(&mut self, content: &[u8]) -> (r: (EncodingKind, String))
        requires
            old(self).wf(),
            content@.len() <= MAX_DECODE_LEN,
        ensures
            final(self).wf(),
            final(self).spec_strategy() == old(self).spec_strategy(),
            r.0 == file_encoding(old(self).spec_strategy(), content@),
            r.1@ == file_text(old(self).spec_strategy(), content@),
            final(self).spec_stats().spec_files_processed() == sat_add(
                old(self).spec_stats().spec_files_processed(),
                1,
            ),
            final(self).spec_stats().spec_conversion_errors() == if decoded(r.0, content@).1 {
                sat_add(old(self).spec_stats().spec_conversion_errors(), 1)
            } else {
                old(self).spec_stats().spec_conversion_errors()
            },
            final(self).spec_stats().spec_bytes_processed() == sat_add64(
                old(self).spec_stats().spec_bytes_processed(),
                content@.len(),
            ),
    {
        let sample = EncodingDetector::sample_of(content);
        let enc = self.detect_or_default(content.len() as u64, sample);
        let (text, had_errors) = EncodingConverter::convert_bytes_to_utf8(content, enc);
        if had_errors {
            self.stats.record_conversion_error();
        }
        self.stats.record_bytes_processed(content.len() as u64);
        (enc, text)
    }
}

} // verus!
