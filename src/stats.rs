//! Counts kept while files are decoded, for the end-of-run summary.

use crate::clock::{duration_from_nanos, duration_nanos, elapsed_since, now};
use crate::names::{count_in, sat_add, NameCounts};
use crate::text::{decimal, digit_char, push_decimal, push_str, string_from_chars};
use std::time::{Duration, Instant};
use vstd::prelude::*;

verus! {

/// `a + b`, or `u64::MAX` when that does not fit.
pub open spec fn sat_add64(a: nat, b: nat) -> nat {
    if a + b > u64::MAX {
        u64::MAX as nat
    } else {
        a + b
    }
}

/// Statistics of encoding detection and conversion. Counters saturate at
/// their type's maximum.
pub struct EncodingStats {
    files_processed: usize,
    encodings_detected: NameCounts,
    encodings_forced: NameCounts,
    encoding_fallbacks: NameCounts,
    conversion_errors: usize,
    bytes_processed: u64,
    processing_nanos: u64,
    start_time: Option<Instant>,
}

/// The count of `k` over the three tallies, saturating.
pub open spec fn combined_count(
    d: Map<Seq<char>, nat>,
    f: Map<Seq<char>, nat>,
    b: Map<Seq<char>, nat>,
    k: Seq<char>,
) -> nat {
    sat_add(sat_add(count_in(d, k), count_in(f, k)), count_in(b, k))
}

/// `n / d` rounded to the nearest integer, ties to even.
pub open spec fn round_div(n: nat, d: nat) -> nat
    recommends
        d > 0,
{
    let q = n / d;
    let r = n % d;
    if 2 * r > d || (2 * r == d && q % 2 == 1) {
        q + 1
    } else {
        q
    }
}

/// `q` in tenths written as `<q / 10>.<q % 10>`.
pub open spec fn tenths_text(q: nat) -> Seq<char> {
    decimal(q / 10).push('.').push(digit_char(q % 10))
}

/// The share of files without conversion errors, in tenths of a percent.
pub open spec fn success_tenths(files: nat, errors: nat) -> nat {
    if files == 0 {
        1000
    } else {
        round_div((if errors > files { 0 } else { (files - errors) as nat }) * 1000, files)
    }
}

/// Appends `n / d` in tenths, rounded to the nearest tenth, ties to even.
fn push_tenths(out: &mut Vec<char>, n: u128, d: u128)
    requires
        d > 0,
        d <= u64::MAX as u128,
        n <= u64::MAX as u128 * 1000,
        n / d < u64::MAX as u128,
    ensures
        final(out)@ == old(out)@ + tenths_text(round_div(n as nat, d as nat)),
{
    let q = n / d;
    let r = n % d;
    let t = if 2 * r > d || (2 * r == d && q % 2 == 1) {
        q + 1
    } else {
        q
    };
    assert(t == round_div(n as nat, d as nat));
    push_decimal(out, (t / 10) as u64);
    out.push('.');
    let ghost mid = out@;
    push_decimal(out, (t % 10) as u64);
    assert(decimal((t % 10) as nat) == seq![digit_char((t % 10) as nat)]);
    assert(out@ =~= old(out)@ + tenths_text(t as nat));
}

impl EncodingStats {
    pub closed spec fn wf(&self) -> bool {
        self.encodings_detected.wf() && self.encodings_forced.wf()
            && self.encoding_fallbacks.wf()
    }

    pub closed spec fn spec_files_processed(&self) -> nat {
        self.files_processed as nat
    }

    pub closed spec fn spec_conversion_errors(&self) -> nat {
        self.conversion_errors as nat
    }

    pub closed spec fn spec_bytes_processed(&self) -> nat {
        self.bytes_processed as nat
    }

    /// The time recorded, in nanoseconds.
    pub closed spec fn spec_processing_nanos(&self) -> nat {
        self.processing_nanos as nat
    }

    /// Files per encoding name, by detection.
    pub closed spec fn detected(&self) -> Map<Seq<char>, nat> {
        self.encodings_detected@
    }

    /// Files per encoding name, forced by the strategy.
    pub closed spec fn forced(&self) -> Map<Seq<char>, nat> {
        self.encodings_forced@
    }

    /// Files per encoding name, by falling back.
    pub closed spec fn fallbacks(&self) -> Map<Seq<char>, nat> {
        self.encoding_fallbacks@
    }

    /// All counts zero, no timing.
    pub fn new() -> (r: Self)
        ensures
            r.wf(),
            r.spec_files_processed() == 0,
            r.spec_conversion_errors() == 0,
            r.spec_bytes_processed() == 0,
            r.spec_processing_nanos() == 0,
            r.detected() == Map::<Seq<char>, nat>::empty(),
            r.forced() == Map::<Seq<char>, nat>::empty(),
            r.fallbacks() == Map::<Seq<char>, nat>::empty(),
    {
        EncodingStats {
            files_processed: 0,
            encodings_detected: NameCounts::new(),
            encodings_forced: NameCounts::new(),
            encoding_fallbacks: NameCounts::new(),
            conversion_errors: 0,
            bytes_processed: 0,
            processing_nanos: 0,
            start_time: None,
        }
    }

    /// Starts the clock.
    pub fn start_timing(&mut self)
        requires
            old(self).wf(),
        ensures
            final(self).wf(),
            final(self).spec_processing_nanos() == old(self).spec_processing_nanos(),
            final(self).spec_files_processed() == old(self).spec_files_processed(),
            final(self).spec_conversion_errors() == old(self).spec_conversion_errors(),
            final(self).spec_bytes_processed() == old(self).spec_bytes_processed(),
            final(self).detected() == old(self).detected(),
            final(self).forced() == old(self).forced(),
            final(self).fallbacks() == old(self).fallbacks(),
    {
        self.start_time = Some(now());
    }

    /// Stops the clock, if it runs, and keeps the time taken.
    pub fn stop_timing(&mut self)
        requires
            old(self).wf(),
        ensures
            final(self).wf(),
            final(self).spec_files_processed() == old(self).spec_files_processed(),
            final(self).spec_conversion_errors() == old(self).spec_conversion_errors(),
            final(self).spec_bytes_processed() == old(self).spec_bytes_processed(),
            final(self).detected() == old(self).detected(),
            final(self).forced() == old(self).forced(),
            final(self).fallbacks() == old(self).fallbacks(),
    {
        let mut start: Option<Instant> = None;
        std::mem::swap(&mut start, &mut self.start_time);
        if let Some(s) = start {
            let n = duration_nanos(&elapsed_since(&s));
            self.processing_nanos = if n > u64::MAX as u128 {
                u64::MAX
            } else {
                n as u64
            };
        }
    }

    /// Counts one more file.
    pub fn record_file_processed(&mut self)
        requires
            old(self).wf(),
        ensures
            final(self).wf(),
            final(self).spec_processing_nanos() == old(self).spec_processing_nanos(),
            final(self).spec_files_processed() == sat_add(old(self).spec_files_processed(), 1),
            final(self).spec_conversion_errors() == old(self).spec_conversion_errors(),
            final(self).spec_bytes_processed() == old(self).spec_bytes_processed(),
            final(self).detected() == old(self).detected(),
            final(self).forced() == old(self).forced(),
            final(self).fallbacks() == old(self).fallbacks(),
    {
        self.files_processed = self.files_processed.saturating_add(1);
    }

    /// Counts one more file whose encoding was detected as `encoding_name`.
    pub fn record_encoding_detected(&mut self, encoding_name: &str)
        requires
            old(self).wf(),
        ensures
            final(self).wf(),
            final(self).spec_processing_nanos() == old(self).spec_processing_nanos(),
            final(self).spec_files_processed() == old(self).spec_files_processed(),
            final(self).spec_conversion_errors() == old(self).spec_conversion_errors(),
            final(self).spec_bytes_processed() == old(self).spec_bytes_processed(),
            final(self).detected() == old(self).detected().insert(
                encoding_name@,
                sat_add(count_in(old(self).detected(), encoding_name@), 1),
            ),
            final(self).forced() == old(self).forced(),
            final(self).fallbacks() == old(self).fallbacks(),
    {
        self.encodings_detected.add(&encoding_name.to_owned(), 1);
    }

    /// Counts one more file read in the forced encoding `encoding_name`.
    pub fn record_encoding_forced(&mut self, encoding_name: &str)
        requires
            old(self).wf(),
        ensures
            final(self).wf(),
            final(self).spec_processing_nanos() == old(self).spec_processing_nanos(),
            final(self).spec_files_processed() == old(self).spec_files_processed(),
            final(self).spec_conversion_errors() == old(self).spec_conversion_errors(),
            final(self).spec_bytes_processed() == old(self).spec_bytes_processed(),
            final(self).detected() == old(self).detected(),
            final(self).forced() == old(self).forced().insert(
                encoding_name@,
                sat_add(count_in(old(self).forced(), encoding_name@), 1),
            ),
            final(self).fallbacks() == old(self).fallbacks(),
    {
        self.encodings_forced.add(&encoding_name.to_owned(), 1);
    }

    /// Counts one more file read in the fallback encoding `encoding_name`.
    pub fn record_encoding_fallback(&mut self, encoding_name: &str)
        requires
            old(self).wf(),
        ensures
            final(self).wf(),
            final(self).spec_processing_nanos() == old(self).spec_processing_nanos(),
            final(self).spec_files_processed() == old(self).spec_files_processed(),
            final(self).spec_conversion_errors() == old(self).spec_conversion_errors(),
            final(self).spec_bytes_processed() == old(self).spec_bytes_processed(),
            final(self).detected() == old(self).detected(),
            final(self).forced() == old(self).forced(),
            final(self).fallbacks() == old(self).fallbacks().insert(
                encoding_name@,
                sat_add(count_in(old(self).fallbacks(), encoding_name@), 1),
            ),
    {
        self.encoding_fallbacks.add(&encoding_name.to_owned(), 1);
    }

    /// Counts one more conversion that replaced characters.
    pub fn record_conversion_error(&mut self)
        requires
            old(self).wf(),
        ensures
            final(self).wf(),
            final(self).spec_processing_nanos() == old(self).spec_processing_nanos(),
            final(self).spec_files_processed() == old(self).spec_files_processed(),
            final(self).spec_conversion_errors() == sat_add(old(self).spec_conversion_errors(), 1),
            final(self).spec_bytes_processed() == old(self).spec_bytes_processed(),
            final(self).detected() == old(self).detected(),
            final(self).forced() == old(self).forced(),
            final(self).fallbacks() == old(self).fallbacks(),
    {
        self.conversion_errors = self.conversion_errors.saturating_add(1);
    }

    /// Adds `bytes` to the bytes converted.
    pub fn record_bytes_processed(&mut self, bytes: u64)
        requires
            old(self).wf(),
        ensures
            final(self).wf(),
            final(self).spec_processing_nanos() == old(self).spec_processing_nanos(),
            final(self).spec_files_processed() == old(self).spec_files_processed(),
            final(self).spec_conversion_errors() == old(self).spec_conversion_errors(),
            final(self).spec_bytes_processed() == sat_add64(
                old(self).spec_bytes_processed(),
                bytes as nat,
            ),
            final(self).detected() == old(self).detected(),
            final(self).forced() == old(self).forced(),
            final(self).fallbacks() == old(self).fallbacks(),
    {
        self.bytes_processed = self.bytes_processed.saturating_add(bytes);
    }

    pub fn files_processed(&self) -> (r: usize)
        ensures
            r == self.spec_files_processed(),
    {
        self.files_processed
    }

    pub fn bytes_processed(&self) -> (r: u64)
        ensures
            r == self.spec_bytes_processed(),
    {
        self.bytes_processed
    }

    pub fn conversion_errors(&self) -> (r: usize)
        ensures
            r == self.spec_conversion_errors(),
    {
        self.conversion_errors
    }

    /// The time taken between the last start and stop of the clock, or the
    /// sum of merged times, in nanoseconds.
    pub fn processing_nanos(&self) -> (r: u64)
        ensures
            r == self.spec_processing_nanos(),
    {
        self.processing_nanos
    }

    /// The time recorded, as a `Duration`.
    pub fn processing_time(&self) -> Duration {
        duration_from_nanos(self.processing_nanos)
    }

    /// Detected encodings and their counts, in order of first appearance.
    pub fn detected_entries(&self) -> (r: Vec<(String, usize)>)
        requires
            self.wf(),
        ensures
            r@.len() == self.detected().dom().len(),
            forall|i: int|
                0 <= i < r@.len() ==> #[trigger] self.detected().contains_key(r@[i].0@)
                    && self.detected()[r@[i].0@] == r@[i].1 as nat,
    {
        self.encodings_detected.entries()
    }

    /// Forced encodings and their counts, in order of first appearance.
    pub fn forced_entries(&self) -> (r: Vec<(String, usize)>)
        requires
            self.wf(),
        ensures
            r@.len() == self.forced().dom().len(),
            forall|i: int|
                0 <= i < r@.len() ==> #[trigger] self.forced().contains_key(r@[i].0@)
                    && self.forced()[r@[i].0@] == r@[i].1 as nat,
    {
        self.encodings_forced.entries()
    }

    /// Fallback encodings and their counts, in order of first appearance.
    pub fn fallback_entries(&self) -> (r: Vec<(String, usize)>)
        requires
            self.wf(),
        ensures
            r@.len() == self.fallbacks().dom().len(),
            forall|i: int|
                0 <= i < r@.len() ==> #[trigger] self.fallbacks().contains_key(r@[i].0@)
                    && self.fallbacks()[r@[i].0@] == r@[i].1 as nat,
    {
        self.encoding_fallbacks.entries()
    }

    /// Every encoding name recorded in any of the three ways.
    pub open spec fn recorded_names(&self) -> Set<Seq<char>> {
        self.detected().dom().union(self.forced().dom()).union(self.fallbacks().dom())
    }

    /// The three tallies added up per name.
    fn combined(&self) -> (r: NameCounts)
        requires
            self.wf(),
        ensures
            r.wf(),
            r@.dom() == self.detected().dom().union(self.forced().dom()).union(
                self.fallbacks().dom(),
            ),
            forall|k: Seq<char>|
                #[trigger] r@.contains_key(k) ==> r@[k] == combined_count(
                    self.detected(),
                    self.forced(),
                    self.fallbacks(),
                    k,
                ),
    {
        let mut all = NameCounts::new();
        all.absorb_counts(&self.encodings_detected);
        all.absorb_counts(&self.encodings_forced);
        all.absorb_counts(&self.encoding_fallbacks);
        proof {
            assert forall|k: Seq<char>| #[trigger] all@.contains_key(k) implies all@[k]
                == combined_count(self.detected(), self.forced(), self.fallbacks(), k) by {}
        }
        all
    }
    /// `<name> (<count>)` for the encoding used most over detection, forcing
    /// and fallback together, or `none` when no encoding was recorded.
    pub fn get_most_common_encoding(&self) -> (r: String)
        requires
            self.wf(),
        ensures
            self.recorded_names() == Set::<Seq<char>>::empty() ==> r@ == "none"@,
            self.recorded_names() != Set::<Seq<char>>::empty() ==> exists|k: Seq<char>|
                {
                    &&& #[trigger] self.detected().dom().union(self.forced().dom()).union(
                        self.fallbacks().dom(),
                    ).contains(k)
                    &&& r@ == k + " ("@ + decimal(
                        combined_count(self.detected(), self.forced(), self.fallbacks(), k),
                    ) + ")"@
                    &&& forall|j: Seq<char>|
                        self.detected().dom().union(self.forced().dom()).union(
                            self.fallbacks().dom(),
                        ).contains(j) ==> combined_count(
                            self.detected(),
                            self.forced(),
                            self.fallbacks(),
                            j,
                        ) <= combined_count(self.detected(), self.forced(), self.fallbacks(), k)
                },
    {
        let all = self.combined();
        match all.most_common() {
            None => {
                assert(self.recorded_names() =~= Set::<Seq<char>>::empty());
                "none".to_owned()
            },
            Some((name, count)) => {
                let mut out: Vec<char> = Vec::new();
                push_str(&mut out, name.as_str());
                push_str(&mut out, " (");
                push_decimal(&mut out, count as u64);
                push_str(&mut out, ")");
                proof {
                    assert(out@ =~= name@ + " ("@ + decimal(count as nat) + ")"@);
                    assert forall|j: Seq<char>|
                        self.detected().dom().union(self.forced().dom()).union(
                            self.fallbacks().dom(),
                        ).contains(j) implies combined_count(
                        self.detected(),
                        self.forced(),
                        self.fallbacks(),
                        j,
                    ) <= combined_count(self.detected(), self.forced(), self.fallbacks(), name@)
                        by {
                        assert(all@.contains_key(j));
                    }
                }
                string_from_chars(out.as_slice())
            },
        }
    }

    /// The share of files converted without error, in tenths of a percent,
    /// rounded to the nearest tenth (1000 when no file was processed).
    pub fn success_rate_tenths(&self) -> (r: u64)
        ensures
            r == success_tenths(self.spec_files_processed(), self.spec_conversion_errors()),
    {
        if self.files_processed == 0 {
            return 1000;
        }
        let files = self.files_processed as u128;
        let n = self.files_processed.saturating_sub(self.conversion_errors) as u128 * 1000;
        let q = n / files;
        let r = n % files;
        assert(n as int / files as int <= 1000) by (nonlinear_arith)
            requires
                n <= files * 1000,
                files > 0,
        ;
        let t = if 2 * r > files || (2 * r == files && q % 2 == 1) {
            q + 1
        } else {
            q
        };
        t as u64
    }

    /// No conversion errors, and at least one file.
    pub fn is_fully_successful(&self) -> (r: bool)
        ensures
            r == (self.spec_conversion_errors() == 0 && self.spec_files_processed() > 0),
    {
        self.conversion_errors == 0 && self.files_processed > 0
    }

    /// The number of distinct encoding names recorded in any way.
    pub fn unique_encodings_count(&self) -> (r: usize)
        requires
            self.wf(),
        ensures
            r == self.detected().dom().union(self.forced().dom()).union(
                self.fallbacks().dom(),
            ).len(),
    {
        let all = self.combined();
        all.len()
    }

    /// `Encoding stats: <files> files, <n> encoding(s), <errors> errors,
    /// <rate>% success rate`, the rate being the share of files without
    /// conversion error, to one decimal.
    pub fn log_summary(&self) -> (r: String)
        requires
            self.wf(),
        ensures
            r@ == "Encoding stats: "@ + decimal(self.spec_files_processed()) + " files, "@
                + decimal(
                self.detected().dom().union(self.forced().dom()).union(
                    self.fallbacks().dom(),
                ).len(),
            ) + " encoding(s), "@ + decimal(self.spec_conversion_errors()) + " errors, "@
                + tenths_text(
                success_tenths(self.spec_files_processed(), self.spec_conversion_errors()),
            ) + "% success rate"@,
    {
        let unique = self.unique_encodings_count();
        let mut out: Vec<char> = Vec::new();
        push_str(&mut out, "Encoding stats: ");
        push_decimal(&mut out, self.files_processed as u64);
        push_str(&mut out, " files, ");
        push_decimal(&mut out, unique as u64);
        push_str(&mut out, " encoding(s), ");
        push_decimal(&mut out, self.conversion_errors as u64);
        push_str(&mut out, " errors, ");
        let files = self.files_processed as u128;
        let ok = self.files_processed.saturating_sub(self.conversion_errors) as u128;
        if files == 0 {
            push_tenths(&mut out, 1000, 1);
            assert(round_div(1000, 1) == 1000);
        } else {
            assert((ok * 1000) as int / files as int <= 1000) by (nonlinear_arith)
                requires
                    ok <= files,
                    files > 0,
            ;
            push_tenths(&mut out, ok * 1000, files);
        }
        push_str(&mut out, "% success rate");
        string_from_chars(out.as_slice())
    }

    /// Adds every count of `other` to this one.
    pub fn merge(&mut self, other: &EncodingStats)
        requires
            old(self).wf(),
            other.wf(),
        ensures
            final(self).wf(),
            final(self).spec_processing_nanos() == sat_add64(
                old(self).spec_processing_nanos(),
                other.spec_processing_nanos(),
            ),
            final(self).spec_files_processed() == sat_add(
                old(self).spec_files_processed(),
                other.spec_files_processed(),
            ),
            final(self).spec_conversion_errors() == sat_add(
                old(self).spec_conversion_errors(),
                other.spec_conversion_errors(),
            ),
            final(self).spec_bytes_processed() == sat_add64(
                old(self).spec_bytes_processed(),
                other.spec_bytes_processed(),
            ),
            final(self).detected().dom() == old(self).detected().dom().union(
                other.detected().dom(),
            ),
            forall|k: Seq<char>|
                #[trigger] final(self).detected().contains_key(k) ==> final(self).detected()[k]
                    == sat_add(count_in(old(self).detected(), k), count_in(other.detected(), k)),
            final(self).forced().dom() == old(self).forced().dom().union(other.forced().dom()),
            forall|k: Seq<char>|
                #[trigger] final(self).forced().contains_key(k) ==> final(self).forced()[k]
                    == sat_add(count_in(old(self).forced(), k), count_in(other.forced(), k)),
            final(self).fallbacks().dom() == old(self).fallbacks().dom().union(
                other.fallbacks().dom(),
            ),
            forall|k: Seq<char>|
                #[trigger] final(self).fallbacks().contains_key(k) ==> final(self).fallbacks()[k]
                    == sat_add(count_in(old(self).fallbacks(), k), count_in(other.fallbacks(), k)),
    {
        self.files_processed = self.files_processed.saturating_add(other.files_processed);
        self.conversion_errors = self.conversion_errors.saturating_add(other.conversion_errors);
        self.bytes_processed = self.bytes_processed.saturating_add(other.bytes_processed);
        self.processing_nanos = self.processing_nanos.saturating_add(other.processing_nanos);
        self.encodings_detected.absorb_counts(&other.encodings_detected);
        self.encodings_forced.absorb_counts(&other.encodings_forced);
        self.encoding_fallbacks.absorb_counts(&other.encoding_fallbacks);
    }
}

impl Default for EncodingStats {
    fn default() -> (r: Self)
        ensures
            r.wf(),
            r.spec_files_processed() == 0,
            r.spec_conversion_errors() == 0,
            r.spec_bytes_processed() == 0,
            r.spec_processing_nanos() == 0,
            r.detected() == Map::<Seq<char>, nat>::empty(),
            r.forced() == Map::<Seq<char>, nat>::empty(),
            r.fallbacks() == Map::<Seq<char>, nat>::empty(),
    {
        Self::new()
    }
}

/// `1000^i`.
pub open spec fn pow1000(i: nat) -> nat
    decreases i,
{
    if i == 0 {
        1
    } else {
        1000 * pow1000((i - 1) as nat)
    }
}

/// How many times `b` can be divided by 1000 and stay at least 1, up to `k`.
pub open spec fn scale(b: nat, k: nat) -> nat
    decreases k,
{
    if k == 0 || b < 1000 {
        0
    } else {
        1 + scale(b / 1000, (k - 1) as nat)
    }
}

/// The unit for a scale: B, KB, MB, GB, TB.
pub open spec fn unit_text(i: nat) -> Seq<char> {
    if i == 0 {
        "B"@
    } else if i == 1 {
        "KB"@
    } else if i == 2 {
        "MB"@
    } else if i == 3 {
        "GB"@
    } else {
        "TB"@
    }
}

/// A byte count for people: `0 B`, `512 B`, or the count in the largest
/// unit of 1000 (up to TB) that keeps it at least 1, to one decimal
/// (`1.0 KB`, `1.1 GB`).
pub open spec fn bytes_text(b: nat) -> Seq<char> {
    let i = scale(b, 4);
    if i == 0 {
        decimal(b) + " B"@
    } else {
        tenths_text(round_div(b * 10, pow1000(i))) + " "@ + unit_text(i)
    }
}

/// A byte count for people, such as `512 B` or `1.1 GB`.
pub fn format_bytes(bytes: u64) -> (r: String)
    ensures
        r@ == bytes_text(bytes as nat),
{
    let mut out: Vec<char> = Vec::new();
    let mut i: u64 = 0;
    let mut unit: u64 = 1;
    proof {
        reveal_with_fuel(pow1000, 5);
    }
    while i < 4 && bytes / unit >= 1000
        invariant
            i <= 4,
            unit == pow1000(i as nat),
            (i == 0 && unit == 1) || (i == 1 && unit == 1000) || (i == 2 && unit == 1_000_000)
                || (i == 3 && unit == 1_000_000_000) || (i == 4 && unit == 1_000_000_000_000),
            unit <= bytes || i == 0,
            scale(bytes as nat, 4) == i + scale((bytes / unit) as nat, (4 - i) as nat),
        decreases 4 - i,
    {
        assert((bytes as int / unit as int) / 1000 == bytes as int / (unit as int * 1000))
            by (nonlinear_arith)
            requires
                unit > 0,
        ;
        assert(unit * 1000 <= bytes) by (nonlinear_arith)
            requires
                bytes / unit >= 1000,
                unit > 0,
        ;
        unit = unit * 1000;
        i += 1;
    }
    assert(scale((bytes / unit) as nat, (4 - i) as nat) == 0);
    if i == 0 {
        push_decimal(&mut out, bytes);
        push_str(&mut out, " B");
        assert(out@ =~= bytes_text(bytes as nat));
    } else {
        assert((bytes as int * 10) / unit as int <= bytes as int / 100) by (nonlinear_arith)
            requires
                unit >= 1000,
        ;
        push_tenths(&mut out, bytes as u128 * 10, unit as u128);
        push_str(&mut out, " ");
        let u = if i == 1 {
            "KB"
        } else if i == 2 {
            "MB"
        } else if i == 3 {
            "GB"
        } else {
            "TB"
        };
        push_str(&mut out, u);
        assert(out@ =~= bytes_text(bytes as nat));
    }
    string_from_chars(out.as_slice())
}

} // verus!
