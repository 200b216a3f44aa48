//! One merge run: the files to merge in order, the run-wide deduplicated
//! set, the checkpoint ledger and the shutdown state. Reading files and
//! saving checkpoints are left to the caller, which feeds each file's
//! content in and saves the ledger after each step.

use crate::converter::EncodingConverter;
use crate::dedup::{views, LineSet};
use crate::detector::EncodingDetector;
use crate::encoding::{EncodingKind, MAX_DECODE_LEN};
use crate::encoding::decoded;
use crate::handler::{
    file_encoding, file_text, sample_part, strategy_choice, tallied, EncodingHandler, Resolution,
};
use crate::stats::{sat_add64, EncodingStats};
use crate::ingest::{batch_views, batches_bounded, split_into_batches, split_lines, union_all};
use crate::names::sat_add;
use crate::progress::{Progress, ShutdownCoordinator, ShutdownState};
use crate::strategies::EncodingStrategy;
use crate::text::{
    is_clean_line, lemma_clean_is_trimmed, lemma_scan_extend, lemma_text_lines_clean, push_str,
    lines_read, scan_lines, string_from_chars, text_lines, trim,
};
use vstd::prelude::*;

verus! {

broadcast use vstd::seq_lib::group_seq_properties;

/// The distinct lines of a sequence of file texts.
pub open spec fn lines_of_texts(ts: Seq<Seq<char>>) -> Set<Seq<char>>
    decreases ts.len(),
{
    if ts.len() == 0 {
        Set::empty()
    } else {
        lines_of_texts(ts.drop_last()).union(text_lines(ts.last()).to_set())
    }
}

/// A line is among the merged lines exactly when some text holds it.
pub proof fn lemma_lines_of_texts(ts: Seq<Seq<char>>, l: Seq<char>)
    ensures
        lines_of_texts(ts).contains(l) <==> exists|i: int|
            0 <= i < ts.len() && #[trigger] text_lines(ts[i]).to_set().contains(l),
    decreases ts.len(),
{
    if ts.len() > 0 {
        lemma_lines_of_texts(ts.drop_last(), l);
        if lines_of_texts(ts.drop_last()).contains(l) {
            let i = choose|i: int|
                0 <= i < ts.drop_last().len() && #[trigger] text_lines(
                    ts.drop_last()[i],
                ).to_set().contains(l);
            assert(ts[i] == ts.drop_last()[i]);
        }
        if exists|i: int| 0 <= i < ts.len() && #[trigger] text_lines(ts[i]).to_set().contains(l) {
            let i = choose|i: int|
                0 <= i < ts.len() && #[trigger] text_lines(ts[i]).to_set().contains(l);
            if i < ts.len() - 1 {
                assert(ts.drop_last()[i] == ts[i]);
            }
        }
    }
}

/// Completeness: every line of every merged file is in the merged set.
pub proof fn lemma_every_line_kept(ts: Seq<Seq<char>>, i: int, l: Seq<char>)
    requires
        0 <= i < ts.len(),
        text_lines(ts[i]).contains(l),
    ensures
        lines_of_texts(ts).contains(l),
{
    lemma_lines_of_texts(ts, l);
    assert(text_lines(ts[i]).to_set().contains(l));
}

/// No duplicates: an output listing the merged lines without repetition
/// holds each line of each merged file exactly once.
pub proof fn lemma_each_line_once(out: Seq<Seq<char>>, ts: Seq<Seq<char>>, i: int, l: Seq<char>)
    requires
        out.no_duplicates(),
        out.to_set() == lines_of_texts(ts),
        0 <= i < ts.len(),
        text_lines(ts[i]).contains(l),
    ensures
        exists|k: int|
            0 <= k < out.len() && out[k] == l && forall|j: int|
                0 <= j < out.len() && #[trigger] out[j] == l ==> j == k,
{
    lemma_every_line_kept(ts, i, l);
    assert(out.to_set().contains(l));
    let k = choose|k: int| 0 <= k < out.len() && out[k] == l;
    assert forall|j: int| 0 <= j < out.len() && #[trigger] out[j] == l implies j == k by {
        if j != k {
            assert(out[j] == out[k]);
        }
    }
}

/// Merging the same files again, in any order (as concurrent workers may
/// finish them), gives the same set of lines.
pub proof fn lemma_merge_idempotent(a: Seq<Seq<char>>, b: Seq<Seq<char>>)
    requires
        a.to_multiset() == b.to_multiset(),
    ensures
        lines_of_texts(a) == lines_of_texts(b),
{
    broadcast use vstd::seq_lib::group_to_multiset_ensures;

    assert forall|l: Seq<char>| lines_of_texts(a).contains(l) implies lines_of_texts(b).contains(
        l,
    ) by {
        lemma_lines_of_texts(a, l);
        lemma_lines_of_texts(b, l);
        let i = choose|i: int| 0 <= i < a.len() && #[trigger] text_lines(a[i]).to_set().contains(l);
        assert(a.contains(a[i]));
        assert(a.to_multiset().count(a[i]) > 0);
        assert(b.to_multiset().count(a[i]) > 0);
        assert(b.contains(a[i]));
        let j = choose|j: int| 0 <= j < b.len() && b[j] == a[i];
        assert(text_lines(b[j]).to_set().contains(l));
    }
    assert forall|l: Seq<char>| lines_of_texts(b).contains(l) implies lines_of_texts(a).contains(
        l,
    ) by {
        lemma_lines_of_texts(a, l);
        lemma_lines_of_texts(b, l);
        let j = choose|j: int| 0 <= j < b.len() && #[trigger] text_lines(b[j]).to_set().contains(l);
        assert(b.contains(b[j]));
        assert(b.to_multiset().count(b[j]) > 0);
        assert(a.to_multiset().count(b[j]) > 0);
        assert(a.contains(b[j]));
        let i = choose|i: int| 0 <= i < a.len() && a[i] == b[j];
        assert(text_lines(a[i]).to_set().contains(l));
    }
    assert(lines_of_texts(a) =~= lines_of_texts(b));
}

/// Resuming: the lines of the files merged before an interruption together
/// with those of the files merged after it are the lines of one
/// uninterrupted run over all of them.
pub proof fn lemma_resume_matches_uninterrupted(done: Seq<Seq<char>>, rest: Seq<Seq<char>>)
    ensures
        lines_of_texts(done).union(lines_of_texts(rest)) == lines_of_texts(done + rest),
    decreases rest.len(),
{
    if rest.len() == 0 {
        assert(done + rest =~= done);
        assert(lines_of_texts(done).union(lines_of_texts(rest)) =~= lines_of_texts(done));
    } else {
        lemma_resume_matches_uninterrupted(done, rest.drop_last());
        assert((done + rest).drop_last() =~= done + rest.drop_last());
        assert((done + rest).last() == rest.last());
        assert(lines_of_texts(done).union(lines_of_texts(rest)) =~= lines_of_texts(done + rest));
    }
}

/// The stages a run goes through.
#[derive(Clone, Copy, Debug, PartialEq, Eq, Structural)]
pub enum ProcessingStage {
    Initializing,
    ValidatingFiles,
    ProcessingFiles,
    Merging,
    Completed,
    Failed,
}

/// Folds every batch into `merged`, as the aggregator does.
fn merge_batches(merged: &mut LineSet, batches: Vec<LineSet>)
    requires
        old(merged).wf(),
        forall|k: int| 0 <= k < batches@.len() ==> (#[trigger] batches@[k]).wf(),
    ensures
        final(merged).wf(),
        final(merged)@ == old(merged)@.union(union_all(batch_views(batches@))),
{
    let ghost target = merged@.union(union_all(batch_views(batches@)));
    let mut rest = batches;
    while rest.len() > 0
        invariant
            merged.wf(),
            forall|k: int| 0 <= k < rest@.len() ==> (#[trigger] rest@[k]).wf(),
            merged@.union(union_all(batch_views(rest@))) == target,
        decreases rest.len(),
    {
        let ghost before = rest@;
        let b = rest.pop().unwrap();
        assert(before.drop_last() =~= rest@);
        assert(batch_views(before).drop_last() =~= batch_views(rest@));
        assert(before[before.len() - 1].wf());
        merged.absorb(b);
        assert(merged@.union(union_all(batch_views(rest@))) =~= target);
    }
    assert(batch_views(rest@) =~= Seq::<Set<Seq<char>>>::empty());
    assert(merged@ =~= target);
}

/// One file decoded and split into batches by a producer, ready to be
/// merged by the aggregator.
pub struct PreparedFile {
    batches: Vec<LineSet>,
    line_count: usize,
    encoding: EncodingKind,
    resolution: Resolution,
    had_errors: bool,
    byte_len: u64,
    capacity: usize,
    text: Ghost<Seq<char>>,
    content: Ghost<Seq<u8>>,
    strategy: Ghost<EncodingStrategy>,
}

impl PreparedFile {
    /// The encoding is the one the strategy picks for the content, the text
    /// is the content decoded in it, the batches hold exactly the lines of
    /// the text, none more than the capacity, and the count is that of the
    /// lines read.
    pub closed spec fn wf(&self) -> bool {
        &&& self.content@.len() <= MAX_DECODE_LEN
        &&& (self.encoding, self.resolution) == strategy_choice(
            self.strategy@,
            self.content@.len() as u64,
            sample_part(self.content@),
        )
        &&& self.text@ == decoded(self.encoding, self.content@).0
        &&& self.had_errors == decoded(self.encoding, self.content@).1
        &&& self.byte_len == self.content@.len()
        &&& batches_bounded(self.batches@, self.capacity as nat)
        &&& union_all(batch_views(self.batches@)) == text_lines(self.text@).to_set()
        &&& self.line_count == lines_read(self.text@)
    }

    /// The bytes of the file.
    pub closed spec fn spec_content(&self) -> Seq<u8> {
        self.content@
    }

    /// The strategy the encoding was chosen under.
    pub closed spec fn spec_strategy(&self) -> EncodingStrategy {
        self.strategy@
    }

    /// How the encoding was arrived at.
    pub closed spec fn spec_resolution(&self) -> Resolution {
        self.resolution
    }

    /// The decoded text of the file.
    pub closed spec fn spec_text(&self) -> Seq<char> {
        self.text@
    }

    pub closed spec fn spec_capacity(&self) -> nat {
        self.capacity as nat
    }

    pub closed spec fn spec_encoding(&self) -> EncodingKind {
        self.encoding
    }

    /// The encoding the file was read in.
    pub fn encoding(&self) -> (r: EncodingKind)
        ensures
            r == self.spec_encoding(),
    {
        self.encoding
    }

    /// The number of lines read from the file, blank ones included.
    pub fn line_count(&self) -> (r: usize)
        requires
            self.wf(),
        ensures
            r == lines_read(self.spec_text()),
    {
        self.line_count
    }
}

/// The producer's work on one file: picks the encoding under `strategy`,
/// decodes the whole content, and splits its lines into batches of at most
/// `capacity` lines.
pub fn prepare_file(strategy: &EncodingStrategy, content: &[u8], capacity: usize) -> (r:
    PreparedFile)
    requires
        capacity >= 1,
        content@.len() <= MAX_DECODE_LEN,
    ensures
        r.wf(),
        r.spec_content() == content@,
        r.spec_strategy() == *strategy,
        r.spec_text() == file_text(*strategy, content@),
        r.spec_encoding() == file_encoding(*strategy, content@),
        r.spec_capacity() == capacity,
{
    let sample = EncodingDetector::sample_of(content);
    let (encoding, resolution) = EncodingHandler::choose_encoding(
        strategy,
        content.len() as u64,
        sample,
    );
    let (text, had_errors) = EncodingConverter::convert_bytes_to_utf8(content, encoding);
    let fb = split_into_batches(text.as_str(), capacity);
    PreparedFile {
        batches: fb.batches,
        line_count: fb.line_count,
        encoding,
        resolution,
        had_errors,
        byte_len: content.len() as u64,
        capacity,
        text: Ghost(text@),
        content: Ghost(content@),
        strategy: Ghost(*strategy),
    }
}

/// A merge run over a fixed list of files.
pub struct MergeSession {
    files: Vec<String>,
    next: usize,
    progress: Progress,
    merged: LineSet,
    handler: EncodingHandler,
    capacity: usize,
    shutdown: ShutdownCoordinator,
    texts: Ghost<Seq<Seq<char>>>,
}

impl MergeSession {
    pub closed spec fn wf(&self) -> bool {
        &&& self.next <= self.files@.len()
        &&& self.merged.wf()
        &&& self.handler.wf()
        &&& self.capacity >= 1
        &&& self.merged@ == lines_of_texts(self.texts@)
    }

    /// The files of the run, in the order they are merged.
    pub closed spec fn spec_files(&self) -> Seq<Seq<char>> {
        views(self.files@)
    }

    /// How many files have been dealt with (merged or skipped).
    pub closed spec fn spec_next(&self) -> nat {
        self.next as nat
    }

    /// The texts of the files merged in this run, in the order merged.
    pub closed spec fn merged_texts(&self) -> Seq<Seq<char>> {
        self.texts@
    }

    /// The run-wide set of distinct lines.
    pub closed spec fn merged_lines(&self) -> Set<Seq<char>> {
        self.merged@
    }

    pub closed spec fn spec_progress(&self) -> Progress {
        self.progress
    }

    pub closed spec fn spec_strategy(&self) -> EncodingStrategy {
        self.handler.spec_strategy()
    }

    /// The encoding statistics of the files merged.
    pub closed spec fn spec_stats(&self) -> EncodingStats {
        self.handler.spec_stats()
    }

    pub closed spec fn spec_capacity(&self) -> nat {
        self.capacity as nat
    }

    pub closed spec fn spec_shutdown(&self) -> ShutdownState {
        self.shutdown.spec_state()
    }

    /// A run that merges `files` in this order, reads them under `strategy`,
    /// hands lines on in batches of at most `capacity`, and records into
    /// `progress` (fresh, or loaded from a checkpoint).
    pub fn new(
        files: Vec<String>,
        progress: Progress,
        strategy: EncodingStrategy,
        capacity: usize,
    ) -> (r: Self)
        requires
            capacity >= 1,
        ensures
            r.wf(),
            r.spec_files() == views(files@),
            r.spec_next() == 0,
            r.merged_texts() == Seq::<Seq<char>>::empty(),
            r.merged_lines() == Set::<Seq<char>>::empty(),
            r.spec_progress() == progress,
            r.spec_strategy() == strategy,
            r.spec_capacity() == capacity,
            r.spec_shutdown() == ShutdownState::Running,
    {
        MergeSession {
            files,
            next: 0,
            progress,
            merged: LineSet::new(),
            handler: EncodingHandler::with_strategy(strategy, false),
            capacity,
            shutdown: ShutdownCoordinator::new(),
            texts: Ghost(Seq::empty()),
        }
    }

    /// The next file to merge, or `None` when all are dealt with or a stop
    /// was asked for.
    pub fn next_file(&self) -> (r: Option<String>)
        requires
            self.wf(),
        ensures
            r is None <==> (self.spec_next() == self.spec_files().len() || self.spec_shutdown()
                != ShutdownState::Running),
            r matches Some(p) ==> p@ == self.spec_files()[self.spec_next() as int],
    {
        if self.shutdown.should_shutdown() || self.next == self.files.len() {
            return None;
        }
        let p = self.files[self.next].clone();
        assert(views(self.files@)[self.next as int] == self.files@[self.next as int]@);
        Some(p)
    }

    /// Merges the decoded text of the next file: its lines go, batch by
    /// batch, into the run-wide set; the file is recorded in the ledger with
    /// its line count. A file in flight is finished even after a stop was
    /// asked for.
    pub fn complete_file_text(&mut self, text: &str)
        requires
            old(self).wf(),
            old(self).spec_next() < old(self).spec_files().len(),
        ensures
            final(self).wf(),
            final(self).spec_files() == old(self).spec_files(),
            final(self).spec_next() == old(self).spec_next() + 1,
            final(self).merged_texts() == old(self).merged_texts().push(text@),
            final(self).merged_lines() == old(self).merged_lines().union(
                text_lines(text@).to_set(),
            ),
            views(final(self).spec_progress().processed_files@) == views(
                old(self).spec_progress().processed_files@,
            ).push(old(self).spec_files()[old(self).spec_next() as int]),
            final(self).spec_progress().current_position == sat_add(
                old(self).spec_progress().current_position as nat,
                lines_read(text@),
            ),
            final(self).spec_progress().input_file == old(self).spec_progress().input_file,
            final(self).spec_progress().output_file == old(self).spec_progress().output_file,
            final(self).spec_progress().threads == old(self).spec_progress().threads,
            final(self).spec_progress().save_path == old(self).spec_progress().save_path,
            final(self).spec_strategy() == old(self).spec_strategy(),
            final(self).spec_stats() == old(self).spec_stats(),
            final(self).spec_capacity() == old(self).spec_capacity(),
            final(self).spec_shutdown() == old(self).spec_shutdown(),
    {
        let fb = split_into_batches(text, self.capacity);
        merge_batches(&mut self.merged, fb.batches);
        let ghost file = views(self.files@)[self.next as int];
        let f = self.files[self.next].clone();
        self.progress.record_completed_file(f, fb.line_count);
        assert(views(self.progress.processed_files@) =~= views(
            old(self).progress.processed_files@,
        ).push(file));
        let total = self.files.len();
        assert(self.next < total);
        self.next = self.next + 1;
        proof {
            self.texts@ = self.texts@.push(text@);
            assert(self.texts@.drop_last() =~= old(self).texts@);
        }
    }

    /// Decodes the next file's whole content in the encoding the strategy
    /// picks, then merges it as `complete_file_text` does.
    pub fn complete_file(&mut self, content: &[u8])
        requires
            old(self).wf(),
            old(self).spec_next() < old(self).spec_files().len(),
            content@.len() <= MAX_DECODE_LEN,
        ensures
            final(self).wf(),
            final(self).spec_files() == old(self).spec_files(),
            final(self).spec_next() == old(self).spec_next() + 1,
            final(self).merged_texts() == old(self).merged_texts().push(
                file_text(old(self).spec_strategy(), content@),
            ),
            final(self).merged_lines() == old(self).merged_lines().union(
                text_lines(file_text(old(self).spec_strategy(), content@)).to_set(),
            ),
            views(final(self).spec_progress().processed_files@) == views(
                old(self).spec_progress().processed_files@,
            ).push(old(self).spec_files()[old(self).spec_next() as int]),
            final(self).spec_progress().current_position == sat_add(
                old(self).spec_progress().current_position as nat,
                lines_read(file_text(old(self).spec_strategy(), content@)),
            ),
            final(self).spec_stats().spec_files_processed() == sat_add(
                old(self).spec_stats().spec_files_processed(),
                1,
            ),
            final(self).spec_stats().spec_conversion_errors() == if decoded(
                file_encoding(old(self).spec_strategy(), content@),
                content@,
            ).1 {
                sat_add(old(self).spec_stats().spec_conversion_errors(), 1)
            } else {
                old(self).spec_stats().spec_conversion_errors()
            },
            final(self).spec_stats().spec_bytes_processed() == sat_add64(
                old(self).spec_stats().spec_bytes_processed(),
                content@.len(),
            ),
            tallied(
                old(self).spec_stats(),
                final(self).spec_stats(),
                file_encoding(old(self).spec_strategy(), content@),
                strategy_choice(
                    old(self).spec_strategy(),
                    content@.len() as u64,
                    sample_part(content@),
                ).1,
            ),
            final(self).spec_strategy() == old(self).spec_strategy(),
            final(self).spec_shutdown() == old(self).spec_shutdown(),
    {
        let p = prepare_file(self.handler.strategy(), content, self.capacity);
        self.merge_prepared(p);
    }

    /// The aggregator's work on one prepared file, which must be the next
    /// one: its batches go into the run-wide set, its encoding and sizes into
    /// the statistics, and the file into the ledger with its line count. A
    /// file in flight is finished even after a stop was asked for.
    pub fn merge_prepared(&mut self, p: PreparedFile)
        requires
            old(self).wf(),
            old(self).spec_next() < old(self).spec_files().len(),
            p.wf(),
        ensures
            final(self).wf(),
            final(self).spec_files() == old(self).spec_files(),
            final(self).spec_next() == old(self).spec_next() + 1,
            final(self).merged_texts() == old(self).merged_texts().push(p.spec_text()),
            final(self).merged_lines() == old(self).merged_lines().union(
                text_lines(p.spec_text()).to_set(),
            ),
            views(final(self).spec_progress().processed_files@) == views(
                old(self).spec_progress().processed_files@,
            ).push(old(self).spec_files()[old(self).spec_next() as int]),
            final(self).spec_progress().current_position == sat_add(
                old(self).spec_progress().current_position as nat,
                lines_read(p.spec_text()),
            ),
            final(self).spec_stats().spec_files_processed() == sat_add(
                old(self).spec_stats().spec_files_processed(),
                1,
            ),
            final(self).spec_stats().spec_conversion_errors() == if decoded(
                p.spec_encoding(),
                p.spec_content(),
            ).1 {
                sat_add(old(self).spec_stats().spec_conversion_errors(), 1)
            } else {
                old(self).spec_stats().spec_conversion_errors()
            },
            final(self).spec_stats().spec_bytes_processed() == sat_add64(
                old(self).spec_stats().spec_bytes_processed(),
                p.spec_content().len(),
            ),
            tallied(
                old(self).spec_stats(),
                final(self).spec_stats(),
                p.spec_encoding(),
                p.spec_resolution(),
            ),
            final(self).spec_progress().input_file == old(self).spec_progress().input_file,
            final(self).spec_progress().output_file == old(self).spec_progress().output_file,
            final(self).spec_progress().threads == old(self).spec_progress().threads,
            final(self).spec_progress().save_path == old(self).spec_progress().save_path,
            final(self).spec_strategy() == old(self).spec_strategy(),
            final(self).spec_capacity() == old(self).spec_capacity(),
            final(self).spec_shutdown() == old(self).spec_shutdown(),
    {
        let PreparedFile {
            batches,
            line_count,
            encoding,
            resolution,
            had_errors,
            byte_len,
            capacity: _,
            text,
            content: _,
            strategy: _,
        } = p;
        proof {
            assert forall|k: int| 0 <= k < batches@.len() implies (#[trigger] batches@[k]).wf() by {}
        }
        merge_batches(&mut self.merged, batches);
        self.handler.record_conversion(byte_len, had_errors);
        self.handler.record_choice(encoding, resolution);
        let ghost file = views(self.files@)[self.next as int];
        let f = self.files[self.next].clone();
        self.progress.record_completed_file(f, line_count);
        assert(views(self.progress.processed_files@) =~= views(
            old(self).progress.processed_files@,
        ).push(file));
        let total = self.files.len();
        assert(self.next < total);
        self.next = self.next + 1;
        proof {
            self.texts@ = self.texts@.push(text@);
            assert(self.texts@.drop_last() =~= old(self).texts@);
        }
    }

    /// Passes over the next file without merging or recording it, as when
    /// it cannot be read.
    pub fn skip_file(&mut self)
        requires
            old(self).wf(),
            old(self).spec_next() < old(self).spec_files().len(),
        ensures
            final(self).wf(),
            final(self).spec_files() == old(self).spec_files(),
            final(self).spec_next() == old(self).spec_next() + 1,
            final(self).merged_texts() == old(self).merged_texts(),
            final(self).merged_lines() == old(self).merged_lines(),
            final(self).spec_progress() == old(self).spec_progress(),
            final(self).spec_strategy() == old(self).spec_strategy(),
            final(self).spec_shutdown() == old(self).spec_shutdown(),
    {
        let total = self.files.len();
        assert(self.next < total);
        self.next = self.next + 1;
    }

    /// Asks the run to stop before its next file. Returns true when this
    /// request is the first; the caller then saves the checkpoint at once.
    pub fn request_shutdown(&mut self) -> (r: bool)
        requires
            old(self).wf(),
        ensures
            final(self).wf(),
            r == (old(self).spec_shutdown() == ShutdownState::Running),
            final(self).spec_shutdown() != ShutdownState::Running,
            final(self).spec_files() == old(self).spec_files(),
            final(self).spec_next() == old(self).spec_next(),
            final(self).merged_texts() == old(self).merged_texts(),
            final(self).merged_lines() == old(self).merged_lines(),
            final(self).spec_progress() == old(self).spec_progress(),
            final(self).spec_strategy() == old(self).spec_strategy(),
    {
        self.shutdown.request_shutdown()
    }

    /// The strategy files are read under, for producers.
    pub fn strategy(&self) -> (r: &EncodingStrategy)
        ensures
            *r == self.spec_strategy(),
    {
        self.handler.strategy()
    }

    /// The batch capacity, for producers.
    pub fn capacity(&self) -> (r: usize)
        requires
            self.wf(),
        ensures
            r == self.spec_capacity(),
            r >= 1,
    {
        self.capacity
    }

    /// The ledger, for saving as a checkpoint.
    pub fn progress(&self) -> (r: &Progress)
        ensures
            *r == self.spec_progress(),
    {
        &self.progress
    }

    /// The encoding statistics of the files decoded so far.
    pub fn encoding_handler(&self) -> (r: &EncodingHandler)
        ensures
            r.spec_strategy() == self.spec_strategy(),
    {
        &self.handler
    }

    /// How many distinct lines have been merged so far.
    pub fn unique_count(&self) -> (r: usize)
        requires
            self.wf(),
        ensures
            r == self.merged_lines().len(),
    {
        self.merged.len()
    }

    /// Ends the run and hands over the merged lines: each distinct line of
    /// every merged file exactly once, in no particular order.
    pub fn finish(self) -> (r: Vec<String>)
        requires
            self.wf(),
        ensures
            views(r@).no_duplicates(),
            views(r@).to_set() == self.merged_lines(),
            views(r@).to_set() == lines_of_texts(self.merged_texts()),
    {
        self.merged.into_lines()
    }
}

/// The input files named in a list file: one path per line, each trimmed,
/// blank lines left out.
pub fn parse_input_list(content: &str) -> (r: Vec<String>)
    ensures
        views(r@) == text_lines(content@),
{
    split_lines(content)
}

/// The output text for `lines`: each line followed by `'\n'`.
pub open spec fn rendered(ls: Seq<Seq<char>>) -> Seq<char>
    decreases ls.len(),
{
    if ls.len() == 0 {
        Seq::empty()
    } else {
        rendered(ls.drop_last()) + ls.last().push('\n')
    }
}

/// The output text for `lines`: one line per line, each ended by `'\n'`.
pub fn render_output(lines: &Vec<String>) -> (r: String)
    ensures
        r@ == rendered(views(lines@)),
{
    let mut out: Vec<char> = Vec::new();
    let mut i: usize = 0;
    while i < lines.len()
        invariant
            i <= lines@.len(),
            out@ == rendered(views(lines@).take(i as int)),
        decreases lines.len() - i,
    {
        assert(views(lines@).take(i as int + 1).drop_last() =~= views(lines@).take(i as int));
        push_str(&mut out, lines[i].as_str());
        out.push('\n');
        assert(out@ =~= rendered(views(lines@).take(i as int + 1)));
        i += 1;
    }
    assert(views(lines@).take(i as int) =~= views(lines@));
    string_from_chars(out.as_slice())
}

/// Reading back an output written from clean lines gives those lines.
pub proof fn lemma_rendered_lines(ls: Seq<Seq<char>>)
    requires
        forall|i: int| 0 <= i < ls.len() ==> is_clean_line(#[trigger] ls[i]),
    ensures
        scan_lines(rendered(ls)) == (ls, Seq::<char>::empty()),
        text_lines(rendered(ls)) == ls,
    decreases ls.len(),
{
    if ls.len() == 0 {
        assert(rendered(ls) =~= Seq::<char>::empty());
    } else {
        let prev = ls.drop_last();
        let l = ls.last();
        assert forall|i: int| 0 <= i < prev.len() implies is_clean_line(#[trigger] prev[i]) by {
            assert(prev[i] == ls[i]);
        }
        lemma_rendered_lines(prev);
        lemma_scan_extend(rendered(prev), l);
        lemma_clean_is_trimmed(l);
        let whole = rendered(prev) + l;
        assert(rendered(ls) =~= whole.push('\n'));
        assert(whole.push('\n').drop_last() =~= whole);
        assert(prev.push(l) =~= ls);
    }
    assert(trim(Seq::<char>::empty()) =~= Seq::<char>::empty());
}

/// Every merged line is clean.
pub proof fn lemma_merged_lines_clean(ts: Seq<Seq<char>>, l: Seq<char>)
    requires
        lines_of_texts(ts).contains(l),
    ensures
        is_clean_line(l),
{
    lemma_lines_of_texts(ts, l);
    let i = choose|i: int| 0 <= i < ts.len() && #[trigger] text_lines(ts[i]).to_set().contains(l);
    lemma_text_lines_clean(ts[i]);
    let k = choose|k: int| 0 <= k < text_lines(ts[i]).len() && text_lines(ts[i])[k] == l;
    assert(is_clean_line(text_lines(ts[i])[k]));
}

/// Resuming end to end: the interrupted run wrote its merged lines
/// (`first`, those of the files `done`); the resumed run merged the rest of
/// the files into `second` and appends what the written output lacks. The
/// lines of the output then are those of one uninterrupted run over all
/// the files.
pub proof fn lemma_resumed_output(
    done: Seq<Seq<char>>,
    rest: Seq<Seq<char>>,
    first: Seq<Seq<char>>,
    second: Seq<Seq<char>>,
    appended: Seq<Seq<char>>,
)
    requires
        first.to_set() == lines_of_texts(done),
        second.to_set() == lines_of_texts(rest),
        appended.to_set() == second.to_set().difference(text_lines(rendered(first)).to_set()),
    ensures
        text_lines(rendered(first)).to_set().union(appended.to_set()) == lines_of_texts(
            done + rest,
        ),
{
    assert forall|i: int| 0 <= i < first.len() implies is_clean_line(#[trigger] first[i]) by {
        assert(first.to_set().contains(first[i]));
        lemma_merged_lines_clean(done, first[i]);
    }
    lemma_rendered_lines(first);
    lemma_resume_matches_uninterrupted(done, rest);
    assert(text_lines(rendered(first)).to_set().union(appended.to_set()) =~= lines_of_texts(
        done,
    ).union(lines_of_texts(rest)));
}

} // verus!
