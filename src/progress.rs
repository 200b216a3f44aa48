//! The checkpoint ledger of a run, run metrics, and the shutdown state.

use crate::clock::{elapsed_since, now};
use crate::dedup::{views, LineSet};
use crate::names::sat_add;
use std::time::{Duration, Instant};
use vstd::prelude::*;

verus! {

broadcast use vstd::seq_lib::group_seq_properties;

/// The paths of `inputs` that `done` does not list, in their order.
pub open spec fn remaining(inputs: Seq<Seq<char>>, done: Seq<Seq<char>>) -> Seq<Seq<char>> {
    inputs.filter(|p: Seq<char>| !done.contains(p))
}

/// What a checkpoint records: the run's settings, the files merged so far
/// (only files whose lines were all merged), and the lines counted in them.
#[derive(Debug)]
pub struct Progress {
    /// The file that lists the input files.
    pub input_file: String,
    /// Where the merged lines go.
    pub output_file: String,
    pub threads: usize,
    /// The files fully merged, in the order in which they were finished.
    pub processed_files: Vec<String>,
    /// The lines read from those files, blank ones and repetitions included.
    pub current_position: usize,
    /// Where the checkpoint is saved, if anywhere.
    pub save_path: Option<String>,
}

impl Default for Progress {
    fn default() -> (r: Self)
        ensures
            r.input_file@ == Seq::<char>::empty(),
            r.output_file@ == Seq::<char>::empty(),
            r.threads == 10,
            r.processed_files@.len() == 0,
            r.current_position == 0,
            r.save_path is None,
    {
        Progress {
            input_file: String::new(),
            output_file: String::new(),
            threads: 10,
            processed_files: Vec::new(),
            current_position: 0,
            save_path: None,
        }
    }
}

impl Progress {
    /// A fresh ledger for a run.
    pub fn new(input_file: String, output_file: String, threads: usize) -> (r: Self)
        ensures
            r.input_file == input_file,
            r.output_file == output_file,
            r.threads == threads,
            r.processed_files@.len() == 0,
            r.current_position == 0,
            r.save_path is None,
    {
        Progress {
            input_file,
            output_file,
            threads,
            processed_files: Vec::new(),
            current_position: 0,
            save_path: None,
        }
    }

    /// Records that `file` was merged in full and held `line_count` lines;
    /// the position saturates at `usize::MAX`.
    pub fn record_completed_file(&mut self, file: String, line_count: usize)
        ensures
            final(self).processed_files@ == old(self).processed_files@.push(file),
            final(self).current_position == sat_add(
                old(self).current_position as nat,
                line_count as nat,
            ),
            final(self).input_file == old(self).input_file,
            final(self).output_file == old(self).output_file,
            final(self).threads == old(self).threads,
            final(self).save_path == old(self).save_path,
    {
        self.processed_files.push(file);
        self.current_position = self.current_position.saturating_add(line_count);
    }

    /// Records `file` as merged and advances the position by one.
    pub fn add_processed_file(&mut self, file: String)
        ensures
            final(self).processed_files@ == old(self).processed_files@.push(file),
            final(self).current_position == sat_add(old(self).current_position as nat, 1),
            final(self).input_file == old(self).input_file,
            final(self).output_file == old(self).output_file,
            final(self).threads == old(self).threads,
            final(self).save_path == old(self).save_path,
    {
        self.record_completed_file(file, 1);
    }

    /// Sets where the checkpoint is saved, as loading one does.
    pub fn attach_save_path(&mut self, path: String)
        ensures
            final(self).save_path == Some(path),
            final(self).processed_files == old(self).processed_files,
            final(self).current_position == old(self).current_position,
            final(self).input_file == old(self).input_file,
            final(self).output_file == old(self).output_file,
            final(self).threads == old(self).threads,
    {
        self.save_path = Some(path);
    }

    /// Whether `path` is recorded as merged.
    pub fn is_processed(&self, path: &String) -> (r: bool)
        ensures
            r == views(self.processed_files@).contains(path@),
    {
        let mut i: usize = 0;
        while i < self.processed_files.len()
            invariant
                i <= self.processed_files@.len(),
                forall|k: int| 0 <= k < i ==> self.processed_files@[k]@ != path@,
            decreases self.processed_files.len() - i,
        {
            if self.processed_files[i] == *path {
                assert(views(self.processed_files@)[i as int] == path@);
                return true;
            }
            i += 1;
        }
        false
    }

    /// The inputs still to merge: those not recorded as merged, in order.
    pub fn remaining_files(&self, inputs: &Vec<String>) -> (r: Vec<String>)
        ensures
            views(r@) == remaining(views(inputs@), views(self.processed_files@)),
    {
        let ghost done = views(self.processed_files@);
        let ghost pred = |p: Seq<char>| !done.contains(p);
        let mut seen = LineSet::new();
        let mut k: usize = 0;
        while k < self.processed_files.len()
            invariant
                k <= self.processed_files@.len(),
                done == views(self.processed_files@),
                seen.wf(),
                seen@ == done.take(k as int).to_set(),
            decreases self.processed_files.len() - k,
        {
            proof {
                assert(done.take(k as int + 1) =~= done.take(k as int).push(done[k as int]));
                done.take(k as int).lemma_push_to_set_commute(done[k as int]);
            }
            seen.insert(self.processed_files[k].clone());
            k += 1;
        }
        assert(done.take(k as int) =~= done);
        let mut out: Vec<String> = Vec::new();
        let mut i: usize = 0;
        while i < inputs.len()
            invariant
                i <= inputs@.len(),
                done == views(self.processed_files@),
                pred == (|p: Seq<char>| !done.contains(p)),
                seen.wf(),
                seen@ == done.to_set(),
                views(out@) == views(inputs@).take(i as int).filter(pred),
            decreases inputs.len() - i,
        {
            let ghost before = out@;
            proof {
                assert(views(inputs@).take(i as int + 1) =~= views(inputs@).take(i as int).push(
                    inputs@[i as int]@,
                ));
                views(inputs@).take(i as int).lemma_filter_push(inputs@[i as int]@, pred);
            }
            if !seen.contains(&inputs[i]) {
                let p = inputs[i].clone();
                out.push(p);
                assert(views(out@) =~= views(before).push(p@));
            }
            i += 1;
        }
        assert(views(inputs@).take(i as int) =~= views(inputs@));
        out
    }
}

/// Counters of a run, for progress display.
pub struct ProcessingMetrics {
    start_time: Instant,
    files_processed: usize,
    lines_processed: usize,
    errors_count: usize,
}

/// A snapshot of the metrics.
pub struct ProcessingSummary {
    pub elapsed_time: Duration,
    pub files_processed: usize,
    pub lines_processed: usize,
    pub errors_count: usize,
    pub memory_usage: usize,
}

impl ProcessingMetrics {
    pub closed spec fn spec_files(&self) -> nat {
        self.files_processed as nat
    }

    pub closed spec fn spec_lines(&self) -> nat {
        self.lines_processed as nat
    }

    pub closed spec fn spec_errors(&self) -> nat {
        self.errors_count as nat
    }

    /// Zero counts; the clock starts now.
    pub fn new() -> (r: Self)
        ensures
            r.spec_files() == 0,
            r.spec_lines() == 0,
            r.spec_errors() == 0,
    {
        ProcessingMetrics { start_time: now(), files_processed: 0, lines_processed: 0, errors_count: 0 }
    }

    /// Counts one more file, saturating.
    pub fn increment_files(&mut self)
        ensures
            final(self).spec_files() == sat_add(old(self).spec_files(), 1),
            final(self).spec_lines() == old(self).spec_lines(),
            final(self).spec_errors() == old(self).spec_errors(),
    {
        self.files_processed = self.files_processed.saturating_add(1);
    }

    /// Adds `count` lines, saturating.
    pub fn add_lines(&mut self, count: usize)
        ensures
            final(self).spec_files() == old(self).spec_files(),
            final(self).spec_lines() == sat_add(old(self).spec_lines(), count as nat),
            final(self).spec_errors() == old(self).spec_errors(),
    {
        self.lines_processed = self.lines_processed.saturating_add(count);
    }

    /// The counts, the time since creation, and no memory figure.
    pub fn get_summary(&self) -> (r: ProcessingSummary)
        ensures
            r.files_processed == self.spec_files(),
            r.lines_processed == self.spec_lines(),
            r.errors_count == self.spec_errors(),
            r.memory_usage == 0,
    {
        ProcessingSummary {
            elapsed_time: elapsed_since(&self.start_time),
            files_processed: self.files_processed,
            lines_processed: self.lines_processed,
            errors_count: self.errors_count,
            memory_usage: 0,
        }
    }
}

/// Where a run stands with respect to stopping.
#[derive(Clone, Copy, Debug, PartialEq, Eq, Structural)]
pub enum ShutdownState {
    Running,
    ShutdownRequested,
    Stopped,
}

/// The cooperative stop of a run: requested once by an interrupt, honoured
/// at the start of each file, never withdrawn.
pub struct ShutdownCoordinator {
    state: ShutdownState,
}

impl ShutdownCoordinator {
    pub closed spec fn spec_state(&self) -> ShutdownState {
        self.state
    }

    /// A running run.
    pub fn new() -> (r: Self)
        ensures
            r.spec_state() == ShutdownState::Running,
    {
        ShutdownCoordinator { state: ShutdownState::Running }
    }

    /// The current state.
    pub fn state(&self) -> (r: ShutdownState)
        ensures
            r == self.spec_state(),
    {
        self.state
    }

    /// Asks the run to stop. Returns true when this request is the one that
    /// moved a running run on; the caller then saves the checkpoint.
    pub fn request_shutdown(&mut self) -> (r: bool)
        ensures
            r == (old(self).spec_state() == ShutdownState::Running),
            final(self).spec_state() == if r {
                ShutdownState::ShutdownRequested
            } else {
                old(self).spec_state()
            },
    {
        if self.state == ShutdownState::Running {
            self.state = ShutdownState::ShutdownRequested;
            true
        } else {
            false
        }
    }

    /// Whether a stop was asked for.
    pub fn should_shutdown(&self) -> (r: bool)
        ensures
            r == (self.spec_state() != ShutdownState::Running),
    {
        self.state != ShutdownState::Running
    }

    /// Marks the run as unwound after a stop was asked for.
    pub fn mark_stopped(&mut self)
        ensures
            final(self).spec_state() == if old(self).spec_state() == ShutdownState::Running {
                ShutdownState::Running
            } else {
                ShutdownState::Stopped
            },
    {
        if self.state != ShutdownState::Running {
            self.state = ShutdownState::Stopped;
        }
    }
}

} // verus!
