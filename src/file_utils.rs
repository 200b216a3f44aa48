//! Deciding what to add to an existing output file.

use crate::dedup::{views, LineSet};
use crate::ingest::split_lines;
use crate::progress::Progress;
use crate::text::text_lines;
use vstd::prelude::*;

verus! {

broadcast use vstd::seq_lib::group_seq_properties;

/// The lines of `ls` to append after lines `existing`: those not there yet,
/// each at its first occurrence.
pub open spec fn fresh_lines(existing: Set<Seq<char>>, ls: Seq<Seq<char>>) -> Seq<Seq<char>>
    decreases ls.len(),
{
    if ls.len() == 0 {
        Seq::empty()
    } else {
        let prev = fresh_lines(existing, ls.drop_last());
        if existing.contains(ls.last()) || ls.drop_last().contains(ls.last()) {
            prev
        } else {
            prev.push(ls.last())
        }
    }
}

pub struct FileUtils;

impl FileUtils {
    /// The lines of `lines` that an output whose text is `existing` does not
    /// hold yet, each once, in the order of first occurrence.
    pub fn append_unique_lines(existing: &str, lines: &Vec<String>) -> (r: Vec<String>)
        ensures
            views(r@) == fresh_lines(text_lines(existing@).to_set(), views(lines@)),
            views(r@).no_duplicates(),
            views(r@).to_set() == views(lines@).to_set().difference(
                text_lines(existing@).to_set(),
            ),
    {
        let ghost ex = text_lines(existing@).to_set();
        let ghost ls = views(lines@);
        let present = split_lines(existing);
        let mut seen = LineSet::new();
        let mut rest = present;
        while rest.len() > 0
            invariant
                seen.wf(),
                ex == text_lines(existing@).to_set(),
                seen@.union(views(rest@).to_set()) == ex,
            decreases rest.len(),
        {
            let ghost before = rest@;
            let l = rest.pop().unwrap();
            proof {
                assert(before =~= rest@.push(l));
                assert(views(before) =~= views(rest@).push(l@));
                views(rest@).lemma_push_to_set_commute(l@);
            }
            seen.insert(l);
            assert(seen@.union(views(rest@).to_set()) =~= ex);
        }
        assert(views(rest@).to_set() =~= Set::<Seq<char>>::empty());
        assert(seen@ =~= ex);
        let mut out: Vec<String> = Vec::new();
        let mut i: usize = 0;
        assert(views(out@).to_set() =~= ls.take(0).to_set().difference(ex));
        while i < lines.len()
            invariant
                i <= lines@.len(),
                ls == views(lines@),
                seen.wf(),
                seen@ == ex.union(ls.take(i as int).to_set()),
                views(out@) == fresh_lines(ex, ls.take(i as int)),
                views(out@).no_duplicates(),
                views(out@).to_set() == ls.take(i as int).to_set().difference(ex),
            decreases lines.len() - i,
        {
            let ghost before = views(out@);
            let ghost x = ls[i as int];
            proof {
                assert(ls.take(i as int + 1) =~= ls.take(i as int).push(x));
                assert(ls.take(i as int + 1).drop_last() =~= ls.take(i as int));
                ls.take(i as int).lemma_push_to_set_commute(x);
            }
            let line = lines[i].clone();
            if seen.insert(line) {
                let kept = lines[i].clone();
                out.push(kept);
                proof {
                    assert(views(out@) =~= before.push(x));
                    before.lemma_push_to_set_commute(x);
                    assert(!before.to_set().contains(x));
                    assert(views(out@).to_set() =~= ls.take(i as int + 1).to_set().difference(ex));
                }
            } else {
                assert(views(out@).to_set() =~= ls.take(i as int + 1).to_set().difference(ex));
            }
            assert(seen@ =~= ex.union(ls.take(i as int + 1).to_set()));
            i += 1;
        }
        assert(ls.take(i as int) =~= ls);
        out
    }
}

/// Records files as merged in a ledger.
pub struct FileProcessor;

impl FileProcessor {
    /// Records `file` as merged when it could be read; a file that could not
    /// be opened is passed over and left out of the ledger.
    pub fn process_file(progress: &mut Progress, file: String, readable: bool)
        ensures
            readable ==> final(progress).processed_files@ == old(progress).processed_files@.push(
                file,
            ),
            !readable ==> *final(progress) == *old(progress),
    {
        if readable {
            progress.add_processed_file(file);
        }
    }
}

} // verus!
