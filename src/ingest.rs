//! Turning the decoded text of one file into batches of distinct lines, each
//! no larger than the batch capacity.

use crate::dedup::{views, LineSet};
use crate::text::{
    char_utf8_width, chars_of, keep_line, lines_read, newline_count, scan_lines, string_from_chars, text_lines,
    trim_range,
};
use vstd::prelude::*;

verus! {

broadcast use vstd::seq_lib::group_seq_properties;

/// Once this many bytes of text have been read, the open batch is handed on
/// even if it is not full.
pub const CHUNK_BYTES: usize = 10 * 1024 * 1024;

/// The union of a sequence of sets.
pub open spec fn union_all(s: Seq<Set<Seq<char>>>) -> Set<Seq<char>>
    decreases s.len(),
{
    if s.len() == 0 {
        Set::empty()
    } else {
        union_all(s.drop_last()).union(s.last())
    }
}

/// The line sets that a sequence of batches holds.
pub open spec fn batch_views(b: Seq<LineSet>) -> Seq<Set<Seq<char>>> {
    b.map_values(|x: LineSet| x@)
}

/// Each batch is well formed, not empty, and holds at most `capacity` lines.
pub open spec fn batches_bounded(b: Seq<LineSet>, capacity: nat) -> bool {
    forall|i: int|
        0 <= i < b.len() ==> #[trigger] b[i].wf() && 0 < b[i]@.len() && b[i]@.len() <= capacity
}

/// The lines of one file, handed on in batches.
pub struct FileBatches {
    pub batches: Vec<LineSet>,
    /// The number of lines read, blank ones and repetitions included.
    pub line_count: usize,
}

/// Appends `set` to `batches`, keeping the union in step.
fn hand_on(batches: &mut Vec<LineSet>, set: LineSet, capacity: usize)
    requires
        batches_bounded(old(batches)@, capacity as nat),
        set.wf(),
        0 < set@.len() <= capacity,
    ensures
        batches_bounded(final(batches)@, capacity as nat),
        union_all(batch_views(final(batches)@)) == union_all(batch_views(old(batches)@)).union(
            set@,
        ),
{
    let ghost before = batches@;
    batches.push(set);
    assert(batch_views(batches@).drop_last() =~= batch_views(before));
}

/// Splits `text` into lines, trims each, leaves out the empty ones, and
/// gathers the rest into batches of distinct lines: a batch is handed on
/// when it holds `capacity` lines or when `CHUNK_BYTES` bytes have been read
/// since the last one. No batch is empty or larger than `capacity`, together
/// they hold exactly the lines of the text, and `line_count` counts every
/// line read, blank ones and repetitions included.
pub fn split_into_batches(text: &str, capacity: usize) -> (r: FileBatches)
    requires
        capacity >= 1,
    ensures
        batches_bounded(r.batches@, capacity as nat),
        union_all(batch_views(r.batches@)) == text_lines(text@).to_set(),
        r.line_count == lines_read(text@),
{
    let cs = chars_of(text);
    let n = cs.len();
    let mut batches: Vec<LineSet> = Vec::new();
    let mut current = LineSet::new();
    let mut open_start: usize = 0;
    let mut count: usize = 0;
    let mut bytes_since: usize = 0;
    let mut i: usize = 0;
    let ghost mut done: Seq<Seq<char>> = Seq::empty();
    while i < n
        invariant
            n == cs@.len(),
            cs@ == text@,
            open_start <= i <= n,
            count == newline_count(cs@.take(i as int)),
            count + (if open_start < i { 1int } else { 0int }) <= i,
            i > 0 && cs@[i - 1] != '\n' ==> open_start < i,
            i == 0 || cs@[i - 1] == '\n' ==> open_start == i,
            scan_lines(cs@.take(i as int)) == (done, cs@.subrange(open_start as int, i as int)),
            batches_bounded(batches@, capacity as nat),
            current.wf(),
            current@.len() < capacity,
            union_all(batch_views(batches@)).union(current@) == done.to_set(),
        decreases n - i,
    {
        let c = cs[i];
        assert(cs@.take(i as int + 1).drop_last() =~= cs@.take(i as int));
        assert(cs@.take(i as int + 1).last() == c);
        bytes_since = bytes_since.saturating_add(char_utf8_width(c));
        if c == '\n' {
            let line = trim_range(&cs, open_start, i);
            let ghost old_done = done;
            if line.len() > 0 {
                let s = string_from_chars(line.as_slice());
                current.insert(s);
                proof {
                    done = done.push(line@);
                    old_done.lemma_push_to_set_commute(line@);
                }
            }
            count += 1;
            assert(done == keep_line(old_done, cs@.subrange(open_start as int, i as int)));
            assert(union_all(batch_views(batches@)).union(current@) =~= done.to_set());
            if bytes_since >= CHUNK_BYTES || current.len() >= capacity {
                if !current.is_empty() {
                    let mut full = LineSet::new();
                    std::mem::swap(&mut current, &mut full);
                    hand_on(&mut batches, full, capacity);
                } else {
                    assert(current@ =~= Set::<Seq<char>>::empty());
                }
                bytes_since = 0;
                assert(union_all(batch_views(batches@)).union(current@) =~= done.to_set());
            }
            open_start = i + 1;
            assert(cs@.subrange(open_start as int, i as int + 1) =~= Seq::<char>::empty());
        } else {
            assert(cs@.subrange(open_start as int, i as int + 1) =~= cs@.subrange(
                open_start as int,
                i as int,
            ).push(c));
        }
        i += 1;
    }
    assert(cs@.take(n as int) =~= cs@);
    if open_start < n {
        count += 1;
    }
    assert(n > 0 ==> cs@.last() == cs@[n - 1]);
    let line = trim_range(&cs, open_start, n);
    let ghost old_done = done;
    if line.len() > 0 {
        let s = string_from_chars(line.as_slice());
        current.insert(s);
        proof {
            done = done.push(line@);
            old_done.lemma_push_to_set_commute(line@);
        }
    }
    assert(done == text_lines(text@));
    if !current.is_empty() {
        hand_on(&mut batches, current, capacity);
    } else {
        assert(current@ =~= Set::<Seq<char>>::empty());
        assert(union_all(batch_views(batches@)).union(current@) =~= union_all(
            batch_views(batches@),
        ));
    }
    FileBatches { batches, line_count: count }
}

/// The lines of `text`, split at `'\n'`, trimmed, without the empty ones,
/// in order (repetitions kept).
pub fn split_lines(text: &str) -> (r: Vec<String>)
    ensures
        views(r@) == text_lines(text@),
{
    let cs = chars_of(text);
    let n = cs.len();
    let mut out: Vec<String> = Vec::new();
    let mut open_start: usize = 0;
    let mut i: usize = 0;
    while i < n
        invariant
            n == cs@.len(),
            cs@ == text@,
            open_start <= i <= n,
            scan_lines(cs@.take(i as int)) == (views(out@), cs@.subrange(
                open_start as int,
                i as int,
            )),
        decreases n - i,
    {
        let c = cs[i];
        assert(cs@.take(i as int + 1).drop_last() =~= cs@.take(i as int));
        assert(cs@.take(i as int + 1).last() == c);
        if c == '\n' {
            let line = trim_range(&cs, open_start, i);
            let ghost before = out@;
            if line.len() > 0 {
                let s = string_from_chars(line.as_slice());
                out.push(s);
                assert(views(out@) =~= views(before).push(line@));
            }
            open_start = i + 1;
            assert(cs@.subrange(open_start as int, i as int + 1) =~= Seq::<char>::empty());
        } else {
            assert(cs@.subrange(open_start as int, i as int + 1) =~= cs@.subrange(
                open_start as int,
                i as int,
            ).push(c));
        }
        i += 1;
    }
    assert(cs@.take(n as int) =~= cs@);
    let line = trim_range(&cs, open_start, n);
    let ghost before = out@;
    if line.len() > 0 {
        let s = string_from_chars(line.as_slice());
        out.push(s);
        assert(views(out@) =~= views(before).push(line@));
    }
    out
}

} // verus!
