//! The order in which files are merged, and the capacity of a batch.

use crate::dedup::views;
use crate::errors::MergerError;
use vstd::prelude::*;

verus! {

broadcast use {
    vstd::multiset::group_multiset_axioms,
    vstd::multiset::lemma_multiset_empty_len,
    vstd::seq_lib::group_to_multiset_ensures,
};

/// Files below this size are small.
pub const SMALL_FILE_LIMIT: u64 = 1024 * 1024 * 100;

/// Files below this size (and not small) are medium; the rest are large.
pub const MEDIUM_FILE_LIMIT: u64 = 1024 * 1024 * 1000;

/// A batch never holds more lines than this.
pub const MAX_BATCH_LINES: usize = 1024 * 1024 * 10;

/// The memory a held line is reckoned to cost beyond its text: the size of
/// a `String` handle on 64-bit targets.
pub const LINE_OVERHEAD_BYTES: u64 = 24;

/// A file to merge and its size in bytes.
#[derive(Clone, Debug)]
pub struct FileDescriptor {
    pub path: String,
    pub byte_size: u64,
}

/// 2 for a large file, 1 for a medium one, 0 for a small one.
pub open spec fn size_class(size: u64) -> int {
    if size < SMALL_FILE_LIMIT {
        0
    } else if size < MEDIUM_FILE_LIMIT {
        1
    } else {
        2
    }
}

/// Larger files come first.
pub open spec fn largest_first(s: Seq<FileDescriptor>) -> bool {
    forall|i: int, j: int| 0 <= i < j < s.len() ==> s[i].byte_size >= s[j].byte_size
}

/// The paths of `s`.
pub open spec fn paths_of(s: Seq<FileDescriptor>) -> Seq<Seq<char>> {
    s.map_values(|f: FileDescriptor| f.path@)
}

/// Larger files first also puts the large ones before the medium ones
/// before the small ones.
pub proof fn lemma_largest_first_groups_by_class(s: Seq<FileDescriptor>)
    requires
        largest_first(s),
    ensures
        forall|i: int, j: int|
            0 <= i < j < s.len() ==> size_class(s[i].byte_size) >= size_class(s[j].byte_size),
{
}

/// Where `f` goes in `r`: after the leading files at least as large as it.
pub open spec fn insert_pos(r: Seq<FileDescriptor>, f: FileDescriptor) -> nat
    decreases r.len(),
{
    if r.len() == 0 || r[0].byte_size < f.byte_size {
        0
    } else {
        1 + insert_pos(r.drop_first(), f)
    }
}

/// `s` ordered larger files first, stably: taking the files in their order,
/// each goes after every file already placed that is at least as large, so
/// files of equal size keep their order.
pub open spec fn stable_by_size(s: Seq<FileDescriptor>) -> Seq<FileDescriptor>
    decreases s.len(),
{
    if s.len() == 0 {
        Seq::empty()
    } else {
        let r = stable_by_size(s.drop_last());
        r.insert(insert_pos(r, s.last()) as int, s.last())
    }
}

/// `files` rearranged, larger files first; files of equal size keep their
/// order.
pub fn order_by_size(files: Vec<FileDescriptor>) -> (r: Vec<FileDescriptor>)
    ensures
        r@ == stable_by_size(files@),
        r@.to_multiset() == files@.to_multiset(),
        largest_first(r@),
{
    let ghost all = files@;
    let ghost mut i: int = 0;
    let mut rest = files;
    let mut out: Vec<FileDescriptor> = Vec::new();
    assert(out@.to_multiset().len() == 0);
    assert(out@.to_multiset().add(rest@.to_multiset()) =~= all.to_multiset());
    while rest.len() > 0
        invariant
            out@.to_multiset().add(rest@.to_multiset()) == all.to_multiset(),
            largest_first(out@),
            0 <= i <= all.len(),
            rest@ == all.skip(i),
            out@ == stable_by_size(all.take(i)),
        decreases rest.len(),
    {
        let ghost before_rest = rest@;
        let f = rest.remove(0);
        assert(f == all[i]);
        assert(all.take(i + 1).drop_last() =~= all.take(i));
        assert(all.take(i + 1).last() == all[i]);
        assert(rest@ =~= all.skip(i + 1));
        let mut pos: usize = 0;
        assert(out@.skip(0) =~= out@);
        while pos < out.len() && out[pos].byte_size >= f.byte_size
            invariant
                pos <= out@.len(),
                forall|k: int| 0 <= k < pos ==> out@[k].byte_size >= f.byte_size,
                insert_pos(out@, f) == pos + insert_pos(out@.skip(pos as int), f),
            decreases out.len() - pos,
        {
            assert(out@.skip(pos as int)[0] == out@[pos as int]);
            assert(out@.skip(pos as int).drop_first() =~= out@.skip(pos as int + 1));
            pos += 1;
        }
        assert(pos < out@.len() ==> out@.skip(pos as int)[0] == out@[pos as int]);
        assert(insert_pos(out@, f) == pos);
        let ghost before_out = out@;
        out.insert(pos, f);
        proof {
            assert(before_rest.remove(0).to_multiset() == before_rest.to_multiset().remove(f));
            assert(before_out.insert(pos as int, f).to_multiset()
                == before_out.to_multiset().insert(f));
            assert(out@.to_multiset().add(rest@.to_multiset()) =~= all.to_multiset());
            assert forall|i: int, j: int| 0 <= i < j < out@.len() implies out@[i].byte_size
                >= out@[j].byte_size by {
                if j < pos {
                    assert(out@[i] == before_out[i] && out@[j] == before_out[j]);
                } else if j == pos {
                    assert(out@[i] == before_out[i]);
                } else if i < pos {
                    assert(out@[i] == before_out[i] && out@[j] == before_out[j - 1]);
                } else if i == pos {
                    assert(out@[j] == before_out[j - 1]);
                } else {
                    assert(out@[i] == before_out[i - 1] && out@[j] == before_out[j - 1]);
                }
            }
            i = i + 1;
        }
    }
    assert(all.skip(i).len() == 0);
    assert(all.take(i) =~= all);
    assert(rest@.to_multiset().len() == 0);
    assert(out@.to_multiset() =~= out@.to_multiset().add(rest@.to_multiset()));
    out
}

/// The order in which to merge files: large files (1000 MiB and more)
/// first, then medium ones (100 MiB and more), then small ones, each from
/// the largest down, files of equal size in their input order.
pub fn optimize_processing_order(files: Vec<FileDescriptor>) -> (r: Vec<String>)
    ensures
        views(r@) == paths_of(stable_by_size(files@)),
        stable_by_size(files@).to_multiset() == files@.to_multiset(),
        largest_first(stable_by_size(files@)),
{
    let ordered = order_by_size(files);
    let mut out: Vec<String> = Vec::new();
    let mut i: usize = 0;
    while i < ordered.len()
        invariant
            i <= ordered@.len(),
            views(out@) == paths_of(ordered@.take(i as int)),
        decreases ordered.len() - i,
    {
        let ghost before = out@;
        let p = ordered[i].path.clone();
        assert(p@ == ordered@[i as int].path@);
        out.push(p);
        assert(views(out@) =~= views(before).push(p@));
        assert(ordered@.take(i as int + 1) =~= ordered@.take(i as int).push(ordered@[i as int]));
        assert(views(out@) =~= paths_of(ordered@.take(i as int + 1)));
        i += 1;
    }
    assert(ordered@.take(i as int) =~= ordered@);
    out
}

/// The lines a batch may hold when `available_kib` KiB of memory are
/// available: half of that memory divided by the cost of a line, at most
/// `MAX_BATCH_LINES`, and at least one.
pub open spec fn batch_capacity_for(available_kib: u64) -> nat {
    let lines = (available_kib as nat * 512 / LINE_OVERHEAD_BYTES as nat) as nat;
    if lines > MAX_BATCH_LINES {
        MAX_BATCH_LINES as nat
    } else if lines == 0 {
        1
    } else {
        lines
    }
}

/// The batch capacity for the memory available now, which must be known:
/// without it a run cannot bound its memory and fails with a system error.
pub fn batch_capacity(available_kib: Option<u64>) -> (r: Result<usize, MergerError>)
    ensures
        r is Ok <==> available_kib is Some,
        r matches Ok(c) ==> c == batch_capacity_for(available_kib->0) && 1 <= c
            <= MAX_BATCH_LINES,
        r matches Err(e) ==> e is SysInfo,
{
    match available_kib {
        None => Err(MergerError::SysInfo("available memory is unknown".to_owned())),
        Some(kib) => {
            let lines = (kib as u128) * 512 / (LINE_OVERHEAD_BYTES as u128);
            let c = if lines > MAX_BATCH_LINES as u128 {
                MAX_BATCH_LINES
            } else if lines == 0 {
                1
            } else {
                lines as usize
            };
            Ok(c)
        },
    }
}

} // verus!
