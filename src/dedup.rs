//! A set of distinct lines, used both for a batch handed from a producer to
//! the aggregator and for the run-wide deduplicated set.

use vstd::hash_map::StringHashMap;
use vstd::prelude::*;

verus! {

broadcast use vstd::seq_lib::group_seq_properties;

/// The character sequences of a sequence of strings.
pub open spec fn views(v: Seq<String>) -> Seq<Seq<char>> {
    v.map_values(|l: String| l@)
}

/// A collection of lines in which no line occurs twice: the lines in the
/// order of insertion, and a hash index of them for lookups.
///
/// It stands where a `HashSet<String>` would: vstd specifies std's hash
/// collections only for keys known to obey its key model (integers and the
/// like), which `String` is not among, so a `HashSet<String>` would prove
/// nothing. vstd's `StringHashMap` is specified over string views and serves
/// as the index; the `Vec` keeps the lines so that they can be handed out.
pub struct LineSet {
    lines: Vec<String>,
    index: StringHashMap<()>,
}

impl View for LineSet {
    type V = Set<Seq<char>>;

    closed spec fn view(&self) -> Set<Seq<char>> {
        views(self.lines@).to_set()
    }
}

impl LineSet {
    /// No line is held twice.
    pub closed spec fn wf(&self) -> bool {
        &&& views(self.lines@).no_duplicates()
        &&& self.index@.dom() == views(self.lines@).to_set()
    }

    /// The lines in the order in which they were first inserted.
    pub closed spec fn order(&self) -> Seq<Seq<char>> {
        views(self.lines@)
    }

    /// An empty set.
    pub fn new() -> (r: LineSet)
        ensures
            r.wf(),
            r@ == Set::<Seq<char>>::empty(),
            r@.len() == 0,
    {
        let r = LineSet { lines: Vec::new(), index: StringHashMap::new() };
        assert(r@ =~= Set::<Seq<char>>::empty());
        r
    }

    /// The number of lines held.
    pub fn len(&self) -> (r: usize)
        requires
            self.wf(),
        ensures
            r == self@.len(),
    {
        proof {
            views(self.lines@).unique_seq_to_set();
        }
        self.lines.len()
    }

    /// Whether no line is held.
    pub fn is_empty(&self) -> (r: bool)
        requires
            self.wf(),
        ensures
            r == (self@.len() == 0),
            r == (self@ == Set::<Seq<char>>::empty()),
    {
        proof {
            if self@.len() == 0 {
                self@.lemma_len0_is_empty();
            }
        }
        self.len() == 0
    }

    /// Whether `line` is held.
    pub fn contains(&self, line: &String) -> (r: bool)
        requires
            self.wf(),
        ensures
            r == self@.contains(line@),
    {
        self.index.contains_key(line.as_str())
    }

    /// Adds `line`; returns whether it was new.
    pub fn insert(&mut self, line: String) -> (r: bool)
        requires
            old(self).wf(),
        ensures
            final(self).wf(),
            final(self)@ == old(self)@.insert(line@),
            r == !old(self)@.contains(line@),
            final(self)@.len() == old(self)@.len() + if r { 1int } else { 0int },
    {
        proof {
            views(self.lines@).unique_seq_to_set();
        }
        if self.contains(&line) {
            assert(self@.insert(line@) =~= self@);
            return false;
        }
        let ghost before = self.lines@;
        let key = line.clone();
        self.index.insert(key, ());
        self.lines.push(line);
        proof {
            assert(views(self.lines@) =~= views(before).push(line@));
            views(before).lemma_push_to_set_commute(line@);
            views(self.lines@).unique_seq_to_set();
            assert(self.index@.dom() =~= views(self.lines@).to_set());
        }
        true
    }

    /// Adds every line of `other`.
    pub fn absorb(&mut self, other: LineSet)
        requires
            old(self).wf(),
            other.wf(),
        ensures
            final(self).wf(),
            final(self)@ == old(self)@.union(other@),
    {
        let ghost target = self@.union(other@);
        let mut rest = other.lines;
        while rest.len() > 0
            invariant
                self.wf(),
                self@.union(views(rest@).to_set()) == target,
            decreases rest.len(),
        {
            let ghost before = rest@;
            let line = rest.pop().unwrap();
            proof {
                assert(before =~= rest@.push(line));
                assert(views(before) =~= views(rest@).push(line@));
                views(rest@).lemma_push_to_set_commute(line@);
            }
            self.insert(line);
            assert(self@.union(views(rest@).to_set()) =~= target);
        }
        assert(views(rest@).to_set() =~= Set::<Seq<char>>::empty());
        assert(self@ =~= target);
    }

    /// The lines, each once, in the order in which they were first inserted.
    pub fn into_lines(self) -> (r: Vec<String>)
        requires
            self.wf(),
        ensures
            views(r@) == self.order(),
            views(r@).no_duplicates(),
            views(r@).to_set() == self@,
    {
        self.lines
    }
}

} // verus!
