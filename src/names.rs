//! A count per name, such as how many files were read in each encoding.

use crate::dedup::views;
use vstd::prelude::*;

verus! {

broadcast use vstd::seq_lib::group_seq_properties;

/// `a + b`, or `usize::MAX` when that does not fit.
pub open spec fn sat_add(a: nat, b: nat) -> nat {
    if a + b > usize::MAX {
        usize::MAX as nat
    } else {
        a + b
    }
}

/// A count for each of a set of distinct names, kept in the order in which
/// the names first came.
///
/// It stands where a `HashMap<String, usize>` would: vstd specifies std's
/// `HashMap` only for keys known to obey its key model, which `String` is not
/// among, so that map would prove nothing of its contents. The names here
/// are encoding names, a handful at most, so a scan of two `Vec`s with
/// distinct names as invariant serves.
pub struct NameCounts {
    names: Vec<String>,
    counts: Vec<usize>,
    model: Ghost<Map<Seq<char>, nat>>,
}

/// The count of `k` in `m`, zero when absent.
pub open spec fn count_in(m: Map<Seq<char>, nat>, k: Seq<char>) -> nat {
    if m.contains_key(k) {
        m[k]
    } else {
        0
    }
}

impl View for NameCounts {
    type V = Map<Seq<char>, nat>;

    closed spec fn view(&self) -> Map<Seq<char>, nat> {
        self.model@
    }
}

impl NameCounts {
    pub closed spec fn wf(&self) -> bool {
        &&& self.names@.len() == self.counts@.len()
        &&& views(self.names@).no_duplicates()
        &&& self.model@.dom() == views(self.names@).to_set()
        &&& forall|i: int|
            0 <= i < self.names@.len() ==> self.model@[#[trigger] self.names@[i]@]
                == self.counts@[i] as nat
    }

    /// The names in the order in which they first came.
    pub closed spec fn order(&self) -> Seq<Seq<char>> {
        views(self.names@)
    }

    /// No names.
    pub fn new() -> (r: Self)
        ensures
            r.wf(),
            r@ == Map::<Seq<char>, nat>::empty(),
    {
        let r = NameCounts { names: Vec::new(), counts: Vec::new(), model: Ghost(Map::empty()) };
        assert(views(r.names@).to_set() =~= Set::<Seq<char>>::empty());
        r
    }

    /// Where `name` stands, if it is held.
    fn find(&self, name: &String) -> (r: Option<usize>)
        requires
            self.wf(),
        ensures
            match r {
                Some(i) => i < self.names@.len() && self.names@[i as int]@ == name@
                    && self@.contains_key(name@) && self@[name@] == self.counts@[i as int] as nat,
                None => !self@.contains_key(name@),
            },
    {
        let mut i: usize = 0;
        while i < self.names.len()
            invariant
                self.wf(),
                i <= self.names@.len(),
                forall|k: int| 0 <= k < i ==> self.names@[k]@ != name@,
            decreases self.names.len() - i,
        {
            if self.names[i] == *name {
                assert(views(self.names@)[i as int] == name@);
                assert(views(self.names@).to_set().contains(name@));
                return Some(i);
            }
            i += 1;
        }
        proof {
            if self@.contains_key(name@) {
                assert(views(self.names@).contains(name@));
                let k = choose|k: int|
                    0 <= k < views(self.names@).len() && views(self.names@)[k] == name@;
                assert(self.names@[k]@ == name@);
            }
        }
        None
    }

    /// The count of `name`, zero when absent.
    pub fn get(&self, name: &String) -> (r: usize)
        requires
            self.wf(),
        ensures
            r == count_in(self@, name@),
    {
        match self.find(name) {
            Some(i) => self.counts[i],
            None => 0,
        }
    }

    /// Adds `n` to the count of `name`, saturating at `usize::MAX`.
    pub fn add(&mut self, name: &String, n: usize)
        requires
            old(self).wf(),
        ensures
            final(self).wf(),
            final(self)@ == old(self)@.insert(name@, sat_add(count_in(old(self)@, name@), n as nat)),
    {
        match self.find(name) {
            Some(i) => {
                let c = self.counts[i].saturating_add(n);
                self.counts.set(i, c);
                proof {
                    self.model@ = self.model@.insert(name@, c as nat);
                    assert(self.model@.dom() =~= views(self.names@).to_set());
                    assert forall|j: int| 0 <= j < self.names@.len() implies self.model@[
                        #[trigger] self.names@[j]@] == self.counts@[j] as nat by {
                        if j != i {
                            assert(views(self.names@)[j] != views(self.names@)[i as int]);
                        }
                    }
                }
            },
            None => {
                let ghost before = views(self.names@);
                self.names.push(name.clone());
                self.counts.push(if n > usize::MAX { usize::MAX } else { n });
                proof {
                    self.model@ = self.model@.insert(name@, n as nat);
                    assert(views(self.names@) =~= before.push(name@));
                    before.lemma_push_to_set_commute(name@);
                    assert(self.model@.dom() =~= views(self.names@).to_set());
                    assert(!before.contains(name@));
                    assert forall|j: int| 0 <= j < self.names@.len() implies self.model@[
                        #[trigger] self.names@[j]@] == self.counts@[j] as nat by {
                        if j < before.len() {
                            assert(before[j] == self.names@[j]@);
                        }
                    }
                }
            },
        }
    }

    /// The number of names.
    pub fn len(&self) -> (r: usize)
        requires
            self.wf(),
        ensures
            r == self@.dom().len(),
    {
        proof {
            views(self.names@).unique_seq_to_set();
        }
        self.names.len()
    }

    /// The names and counts, in the order in which the names first came.
    pub fn entries(&self) -> (r: Vec<(String, usize)>)
        requires
            self.wf(),
        ensures
            r@.len() == self@.dom().len(),
            forall|i: int|
                0 <= i < r@.len() ==> #[trigger] self@.contains_key(r@[i].0@) && self@[r@[i].0@]
                    == r@[i].1 as nat && r@[i].0@ == self.order()[i],
    {
        proof {
            views(self.names@).unique_seq_to_set();
        }
        let mut out: Vec<(String, usize)> = Vec::new();
        let mut i: usize = 0;
        while i < self.names.len()
            invariant
                self.wf(),
                i <= self.names@.len(),
                out@.len() == i,
                forall|k: int|
                    0 <= k < i ==> #[trigger] out@[k].0@ == self.names@[k]@ && out@[k].1
                        == self.counts@[k],
            decreases self.names.len() - i,
        {
            out.push((self.names[i].clone(), self.counts[i]));
            i += 1;
        }
        proof {
            assert forall|k: int| 0 <= k < out@.len() implies #[trigger] self@.contains_key(
                out@[k].0@,
            ) by {
                assert(views(self.names@)[k] == self.names@[k]@);
            }
        }
        out
    }

    /// A name with the largest count and that count, or `None` when empty.
    pub fn most_common(&self) -> (r: Option<(String, usize)>)
        requires
            self.wf(),
        ensures
            r is None <==> self@.dom() == Set::<Seq<char>>::empty(),
            r matches Some(p) ==> self@.contains_key(p.0@) && self@[p.0@] == p.1 as nat
                && forall|k: Seq<char>| #[trigger] self@.contains_key(k) ==> self@[k] <= p.1,
    {
        proof {
            views(self.names@).unique_seq_to_set();
        }
        if self.names.len() == 0 {
            assert(views(self.names@) =~= Seq::<Seq<char>>::empty());
            assert(self@.dom() =~= Set::<Seq<char>>::empty());
            return None;
        }
        assert(views(self.names@)[0] == self.names@[0]@);
        assert(self@.dom().contains(self.names@[0]@));
        let mut best: usize = 0;
        let mut i: usize = 1;
        while i < self.names.len()
            invariant
                self.wf(),
                1 <= i <= self.names@.len(),
                best < i,
                forall|k: int| 0 <= k < i ==> self.counts@[k] <= self.counts@[best as int],
            decreases self.names.len() - i,
        {
            if self.counts[i] > self.counts[best] {
                best = i;
            }
            i += 1;
        }
        proof {
            assert forall|k: Seq<char>| #[trigger] self@.contains_key(k) implies self@[k]
                <= self.counts@[best as int] by {
                assert(views(self.names@).contains(k));
                let j = choose|j: int|
                    0 <= j < views(self.names@).len() && views(self.names@)[j] == k;
                assert(self.names@[j]@ == k);
            }
            assert(views(self.names@)[best as int] == self.names@[best as int]@);
        }
        Some((self.names[best].clone(), self.counts[best]))
    }
    /// Adds each count of `other` to the count of the same name here.
    pub fn absorb_counts(&mut self, other: &NameCounts)
        requires
            old(self).wf(),
            other.wf(),
        ensures
            final(self).wf(),
            final(self)@.dom() == old(self)@.dom().union(other@.dom()),
            forall|k: Seq<char>|
                #[trigger] final(self)@.contains_key(k) ==> final(self)@[k] == sat_add(
                    count_in(old(self)@, k),
                    count_in(other@, k),
                ),
    {
        let ghost start = self@;
        let ghost names = views(other.names@);
        let mut i: usize = 0;
        while i < other.names.len()
            invariant
                self.wf(),
                other.wf(),
                names == views(other.names@),
                i <= other.names@.len(),
                self@.dom() == start.dom().union(names.take(i as int).to_set()),
                forall|k: Seq<char>|
                    #[trigger] self@.contains_key(k) ==> self@[k] == sat_add(
                        count_in(start, k),
                        if names.take(i as int).contains(k) {
                            other@[k]
                        } else {
                            0
                        },
                    ),
            decreases other.names.len() - i,
        {
            let ghost before = self@;
            let ghost name = other.names@[i as int]@;
            proof {
                assert(names[i as int] == name);
                assert(names.take(i as int + 1) =~= names.take(i as int).push(name));
                names.take(i as int).lemma_push_to_set_commute(name);
                assert(!names.take(i as int).contains(name)) by {
                    if names.take(i as int).contains(name) {
                        let j = choose|j: int|
                            0 <= j < names.take(i as int).len() && names.take(i as int)[j]
                                == name;
                        assert(names[j] == names[i as int]);
                    }
                }
            }
            self.add(&other.names[i], other.counts[i]);
            proof {
                assert(self@.dom() =~= start.dom().union(names.take(i as int + 1).to_set()));
                assert forall|k: Seq<char>| #[trigger] self@.contains_key(k) implies self@[k]
                    == sat_add(
                    count_in(start, k),
                    if names.take(i as int + 1).contains(k) {
                        other@[k]
                    } else {
                        0
                    },
                ) by {
                    if k == name {
                        assert(names.take(i as int + 1).contains(k));
                        if before.contains_key(k) {
                            assert(!names.take(i as int).contains(k));
                        }
                    } else {
                        assert(names.take(i as int + 1).contains(k) == names.take(
                            i as int,
                        ).contains(k));
                    }
                }
            }
            i += 1;
        }
        proof {
            assert(names.take(i as int) =~= names);
            assert(names.to_set() == other@.dom());
            assert forall|k: Seq<char>| #[trigger] self@.contains_key(k) implies self@[k]
                == sat_add(count_in(start, k), count_in(other@, k)) by {
                assert(names.take(i as int).contains(k) == other@.contains_key(k));
            }
        }
    }
}

} // verus!
