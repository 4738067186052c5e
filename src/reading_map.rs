//! A map from readings to candidate lists, held as a vector sorted by reading:
//! binary search finds a reading, and a scan lists readings in order.

use vstd::prelude::*;

use crate::dictionary::add_candidates;
use crate::text::{chars_lt, chars_of, chars_start_with, lemma_seq_lt_order, seq_lt};

verus! {

/// One reading and its candidates.
struct MapEntry {
    reading: String,
    candidates: Vec<String>,
}

/// `es` lists the entries of `m` in strictly increasing reading order, each once.
pub open spec fn sorted_listing_of(es: Seq<(Seq<char>, Seq<Seq<char>>)>, m: Map<Seq<char>, Seq<Seq<char>>>) -> bool {
    &&& forall|i: int, j: int| 0 <= i < j < es.len() ==> seq_lt(#[trigger] es[i].0, #[trigger] es[j].0)
    &&& forall|i: int| 0 <= i < es.len() ==> m.contains_key(#[trigger] es[i].0) && m[es[i].0] == es[i].1
    &&& forall|k: Seq<char>| #[trigger] m.contains_key(k) ==> exists|i: int| 0 <= i < es.len() && es[i].0 == k
}

/// Readings mapped to candidate lists, kept in strictly increasing reading order.
pub struct ReadingMap {
    entries: Vec<MapEntry>,
}

impl View for ReadingMap {
    type V = Map<Seq<char>, Seq<Seq<char>>>;

    closed spec fn view(&self) -> Map<Seq<char>, Seq<Seq<char>>> {
        Map::new(
            |k: Seq<char>| exists|i: int| 0 <= i < self.entries@.len() && self.key(i) == k,
            |k: Seq<char>|
                self.entries@[choose|i: int| 0 <= i < self.entries@.len() && self.key(i) == k].candidates.deep_view(),
        )
    }
}

impl ReadingMap {
    spec fn key(&self, i: int) -> Seq<char> {
        self.entries@[i].reading@
    }

    /// Entries are in strictly increasing reading order.
    pub closed spec fn wf(&self) -> bool {
        forall|i: int, j: int| 0 <= i < j < self.entries@.len() ==> seq_lt(#[trigger] self.key(i), #[trigger] self.key(j))
    }

    proof fn lemma_entry_at(&self, i: int)
        requires
            self.wf(),
            0 <= i < self.entries@.len(),
        ensures
            self@.contains_key(self.key(i)),
            self@[self.key(i)] == self.entries@[i].candidates.deep_view(),
    {
        let k = self.key(i);
        assert(exists|j: int| 0 <= j < self.entries@.len() && self.key(j) == k);
        let j = choose|j: int| 0 <= j < self.entries@.len() && self.key(j) == k;
        lemma_seq_lt_order(k, k, k);
        if j < i {
            assert(seq_lt(self.key(j), self.key(i)));
        } else if i < j {
            assert(seq_lt(self.key(i), self.key(j)));
        }
    }

    /// Binary search: `Ok` with the entry for `k`, or `Err` with where it would go.
    fn find(&self, k: &Vec<char>) -> (r: Result<usize, usize>)
        requires
            self.wf(),
        ensures
            match r {
                Ok(i) => i < self.entries@.len() && self.key(i as int) == k@,
                Err(p) => p <= self.entries@.len() && (forall|i: int| 0 <= i < p ==> seq_lt(#[trigger] self.key(i), k@))
                    && (forall|i: int| p <= i < self.entries@.len() ==> seq_lt(k@, #[trigger] self.key(i))),
            },
    {
        let mut lo: usize = 0;
        let mut hi: usize = self.entries.len();
        while lo < hi
            invariant
                self.wf(),
                lo <= hi <= self.entries@.len(),
                forall|i: int| 0 <= i < lo ==> seq_lt(#[trigger] self.key(i), k@),
                forall|i: int| hi <= i < self.entries@.len() ==> seq_lt(k@, #[trigger] self.key(i)),
            decreases hi - lo,
        {
            let mid = lo + (hi - lo) / 2;
            let m = chars_of(self.entries[mid].reading.as_str());
            assert(m@ == self.key(mid as int));
            if chars_lt(&m, k) {
                assert forall|i: int| 0 <= i <= mid implies seq_lt(#[trigger] self.key(i), k@) by {
                    if i < mid {
                        assert(seq_lt(self.key(i), self.key(mid as int)));
                        lemma_seq_lt_order(self.key(i), m@, k@);
                    }
                }
                lo = mid + 1;
            } else if chars_lt(k, &m) {
                assert forall|i: int| mid <= i < self.entries@.len() implies seq_lt(k@, #[trigger] self.key(i)) by {
                    if i > mid {
                        assert(seq_lt(self.key(mid as int), self.key(i)));
                        lemma_seq_lt_order(k@, m@, self.key(i));
                    }
                }
                hi = mid;
            } else {
                proof {
                    lemma_seq_lt_order(m@, k@, k@);
                }
                return Ok(mid);
            }
        }
        Err(lo)
    }

    /// An empty dictionary.
    pub(crate) fn new() -> (r: Self)
        ensures
            r@ == Map::<Seq<char>, Seq<Seq<char>>>::empty(),
            r.wf(),
    {
        let r = ReadingMap { entries: Vec::new() };
        assert(r@ =~= Map::<Seq<char>, Seq<Seq<char>>>::empty());
        r
    }

    /// Gives the reading of entry `i` the candidates `cands`.
    fn set_at(&mut self, i: usize, cands: Vec<String>)
        requires
            old(self).wf(),
            i < old(self).entries@.len(),
        ensures
            final(self).wf(),
            final(self).entries@.len() == old(self).entries@.len(),
            final(self)@ == old(self)@.insert(old(self).key(i as int), cands.deep_view()),
    {
        let ghost k = self.key(i as int);
        proof {
            self.lemma_entry_at(i as int);
        }
        self.entries[i].candidates = cands;
        proof {
            assert forall|j: int| 0 <= j < self.entries@.len() implies #[trigger] self.key(j) == old(self).key(j) by {}
            assert(self.wf());
            self.lemma_entry_at(i as int);
            assert forall|j: int| 0 <= j < self.entries@.len() && j != i implies
                self.entries@[j] == old(self).entries@[j] by {}
            assert forall|key: Seq<char>| #[trigger] self@.contains_key(key) implies old(self)@.contains_key(key) && (key != k ==> self@[key] == old(self)@[key]) by {
                let j = choose|j: int| 0 <= j < self.entries@.len() && self.key(j) == key;
                self.lemma_entry_at(j);
                old(self).lemma_entry_at(j);
            }
            assert forall|key: Seq<char>| #[trigger] old(self)@.contains_key(key) implies self@.contains_key(key) by {
                let j = choose|j: int| 0 <= j < old(self).entries@.len() && old(self).key(j) == key;
                self.lemma_entry_at(j);
            }
            assert(self@ =~= old(self)@.insert(k, cands.deep_view()));
        }
    }

    /// Inserts a reading that has no entry yet at its place `p` in the order.
    fn insert_new(&mut self, p: usize, k: &Vec<char>, reading: String, cands: Vec<String>)
        requires
            old(self).wf(),
            k@ == reading@,
            p <= old(self).entries@.len(),
            forall|i: int| 0 <= i < p ==> seq_lt(#[trigger] old(self).key(i), k@),
            forall|i: int| p <= i < old(self).entries@.len() ==> seq_lt(k@, #[trigger] old(self).key(i)),
        ensures
            final(self).wf(),
            !old(self)@.contains_key(k@),
            final(self)@ == old(self)@.insert(k@, cands.deep_view()),
    {
        let entry = MapEntry { reading, candidates: cands };
        assert(entry.reading@ == k@);
        proof {
            assert forall|i: int, j: int| 0 <= i < j < self.entries@.len() + 1 implies
                seq_lt(#[trigger] self.entries@.insert(p as int, entry)[i].reading@,
                    #[trigger] self.entries@.insert(p as int, entry)[j].reading@) by {
                let e = self.entries@.insert(p as int, entry);
                assert(e[p as int] == entry);
                assert(i < p ==> e[i] == self.entries@[i]);
                assert(i > p ==> e[i] == self.entries@[i - 1]);
                assert(j < p ==> e[j] == self.entries@[j]);
                assert(j > p ==> e[j] == self.entries@[j - 1]);
                if j < p {
                    assert(seq_lt(self.key(i), self.key(j)));
                } else if j == p {
                    assert(seq_lt(self.key(i), k@));
                } else if i < p {
                    assert(seq_lt(self.key(i), k@));
                    assert(seq_lt(k@, self.key(j - 1)));
                    lemma_seq_lt_order(self.key(i), k@, self.key(j - 1));
                } else if i == p {
                    assert(seq_lt(k@, self.key(j - 1)));
                } else {
                    assert(seq_lt(self.key(i - 1), self.key(j - 1)));
                }
            }
        }
        self.entries.insert(p, entry);
        proof {
            self.lemma_entry_at(p as int);
            lemma_seq_lt_order(k@, k@, k@);
            assert(!old(self)@.contains_key(k@)) by {
                if old(self)@.contains_key(k@) {
                    let j = choose|j: int| 0 <= j < old(self).entries@.len() && old(self).key(j) == k@;
                    if j < p {
                        assert(seq_lt(old(self).key(j), k@));
                    } else {
                        assert(seq_lt(k@, old(self).key(j)));
                    }
                }
            }
            assert forall|key: Seq<char>| #[trigger] self@.contains_key(key) implies (key == k@ || old(self)@.contains_key(key)) && (key != k@ ==> self@[key] == old(self)@[key]) by {
                let j = choose|j: int| 0 <= j < self.entries@.len() && self.key(j) == key;
                self.lemma_entry_at(j);
                if j < p {
                    old(self).lemma_entry_at(j);
                } else if j > p {
                    assert(self.entries@[j] == old(self).entries@[j - 1]);
                    old(self).lemma_entry_at(j - 1);
                }
            }
            assert forall|key: Seq<char>| #[trigger] old(self)@.contains_key(key) implies self@.contains_key(key) by {
                let j = choose|j: int| 0 <= j < old(self).entries@.len() && old(self).key(j) == key;
                if j < p {
                    assert(self.entries@[j] == old(self).entries@[j]);
                    self.lemma_entry_at(j);
                } else {
                    assert(self.entries@[j + 1] == old(self).entries@[j]);
                    self.lemma_entry_at(j + 1);
                }
            }
            assert(self@ =~= old(self)@.insert(k@, cands.deep_view()));
        }
    }

    /// Adds `cands` after the candidates that `reading` already has.
    pub(crate) fn add(&mut self, reading: String, cands: Vec<String>)
        requires
            old(self).wf(),
        ensures
            final(self).wf(),
            final(self)@ == add_candidates(old(self)@, reading@, cands.deep_view()),
    {
        let k = chars_of(reading.as_str());
        match self.find(&k) {
            Ok(i) => {
                proof {
                    self.lemma_entry_at(i as int);
                }
                let mut cur: Vec<String> = Vec::new();
                std::mem::swap(&mut self.entries[i].candidates, &mut cur);
                let mut more = cands;
                let ghost before = cur.deep_view();
                cur.append(&mut more);
                assert(cur.deep_view() =~= before + cands.deep_view());
                proof {
                    assert forall|j: int| 0 <= j < self.entries@.len() implies #[trigger] self.key(j) == old(self).key(j) by {}
                    assert(self.wf());
                    assert forall|j: int| 0 <= j < self.entries@.len() && j != i implies
                        self.entries@[j] == old(self).entries@[j] by {}
                    self.lemma_entry_at(i as int);
                    assert forall|key: Seq<char>| #[trigger] self@.contains_key(key) implies old(self)@.contains_key(key) && (key != k@ ==> self@[key] == old(self)@[key]) by {
                        let j = choose|j: int| 0 <= j < self.entries@.len() && self.key(j) == key;
                        self.lemma_entry_at(j);
                        old(self).lemma_entry_at(j);
                    }
                    assert forall|key: Seq<char>| #[trigger] old(self)@.contains_key(key) implies self@.contains_key(key) by {
                        let j = choose|j: int| 0 <= j < old(self).entries@.len() && old(self).key(j) == key;
                        self.lemma_entry_at(j);
                    }
                    assert(old(self)@.insert(k@, cur.deep_view()) =~= self@.insert(k@, cur.deep_view()));
                }
                self.set_at(i, cur);
                assert(self@ =~= add_candidates(old(self)@, reading@, cands.deep_view()));
            },
            Err(p) => {
                self.insert_new(p, &k, reading, cands);
            },
        }
    }

    /// Gives `reading` exactly the candidates `cands`.
    pub(crate) fn put(&mut self, reading: String, cands: Vec<String>)
        requires
            old(self).wf(),
        ensures
            final(self).wf(),
            final(self)@ == old(self)@.insert(reading@, cands.deep_view()),
    {
        let k = chars_of(reading.as_str());
        match self.find(&k) {
            Ok(i) => {
                self.set_at(i, cands);
            },
            Err(p) => {
                self.insert_new(p, &k, reading, cands);
            },
        }
    }

    /// The candidates of `reading`, in order, or `None` when it has no entry.
    pub(crate) fn lookup(&self, reading: &str) -> (r: Option<&[String]>)
        requires
            self.wf(),
        ensures
            r is Some <==> self@.contains_key(reading@),
            r matches Some(cs) ==> cs.deep_view() == self@[reading@],
    {
        let k = chars_of(reading);
        match self.find(&k) {
            Ok(i) => {
                proof {
                    self.lemma_entry_at(i as int);
                }
                Some(self.entries[i].candidates.as_slice())
            },
            Err(p) => {
                proof {
                    lemma_seq_lt_order(k@, k@, k@);
                    if self@.contains_key(k@) {
                        let j = choose|j: int| 0 <= j < self.entries@.len() && self.key(j) == k@;
                        if j < p {
                            assert(seq_lt(self.key(j), k@));
                        } else {
                            assert(seq_lt(k@, self.key(j)));
                        }
                    }
                }
                None
            },
        }
    }

    /// Every reading that starts with `prefix`, with its candidates, in reading order.
    pub(crate) fn lookup_prefix(&self, prefix: &str) -> (r: Vec<(&str, &[String])>)
        requires
            self.wf(),
        ensures
            forall|j: int| 0 <= j < r@.len() ==> {
                let k = (#[trigger] r@[j]).0@;
                &&& prefix@.len() <= k.len() && k.subrange(0, prefix@.len() as int) == prefix@
                &&& self@.contains_key(k)
                &&& r@[j].1.deep_view() == self@[k]
            },
            forall|j: int, l: int| 0 <= j < l < r@.len() ==> seq_lt(#[trigger] r@[j].0@, #[trigger] r@[l].0@),
            forall|k: Seq<char>| #[trigger] self@.contains_key(k) && prefix@.len() <= k.len()
                && k.subrange(0, prefix@.len() as int) == prefix@
                ==> exists|j: int| 0 <= j < r@.len() && (#[trigger] r@[j]).0@ == k,
    {
        let p = chars_of(prefix);
        let mut r: Vec<(&str, &[String])> = Vec::new();
        let ghost idx: Seq<int> = Seq::empty();
        let mut i: usize = 0;
        while i < self.entries.len()
            invariant
                self.wf(),
                p@ == prefix@,
                i <= self.entries@.len(),
                idx.len() == r@.len(),
                forall|j: int| 0 <= j < r@.len() ==> 0 <= #[trigger] idx[j] < i,
                forall|j: int| 0 <= j < r@.len() ==> {
                    &&& (#[trigger] r@[j]).0@ == self.key(idx[j])
                    &&& r@[j].1.deep_view() == self.entries@[idx[j]].candidates.deep_view()
                    &&& prefix@.len() <= r@[j].0@.len() && r@[j].0@.subrange(0, prefix@.len() as int) == prefix@
                },
                forall|j: int, l: int| 0 <= j < l < r@.len() ==> #[trigger] idx[j] < #[trigger] idx[l],
                forall|m: int| 0 <= m < i && prefix@.len() <= self.key(m).len()
                    && #[trigger] self.key(m).subrange(0, prefix@.len() as int) == prefix@
                    ==> exists|j: int| 0 <= j < r@.len() && idx[j] == m,
            decreases self.entries@.len() - i,
        {
            let e = &self.entries[i];
            let k = chars_of(e.reading.as_str());
            assert(k@ == self.key(i as int));
            if chars_start_with(&k, &p) {
                let ghost old_idx = idx;
                let ghost old_len = r@.len();
                assert(forall|m: int| 0 <= m < i && prefix@.len() <= self.key(m).len()
                    && #[trigger] self.key(m).subrange(0, prefix@.len() as int) == prefix@
                    ==> exists|j: int| 0 <= j < old_len && old_idx[j] == m);
                r.push((e.reading.as_str(), e.candidates.as_slice()));
                proof {
                    idx = idx.push(i as int);
                    assert(idx[idx.len() - 1] == i);
                    assert forall|m: int| 0 <= m < i + 1 && prefix@.len() <= self.key(m).len()
                        && #[trigger] self.key(m).subrange(0, prefix@.len() as int) == prefix@
                        implies exists|j: int| 0 <= j < r@.len() && idx[j] == m by {
                        if m == i {
                            assert(idx[r@.len() - 1] == m);
                        } else {
                            let j = choose|j: int| 0 <= j < old_len && old_idx[j] == m;
                            assert(idx[j] == old_idx[j]);
                        }
                    }
                }
            }
            i = i + 1;
        }
        proof {
            assert forall|j: int| 0 <= j < r@.len() implies {
                let k = (#[trigger] r@[j]).0@;
                &&& self@.contains_key(k)
                &&& r@[j].1.deep_view() == self@[k]
            } by {
                self.lemma_entry_at(idx[j]);
            }
            assert forall|j: int, l: int| 0 <= j < l < r@.len() implies seq_lt(#[trigger] r@[j].0@, #[trigger] r@[l].0@) by {
                assert(idx[j] < idx[l]);
            }
            assert forall|k: Seq<char>| #[trigger] self@.contains_key(k) && prefix@.len() <= k.len()
                && k.subrange(0, prefix@.len() as int) == prefix@
                implies exists|j: int| 0 <= j < r@.len() && (#[trigger] r@[j]).0@ == k by {
                let m = choose|m: int| 0 <= m < self.entries@.len() && self.key(m) == k;
                let j = choose|j: int| 0 <= j < r@.len() && idx[j] == m;
                assert(r@[j].0@ == k);
            }
        }
        r
    }

    /// The entries in reading order.
    pub(crate) closed spec fn listing(&self) -> Seq<(Seq<char>, Seq<Seq<char>>)> {
        self.entries@.map_values(|e: MapEntry| (e.reading@, e.candidates.deep_view()))
    }

    pub(crate) proof fn lemma_listing(&self)
        requires
            self.wf(),
        ensures
            sorted_listing_of(self.listing(), self@),
    {
        let es = self.listing();
        assert forall|i: int, j: int| 0 <= i < j < es.len() implies seq_lt(#[trigger] es[i].0, #[trigger] es[j].0) by {
            assert(seq_lt(self.key(i), self.key(j)));
        }
        assert forall|i: int| 0 <= i < es.len() implies self@.contains_key(#[trigger] es[i].0) && self@[es[i].0] == es[i].1 by {
            self.lemma_entry_at(i);
        }
        assert forall|k: Seq<char>| #[trigger] self@.contains_key(k) implies exists|i: int| 0 <= i < es.len() && es[i].0 == k by {
            let i = choose|i: int| 0 <= i < self.entries@.len() && self.key(i) == k;
            assert(es[i].0 == k);
        }
    }

    /// How many readings there are.
    pub(crate) fn len(&self) -> (r: usize)
        ensures
            r == self.listing().len(),
    {
        self.entries.len()
    }

    /// The `i`-th entry in reading order.
    pub(crate) fn entry_at(&self, i: usize) -> (r: (&str, &[String]))
        requires
            i < self.listing().len(),
        ensures
            r.0@ == self.listing()[i as int].0,
            r.1.deep_view() == self.listing()[i as int].1,
    {
        (self.entries[i].reading.as_str(), self.entries[i].candidates.as_slice())
    }
}

} // verus!
