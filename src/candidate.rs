//! A wrap-around selection cursor over a fixed list of conversion candidates.

use vstd::prelude::*;

verus! {

/// Abstract state of a candidate list.
pub struct CandidateView {
    /// The candidates, in order.
    pub items: Seq<Seq<char>>,
    /// The cursor.
    pub index: nat,
}

impl CandidateView {
    /// The cursor is on an element, or the list is empty and the cursor at 0.
    pub open spec fn cursor_ok(self) -> bool {
        if self.items.len() == 0 {
            self.index == 0
        } else {
            self.index < self.items.len()
        }
    }

    /// The candidate under the cursor.
    pub open spec fn current(self) -> Option<Seq<char>> {
        if self.index < self.items.len() {
            Some(self.items[self.index as int])
        } else {
            None
        }
    }
}

/// Candidates with a cursor on one of them.
pub struct CandidateList {
    candidates: Vec<String>,
    index: usize,
}

impl View for CandidateList {
    type V = CandidateView;

    closed spec fn view(&self) -> CandidateView {
        CandidateView { items: self.candidates.deep_view(), index: self.index as nat }
    }
}

impl CandidateList {
    #[verifier::type_invariant]
    spec fn cursor_in_range(self) -> bool {
        if self.candidates.len() == 0 {
            self.index == 0
        } else {
            self.index < self.candidates.len()
        }
    }

    /// A list over `candidates` with the cursor on the first one.
    pub fn new(candidates: Vec<String>) -> (r: Self)
        ensures
            r@.items == candidates.deep_view(),
            r@.index == 0,
            r@.cursor_ok(),
    {
        CandidateList { candidates, index: 0 }
    }

    /// The candidate under the cursor, or `None` for an empty list.
    pub fn current(&self) -> (r: Option<&str>)
        ensures
            r matches Some(s) ==> self@.current() == Some(s@),
            r is None ==> self@.current() is None,
            r is Some <==> self@.items.len() > 0,
    {
        proof {
            use_type_invariant(self);
        }
        if self.index < self.candidates.len() {
            Some(self.candidates[self.index].as_str())
        } else {
            None
        }
    }

    /// The cursor.
    pub fn index(&self) -> (r: usize)
        ensures
            r == self@.index,
    {
        self.index
    }

    /// Moves the cursor forward, from the last candidate back to the first.
    /// An empty list is left as it is.
    pub fn next(&mut self)
        ensures
            final(self)@.items == old(self)@.items,
            old(self)@.items.len() == 0 ==> final(self)@ == old(self)@,
            old(self)@.items.len() > 0 ==> final(self)@.index as int == (old(self)@.index as int + 1) % (
            old(self)@.items.len() as int),
            final(self)@.cursor_ok(),
    {
        proof {
            use_type_invariant(&*self);
        }
        if !self.candidates.is_empty() {
            self.index = (self.index + 1) % self.candidates.len();
        }
    }

    /// Moves the cursor back, from the first candidate to the last.
    /// An empty list is left as it is.
    pub fn prev(&mut self)
        ensures
            final(self)@.items == old(self)@.items,
            old(self)@.items.len() == 0 ==> final(self)@ == old(self)@,
            old(self)@.items.len() > 0 ==> final(self)@.index as int == (old(self)@.index as int + old(self)@.items.len() as int - 1) % (
            old(self)@.items.len() as int),
            final(self)@.cursor_ok(),
    {
        proof {
            use_type_invariant(&*self);
        }
        if !self.candidates.is_empty() {
            if self.index == 0 {
                self.index = self.candidates.len() - 1;
            } else {
                self.index = self.index - 1;
            }
        }
        proof {
            let n = old(self)@.items.len() as int;
            let i = old(self)@.index as int;
            if n > 0 {
                if i == 0 {
                    assert((i + n - 1) % n == n - 1) by (nonlinear_arith)
                        requires n > 0, i == 0;
                } else {
                    assert((i + n - 1) % n == i - 1) by (nonlinear_arith)
                        requires n > 0, 0 < i < n;
                }
            }
        }
    }

    /// A copy of the candidate under the cursor, or `None` for an empty list.
    pub fn select(&self) -> (r: Option<String>)
        ensures
            r matches Some(s) ==> self@.current() == Some(s@),
            r is None ==> self@.current() is None,
            r is Some <==> self@.items.len() > 0,
    {
        match self.current() {
            Some(s) => Some(s.to_string()),
            None => None,
        }
    }

    /// Whether there are no candidates.
    pub fn is_empty(&self) -> (r: bool)
        ensures
            r == (self@.items.len() == 0),
    {
        self.candidates.is_empty()
    }

    /// How many candidates there are.
    pub fn len(&self) -> (r: usize)
        ensures
            r == self@.items.len(),
    {
        self.candidates.len()
    }

    /// All candidates, in order.
    pub fn candidates(&self) -> (r: &[String])
        ensures
            r.deep_view() == self@.items,
    {
        self.candidates.as_slice()
    }
}

} // verus!
