//! A finite binary relation, kept row by row: for each left value the set of
//! right values that it is related to.

use std::collections::HashMap;
use std::collections::HashSet;
use std::hash::Hash;
use vstd::prelude::*;
use vstd::std_specs::hash::*;

verus! {

broadcast use vstd::std_specs::hash::group_hash_axioms;

/// A set of pairs `(a, b)`.
pub struct Relation<A, B> {
    rows: HashMap<A, HashSet<B>>,
}

impl<A, B> View for Relation<A, B> {
    type V = Set<(A, B)>;

    closed spec fn view(&self) -> Set<(A, B)> {
        Set::new(|p: (A, B)| self.rows@.contains_key(p.0) && self.rows@[p.0]@.contains(p.1))
    }
}

impl<A: Eq + Hash + Copy, B: Eq + Hash + Copy> Relation<A, B> {
    /// Hash tables over `A` and over `B` find what was put into them.
    pub open spec fn keys_behave() -> bool {
        obeys_key_model::<A>() && obeys_key_model::<B>()
    }

    /// The empty relation.
    pub fn new() -> (relation: Self)
        ensures
            relation@ == Set::<(A, B)>::empty(),
    {
        let relation = Relation { rows: HashMap::new() };
        assert(relation@ =~= Set::<(A, B)>::empty());
        relation
    }

    /// Whether `a` is related to `b`.
    pub fn contains(&self, a: &A, b: &B) -> (found: bool)
        requires
            Self::keys_behave(),
        ensures
            found == self@.contains((*a, *b)),
    {
        match self.rows.get(a) {
            Some(row) => row.contains(b),
            None => false,
        }
    }

    /// Relates `a` to `b`.
    pub fn insert(&mut self, a: A, b: B)
        requires
            Self::keys_behave(),
        ensures
            final(self)@ == old(self)@.insert((a, b)),
    {
        let mut row = match self.rows.remove(&a) {
            Some(row) => row,
            None => HashSet::new(),
        };
        row.insert(b);
        self.rows.insert(a, row);
        assert(self@ =~= old(self)@.insert((a, b)));
    }

    /// Ends the relation of `a` to `b`, if there was one.
    pub fn remove(&mut self, a: &A, b: &B)
        requires
            Self::keys_behave(),
        ensures
            final(self)@ == old(self)@.remove((*a, *b)),
    {
        match self.rows.remove(a) {
            Some(row) => {
                let mut row = row;
                row.remove(b);
                self.rows.insert(*a, row);
            },
            None => {},
        }
        assert(self@ =~= old(self)@.remove((*a, *b)));
    }
}

impl<A: Eq + Hash + Copy> Relation<A, u32> {
    /// The numbers below `limit` that `a` is related to, in rising order.
    pub fn row_below(&self, a: &A, limit: u32) -> (row: Vec<u32>)
        requires
            Self::keys_behave(),
        ensures
            forall|b: u32| row@.contains(b) <==> b < limit && self@.contains((*a, b)),
            forall|i: int, j: int| 0 <= i < j < row@.len() ==> row@[i] < row@[j],
    {
        let mut row: Vec<u32> = Vec::new();
        let mut b: u32 = 0;
        while b < limit
            invariant
                Self::keys_behave(),
                b <= limit,
                forall|c: u32| row@.contains(c) <==> c < b && self@.contains((*a, c)),
                forall|i: int, j: int| 0 <= i < j < row@.len() ==> row@[i] < row@[j],
            decreases limit - b,
        {
            if self.contains(a, &b) {
                let ghost before = row@;
                row.push(b);
                proof {
                    assert forall|c: u32| row@.contains(c) <==> c < b + 1 && self@.contains(
                        (*a, c),
                    ) by {
                        if row@.contains(c) {
                            let i = choose|i: int| 0 <= i < row@.len() && row@[i] == c;
                            if i < before.len() {
                                assert(before[i] == c);
                                assert(before.contains(c));
                            }
                        }
                        if c < b + 1 && self@.contains((*a, c)) {
                            if c == b {
                                assert(row@[before.len() as int] == c);
                            } else {
                                assert(before.contains(c));
                                let i = choose|i: int| 0 <= i < before.len() && before[i] == c;
                                assert(row@[i] == c);
                            }
                        }
                    }
                    assert forall|i: int, j: int| 0 <= i < j < row@.len() implies row@[i]
                        < row@[j] by {
                        if j == before.len() {
                            assert(before[i] == row@[i]);
                            assert(before.contains(row@[i]));
                        } else {
                            assert(before[i] < before[j]);
                        }
                    }
                }
            }
            b += 1;
        }
        row
    }
}

} // verus!
