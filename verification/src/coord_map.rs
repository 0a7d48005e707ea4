use vstd::prelude::*;

use crate::assoc::{
    assoc_find, assoc_insert, assoc_lookup, assoc_unique, lemma_assoc_find, lemma_assoc_find_at,
    lemma_assoc_insert_unique,
};
use crate::types::Coord;

verus! {

/// A map from grid coordinates to cell indices, kept as a list of entries
/// in the order in which their coordinates were first inserted.
pub struct CoordMap {
    pub entries: Vec<(Coord, usize)>,
}

/// The entries that inserting `s[i]` under `i`, for every `i` in order, leaves.
pub open spec fn index_entries(s: Seq<Coord>) -> Seq<(Coord, usize)>
    decreases s.len(),
{
    if s.len() == 0 {
        Seq::empty()
    } else {
        assoc_insert(index_entries(s.drop_last()), s.last(), (s.len() - 1) as usize)
    }
}

/// A quarter turn of a coordinate: (x, y) becomes (y, -x).
pub open spec fn rotate_coord(c: Coord) -> Coord {
    (c.1, (-c.0) as i8)
}

/// The entries with every coordinate turned a quarter turn.
pub open spec fn rotate_entries(e: Seq<(Coord, usize)>) -> Seq<(Coord, usize)> {
    e.map_values(|p: (Coord, usize)| (rotate_coord(p.0), p.1))
}

impl CoordMap {
    pub fn new() -> (r: CoordMap)
        ensures
            r.entries@ == Seq::<(Coord, usize)>::empty(),
    {
        CoordMap { entries: Vec::new() }
    }

    /// The position of the entry under `c`, or `None`.
    fn find(&self, c: Coord) -> (r: Option<usize>)
        ensures
            match r {
                Some(i) => assoc_find(self.entries@, c) == i && i < self.entries@.len(),
                None => assoc_find(self.entries@, c) == -1,
            },
    {
        let mut i: usize = 0;
        while i < self.entries.len()
            invariant
                i <= self.entries@.len(),
                forall|j: int| 0 <= j < i ==> self.entries@[j].0 != c,
            decreases self.entries.len() - i,
        {
            let e = self.entries[i].0;
            if e.0 == c.0 && e.1 == c.1 {
                proof {
                    lemma_assoc_find_at(self.entries@, c, i as int);
                }
                return Some(i);
            }
            i = i + 1;
        }
        proof {
            lemma_assoc_find(self.entries@, c);
        }
        None
    }

    /// The cell index under `c`.
    pub fn get(&self, c: Coord) -> (r: Option<usize>)
        ensures
            r == assoc_lookup(self.entries@, c),
    {
        match self.find(c) {
            Some(i) => Some(self.entries[i].1),
            None => None,
        }
    }

    /// Sets the cell index under `c`.
    pub fn insert(&mut self, c: Coord, v: usize)
        ensures
            final(self).entries@ == assoc_insert(old(self).entries@, c, v),
            assoc_unique(old(self).entries@) ==> assoc_unique(final(self).entries@),
    {
        proof {
            if assoc_unique(self.entries@) {
                lemma_assoc_insert_unique(self.entries@, c, v);
            }
        }
        match self.find(c) {
            Some(i) => {
                self.entries.set(i, (c, v));
            },
            None => {
                self.entries.push((c, v));
            },
        }
    }
}

} // verus!

verus! {

/// Four quarter turns bring every coordinate back where it was.
pub proof fn lemma_rotate_four_times(e: Seq<(Coord, usize)>)
    requires
        forall|i: int| 0 <= i < e.len() ==> (#[trigger] e[i]).0.0 > -128 && e[i].0.1 > -128,
    ensures
        rotate_entries(rotate_entries(rotate_entries(rotate_entries(e)))) == e,
{
    let r4 = rotate_entries(rotate_entries(rotate_entries(rotate_entries(e))));
    assert forall|i: int| 0 <= i < e.len() implies #[trigger] r4[i] == e[i] by {
        let c = e[i].0;
        assert(rotate_entries(e)[i] == (rotate_coord(c), e[i].1));
        assert(rotate_entries(rotate_entries(e))[i] == (rotate_coord(rotate_coord(c)), e[i].1));
        assert(rotate_entries(rotate_entries(rotate_entries(e)))[i] == (rotate_coord(rotate_coord(rotate_coord(c))), e[i].1));
    }
    assert(r4 =~= e);
}

} // verus!
