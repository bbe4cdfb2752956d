use vstd::prelude::*;
use crate::location::Location;

verus! {

/// The map that a list of entries denotes: a later entry for a location
/// overrides an earlier one.
pub open spec fn map_of(s: Seq<(Location, u32)>) -> Map<Location, u32>
    decreases s.len(),
{
    if s.len() == 0 {
        Map::empty()
    } else {
        map_of(s.drop_last()).insert(s.last().0, s.last().1)
    }
}

pub open spec fn keys_unique(s: Seq<(Location, u32)>) -> bool {
    forall|i: int, j: int| 0 <= i < j < s.len() ==> (#[trigger] s[i]).0 != (#[trigger] s[j]).0
}

proof fn lemma_map_of_entry(s: Seq<(Location, u32)>, i: int)
    requires
        keys_unique(s),
        0 <= i < s.len(),
    ensures
        map_of(s).contains_key(s[i].0),
        map_of(s)[s[i].0] == s[i].1,
    decreases s.len(),
{
    if i < s.len() - 1 {
        assert(s.drop_last()[i] == s[i]);
        assert(s[i].0 != s[s.len() - 1].0);
        lemma_map_of_entry(s.drop_last(), i);
    }
}

proof fn lemma_map_of_absent(s: Seq<(Location, u32)>, k: Location)
    requires
        forall|i: int| 0 <= i < s.len() ==> (#[trigger] s[i]).0 != k,
    ensures
        !map_of(s).contains_key(k),
    decreases s.len(),
{
    if s.len() > 0 {
        assert forall|i: int| 0 <= i < s.len() - 1 implies (#[trigger] s.drop_last()[i]).0 != k by {
            assert(s.drop_last()[i] == s[i]);
        }
        lemma_map_of_absent(s.drop_last(), k);
    }
}

proof fn lemma_map_of_update(s: Seq<(Location, u32)>, j: int, v: u32)
    requires
        keys_unique(s),
        0 <= j < s.len(),
    ensures
        map_of(s.update(j, (s[j].0, v))) == map_of(s).insert(s[j].0, v),
    decreases s.len(),
{
    let t = s.update(j, (s[j].0, v));
    if j == s.len() - 1 {
        assert(t.drop_last() =~= s.drop_last());
        assert(map_of(s).insert(s[j].0, v) =~= map_of(s.drop_last()).insert(s[j].0, v));
    } else {
        assert(t.drop_last() =~= s.drop_last().update(j, (s[j].0, v)));
        assert(s.drop_last()[j] == s[j]);
        assert(keys_unique(s.drop_last())) by {
            assert forall|a: int, b: int| 0 <= a < b < s.drop_last().len() implies (#[trigger] s.drop_last()[a]).0 != (#[trigger] s.drop_last()[b]).0 by {
                assert(s.drop_last()[a] == s[a]);
                assert(s.drop_last()[b] == s[b]);
            }
        }
        lemma_map_of_update(s.drop_last(), j, v);
        assert(s[j].0 != s.last().0);
        assert(map_of(t) =~= map_of(s).insert(s[j].0, v));
    }
}

/// A map from locations to widths, kept as a list with one entry per location.
pub struct LocationMap {
    pub entries: Vec<(Location, u32)>,
}

impl View for LocationMap {
    type V = Map<Location, u32>;

    open spec fn view(&self) -> Map<Location, u32> {
        map_of(self.entries@)
    }
}

impl LocationMap {
    pub open spec fn wf(&self) -> bool {
        keys_unique(self.entries@)
    }

    pub fn new() -> (r: LocationMap)
        ensures
            r.wf(),
            r@ == Map::<Location, u32>::empty(),
    {
        LocationMap { entries: Vec::new() }
    }

    pub fn len(&self) -> (r: usize)
        ensures
            r == self.entries@.len(),
    {
        self.entries.len()
    }

    fn index_of(&self, k: Location) -> (r: Option<usize>)
        ensures
            r matches Some(j) ==> j < self.entries@.len() && self.entries@[j as int].0 == k,
            r is None ==> forall|i: int| 0 <= i < self.entries@.len() ==> (#[trigger] self.entries@[i]).0 != k,
    {
        let mut i: usize = 0;
        while i < self.entries.len()
            invariant
                i <= self.entries@.len(),
                forall|j: int| 0 <= j < i ==> (#[trigger] self.entries@[j]).0 != k,
            decreases self.entries@.len() - i,
        {
            if self.entries[i].0 == k {
                return Some(i);
            }
            i = i + 1;
        }
        None
    }

    /// The width recorded for `k`, if any.
    pub fn get(&self, k: Location) -> (r: Option<u32>)
        requires
            self.wf(),
        ensures
            r == (if self@.contains_key(k) { Some(self@[k]) } else { None::<u32> }),
    {
        match self.index_of(k) {
            Some(j) => {
                proof { lemma_map_of_entry(self.entries@, j as int); }
                Some(self.entries[j].1)
            },
            None => {
                proof { lemma_map_of_absent(self.entries@, k); }
                None
            },
        }
    }

    /// Records `v` for `k`, replacing what was there.
    pub fn insert(&mut self, k: Location, v: u32)
        requires
            old(self).wf(),
        ensures
            final(self).wf(),
            final(self)@ == old(self)@.insert(k, v),
    {
        match self.index_of(k) {
            Some(j) => {
                proof { lemma_map_of_update(self.entries@, j as int, v); }
                self.entries.set(j, (k, v));
                proof {
                    let s = self.entries@;
                    assert forall|a: int, b: int| 0 <= a < b < s.len() implies (#[trigger] s[a]).0 != (#[trigger] s[b]).0 by {
                        assert(s[a].0 == old(self).entries@[a].0);
                        assert(s[b].0 == old(self).entries@[b].0);
                    }
                }
            },
            None => {
                self.entries.push((k, v));
                proof {
                    let s = self.entries@;
                    assert(s.drop_last() =~= old(self).entries@);
                    assert forall|a: int, b: int| 0 <= a < b < s.len() implies (#[trigger] s[a]).0 != (#[trigger] s[b]).0 by {
                        assert(s[a] == old(self).entries@[a]);
                        if b < s.len() - 1 {
                            assert(s[b] == old(self).entries@[b]);
                        }
                    }
                }
            },
        }
    }
}

} // verus!
