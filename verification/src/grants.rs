//! The ephemeral-grant table: device id to expiry instant, in seconds.
//!
//! Re-granting overwrites; a grant leaves on revocation, on session
//! suspend, or when the daemon clears the table.

use vstd::prelude::*;
use crate::strutil::str_eq;

verus! {

/// The map a list of entries stands for, later entries overwriting
/// earlier ones.
pub open spec fn map_of(s: Seq<(String, u64)>) -> Map<Seq<char>, u64>
    decreases s.len(),
{
    if s.len() == 0 {
        Map::empty()
    } else {
        map_of(s.drop_last()).insert(s.last().0@, s.last().1)
    }
}

/// No key occurs twice.
pub open spec fn keys_unique(s: Seq<(String, u64)>) -> bool {
    forall|i: int, j: int| 0 <= i < j < s.len() ==> (#[trigger] s[i]).0@ != (#[trigger] s[j]).0@
}

proof fn lemma_map_of_contains(s: Seq<(String, u64)>, k: Seq<char>)
    ensures
        map_of(s).contains_key(k) <==> exists|i: int|
            0 <= i < s.len() && (#[trigger] s[i]).0@ == k,
    decreases s.len(),
{
    if s.len() > 0 {
        lemma_map_of_contains(s.drop_last(), k);
        if s.last().0@ == k {
            assert(s[s.len() - 1].0@ == k);
        } else {
            if exists|i: int| 0 <= i < s.drop_last().len() && (#[trigger] s.drop_last()[i]).0@
                == k {
                let i = choose|i: int|
                    0 <= i < s.drop_last().len() && (#[trigger] s.drop_last()[i]).0@ == k;
                assert(s[i].0@ == k);
            }
            if exists|i: int| 0 <= i < s.len() && (#[trigger] s[i]).0@ == k {
                let i = choose|i: int| 0 <= i < s.len() && (#[trigger] s[i]).0@ == k;
                assert(i < s.len() - 1);
                assert(s.drop_last()[i].0@ == k);
            }
        }
    }
}

proof fn lemma_map_of_remove(s: Seq<(String, u64)>, i: int)
    requires
        keys_unique(s),
        0 <= i < s.len(),
    ensures
        map_of(s.remove(i)) == map_of(s).remove(s[i].0@),
    decreases s.len(),
{
    let k = s[i].0@;
    if i == s.len() - 1 {
        assert(s.remove(i) =~= s.drop_last());
        lemma_map_of_contains(s.drop_last(), k);
        assert(!map_of(s.drop_last()).contains_key(k)) by {
            if exists|j: int| 0 <= j < s.drop_last().len() && (#[trigger] s.drop_last()[j]).0@
                == k {
                let j = choose|j: int|
                    0 <= j < s.drop_last().len() && (#[trigger] s.drop_last()[j]).0@ == k;
                assert(s[j].0@ == s[i].0@);
            }
        }
        assert(map_of(s.drop_last()) =~= map_of(s.drop_last()).insert(k, s.last().1).remove(k));
    } else {
        let t = s.remove(i);
        assert(t.drop_last() =~= s.drop_last().remove(i));
        assert(t.last() == s.last());
        lemma_map_of_remove(s.drop_last(), i);
        // The removed key differs from the last entry's key.
        assert(s[i].0@ != s.last().0@) by {
            assert(s.last() == s[s.len() - 1]);
        }
        assert(map_of(t) == map_of(s.drop_last()).remove(k).insert(t.last().0@, t.last().1));
        assert(map_of(s).remove(k) =~= map_of(s.drop_last()).remove(k).insert(
            s.last().0@,
            s.last().1,
        ));
    }
}

proof fn lemma_map_of_get(s: Seq<(String, u64)>, i: int)
    requires
        keys_unique(s),
        0 <= i < s.len(),
    ensures
        map_of(s).contains_key(s[i].0@),
        map_of(s)[s[i].0@] == s[i].1,
    decreases s.len(),
{
    if i == s.len() - 1 {
        assert(s.last() == s[i]);
    } else {
        lemma_map_of_get(s.drop_last(), i);
        assert(s.drop_last()[i] == s[i]);
        assert(s[i].0@ != s.last().0@) by {
            assert(s.last() == s[s.len() - 1]);
        }
    }
}

/// The in-memory table of ephemeral grants.
pub struct GrantMap {
    entries: Vec<(String, u64)>,
}

impl GrantMap {
    /// The map this table stands for.
    pub closed spec fn view(&self) -> Map<Seq<char>, u64> {
        map_of(self.entries@)
    }

    /// How many grants are held.
    pub closed spec fn count(&self) -> nat {
        self.entries@.len()
    }

    /// Keys are unique, so the count matches the map.
    pub closed spec fn wf(&self) -> bool {
        keys_unique(self.entries@)
    }

    /// An empty table.
    pub fn new() -> (r: GrantMap)
        ensures
            r.wf(),
            r.view() == Map::<Seq<char>, u64>::empty(),
            r.count() == 0,
    {
        GrantMap { entries: Vec::new() }
    }

    /// How many grants are held.
    pub fn len(&self) -> (r: usize)
        ensures
            r == self.count(),
    {
        self.entries.len()
    }

    fn position_of(&self, id: &str) -> (r: Option<usize>)
        ensures
            match r {
                Some(i) => i < self.entries@.len() && self.entries@[i as int].0@ == id@,
                None => forall|j: int|
                    0 <= j < self.entries@.len() ==> (#[trigger] self.entries@[j]).0@ != id@,
            },
    {
        let mut i: usize = 0;
        while i < self.entries.len()
            invariant
                i <= self.entries@.len(),
                forall|j: int| 0 <= j < i ==> (#[trigger] self.entries@[j]).0@ != id@,
            decreases self.entries@.len() - i,
        {
            if str_eq(self.entries[i].0.as_str(), id) {
                return Some(i);
            }
            i = i + 1;
        }
        None
    }

    /// Whether a grant for `id` is held.
    pub fn contains(&self, id: &str) -> (r: bool)
        ensures
            r == self.view().contains_key(id@),
    {
        proof {
            lemma_map_of_contains(self.entries@, id@);
        }
        match self.position_of(id) {
            Some(_) => true,
            None => false,
        }
    }

    /// The expiry of the grant for `id`, when one is held.
    pub fn get(&self, id: &str) -> (r: Option<u64>)
        requires
            self.wf(),
        ensures
            match r {
                Some(v) => self.view().contains_key(id@) && self.view()[id@] == v,
                None => !self.view().contains_key(id@),
            },
    {
        proof {
            lemma_map_of_contains(self.entries@, id@);
        }
        match self.position_of(id) {
            Some(i) => {
                proof {
                    lemma_map_of_get(self.entries@, i as int);
                }
                Some(self.entries[i].1)
            },
            None => None,
        }
    }

    /// Drops the grant for `id`, if one is held.
    pub fn remove(&mut self, id: &str)
        requires
            old(self).wf(),
        ensures
            final(self).wf(),
            final(self).view() == old(self).view().remove(id@),
            final(self).count() == old(self).count() - (
            if old(self).view().contains_key(id@) {
                1int
            } else {
                0
            }),
    {
        proof {
            lemma_map_of_contains(self.entries@, id@);
        }
        match self.position_of(id) {
            Some(i) => {
                proof {
                    lemma_map_of_remove(self.entries@, i as int);
                }
                let ghost olde = self.entries@;
                self.entries.remove(i);
                proof {
                    assert(keys_unique(self.entries@)) by {
                        assert forall|x: int, y: int|
                            0 <= x < y < self.entries@.len() implies (#[trigger] self.entries@[
                        x]).0@ != (#[trigger] self.entries@[y]).0@ by {
                            let ox = if x < i { x } else { x + 1 };
                            let oy = if y < i { y } else { y + 1 };
                            assert(self.entries@[x] == olde[ox]);
                            assert(self.entries@[y] == olde[oy]);
                        }
                    }
                }
            },
            None => {
                proof {
                    assert(old(self).view() =~= old(self).view().remove(id@));
                }
            },
        }
    }

    /// Grants `id` until `expiry`, overwriting any standing grant.
    pub fn insert(&mut self, id: &str, expiry: u64)
        requires
            old(self).wf(),
        ensures
            final(self).wf(),
            final(self).view() == old(self).view().insert(id@, expiry),
            final(self).count() == old(self).count() + (
            if old(self).view().contains_key(id@) {
                0int
            } else {
                1
            }),
    {
        self.remove(id);
        let ghost mid = self.entries@;
        self.entries.push((id.to_owned(), expiry));
        proof {
            assert(self.entries@.drop_last() =~= mid);
            assert(self.entries@.last().0@ == id@);
            assert(self.view() =~= old(self).view().insert(id@, expiry));
            assert(keys_unique(self.entries@)) by {
                lemma_map_of_contains(mid, id@);
                assert forall|x: int, y: int|
                    0 <= x < y < self.entries@.len() implies (#[trigger] self.entries@[x]).0@ != (
                #[trigger] self.entries@[y]).0@ by {
                    if y == self.entries@.len() - 1 {
                        assert(self.entries@[x] == mid[x]);
                        assert(!map_of(mid).contains_key(id@));
                    } else {
                        assert(self.entries@[x] == mid[x]);
                        assert(self.entries@[y] == mid[y]);
                    }
                }
            }
        }
    }

    /// Drops every grant.
    pub fn clear(&mut self)
        ensures
            final(self).wf(),
            final(self).view() == Map::<Seq<char>, u64>::empty(),
            final(self).count() == 0,
    {
        self.entries.clear();
    }

    /// The granted ids, in table order.
    pub fn ids(&self) -> (r: Vec<String>)
        requires
            self.wf(),
        ensures
            r@.len() == self.count(),
            forall|i: int|
                0 <= i < r@.len() ==> self.view().contains_key(#[trigger] r@[i]@),
    {
        let mut out: Vec<String> = Vec::new();
        let mut i: usize = 0;
        while i < self.entries.len()
            invariant
                i <= self.entries@.len(),
                out@.len() == i,
                self.wf(),
                forall|j: int|
                    0 <= j < i ==> (#[trigger] out@[j])@ == self.entries@[j].0@,
            decreases self.entries@.len() - i,
        {
            out.push(self.entries[i].0.clone());
            i = i + 1;
        }
        proof {
            assert forall|i2: int| 0 <= i2 < out@.len() implies self.view().contains_key(
                #[trigger] out@[i2]@,
            ) by {
                lemma_map_of_get(self.entries@, i2);
            }
        }
        out
    }
}

} // verus!
