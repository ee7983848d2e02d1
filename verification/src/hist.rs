//! A counting histogram with string keys, kept as a vector of unique
//! key/count pairs so that both the map of counts and the entry order
//! are available to contracts.

use vstd::prelude::*;

verus! {

/// One more than `c`, stopping at the largest representable count.
pub open spec fn sat_inc(c: u64) -> u64 {
    if c == u64::MAX {
        c
    } else {
        (c + 1) as u64
    }
}

/// The count of `k` in `m`, zero when absent.
pub open spec fn cnt(m: Map<Seq<char>, u64>, k: Seq<char>) -> u64 {
    if m.dom().contains(k) {
        m[k]
    } else {
        0
    }
}

/// `m` with the count of `k` raised by one (saturating).
pub open spec fn bump(m: Map<Seq<char>, u64>, k: Seq<char>) -> Map<Seq<char>, u64> {
    m.insert(k, sat_inc(cnt(m, k)))
}

/// A histogram: occurrence counts keyed by strings.
pub struct Hist {
    pub entries: Vec<(String, u64)>,
}

impl Hist {
    /// The entries in their insertion order, as character sequences.
    pub open spec fn entries_view(self) -> Seq<(Seq<char>, u64)> {
        self.entries@.map_values(|e: (String, u64)| (e.0@, e.1))
    }

    /// The counts as a map.
    pub open spec fn as_map(self) -> Map<Seq<char>, u64> {
        Self::map_of(self.entries_view())
    }

    /// The map held by an entry list: later entries override earlier ones.
    pub open spec fn map_of(s: Seq<(Seq<char>, u64)>) -> Map<Seq<char>, u64>
        decreases s.len(),
    {
        if s.len() == 0 {
            Map::empty()
        } else {
            Self::map_of(s.drop_last()).insert(s.last().0, s.last().1)
        }
    }

    /// Each key appears in at most one entry.
    pub open spec fn wf(self) -> bool {
        forall|i: int, j: int|
            0 <= i < j < self.entries_view().len() ==> self.entries_view()[i].0
                != self.entries_view()[j].0
    }

    pub proof fn lemma_map_of_keys(s: Seq<(Seq<char>, u64)>)
        ensures
            forall|k: Seq<char>|
                #[trigger] Self::map_of(s).dom().contains(k) <==> exists|i: int|
                    0 <= i < s.len() && s[i].0 == k,
        decreases s.len(),
    {
        if s.len() > 0 {
            Self::lemma_map_of_keys(s.drop_last());
            assert forall|k: Seq<char>| #[trigger]
                Self::map_of(s).dom().contains(k) implies exists|i: int|
                0 <= i < s.len() && s[i].0 == k by {
                if k == s.last().0 {
                    assert(0 <= s.len() - 1 < s.len() && s[s.len() - 1].0 == k);
                } else {
                    assert(Self::map_of(s.drop_last()).dom().contains(k));
                    let i = choose|i: int| 0 <= i < s.drop_last().len() && s.drop_last()[i].0 == k;
                    assert(s.drop_last()[i] == s[i]);
                    assert(0 <= i < s.len() && s[i].0 == k);
                }
            }
            assert forall|k: Seq<char>|
                (exists|i: int| 0 <= i < s.len() && s[i].0 == k) implies #[trigger] Self::map_of(
                s,
            ).dom().contains(k) by {
                let i = choose|i: int| 0 <= i < s.len() && s[i].0 == k;
                if i < s.len() - 1 {
                    assert(s.drop_last()[i] == s[i]);
                    assert(exists|j: int|
                        0 <= j < s.drop_last().len() && s.drop_last()[j].0 == k);
                    assert(Self::map_of(s.drop_last()).dom().contains(k));
                }
            }
        }
    }

    /// With unique keys, entry `i` gives its key's count.
    pub proof fn lemma_map_of_index(s: Seq<(Seq<char>, u64)>, i: int)
        requires
            forall|a: int, b: int| 0 <= a < b < s.len() ==> s[a].0 != s[b].0,
            0 <= i < s.len(),
        ensures
            Self::map_of(s).dom().contains(s[i].0),
            Self::map_of(s)[s[i].0] == s[i].1,
        decreases s.len(),
    {
        if i == s.len() - 1 {
        } else {
            Self::lemma_map_of_index(s.drop_last(), i);
            assert(s.drop_last()[i] == s[i]);
        }
    }

    /// Updating the count inside entry `i` updates the map at its key.
    proof fn lemma_map_of_update(s: Seq<(Seq<char>, u64)>, i: int, c: u64)
        requires
            forall|a: int, b: int| 0 <= a < b < s.len() ==> s[a].0 != s[b].0,
            0 <= i < s.len(),
        ensures
            Self::map_of(s.update(i, (s[i].0, c))) == Self::map_of(s).insert(s[i].0, c),
        decreases s.len(),
    {
        let t = s.update(i, (s[i].0, c));
        if i == s.len() - 1 {
            assert(t.drop_last() =~= s.drop_last());
            assert(Self::map_of(t) =~= Self::map_of(s).insert(s[i].0, c));
        } else {
            Self::lemma_map_of_update(s.drop_last(), i, c);
            assert(t.drop_last() =~= s.drop_last().update(i, (s[i].0, c)));
            assert(s.drop_last()[i] == s[i]);
            assert(t.last() == s.last());
            assert(Self::map_of(t) =~= Self::map_of(s).insert(s[i].0, c));
        }
    }

    /// An empty histogram.
    pub fn new() -> (r: Hist)
        ensures
            r.wf(),
            r.as_map() == Map::<Seq<char>, u64>::empty(),
            r.entries_view() == Seq::<(Seq<char>, u64)>::empty(),
    {
        let r = Hist { entries: Vec::new() };
        proof {
            assert(r.entries_view() =~= Seq::<(Seq<char>, u64)>::empty());
        }
        r
    }

    /// Raises the count of `key` by one, saturating at the largest count.
    pub fn bump(&mut self, key: &str)
        requires
            old(self).wf(),
        ensures
            final(self).wf(),
            final(self).as_map() == bump(old(self).as_map(), key@),
    {
        let n = self.entries.len();
        let mut i: usize = 0;
        while i < n
            invariant
                n == self.entries.len(),
                forall|j: int| 0 <= j < i ==> self.entries_view()[j].0 != key@,
                self.entries@ == old(self).entries@,
                self.wf(),
            decreases n - i,
        {
            if str_eq_pair(&self.entries[i].0, key) {
                let c = self.entries[i].1;
                let c2 = if c == u64::MAX {
                    c
                } else {
                    c + 1
                };
                proof {
                    Self::lemma_map_of_index(self.entries_view(), i as int);
                    Self::lemma_map_of_update(self.entries_view(), i as int, c2);
                }
                self.entries[i].1 = c2;
                proof {
                    assert(self.entries_view() =~= old(self).entries_view().update(
                        i as int,
                        (key@, c2),
                    ));
                    assert(self.as_map() =~= bump(old(self).as_map(), key@));
                }
                return ;
            }
            i = i + 1;
        }
        let owned: String = key.to_owned();
        proof {
            Self::lemma_map_of_keys(self.entries_view());
            assert(!old(self).as_map().dom().contains(key@));
        }
        self.entries.push((owned, 1));
        proof {
            assert(self.entries_view() =~= old(self).entries_view() + seq![(key@, 1u64)]);
            assert(self.entries_view().drop_last() =~= old(self).entries_view());
            assert(self.as_map() =~= bump(old(self).as_map(), key@));
        }
    }

    /// The number of distinct keys.
    pub fn len(&self) -> (r: usize)
        ensures
            r == self.entries_view().len(),
    {
        self.entries.len()
    }

    /// The entry at `i`, as a fresh pair.
    pub fn entry_at(&self, i: usize) -> (r: (String, u64))
        requires
            i < self.entries_view().len(),
        ensures
            (r.0@, r.1) == self.entries_view()[i as int],
    {
        (self.entries[i].0.clone(), self.entries[i].1)
    }

    /// The count stored for `key`, zero when absent.
    pub fn get(&self, key: &str) -> (r: u64)
        requires
            self.wf(),
        ensures
            r == cnt(self.as_map(), key@),
    {
        let n = self.entries.len();
        let mut i: usize = 0;
        while i < n
            invariant
                n == self.entries.len(),
                self.wf(),
                forall|j: int| 0 <= j < i ==> self.entries_view()[j].0 != key@,
            decreases n - i,
        {
            if str_eq_pair(&self.entries[i].0, key) {
                proof {
                    Self::lemma_map_of_index(self.entries_view(), i as int);
                }
                return self.entries[i].1;
            }
            i = i + 1;
        }
        proof {
            Self::lemma_map_of_keys(self.entries_view());
        }
        0
    }
}

/// Equality of a stored key and a sought key.
fn str_eq_pair(a: &String, b: &str) -> (r: bool)
    ensures
        r == (a@ == b@),
{
    let y: String = b.to_owned();
    *a == y
}

} // verus!
