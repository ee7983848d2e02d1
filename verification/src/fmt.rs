//! Rendering a histogram as a list of `name: count` lines, most
//! frequent first.

use vstd::prelude::*;
use vstd::multiset::Multiset;
use crate::analyze::lemma_take_all;
use crate::analyze::lemma_take_succ;
use crate::ext::fmt_count;
use crate::hist::Hist;
use crate::model::pairs_view;
use crate::model::seq_view;
use crate::text::spec_dec;

verus! {

broadcast use vstd::seq_lib::group_to_multiset_ensures, vstd::multiset::group_multiset_axioms;

/// The line printed for one histogram entry.
pub open spec fn fmt_entry(e: (Seq<char>, u64)) -> Seq<char> {
    e.0 + ": "@ + spec_dec(e.1 as int)
}

/// The lines printed for an entry list.
pub open spec fn fmt_lines(p: Seq<(Seq<char>, u64)>) -> Seq<Seq<char>> {
    p.map_values(|e: (Seq<char>, u64)| fmt_entry(e))
}

/// Counts never increase along `p`.
pub open spec fn sorted_desc(p: Seq<(Seq<char>, u64)>) -> bool {
    forall|a: int, b: int| 0 <= a < b < p.len() ==> p[a].1 >= p[b].1
}

/// Renders the histogram as `name: count` lines, ordered by descending
/// count: the result is some descending reordering of the entries,
/// each formatted by `fmt_entry`.
pub fn hashmap_to_ordered_vec(map: &Hist) -> (r: Vec<String>)
    ensures
        exists|p: Seq<(Seq<char>, u64)>|
            {
                &&& #[trigger] p.to_multiset() == map.entries_view().to_multiset()
                &&& sorted_desc(p)
                &&& seq_view(r@) == fmt_lines(p)
            },
{
    let n = map.len();
    let mut work: Vec<(String, u64)> = Vec::new();
    let mut i: usize = 0;
    proof {
        assert(pairs_view(work@) =~= map.entries_view().take(0));
    }
    while i < n
        invariant
            i <= n,
            n == map.entries_view().len(),
            pairs_view(work@) == map.entries_view().take(i as int),
        decreases n - i,
    {
        let e = map.entry_at(i);
        proof {
            lemma_take_succ(map.entries_view(), i as int);
            assert(pairs_view(work@.push((e.0, e.1))) =~= pairs_view(work@).push((e.0@, e.1)));
        }
        work.push(e);
        i = i + 1;
    }
    proof {
        lemma_take_all(map.entries_view());
    }
    let mut out: Vec<String> = Vec::new();
    let ghost mut chosen: Seq<(Seq<char>, u64)> = Seq::empty();
    proof {
        assert(chosen.to_multiset().add(pairs_view(work@).to_multiset())
            =~= map.entries_view().to_multiset());
        assert(seq_view(out@) =~= fmt_lines(chosen));
    }
    while work.len() > 0
        invariant
            chosen.to_multiset().add(pairs_view(work@).to_multiset())
                == map.entries_view().to_multiset(),
            sorted_desc(chosen),
            chosen.len() > 0 ==> forall|k: int|
                0 <= k < work@.len() ==> (#[trigger] pairs_view(work@)[k]).1 <= chosen.last().1,
            seq_view(out@) == fmt_lines(chosen),
        decreases work@.len(),
    {
        let m = work.len();
        let mut mi: usize = 0;
        let mut k: usize = 1;
        while k < m
            invariant
                mi < k <= m,
                m == work@.len(),
                forall|t: int| 0 <= t < k ==> (#[trigger] pairs_view(work@)[t]).1 <= pairs_view(
                    work@,
                )[mi as int].1,
            decreases m - k,
        {
            if work[k].1 > work[mi].1 {
                mi = k;
            }
            k = k + 1;
        }
        let ghost wv = pairs_view(work@);
        let e = work.remove(mi);
        let ghost ev = (e.0@, e.1);
        let line = fmt_count(e.0.as_str(), e.1);
        proof {
            assert(ev == wv[mi as int]);
            assert(pairs_view(work@) =~= wv.remove(mi as int));
            assert(wv.contains(ev));
            assert(wv.to_multiset().count(ev) > 0);
            assert(chosen.push(ev).to_multiset() =~= chosen.to_multiset().insert(ev));
            assert(wv.remove(mi as int).to_multiset() =~= wv.to_multiset().remove(ev));
            assert(chosen.push(ev).to_multiset().add(pairs_view(work@).to_multiset())
                =~= map.entries_view().to_multiset());
            assert(sorted_desc(chosen.push(ev))) by {
                assert forall|a: int, b: int|
                    0 <= a < b < chosen.push(ev).len() implies chosen.push(ev)[a].1 >= chosen.push(
                    ev,
                )[b].1 by {
                    if b < chosen.len() {
                    } else {
                        assert(chosen.push(ev)[b] == ev);
                        if chosen.len() > 0 {
                            assert(chosen[a].1 >= chosen.last().1);
                        }
                    }
                }
            }
            assert(line@ == fmt_entry(ev));
            assert(seq_view(out@).len() == out@.len());
            assert(fmt_lines(chosen).len() == chosen.len());
            assert(out@.len() == chosen.len());
            assert forall|t: int|
                0 <= t < out@.len() + 1 implies seq_view(out@.push(line))[t] == fmt_lines(
                chosen.push(ev),
            )[t] by {
                if t < out@.len() {
                    assert(seq_view(out@.push(line))[t] == out@.push(line)[t]@);
                    assert(out@.push(line)[t] == out@[t]);
                    assert(seq_view(out@)[t] == out@[t]@);
                    assert(fmt_lines(chosen.push(ev))[t] == fmt_entry(chosen.push(ev)[t]));
                    assert(chosen.push(ev)[t] == chosen[t]);
                    assert(fmt_lines(chosen)[t] == fmt_entry(chosen[t]));
                } else {
                    assert(seq_view(out@.push(line))[t] == line@);
                    assert(fmt_lines(chosen.push(ev))[t] == fmt_entry(ev));
                }
            }
            assert(seq_view(out@.push(line)) =~= fmt_lines(chosen.push(ev)));
            assert forall|k2: int|
                0 <= k2 < work@.len() implies (#[trigger] pairs_view(work@)[k2]).1 <= ev.1 by {
                assert(pairs_view(work@)[k2] == wv.remove(mi as int)[k2]);
            }
        }
        out.push(line);
        proof {
            chosen = chosen.push(ev);
        }
    }
    proof {
        assert(pairs_view(work@) =~= Seq::<(Seq<char>, u64)>::empty());
        assert forall|x: (Seq<char>, u64)| #[trigger]
            pairs_view(work@).to_multiset().count(x) == 0 by {
            assert(!pairs_view(work@).contains(x));
        }
        assert(pairs_view(work@).to_multiset() =~= Multiset::<(Seq<char>, u64)>::empty());
        assert(chosen.to_multiset().add(Multiset::<(Seq<char>, u64)>::empty())
            =~= chosen.to_multiset());
        assert(chosen.to_multiset() == map.entries_view().to_multiset());
        assert(sorted_desc(chosen));
        assert(seq_view(out@) == fmt_lines(chosen));
    }
    out
}

} // verus!
