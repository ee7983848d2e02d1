//! The feedback counter: tallies up- and down-ratings of a feedback
//! list.

use vstd::prelude::*;
use crate::model::Feedback;
use crate::model::FeedbackEntry;
use crate::model::FeedbackEntryView;
use crate::model::Rating;
use crate::model::seq_view;

verus! {

/// The number of entries of `s` rated `r`.
pub open spec fn count_rated(s: Seq<FeedbackEntryView>, r: Rating) -> nat
    decreases s.len(),
{
    if s.len() == 0 {
        0
    } else {
        count_rated(s.drop_last(), r) + (if s.last().rating == r {
            1nat
        } else {
            0nat
        })
    }
}

/// A rating count never exceeds the list length.
pub proof fn lemma_count_rated_le(s: Seq<FeedbackEntryView>, r: Rating)
    ensures
        count_rated(s, r) <= s.len(),
    decreases s.len(),
{
    if s.len() > 0 {
        lemma_count_rated_le(s.drop_last(), r);
    }
}

/// Tallies the list: `positive_amount` is the number of up-rated
/// entries, `negative_amount` the number of down-rated ones.
pub fn count_feedback(entries: &Vec<FeedbackEntry>) -> (r: Feedback)
    ensures
        r.positive_amount == count_rated(seq_view(entries@), Rating::ThumbsUp),
        r.negative_amount == count_rated(seq_view(entries@), Rating::ThumbsDown),
{
    let ghost vs = seq_view(entries@);
    let n = entries.len();
    let mut up: u64 = 0;
    let mut down: u64 = 0;
    let mut i: usize = 0;
    proof {
        assert(vs.take(0) =~= Seq::<FeedbackEntryView>::empty());
    }
    while i < n
        invariant
            i <= n,
            n == entries@.len(),
            vs == seq_view(entries@),
            up == count_rated(vs.take(i as int), Rating::ThumbsUp),
            down == count_rated(vs.take(i as int), Rating::ThumbsDown),
        decreases n - i,
    {
        proof {
            crate::analyze::lemma_take_succ(vs, i as int);
            lemma_count_rated_le(vs.take(i as int), Rating::ThumbsUp);
            lemma_count_rated_le(vs.take(i as int), Rating::ThumbsDown);
        }
        match entries[i].rating {
            Rating::ThumbsUp => {
                up = up + 1;
            },
            Rating::ThumbsDown => {
                down = down + 1;
            },
        }
        i = i + 1;
    }
    proof {
        crate::analyze::lemma_take_all(vs);
    }
    Feedback { positive_amount: up, negative_amount: down }
}

} // verus!
