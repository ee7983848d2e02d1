//! Laws the aggregation obeys, proved once and for all against the fold
//! functions that `analyze_conversations` is specified by.

use vstd::prelude::*;
use crate::analyze::c_cnt;
use crate::analyze::counted;
use crate::analyze::f_words;
use crate::analyze::hist_nodes;
use crate::analyze::hist_of;
use crate::analyze::keys_fold;
use crate::analyze::msg_texts;
use crate::analyze::msg_words;
use crate::analyze::n_cnt;
use crate::analyze::node_msg;
use crate::analyze::oldest_nodes;
use crate::analyze::oldest_of;
use crate::analyze::p_any;
use crate::analyze::p_other;
use crate::analyze::p_system;
use crate::analyze::p_user;
use crate::analyze::parts_tokens;
use crate::analyze::placeholder_id;
use crate::analyze::times_nodes;
use crate::analyze::times_of;
use crate::analyze::tokens_of;
use crate::analyze::urls_nodes;
use crate::analyze::urls_of;
use crate::model::ConvView;
use crate::model::MsgView;
use crate::model::NodeView;
use crate::model::NumKey;

verus! {

/// Within one mapping, every counted message is exactly one of
/// system-authored, user-authored, or other-authored.
proof fn lemma_role_partition_nodes(m: Seq<(Seq<char>, NodeView)>)
    ensures
        n_cnt(m, p_system()) + n_cnt(m, p_user()) + n_cnt(m, p_other()) == n_cnt(m, p_any()),
    decreases m.len(),
{
    reveal_strlit("system");
    reveal_strlit("user");
    assert("system"@.len() == 6);
    assert("user"@.len() == 4);
    if m.len() > 0 {
        lemma_role_partition_nodes(m.drop_last());
    }
}

/// The system, user and other-role message counts partition the counted
/// messages: their sum is the total number of nodes that carry a
/// message, the placeholder node excluded.
pub proof fn lemma_role_partition(cs: Seq<ConvView>)
    ensures
        c_cnt(cs, p_system()) + c_cnt(cs, p_user()) + c_cnt(cs, p_other()) == c_cnt(cs, p_any()),
    decreases cs.len(),
{
    if cs.len() > 0 {
        lemma_role_partition(cs.drop_last());
        lemma_role_partition_nodes(cs.last().mapping);
    }
}

/// An entry under the reserved placeholder id contributes nothing: every
/// fold the analysis is specified by gives the same result with such an
/// entry appended, whatever node it holds.
pub proof fn lemma_placeholder_ignored(
    m: Seq<(Seq<char>, NodeView)>,
    node: NodeView,
    p: spec_fn(MsgView) -> bool,
    acc: Map<Seq<char>, u64>,
    f: spec_fn(MsgView) -> Seq<Seq<char>>,
    cur: (NumKey, Seq<char>),
)
    ensures
        n_cnt(m.push((placeholder_id(), node)), p) == n_cnt(m, p),
        hist_nodes(m.push((placeholder_id(), node)), acc, f) == hist_nodes(m, acc, f),
        times_nodes(m.push((placeholder_id(), node))) == times_nodes(m),
        oldest_nodes(m.push((placeholder_id(), node)), cur) == oldest_nodes(m, cur),
        urls_nodes(m.push((placeholder_id(), node))) == urls_nodes(m),
{
    let e = (placeholder_id(), node);
    let t = m.push(e);
    assert(t.drop_last() =~= m);
    assert(!counted(e));
    assert(times_nodes(m) + Seq::<NumKey>::empty() =~= times_nodes(m));
    assert(urls_nodes(m) + Seq::<Seq<char>>::empty() =~= urls_nodes(m));
}

/// No counted message of `m` carries a creation timestamp.
pub open spec fn no_times_nodes(m: Seq<(Seq<char>, NodeView)>) -> bool {
    forall|i: int|
        0 <= i < m.len() && counted(m[i]) ==> node_msg(#[trigger] m[i]).create_time is None
}

/// No counted message anywhere in `cs` carries a creation timestamp.
pub open spec fn no_times(cs: Seq<ConvView>) -> bool {
    forall|i: int| 0 <= i < cs.len() ==> no_times_nodes(#[trigger] cs[i].mapping)
}

proof fn lemma_no_timestamps_nodes(m: Seq<(Seq<char>, NodeView)>, cur: (NumKey, Seq<char>))
    requires
        no_times_nodes(m),
    ensures
        times_nodes(m) == Seq::<NumKey>::empty(),
        oldest_nodes(m, cur) == cur,
    decreases m.len(),
{
    if m.len() > 0 {
        assert(no_times_nodes(m.drop_last())) by {
            assert forall|i: int|
                0 <= i < m.drop_last().len() && counted(m.drop_last()[i]) implies node_msg(
                #[trigger] m.drop_last()[i],
            ).create_time is None by {
                assert(m.drop_last()[i] == m[i]);
            }
        }
        lemma_no_timestamps_nodes(m.drop_last(), cur);
        assert(m.last() == m[m.len() - 1]);
        assert(Seq::<NumKey>::empty() + Seq::<NumKey>::empty() =~= Seq::<NumKey>::empty());
    }
}

/// When no message in the archive carries a creation timestamp, the
/// timestamp list is empty and the running minimum never moves off its
/// sentinel, so the oldest-message id stays empty.
pub proof fn lemma_no_timestamps(cs: Seq<ConvView>, now: NumKey)
    requires
        no_times(cs),
    ensures
        times_of(cs) == Seq::<NumKey>::empty(),
        oldest_of(cs, (now, Seq::<char>::empty())) == (now, Seq::<char>::empty()),
{
    lemma_no_timestamps_general(cs, (now, Seq::<char>::empty()));
}

proof fn lemma_no_timestamps_general(cs: Seq<ConvView>, cur: (NumKey, Seq<char>))
    requires
        no_times(cs),
    ensures
        times_of(cs) == Seq::<NumKey>::empty(),
        oldest_of(cs, cur) == cur,
    decreases cs.len(),
{
    if cs.len() > 0 {
        assert(no_times(cs.drop_last())) by {
            assert forall|i: int|
                0 <= i < cs.drop_last().len() implies no_times_nodes(
                #[trigger] cs.drop_last()[i].mapping,
            ) by {
                assert(cs.drop_last()[i] == cs[i]);
            }
        }
        lemma_no_timestamps_general(cs.drop_last(), cur);
        assert(cs.last() == cs[cs.len() - 1]);
        lemma_no_timestamps_nodes(cs.last().mapping, cur);
        assert(Seq::<NumKey>::empty() + Seq::<NumKey>::empty() =~= Seq::<NumKey>::empty());
    }
}

/// The text fragments of the user-authored counted messages of one
/// mapping, in traversal order.
pub open spec fn user_texts_nodes(m: Seq<(Seq<char>, NodeView)>) -> Seq<Seq<char>>
    decreases m.len(),
{
    if m.len() == 0 {
        Seq::empty()
    } else {
        user_texts_nodes(m.drop_last()) + (if counted(m.last()) && node_msg(
            m.last(),
        ).author.role == "user"@ {
            msg_texts(node_msg(m.last()))
        } else {
            Seq::empty()
        })
    }
}

/// The text fragments of every user-authored counted message.
pub open spec fn user_texts(cs: Seq<ConvView>) -> Seq<Seq<char>>
    decreases cs.len(),
{
    if cs.len() == 0 {
        Seq::empty()
    } else {
        user_texts(cs.drop_last()) + user_texts_nodes(cs.last().mapping)
    }
}

/// Folds the trimmed tokens of each text, text after text.
pub open spec fn texts_fold(acc: Map<Seq<char>, u64>, ts: Seq<Seq<char>>) -> Map<Seq<char>, u64>
    decreases ts.len(),
{
    if ts.len() == 0 {
        acc
    } else {
        keys_fold(texts_fold(acc, ts.drop_last()), tokens_of(ts.last()))
    }
}

proof fn lemma_texts_fold_add(acc: Map<Seq<char>, u64>, a: Seq<Seq<char>>, b: Seq<Seq<char>>)
    ensures
        texts_fold(acc, a + b) == texts_fold(texts_fold(acc, a), b),
    decreases b.len(),
{
    if b.len() == 0 {
        assert(a + b =~= a);
    } else {
        lemma_texts_fold_add(acc, a, b.drop_last());
        assert((a + b).drop_last() =~= a + b.drop_last());
        assert((a + b).last() == b.last());
    }
}

proof fn lemma_parts_tokens_fold(acc: Map<Seq<char>, u64>, ts: Seq<Seq<char>>)
    ensures
        keys_fold(acc, parts_tokens(ts)) == texts_fold(acc, ts),
    decreases ts.len(),
{
    if ts.len() == 0 {
        assert(keys_fold(acc, Seq::<Seq<char>>::empty()) == acc);
    } else {
        lemma_parts_tokens_fold(acc, ts.drop_last());
        crate::analyze::lemma_keys_fold_add(
            acc,
            parts_tokens(ts.drop_last()),
            tokens_of(ts.last()),
        );
    }
}

proof fn lemma_words_nodes(m: Seq<(Seq<char>, NodeView)>, acc: Map<Seq<char>, u64>)
    ensures
        hist_nodes(m, acc, f_words()) == texts_fold(acc, user_texts_nodes(m)),
    decreases m.len(),
{
    if m.len() > 0 {
        lemma_words_nodes(m.drop_last(), acc);
        let prev = hist_nodes(m.drop_last(), acc, f_words());
        let tprev = user_texts_nodes(m.drop_last());
        if counted(m.last()) {
            let msg = node_msg(m.last());
            assert(f_words()(msg) == msg_words(msg));
            if msg.author.role == "user"@ {
                lemma_parts_tokens_fold(prev, msg_texts(msg));
                lemma_texts_fold_add(acc, tprev, msg_texts(msg));
            } else {
                assert(msg_words(msg) == Seq::<Seq<char>>::empty());
                assert(keys_fold(prev, Seq::<Seq<char>>::empty()) == prev);
                assert(tprev + Seq::<Seq<char>>::empty() =~= tprev);
            }
        } else {
            assert(tprev + Seq::<Seq<char>>::empty() =~= tprev);
        }
    }
}

/// The word histogram derives from the user-authored textual fragments
/// alone: folding the trimmed tokens of `user_texts(cs)` gives exactly
/// the word fold of the whole archive, so no system-authored message
/// and no non-textual content ever contributes an entry.
pub proof fn lemma_words_only_user_text(cs: Seq<ConvView>, acc: Map<Seq<char>, u64>)
    ensures
        hist_of(cs, acc, f_words()) == texts_fold(acc, user_texts(cs)),
    decreases cs.len(),
{
    if cs.len() > 0 {
        lemma_words_only_user_text(cs.drop_last(), acc);
        lemma_words_nodes(cs.last().mapping, hist_of(cs.drop_last(), acc, f_words()));
        lemma_texts_fold_add(acc, user_texts(cs.drop_last()), user_texts_nodes(cs.last().mapping));
    }
}

} // verus!
