//! The traversal and aggregation engine: folds every conversation's
//! node mapping into one `Analysis` record, in one pass, skipping the
//! reserved placeholder node and nodes without a message.

use vstd::prelude::*;
use crate::ext::parse_url;
use crate::ext::trim_of;
use crate::ext::trim_str;
use crate::ext::url_host;
use crate::ext::url_norm;
use crate::ext::url_ok;
use crate::hist::Hist;
use crate::hist::bump;
use crate::json::JsonView;
use crate::model::Analysis;
use crate::model::Author;
use crate::model::ContentInner;
use crate::model::ConversationRoot;
use crate::model::ConvView;
use crate::model::Message;
use crate::model::MessageContent;
use crate::model::MessageMetadata;
use crate::model::MsgView;
use crate::model::NodeView;
use crate::model::NumKey;
use crate::model::seq_view;
use crate::model::pairs_view;
use crate::text::spec_split_sp;
use crate::text::spec_starts_http;
use crate::text::split_spaces;
use crate::text::starts_with_http;
use crate::text::str_eq;

verus! {

/// The reserved id of the client-generated placeholder root node; it
/// carries no message and is excluded from every count.
pub open spec fn placeholder_id() -> Seq<char> {
    "client-created-root"@
}

/// Whether a mapping entry is counted: not the placeholder node, and
/// carrying a message.
pub open spec fn counted(e: (Seq<char>, NodeView)) -> bool {
    e.0 != placeholder_id() && e.1.message is Some
}

/// The message of a counted entry.
pub open spec fn node_msg(e: (Seq<char>, NodeView)) -> MsgView
    recommends
        counted(e),
{
    e.1.message.unwrap()
}

/// The always-true message predicate.
pub open spec fn p_any() -> spec_fn(MsgView) -> bool {
    |m: MsgView| true
}

/// Messages whose author role is exactly `system`.
pub open spec fn p_system() -> spec_fn(MsgView) -> bool {
    |m: MsgView| m.author.role == "system"@
}

/// Messages whose author role is exactly `user`.
pub open spec fn p_user() -> spec_fn(MsgView) -> bool {
    |m: MsgView| m.author.role == "user"@
}

/// Messages whose author role is neither `system` nor `user`.
pub open spec fn p_other() -> spec_fn(MsgView) -> bool {
    |m: MsgView| m.author.role != "system"@ && m.author.role != "user"@
}

/// Messages whose status is not the success sentinel.
pub open spec fn p_unfinished() -> spec_fn(MsgView) -> bool {
    |m: MsgView| m.status != "finished_successfully"@
}

/// The number of counted entries of `m` whose message satisfies `p`.
pub open spec fn n_cnt(m: Seq<(Seq<char>, NodeView)>, p: spec_fn(MsgView) -> bool) -> nat
    decreases m.len(),
{
    if m.len() == 0 {
        0
    } else {
        n_cnt(m.drop_last(), p) + (if counted(m.last()) && p(node_msg(m.last())) {
            1nat
        } else {
            0nat
        })
    }
}

/// The number of counted messages of all of `cs` satisfying `p`.
pub open spec fn c_cnt(cs: Seq<ConvView>, p: spec_fn(MsgView) -> bool) -> nat
    decreases cs.len(),
{
    if cs.len() == 0 {
        0
    } else {
        c_cnt(cs.drop_last(), p) + n_cnt(cs.last().mapping, p)
    }
}

/// `n`, stopped at the largest `u64`.
pub open spec fn sat64(n: nat) -> u64 {
    if n >= u64::MAX {
        u64::MAX
    } else {
        n as u64
    }
}

/// The voice identifiers declared by the conversations, in order.
pub open spec fn voices_of(cs: Seq<ConvView>) -> Seq<Seq<char>>
    decreases cs.len(),
{
    if cs.len() == 0 {
        Seq::empty()
    } else {
        voices_of(cs.drop_last()) + (match cs.last().voice {
            Some(v) => seq![v],
            None => Seq::empty(),
        })
    }
}

/// The creation-time keys of the counted messages of one mapping.
pub open spec fn times_nodes(m: Seq<(Seq<char>, NodeView)>) -> Seq<NumKey>
    decreases m.len(),
{
    if m.len() == 0 {
        Seq::empty()
    } else {
        times_nodes(m.drop_last()) + (if counted(m.last()) && node_msg(m.last()).create_time
            is Some {
            seq![node_msg(m.last()).create_time.unwrap()]
        } else {
            Seq::empty()
        })
    }
}

/// The creation-time keys of all counted messages.
pub open spec fn times_of(cs: Seq<ConvView>) -> Seq<NumKey>
    decreases cs.len(),
{
    if cs.len() == 0 {
        Seq::empty()
    } else {
        times_of(cs.drop_last()) + times_nodes(cs.last().mapping)
    }
}

/// Threads the running minimum through one mapping: a counted message
/// with a creation time strictly below the current minimum replaces it
/// and records its id.
pub open spec fn oldest_nodes(m: Seq<(Seq<char>, NodeView)>, cur: (NumKey, Seq<char>)) -> (
    NumKey,
    Seq<char>,
)
    decreases m.len(),
{
    if m.len() == 0 {
        cur
    } else {
        let prev = oldest_nodes(m.drop_last(), cur);
        if counted(m.last()) && (node_msg(m.last()).create_time matches Some(t) && t < prev.0) {
            (node_msg(m.last()).create_time.unwrap(), node_msg(m.last()).id)
        } else {
            prev
        }
    }
}

/// Threads the running minimum through every conversation.
pub open spec fn oldest_of(cs: Seq<ConvView>, cur: (NumKey, Seq<char>)) -> (NumKey, Seq<char>)
    decreases cs.len(),
{
    if cs.len() == 0 {
        cur
    } else {
        oldest_nodes(cs.last().mapping, oldest_of(cs.drop_last(), cur))
    }
}

/// Bumps `acc` once for every key of `ks`, in order.
pub open spec fn keys_fold(acc: Map<Seq<char>, u64>, ks: Seq<Seq<char>>) -> Map<Seq<char>, u64>
    decreases ks.len(),
{
    if ks.len() == 0 {
        acc
    } else {
        bump(keys_fold(acc, ks.drop_last()), ks.last())
    }
}

/// The trimmed space-separated tokens of one text fragment.
pub open spec fn tokens_of(t: Seq<char>) -> Seq<Seq<char>> {
    spec_split_sp(t).map_values(|w: Seq<char>| trim_of(w))
}

/// The tokens of a multi-part text, part after part.
pub open spec fn parts_tokens(ps: Seq<Seq<char>>) -> Seq<Seq<char>>
    decreases ps.len(),
{
    if ps.len() == 0 {
        Seq::empty()
    } else {
        parts_tokens(ps.drop_last()) + tokens_of(ps.last())
    }
}

/// The text fragments a message contributes to the word histogram:
/// only the two textual content shapes carry any.
pub open spec fn msg_texts(msg: MsgView) -> Seq<Seq<char>> {
    match msg.content.inner {
        crate::model::InnerView::TextField { text } => seq![text],
        crate::model::InnerView::TextObject { parts } => parts,
        _ => Seq::empty(),
    }
}

/// The word-histogram keys of one message: every trimmed token of every
/// text fragment, for user-authored messages only.
pub open spec fn msg_words(msg: MsgView) -> Seq<Seq<char>> {
    if msg.author.role == "user"@ {
        parts_tokens(msg_texts(msg))
    } else {
        Seq::empty()
    }
}

/// The first value stored under `k` in an entry list.
pub open spec fn first_val(s: Seq<(Seq<char>, JsonView)>, k: Seq<char>) -> Option<JsonView>
    decreases s.len(),
{
    if s.len() == 0 {
        None
    } else {
        let r = first_val(s.drop_last(), k);
        if r is Some {
            r
        } else if s.last().0 == k {
            Some(s.last().1)
        } else {
            None
        }
    }
}

/// The model-histogram keys of one message: the `model_slug` entry of
/// the open metadata mapping, when it holds a string.
pub open spec fn msg_models(msg: MsgView) -> Seq<Seq<char>> {
    match first_val(msg.metadata.other, "model_slug"@) {
        Some(JsonView::Str(s)) => seq![s],
        _ => Seq::empty(),
    }
}

/// The author-histogram keys of one message: its display name, if any.
pub open spec fn msg_authors(msg: MsgView) -> Seq<Seq<char>> {
    match msg.author.name {
        Some(n) => seq![n],
        None => Seq::empty(),
    }
}

/// The content-type histogram keys of one message.
pub open spec fn msg_ctypes(msg: MsgView) -> Seq<Seq<char>> {
    seq![msg.content.content_type]
}

/// Folds the keys `f` yields for every counted message of one mapping.
pub open spec fn hist_nodes(
    m: Seq<(Seq<char>, NodeView)>,
    acc: Map<Seq<char>, u64>,
    f: spec_fn(MsgView) -> Seq<Seq<char>>,
) -> Map<Seq<char>, u64>
    decreases m.len(),
{
    if m.len() == 0 {
        acc
    } else {
        let prev = hist_nodes(m.drop_last(), acc, f);
        if counted(m.last()) {
            keys_fold(prev, f(node_msg(m.last())))
        } else {
            prev
        }
    }
}

/// Folds the keys `f` yields over every conversation.
pub open spec fn hist_of(
    cs: Seq<ConvView>,
    acc: Map<Seq<char>, u64>,
    f: spec_fn(MsgView) -> Seq<Seq<char>>,
) -> Map<Seq<char>, u64>
    decreases cs.len(),
{
    if cs.len() == 0 {
        acc
    } else {
        hist_nodes(cs.last().mapping, hist_of(cs.drop_last(), acc, f), f)
    }
}

/// The named key generators.
pub open spec fn f_ctypes() -> spec_fn(MsgView) -> Seq<Seq<char>> {
    |m: MsgView| msg_ctypes(m)
}

pub open spec fn f_authors() -> spec_fn(MsgView) -> Seq<Seq<char>> {
    |m: MsgView| msg_authors(m)
}

pub open spec fn f_models() -> spec_fn(MsgView) -> Seq<Seq<char>> {
    |m: MsgView| msg_models(m)
}

pub open spec fn f_words() -> spec_fn(MsgView) -> Seq<Seq<char>> {
    |m: MsgView| msg_words(m)
}

/// The citation URLs of one message, in citation-list order.
pub open spec fn urls_of_items(items: Seq<crate::model::ItemView>) -> Seq<Seq<char>>
    decreases items.len(),
{
    if items.len() == 0 {
        Seq::empty()
    } else {
        urls_of_items(items.drop_last()) + (match items.last().url {
            Some(u) => seq![u],
            None => Seq::empty(),
        })
    }
}

pub open spec fn msg_urls(msg: MsgView) -> Seq<Seq<char>> {
    match msg.metadata.cite_metadata {
        Some(cm) => urls_of_items(cm.metadata_list),
        None => Seq::empty(),
    }
}

/// The citation URLs of every counted message of one mapping.
pub open spec fn urls_nodes(m: Seq<(Seq<char>, NodeView)>) -> Seq<Seq<char>>
    decreases m.len(),
{
    if m.len() == 0 {
        Seq::empty()
    } else {
        urls_nodes(m.drop_last()) + (if counted(m.last()) {
            msg_urls(node_msg(m.last()))
        } else {
            Seq::empty()
        })
    }
}

/// The citation URLs of the whole archive, in traversal order.
pub open spec fn urls_of(cs: Seq<ConvView>) -> Seq<Seq<char>>
    decreases cs.len(),
{
    if cs.len() == 0 {
        Seq::empty()
    } else {
        urls_of(cs.drop_last()) + urls_nodes(cs.last().mapping)
    }
}

/// Why resolving one citation URL fails, if it does.  Only URLs with the
/// `http` scheme prefix are resolved at all.
pub open spec fn url_err(u: Seq<char>) -> Option<AnalyzeErrView> {
    if !spec_starts_http(u) {
        None
    } else if !url_ok(u) {
        Some(AnalyzeErrView::InvalidCitationUrl(u))
    } else if url_host(u) is None {
        Some(AnalyzeErrView::UnresolvableCitationHost(u))
    } else {
        None
    }
}

/// The first citation URL of `us` that fails to resolve.
pub open spec fn first_bad(us: Seq<Seq<char>>) -> Option<AnalyzeErrView>
    decreases us.len(),
{
    if us.len() == 0 {
        None
    } else {
        let r = first_bad(us.drop_last());
        if r is Some {
            r
        } else {
            url_err(us.last())
        }
    }
}

/// The full-URL histogram: one bump per resolvable http citation URL,
/// keyed by the normalized serialization.
pub open spec fn paths_fold(acc: Map<Seq<char>, u64>, us: Seq<Seq<char>>) -> Map<Seq<char>, u64>
    decreases us.len(),
{
    if us.len() == 0 {
        acc
    } else {
        let prev = paths_fold(acc, us.drop_last());
        let u = us.last();
        if spec_starts_http(u) && url_ok(u) && url_host(u) is Some {
            bump(prev, url_norm(u))
        } else {
            prev
        }
    }
}

/// The hostname histogram: one bump per resolvable http citation URL,
/// keyed by the host component.
pub open spec fn hosts_fold(acc: Map<Seq<char>, u64>, us: Seq<Seq<char>>) -> Map<Seq<char>, u64>
    decreases us.len(),
{
    if us.len() == 0 {
        acc
    } else {
        let prev = hosts_fold(acc, us.drop_last());
        let u = us.last();
        if spec_starts_http(u) && url_ok(u) && url_host(u) is Some {
            bump(prev, url_host(u).unwrap())
        } else {
            prev
        }
    }
}

/// Why an analysis run fails: a citation URL that the URL parser
/// rejects, or one that parses but yields no host.
#[derive(Debug)]
pub enum AnalyzeError {
    InvalidCitationUrl(String),
    UnresolvableCitationHost(String),
}

pub enum AnalyzeErrView {
    InvalidCitationUrl(Seq<char>),
    UnresolvableCitationHost(Seq<char>),
}

impl View for AnalyzeError {
    type V = AnalyzeErrView;

    open spec fn view(&self) -> AnalyzeErrView {
        match self {
            AnalyzeError::InvalidCitationUrl(u) => AnalyzeErrView::InvalidCitationUrl(u@),
            AnalyzeError::UnresolvableCitationHost(u) => AnalyzeErrView::UnresolvableCitationHost(
                u@,
            ),
        }
    }
}

/// `s.take(i + 1)` is `s.take(i)` plus `s[i]`.
pub proof fn lemma_take_succ<A>(s: Seq<A>, i: int)
    requires
        0 <= i < s.len(),
    ensures
        s.take(i + 1).drop_last() == s.take(i),
        s.take(i + 1).last() == s[i],
        s.take(i + 1).len() == i + 1,
{
    assert(s.take(i + 1).drop_last() =~= s.take(i));
}

/// A whole sequence is its own `take`.
pub proof fn lemma_take_all<A>(s: Seq<A>)
    ensures
        s.take(s.len() as int) == s,
{
    assert(s.take(s.len() as int) =~= s);
}

/// Folding the keys of `a + b` folds `a` first, then `b`.
pub proof fn lemma_keys_fold_add(acc: Map<Seq<char>, u64>, a: Seq<Seq<char>>, b: Seq<Seq<char>>)
    ensures
        keys_fold(acc, a + b) == keys_fold(keys_fold(acc, a), b),
    decreases b.len(),
{
    if b.len() == 0 {
        assert(a + b =~= a);
    } else {
        lemma_keys_fold_add(acc, a, b.drop_last());
        assert((a + b).drop_last() =~= a + b.drop_last());
        assert((a + b).last() == b.last());
    }
}

/// Folding a single key is one bump.
pub proof fn lemma_keys_fold_single(acc: Map<Seq<char>, u64>, k: Seq<char>)
    ensures
        keys_fold(acc, seq![k]) == bump(acc, k),
{
    assert(seq![k].drop_last() =~= Seq::<Seq<char>>::empty());
    assert(keys_fold(acc, Seq::<Seq<char>>::empty()) == acc);
}

/// A failure found in a prefix stays the overall first failure.
pub proof fn lemma_first_bad_persists(us: Seq<Seq<char>>, i: int)
    requires
        0 <= i <= us.len(),
        first_bad(us.take(i)) is Some,
    ensures
        first_bad(us) == first_bad(us.take(i)),
    decreases us.len() - i,
{
    if i < us.len() {
        lemma_take_succ(us, i);
        lemma_first_bad_persists(us, i + 1);
    } else {
        lemma_take_all(us);
    }
}

/// A found `model_slug` value in a prefix stays the overall first value.
pub proof fn lemma_first_val_persists(s: Seq<(Seq<char>, JsonView)>, k: Seq<char>, i: int)
    requires
        0 <= i <= s.len(),
        first_val(s.take(i), k) is Some,
    ensures
        first_val(s, k) == first_val(s.take(i), k),
    decreases s.len() - i,
{
    if i < s.len() {
        lemma_take_succ(s, i);
        lemma_first_val_persists(s, k, i + 1);
    } else {
        lemma_take_all(s);
    }
}

/// Adds every trimmed space-separated token of `text` to the word
/// histogram.
fn bump_words(words: &mut Hist, text: &str)
    requires
        old(words).wf(),
    ensures
        final(words).wf(),
        final(words).as_map() == keys_fold(old(words).as_map(), tokens_of(text@)),
{
    let toks = split_spaces(text);
    let n = toks.len();
    let mut i: usize = 0;
    proof {
        assert(tokens_of(text@).take(0) =~= Seq::<Seq<char>>::empty());
    }
    while i < n
        invariant
            words.wf(),
            n == toks.len(),
            i <= n,
            toks@.map_values(|t: String| t@) == spec_split_sp(text@),
            words.as_map() == keys_fold(old(words).as_map(), tokens_of(text@).take(i as int)),
        decreases n - i,
    {
        let trimmed = trim_str(toks[i].as_str());
        proof {
            lemma_take_succ(tokens_of(text@), i as int);
            let raw = toks@.map_values(|t: String| t@);
            assert(tokens_of(text@)[i as int] == trim_of(raw[i as int]));
        }
        words.bump(trimmed.as_str());
        i = i + 1;
    }
    proof {
        lemma_take_all(tokens_of(text@));
    }
}

/// Consumes an owned conversation list and folds it into one
/// `Analysis`.  `now` is the sentinel minimum (the wall-clock time at
/// aggregation start, as a `NumKey`); when no message carries a
/// creation time, `oldest_message_time` stays at `now` and
/// `oldest_message_id` stays empty.  The call fails exactly when some
/// `http`-prefixed citation URL cannot be parsed or yields no host; the
/// first such URL in traversal order decides the error.
#[verifier::rlimit(100)]
#[verifier::loop_isolation(false)]
pub fn analyze_conversations(conversations: Vec<ConversationRoot>, now: NumKey) -> (r: Result<
    Analysis,
    AnalyzeError,
>)
    ensures
        r is Ok <==> first_bad(urls_of(seq_view(conversations@))) is None,
        r matches Err(e) ==> first_bad(urls_of(seq_view(conversations@))) == Some(e@),
        r matches Ok(a) ==> {
            let vs = seq_view(conversations@);
            &&& a.chat_amount == vs.len()
            &&& a.messages_from_chatgpt == sat64(c_cnt(vs, p_system()))
            &&& a.messages_from_user == sat64(c_cnt(vs, p_user()))
            &&& a.unfinished_messages == sat64(c_cnt(vs, p_unfinished()))
            &&& a.models_used.wf() && a.models_used.as_map() == hist_of(
                vs,
                Map::empty(),
                f_models(),
            )
            &&& a.content_types.wf() && a.content_types.as_map() == hist_of(
                vs,
                Map::empty(),
                f_ctypes(),
            )
            &&& a.authors.wf() && a.authors.as_map() == hist_of(vs, Map::empty(), f_authors())
            &&& a.words.wf() && a.words.as_map() == hist_of(vs, Map::empty(), f_words())
            &&& seq_view(a.voices_used@) == voices_of(vs)
            &&& a.messages_sent@ == times_of(vs)
            &&& (a.oldest_message_time, a.oldest_message_id@) == oldest_of(
                vs,
                (now, Seq::<char>::empty()),
            )
            &&& a.website_paths.wf() && a.website_paths.as_map() == paths_fold(
                Map::empty(),
                urls_of(vs),
            )
            &&& a.searched_websites.wf() && a.searched_websites.as_map() == hosts_fold(
                Map::empty(),
                urls_of(vs),
            )
        },
{
    proof {
        reveal_strlit("system");
        reveal_strlit("user");
    }
    let ghost vs = seq_view(conversations@);
    let n_convs = conversations.len();
    let chat_amount: u64 = n_convs as u64;
    let mut rest = conversations;
    let mut sys: u64 = 0;
    let mut user: u64 = 0;
    let mut unfin: u64 = 0;
    let mut models = Hist::new();
    let mut content_types = Hist::new();
    let mut authors = Hist::new();
    let mut words = Hist::new();
    let mut sent: Vec<NumKey> = Vec::new();
    let mut oldest_time: NumKey = now;
    let mut oldest_id: String = String::new();
    let mut voices: Vec<String> = Vec::new();
    let mut urls: Vec<String> = Vec::new();
    let mut i: usize = 0;
    proof {
        assert(vs.take(0) =~= Seq::<ConvView>::empty());
        assert(seq_view(voices@) =~= Seq::<Seq<char>>::empty());
        assert(seq_view(urls@) =~= Seq::<Seq<char>>::empty());
    }
    while i < n_convs
        invariant
            i <= n_convs,
            n_convs == vs.len(),
            rest@.len() == n_convs - i,
            forall|k: int| 0 <= k < rest@.len() ==> rest@[k]@ == vs[i + k],
            sys == sat64(c_cnt(vs.take(i as int), p_system())),
            user == sat64(c_cnt(vs.take(i as int), p_user())),
            unfin == sat64(c_cnt(vs.take(i as int), p_unfinished())),
            models.wf() && models.as_map() == hist_of(vs.take(i as int), Map::empty(), f_models()),
            content_types.wf() && content_types.as_map() == hist_of(
                vs.take(i as int),
                Map::empty(),
                f_ctypes(),
            ),
            authors.wf() && authors.as_map() == hist_of(vs.take(i as int), Map::empty(), f_authors()),
            words.wf() && words.as_map() == hist_of(vs.take(i as int), Map::empty(), f_words()),
            sent@ == times_of(vs.take(i as int)),
            (oldest_time, oldest_id@) == oldest_of(vs.take(i as int), (now, Seq::<char>::empty())),
            seq_view(voices@) == voices_of(vs.take(i as int)),
            seq_view(urls@) == urls_of(vs.take(i as int)),
        decreases n_convs - i,
    {
        let c = rest.remove(0);
        proof {
            assert(c@ == vs[i as int]);
            assert forall|k: int| 0 <= k < rest@.len() implies rest@[k]@ == vs[i + 1 + k] by {}
        }
        let ghost cv = vs[i as int];
        let ConversationRoot { mapping, voice, .. } = c;
        let ghost mv = cv.mapping;
        let ghost sys0 = c_cnt(vs.take(i as int), p_system());
        let ghost user0 = c_cnt(vs.take(i as int), p_user());
        let ghost unfin0 = c_cnt(vs.take(i as int), p_unfinished());
        let ghost mo0 = hist_of(vs.take(i as int), Map::empty(), f_models());
        let ghost ct0 = hist_of(vs.take(i as int), Map::empty(), f_ctypes());
        let ghost au0 = hist_of(vs.take(i as int), Map::empty(), f_authors());
        let ghost wo0 = hist_of(vs.take(i as int), Map::empty(), f_words());
        let ghost se0 = times_of(vs.take(i as int));
        let ghost ol0 = oldest_of(vs.take(i as int), (now, Seq::<char>::empty()));
        let ghost ur0 = urls_of(vs.take(i as int));
        let mut mrest = mapping;
        let n_nodes = mrest.len();
        let mut j: usize = 0;
        proof {
            assert(pairs_view(mrest@) == mv);
            assert(mv.take(0) =~= Seq::<(Seq<char>, NodeView)>::empty());
            assert(se0 + Seq::<NumKey>::empty() =~= se0);
            assert(ur0 + Seq::<Seq<char>>::empty() =~= ur0);
        }
        while j < n_nodes
            invariant
                j <= n_nodes,
                n_nodes == mv.len(),
                mrest@.len() == n_nodes - j,
                forall|k: int|
                    0 <= k < mrest@.len() ==> (mrest@[k].0@, mrest@[k].1@) == mv[j + k],
                sys == sat64(sys0 + n_cnt(mv.take(j as int), p_system())),
                user == sat64(user0 + n_cnt(mv.take(j as int), p_user())),
                unfin == sat64(unfin0 + n_cnt(mv.take(j as int), p_unfinished())),
                models.wf() && models.as_map() == hist_nodes(mv.take(j as int), mo0, f_models()),
                content_types.wf() && content_types.as_map() == hist_nodes(
                    mv.take(j as int),
                    ct0,
                    f_ctypes(),
                ),
                authors.wf() && authors.as_map() == hist_nodes(mv.take(j as int), au0, f_authors()),
                words.wf() && words.as_map() == hist_nodes(mv.take(j as int), wo0, f_words()),
                sent@ == se0 + times_nodes(mv.take(j as int)),
                (oldest_time, oldest_id@) == oldest_nodes(mv.take(j as int), ol0),
                seq_view(voices@) == voices_of(vs.take(i as int)),
                seq_view(urls@) == ur0 + urls_nodes(mv.take(j as int)),
            decreases n_nodes - j,
        {
            let (key, node) = mrest.remove(0);
            proof {
                assert((key@, node@) == mv[j as int]);
                assert forall|k: int|
                    0 <= k < mrest@.len() implies (mrest@[k].0@, mrest@[k].1@) == mv[j + 1 + k] by {}
                lemma_take_succ(mv, j as int);
            }
            let ghost e = mv[j as int];
            if str_eq(key.as_str(), "client-created-root") {
                proof {
                    assert(!counted(e));
                    assert(se0 + times_nodes(mv.take(j + 1)) =~= se0 + times_nodes(
                        mv.take(j as int),
                    ));
                    assert(ur0 + urls_nodes(mv.take(j + 1)) =~= ur0 + urls_nodes(
                        mv.take(j as int),
                    ));
                }
            } else {
                match node.message {
                    None => {
                        proof {
                            assert(!counted(e));
                            assert(se0 + times_nodes(mv.take(j + 1)) =~= se0 + times_nodes(
                                mv.take(j as int),
                            ));
                            assert(ur0 + urls_nodes(mv.take(j + 1)) =~= ur0 + urls_nodes(
                                mv.take(j as int),
                            ));
                        }
                    },
                    Some(msg) => {
                        proof {
                            assert(counted(e));
                            assert(node_msg(e) == msg@);
                        }
                        let ghost m = msg@;
                        let Message { id, author, create_time, content, status, metadata, .. } =
                            msg;
                        let Author { role, name, .. } = author;
                        let MessageContent { content_type, inner, .. } = content;
                        let MessageMetadata { cite_metadata, other, .. } = metadata;
                        let ghost words_at_msg = words.as_map();
                        if str_eq(role.as_str(), "system") {
                            if sys < u64::MAX {
                                sys = sys + 1;
                            }
                        } else if str_eq(role.as_str(), "user") {
                            if user < u64::MAX {
                                user = user + 1;
                            }
                            match &inner {
                                ContentInner::TextField { text } => {
                                    bump_words(&mut words, text.as_str());
                                    proof {
                                        assert(msg_texts(m) =~= seq![text@]);
                                        assert(seq![text@].drop_last() =~= Seq::<
                                            Seq<char>,
                                        >::empty());
                                        assert(parts_tokens(Seq::<Seq<char>>::empty())
                                            == Seq::<Seq<char>>::empty());
                                        assert(Seq::<Seq<char>>::empty() + tokens_of(text@)
                                            =~= tokens_of(text@));
                                        assert(parts_tokens(seq![text@]) == tokens_of(text@));
                                        assert(words.as_map() == keys_fold(
                                            words_at_msg,
                                            msg_words(m),
                                        ));
                                    }
                                },
                                ContentInner::TextObject { parts } => {
                                    let np = parts.len();
                                    let mut kk: usize = 0;
                                    let ghost pv = seq_view(parts@);
                                    proof {
                                        assert(msg_texts(m) == pv);
                                        assert(pv.take(0) =~= Seq::<Seq<char>>::empty());
                                    }
                                    while kk < np
                                        invariant
                                            kk <= np,
                                            np == parts.len(),
                                            pv == seq_view(parts@),
                                            words.wf(),
                                            words.as_map() == keys_fold(
                                                words_at_msg,
                                                parts_tokens(pv.take(kk as int)),
                                            ),
                                        decreases np - kk,
                                    {
                                        proof {
                                            lemma_take_succ(pv, kk as int);
                                            lemma_keys_fold_add(
                                                words_at_msg,
                                                parts_tokens(pv.take(kk as int)),
                                                tokens_of(pv[kk as int]),
                                            );
                                        }
                                        bump_words(&mut words, parts[kk].as_str());
                                        kk = kk + 1;
                                    }
                                    proof {
                                        lemma_take_all(pv);
                                        assert(words.as_map() == keys_fold(
                                            words_at_msg,
                                            msg_words(m),
                                        ));
                                    }
                                },
                                _ => {
                                    proof {
                                        assert(msg_texts(m) =~= Seq::<Seq<char>>::empty());
                                        assert(words.as_map() == keys_fold(
                                            words_at_msg,
                                            msg_words(m),
                                        ));
                                    }
                                },
                            }
                        }
                        if let Some(nm) = name {
                            proof {
                                lemma_keys_fold_single(authors.as_map(), nm@);
                            }
                            authors.bump(nm.as_str());
                        }
                        if !str_eq(status.as_str(), "finished_successfully") {
                            if unfin < u64::MAX {
                                unfin = unfin + 1;
                            }
                        }
                        proof {
                            lemma_keys_fold_single(content_types.as_map(), content_type@);
                        }
                        content_types.bump(content_type.as_str());
                        let ghost ov = pairs_view(other@);
                        proof {
                            assert(ov == m.metadata.other);
                            assert(ov.take(0) =~= Seq::<(Seq<char>, JsonView)>::empty());
                        }
                        let n_other = other.len();
                        let mut oo: usize = 0;
                        let mut slug_done = false;
                        while oo < n_other && !slug_done
                            invariant
                                oo <= n_other,
                                n_other == other@.len(),
                                ov == pairs_view(other@),
                                models.wf(),
                                !slug_done ==> {
                                    &&& first_val(ov.take(oo as int), "model_slug"@) is None
                                    &&& models.as_map() == hist_nodes(
                                        mv.take(j as int),
                                        mo0,
                                        f_models(),
                                    )
                                },
                                slug_done ==> models.as_map() == keys_fold(
                                    hist_nodes(mv.take(j as int), mo0, f_models()),
                                    msg_models(m),
                                ),
                            decreases n_other - oo + (if slug_done { 0int } else { 1int }),
                        {
                            if str_eq(other[oo].0.as_str(), "model_slug") {
                                proof {
                                    lemma_take_succ(ov, oo as int);
                                    let op = other@[oo as int];
                                    assert(ov[oo as int] == (op.0@, op.1@));
                                    assert(first_val(ov.take(oo + 1), "model_slug"@) == Some(
                                        ov[oo as int].1,
                                    ));
                                    lemma_first_val_persists(ov, "model_slug"@, oo + 1);
                                }
                                match &other[oo].1 {
                                    crate::json::Json::Str(s) => {
                                        proof {
                                            lemma_keys_fold_single(models.as_map(), s@);
                                            assert(msg_models(m) =~= seq![s@]);
                                        }
                                        models.bump(s.as_str());
                                    },
                                    _ => {
                                        proof {
                                            assert(msg_models(m) =~= Seq::<Seq<char>>::empty());
                                        }
                                    },
                                }
                                slug_done = true;
                            } else {
                                proof {
                                    lemma_take_succ(ov, oo as int);
                                    let op = other@[oo as int];
                                    assert(ov[oo as int] == (op.0@, op.1@));
                                    assert(first_val(ov.take(oo + 1), "model_slug"@) is None);
                                }
                                oo = oo + 1;
                            }
                        }
                        if !slug_done {
                            proof {
                                lemma_take_all(ov);
                                assert(first_val(ov, "model_slug"@) is None);
                                assert(msg_models(m) =~= Seq::<Seq<char>>::empty());
                            }
                        }
                        let ghost urls_at_msg = seq_view(urls@);
                        match cite_metadata {
                            Some(cm) => {
                                let mut items = cm.metadata_list;
                                let ghost iv = m.metadata.cite_metadata.unwrap().metadata_list;
                                let n_items = items.len();
                                let mut kk: usize = 0;
                                proof {
                                    assert(seq_view(items@) == iv);
                                    assert(iv.take(0) =~= Seq::<crate::model::ItemView>::empty());
                                    assert(urls_at_msg + urls_of_items(iv.take(0)) =~= urls_at_msg);
                                }
                                while kk < n_items
                                    invariant
                                        kk <= n_items,
                                        n_items == iv.len(),
                                        items@.len() == n_items - kk,
                                        forall|k: int|
                                            0 <= k < items@.len() ==> items@[k]@ == iv[kk + k],
                                        seq_view(urls@) == urls_at_msg + urls_of_items(
                                            iv.take(kk as int),
                                        ),
                                    decreases n_items - kk,
                                {
                                    let item = items.remove(0);
                                    proof {
                                        assert(item@ == iv[kk as int]);
                                        assert forall|k: int|
                                            0 <= k < items@.len() implies items@[k]@ == iv[kk + 1
                                            + k] by {}
                                        lemma_take_succ(iv, kk as int);
                                    }
                                    if let Some(u) = item.url {
                                        proof {
                                            assert(seq_view(urls@.push(u)) =~= seq_view(urls@)
                                                + seq![u@]);
                                            assert(urls_at_msg + urls_of_items(iv.take(kk + 1))
                                                =~= (urls_at_msg + urls_of_items(
                                                iv.take(kk as int),
                                            )) + seq![u@]);
                                        }
                                        urls.push(u);
                                    } else {
                                        proof {
                                            assert(urls_at_msg + urls_of_items(iv.take(kk + 1))
                                                =~= urls_at_msg + urls_of_items(iv.take(kk as int)));
                                        }
                                    }
                                    kk = kk + 1;
                                }
                                proof {
                                    lemma_take_all(iv);
                                    assert(seq_view(urls@) == urls_at_msg + msg_urls(m));
                                }
                            },
                            None => {
                                proof {
                                    assert(urls_at_msg + msg_urls(m) =~= urls_at_msg);
                                }
                            },
                        }
                        if let Some(t) = create_time {
                            if t < oldest_time {
                                oldest_time = t;
                                oldest_id = id;
                            }
                            sent.push(t);
                            proof {
                                assert(se0 + times_nodes(mv.take(j + 1)) =~= (se0 + times_nodes(
                                    mv.take(j as int),
                                )) + seq![t]);
                            }
                        } else {
                            proof {
                                assert(se0 + times_nodes(mv.take(j + 1)) =~= se0 + times_nodes(
                                    mv.take(j as int),
                                ));
                            }
                        }
                        proof {
                            assert(ur0 + urls_nodes(mv.take(j + 1)) =~= (ur0 + urls_nodes(
                                mv.take(j as int),
                            )) + msg_urls(m));
                            assert(seq_view(urls@) == ur0 + urls_nodes(mv.take(j + 1)));
                            reveal_strlit("system");
                            reveal_strlit("user");
                            assert("system"@.len() == 6);
                            assert("user"@.len() == 4);
                            assert("system"@ != "user"@);
                            assert(m.author.role == role@);
                            assert(node_msg(e) == m);
                            let wbase = hist_nodes(mv.take(j as int), wo0, f_words());
                            assert(words_at_msg == wbase);
                            assert(f_words()(node_msg(e)) == msg_words(m));
                            assert(keys_fold(wbase, Seq::<Seq<char>>::empty()) == wbase);
                            assert(words.as_map() == keys_fold(wbase, msg_words(m)));
                            assert(words.as_map() == hist_nodes(mv.take(j + 1), wo0, f_words()));
                        }
                    },
                }
            }
            j = j + 1;
        }
        proof {
            lemma_take_all(mv);
            lemma_take_succ(vs, i as int);
        }
        if let Some(v) = voice {
            proof {
                assert(seq_view(voices@.push(v)) =~= seq_view(voices@) + seq![v@]);
                assert(voices_of(vs.take(i + 1)) =~= voices_of(vs.take(i as int)) + seq![v@]);
            }
            voices.push(v);
        } else {
            proof {
                assert(voices_of(vs.take(i + 1)) =~= voices_of(vs.take(i as int)));
            }
        }
        i = i + 1;
    }
    proof {
        lemma_take_all(vs);
    }
    let mut paths = Hist::new();
    let mut sites = Hist::new();
    let ghost uv = seq_view(urls@);
    let nu = urls.len();
    let mut k: usize = 0;
    proof {
        assert(uv.take(0) =~= Seq::<Seq<char>>::empty());
    }
    while k < nu
        invariant
            k <= nu,
            nu == urls@.len(),
            uv == seq_view(urls@),
            uv == urls_of(vs),
            first_bad(uv.take(k as int)) is None,
            paths.wf() && paths.as_map() == paths_fold(Map::empty(), uv.take(k as int)),
            sites.wf() && sites.as_map() == hosts_fold(Map::empty(), uv.take(k as int)),
        decreases nu - k,
    {
        proof {
            lemma_take_succ(uv, k as int);
        }
        if starts_with_http(urls[k].as_str()) {
            match parse_url(urls[k].as_str()) {
                None => {
                    let bad = urls[k].clone();
                    proof {
                        assert(first_bad(uv.take(k + 1)) == Some(
                            AnalyzeErrView::InvalidCitationUrl(uv[k as int]),
                        ));
                        lemma_first_bad_persists(uv, k + 1);
                    }
                    return Err(AnalyzeError::InvalidCitationUrl(bad));
                },
                Some((norm, host)) => {
                    match host {
                        None => {
                            let bad = urls[k].clone();
                            proof {
                                assert(first_bad(uv.take(k + 1)) == Some(
                                    AnalyzeErrView::UnresolvableCitationHost(uv[k as int]),
                                ));
                                lemma_first_bad_persists(uv, k + 1);
                            }
                            return Err(AnalyzeError::UnresolvableCitationHost(bad));
                        },
                        Some(h) => {
                            paths.bump(norm.as_str());
                            sites.bump(h.as_str());
                        },
                    }
                },
            }
        }
        k = k + 1;
    }
    proof {
        lemma_take_all(uv);
    }
    Ok(
        Analysis {
            chat_amount,
            messages_from_chatgpt: sys,
            messages_from_user: user,
            unfinished_messages: unfin,
            models_used: models,
            messages_sent: sent,
            content_types,
            oldest_message_time: oldest_time,
            oldest_message_id: oldest_id,
            authors,
            voices_used: voices,
            searched_websites: sites,
            website_paths: paths,
            words,
        },
    )
}

} // verus!
