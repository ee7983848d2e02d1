//! Re-encoding message metadata into the JSON document model, and the
//! round-trip law: decoding what was encoded gives the same logical
//! metadata, citation metadata included, whichever spelling the source
//! record used.

use vstd::prelude::*;
use crate::decode::sd_meta;
use crate::decode::lemma_take_key_found;
use crate::decode::lemma_take_key_none;
use crate::json::Json;
use crate::json::JsonNum;
use crate::json::JsonView;
use crate::model::CiteView;
use crate::model::ExtraView;
use crate::model::ItemView;
use crate::model::MetaView;
use crate::model::UserCtxView;
use crate::model::CitationMetadata;
use crate::model::MessageMetadata;
use crate::model::MetadataCitationExtra;
use crate::model::MetadataListItem;
use crate::model::UserContextData;

verus! {

/// An optional boolean, as JSON.
pub open spec fn se_opt_bool(o: Option<bool>) -> JsonView {
    match o {
        None => JsonView::Null,
        Some(b) => JsonView::Bool(b),
    }
}

/// An optional string, as JSON.
pub open spec fn se_opt_str(o: Option<Seq<char>>) -> JsonView {
    match o {
        None => JsonView::Null,
        Some(s) => JsonView::Str(s),
    }
}

/// An `i32`, as a JSON integer.
pub open spec fn se_i32(x: i32) -> JsonView {
    JsonView::Num(JsonNum { int: Some(x as i64), bits: None })
}

/// An optional `i32`, as JSON.
pub open spec fn se_opt_i32(o: Option<i32>) -> JsonView {
    match o {
        None => JsonView::Null,
        Some(x) => se_i32(x),
    }
}

/// The user-context record, as JSON.
pub open spec fn se_ctx(c: UserCtxView) -> JsonView {
    JsonView::Obj(
        seq![
            ("about_user_message"@, JsonView::Str(c.about_user_message)),
            ("about_model_message"@, se_opt_str(c.about_model_message)),
        ],
    )
}

pub open spec fn se_opt_ctx(o: Option<UserCtxView>) -> JsonView {
    match o {
        None => JsonView::Null,
        Some(c) => se_ctx(c),
    }
}

/// Extra citation details, as JSON.
pub open spec fn se_extra(e: ExtraView) -> JsonView {
    JsonView::Obj(
        seq![
            ("cited_message_idx"@, se_i32(e.cited_message_idx)),
            ("search_result_idx"@, se_opt_i32(e.search_result_idx)),
            ("evidence_text"@, JsonView::Str(e.evidence_text)),
            ("cloud_doc_url"@, se_opt_str(e.cloud_doc_url)),
        ],
    )
}

pub open spec fn se_opt_extra(o: Option<ExtraView>) -> JsonView {
    match o {
        None => JsonView::Null,
        Some(e) => se_extra(e),
    }
}

/// One citation item, as JSON, under the canonical type-tag spelling.
pub open spec fn se_item(it: ItemView) -> JsonView {
    JsonView::Obj(
        seq![
            ("metadata_type"@, JsonView::Str(it.metadata_type)),
            ("title"@, se_opt_str(it.title)),
            ("name"@, se_opt_str(it.name)),
            ("id"@, se_opt_str(it.id)),
            ("source"@, se_opt_str(it.source)),
            ("url"@, se_opt_str(it.url)),
            ("text"@, JsonView::Str(it.text)),
            ("pub_date"@, se_opt_str(it.pub_date)),
            ("extra"@, se_opt_extra(it.extra)),
        ],
    )
}

/// A citation list, item after item.
pub open spec fn se_items(s: Seq<ItemView>) -> Seq<JsonView>
    decreases s.len(),
{
    if s.len() == 0 {
        Seq::empty()
    } else {
        se_items(s.drop_last()).push(se_item(s.last()))
    }
}

/// A string-to-string map, as JSON object entries.
pub open spec fn se_str_obj(p: Seq<(Seq<char>, Seq<char>)>) -> Seq<(Seq<char>, JsonView)> {
    p.map_values(|e: (Seq<char>, Seq<char>)| (e.0, JsonView::Str(e.1)))
}

/// Citation metadata, as JSON.
pub open spec fn se_cite(c: CiteView) -> JsonView {
    JsonView::Obj(
        seq![
            ("citation_format"@, JsonView::Obj(se_str_obj(c.citation_format))),
            ("metadata_list"@, JsonView::Arr(se_items(c.metadata_list))),
        ],
    )
}

pub open spec fn se_opt_cite(o: Option<CiteView>) -> JsonView {
    match o {
        None => JsonView::Null,
        Some(c) => se_cite(c),
    }
}

/// Message metadata, as JSON: the recognized fields first, under their
/// canonical spellings, then every open-mapping entry unchanged.
pub open spec fn se_meta(m: MetaView) -> JsonView {
    JsonView::Obj(
        seq![
            ("is_visually_hidden_from_conversation"@, se_opt_bool(
                m.is_visually_hidden_from_conversation,
            )),
            ("user_context_message_data"@, se_opt_ctx(m.user_context_message_data)),
            ("cite_metadata"@, se_opt_cite(m.cite_metadata)),
        ] + m.other,
    )
}

/// The open mapping may not itself spell the citation field the legacy
/// way: decoding would then swallow that entry as citation metadata.
pub open spec fn wf_meta_other(m: MetaView) -> bool {
    forall|i: int| 0 <= i < m.other.len() ==> (#[trigger] m.other[i]).0 != "_cite_metadata"@
}

proof fn lemma_rt_ctx(c: UserCtxView)
    ensures
        crate::decode::sd_userctx(se_ctx(c)) == Some(c),
{
    let es = seq![
        ("about_user_message"@, JsonView::Str(c.about_user_message)),
        ("about_model_message"@, se_opt_str(c.about_model_message)),
    ];
    lemma_take_key_found(es, "about_user_message"@, 0);
    assert(es.remove(0) =~= seq![("about_model_message"@, se_opt_str(c.about_model_message))]);
    lemma_take_key_found(es.remove(0), "about_model_message"@, 0);
}

proof fn lemma_rt_extra(e: ExtraView)
    ensures
        crate::decode::sd_extra(se_extra(e)) == Some(e),
{
    let es = seq![
        ("cited_message_idx"@, se_i32(e.cited_message_idx)),
        ("search_result_idx"@, se_opt_i32(e.search_result_idx)),
        ("evidence_text"@, JsonView::Str(e.evidence_text)),
        ("cloud_doc_url"@, se_opt_str(e.cloud_doc_url)),
    ];
    lemma_take_key_found(es, "cited_message_idx"@, 0);
    let es1 = es.remove(0);
    assert(es1 =~= es.subrange(1, 4));
    lemma_take_key_found(es1, "search_result_idx"@, 0);
    let es2 = es1.remove(0);
    lemma_take_key_found(es2, "evidence_text"@, 0);
    let es3 = es2.remove(0);
    lemma_take_key_found(es3, "cloud_doc_url"@, 0);
}

proof fn lemma_rt_item(it: ItemView)
    ensures
        crate::decode::sd_item(se_item(it)) == Some(it),
{
    reveal_strlit("type");
    reveal_strlit("title");
    reveal_strlit("name");
    reveal_strlit("id");
    reveal_strlit("source");
    reveal_strlit("url");
    reveal_strlit("text");
    reveal_strlit("pub_date");
    reveal_strlit("extra");
    assert("type"@.len() == 4 && "name"@.len() == 4 && "text"@.len() == 4);
    assert("type"@[0] == 't' && "name"@[0] == 'n');
    assert("type"@[1] == 'y' && "text"@[1] == 'e');
    assert("title"@.len() == 5 && "id"@.len() == 2 && "source"@.len() == 6 && "url"@.len() == 3
        && "pub_date"@.len() == 8 && "extra"@.len() == 5);
    let es = se_item_entries(it);
    assert(se_item(it) == JsonView::Obj(es));
    lemma_take_key_found(es, "metadata_type"@, 0);
    let es1 = es.remove(0);
    assert forall|j: int| 0 <= j < es1.len() implies (#[trigger] es1[j]).0 != "type"@ by {
        assert(es1[j] == es[j + 1]);
    }
    lemma_take_key_none(es1, "type"@);
    lemma_take_key_found(es1, "title"@, 0);
    let es2 = es1.remove(0);
    lemma_take_key_found(es2, "name"@, 0);
    let es3 = es2.remove(0);
    lemma_take_key_found(es3, "id"@, 0);
    let es4 = es3.remove(0);
    lemma_take_key_found(es4, "source"@, 0);
    let es5 = es4.remove(0);
    lemma_take_key_found(es5, "url"@, 0);
    let es6 = es5.remove(0);
    lemma_take_key_found(es6, "text"@, 0);
    let es7 = es6.remove(0);
    lemma_take_key_found(es7, "pub_date"@, 0);
    let es8 = es7.remove(0);
    lemma_take_key_found(es8, "extra"@, 0);
    if it.extra is Some {
        lemma_rt_extra(it.extra.unwrap());
    }
}

/// The entries of an encoded item.
spec fn se_item_entries(it: ItemView) -> Seq<(Seq<char>, JsonView)> {
    seq![
        ("metadata_type"@, JsonView::Str(it.metadata_type)),
        ("title"@, se_opt_str(it.title)),
        ("name"@, se_opt_str(it.name)),
        ("id"@, se_opt_str(it.id)),
        ("source"@, se_opt_str(it.source)),
        ("url"@, se_opt_str(it.url)),
        ("text"@, JsonView::Str(it.text)),
        ("pub_date"@, se_opt_str(it.pub_date)),
        ("extra"@, se_opt_extra(it.extra)),
    ]
}

proof fn lemma_rt_items(s: Seq<ItemView>)
    ensures
        crate::decode::sd_items(se_items(s)) == Some(s),
    decreases s.len(),
{
    if s.len() == 0 {
        assert(crate::decode::sd_items(Seq::<JsonView>::empty()) == Some(
            Seq::<ItemView>::empty(),
        ));
        assert(se_items(s) =~= Seq::<JsonView>::empty());
    } else {
        lemma_rt_items(s.drop_last());
        lemma_rt_item(s.last());
        let enc = se_items(s);
        assert(enc.drop_last() =~= se_items(s.drop_last()));
        assert(enc.last() == se_item(s.last()));
        assert(s.drop_last().push(s.last()) =~= s);
    }
}

proof fn lemma_rt_str_obj(p: Seq<(Seq<char>, Seq<char>)>)
    ensures
        crate::decode::sd_str_obj(se_str_obj(p)) == Some(p),
    decreases p.len(),
{
    if p.len() == 0 {
        assert(se_str_obj(p) =~= Seq::<(Seq<char>, JsonView)>::empty());
    } else {
        lemma_rt_str_obj(p.drop_last());
        let enc = se_str_obj(p);
        assert(enc.drop_last() =~= se_str_obj(p.drop_last()));
        assert(enc.last() == (p.last().0, JsonView::Str(p.last().1)));
        assert(p.drop_last().push(p.last()) =~= p);
    }
}

proof fn lemma_rt_cite(c: CiteView)
    ensures
        crate::decode::sd_cite(se_cite(c)) == Some(c),
{
    let es = seq![
        ("citation_format"@, JsonView::Obj(se_str_obj(c.citation_format))),
        ("metadata_list"@, JsonView::Arr(se_items(c.metadata_list))),
    ];
    lemma_take_key_found(es, "citation_format"@, 0);
    let es1 = es.remove(0);
    assert(es1 =~= seq![("metadata_list"@, JsonView::Arr(se_items(c.metadata_list)))]);
    lemma_take_key_found(es1, "metadata_list"@, 0);
    lemma_rt_str_obj(c.citation_format);
    lemma_rt_items(c.metadata_list);
}

/// Decoding an encoded metadata record restores it exactly: every
/// recognized field, the citation metadata (encoded canonically,
/// whichever spelling it was decoded from), and the open mapping.
pub proof fn lemma_metadata_round_trip(m: MetaView)
    requires
        wf_meta_other(m),
    ensures
        sd_meta(se_meta(m)) == Some(m),
{
    let head = seq![
        ("is_visually_hidden_from_conversation"@, se_opt_bool(
            m.is_visually_hidden_from_conversation,
        )),
        ("user_context_message_data"@, se_opt_ctx(m.user_context_message_data)),
        ("cite_metadata"@, se_opt_cite(m.cite_metadata)),
    ];
    let es = head + m.other;
    assert(se_meta(m) == JsonView::Obj(es));
    assert(es[0].0 == "is_visually_hidden_from_conversation"@);
    lemma_take_key_found(es, "is_visually_hidden_from_conversation"@, 0);
    let es1 = es.remove(0);
    assert(es1[0].0 == "user_context_message_data"@);
    lemma_take_key_found(es1, "user_context_message_data"@, 0);
    let es2 = es1.remove(0);
    assert(es2[0].0 == "cite_metadata"@);
    lemma_take_key_found(es2, "cite_metadata"@, 0);
    let es3 = es2.remove(0);
    assert(es3 =~= m.other);
    assert forall|j: int| 0 <= j < es3.len() implies (#[trigger] es3[j]).0 != "_cite_metadata"@ by {
        assert(es3[j] == m.other[j]);
    }
    lemma_take_key_none(es3, "_cite_metadata"@);
    match m.user_context_message_data {
        Some(c) => {
            lemma_rt_ctx(c);
        },
        None => {},
    }
    match m.cite_metadata {
        Some(c) => {
            lemma_rt_cite(c);
        },
        None => {},
    }
    assert(sd_meta(se_meta(m)) == Some(m));
}

fn e_opt_bool(o: Option<bool>) -> (r: Json)
    ensures
        r.deep() == se_opt_bool(o),
{
    match o {
        None => Json::Null,
        Some(b) => Json::Bool(b),
    }
}

fn e_opt_str(o: Option<String>) -> (r: Json)
    ensures
        r.deep() == se_opt_str(crate::model::o_view(o)),
{
    match o {
        None => Json::Null,
        Some(s) => Json::Str(s),
    }
}

fn e_i32(x: i32) -> (r: Json)
    ensures
        r.deep() == se_i32(x),
{
    Json::Num(JsonNum { int: Some(x as i64), bits: None })
}

fn e_opt_i32(o: Option<i32>) -> (r: Json)
    ensures
        r.deep() == se_opt_i32(o),
{
    match o {
        None => Json::Null,
        Some(x) => e_i32(x),
    }
}

fn e_ctx(c: UserContextData) -> (r: Json)
    ensures
        r.deep() == se_ctx(c@),
{
    let ghost cv = c@;
    let mut v: Vec<(String, Json)> = Vec::new();
    v.push(("about_user_message".to_owned(), Json::Str(c.about_user_message)));
    v.push(("about_model_message".to_owned(), e_opt_str(c.about_model_message)));
    proof {
        crate::json::lemma_deep_entry_seq(v@);
        assert(crate::json::deep_entry_seq(v@) =~= seq![
            ("about_user_message"@, JsonView::Str(cv.about_user_message)),
            ("about_model_message"@, se_opt_str(cv.about_model_message)),
        ]);
    }
    Json::Obj(v)
}

fn e_opt_ctx(o: Option<UserContextData>) -> (r: Json)
    ensures
        r.deep() == se_opt_ctx(crate::model::o_view(o)),
{
    match o {
        None => Json::Null,
        Some(c) => e_ctx(c),
    }
}

fn e_extra(e: MetadataCitationExtra) -> (r: Json)
    ensures
        r.deep() == se_extra(e@),
{
    let ghost evv = e@;
    let mut v: Vec<(String, Json)> = Vec::new();
    v.push(("cited_message_idx".to_owned(), e_i32(e.cited_message_idx)));
    v.push(("search_result_idx".to_owned(), e_opt_i32(e.search_result_idx)));
    v.push(("evidence_text".to_owned(), Json::Str(e.evidence_text)));
    v.push(("cloud_doc_url".to_owned(), e_opt_str(e.cloud_doc_url)));
    proof {
        crate::json::lemma_deep_entry_seq(v@);
        assert(crate::json::deep_entry_seq(v@) =~= seq![
            ("cited_message_idx"@, se_i32(evv.cited_message_idx)),
            ("search_result_idx"@, se_opt_i32(evv.search_result_idx)),
            ("evidence_text"@, JsonView::Str(evv.evidence_text)),
            ("cloud_doc_url"@, se_opt_str(evv.cloud_doc_url)),
        ]);
    }
    Json::Obj(v)
}

fn e_opt_extra(o: Option<MetadataCitationExtra>) -> (r: Json)
    ensures
        r.deep() == se_opt_extra(crate::model::o_view(o)),
{
    match o {
        None => Json::Null,
        Some(e) => e_extra(e),
    }
}

fn e_item(it: MetadataListItem) -> (r: Json)
    ensures
        r.deep() == se_item(it@),
{
    let ghost iv = it@;
    let mut v: Vec<(String, Json)> = Vec::new();
    v.push(("metadata_type".to_owned(), Json::Str(it.metadata_type)));
    v.push(("title".to_owned(), e_opt_str(it.title)));
    v.push(("name".to_owned(), e_opt_str(it.name)));
    v.push(("id".to_owned(), e_opt_str(it.id)));
    v.push(("source".to_owned(), e_opt_str(it.source)));
    v.push(("url".to_owned(), e_opt_str(it.url)));
    v.push(("text".to_owned(), Json::Str(it.text)));
    v.push(("pub_date".to_owned(), e_opt_str(it.pub_date)));
    v.push(("extra".to_owned(), e_opt_extra(it.extra)));
    proof {
        crate::json::lemma_deep_entry_seq(v@);
        assert(crate::json::deep_entry_seq(v@) =~= se_item_entries(iv));
    }
    Json::Obj(v)
}

#[verifier::loop_isolation(false)]
fn e_items(items: Vec<MetadataListItem>) -> (r: Vec<Json>)
    ensures
        crate::json::deep_seq(r@) == se_items(crate::model::seq_view(items@)),
{
    let ghost sv = crate::model::seq_view(items@);
    let mut out: Vec<Json> = Vec::new();
    let mut rest = items;
    let n = rest.len();
    let mut i: usize = 0;
    proof {
        crate::json::lemma_deep_seq(out@);
        assert(crate::json::deep_seq(out@) =~= se_items(sv.take(0)));
    }
    while i < n
        invariant
            i <= n,
            n == sv.len(),
            rest@.len() == n - i,
            forall|t: int| 0 <= t < rest@.len() ==> rest@[t]@ == sv[i + t],
            crate::json::deep_seq(out@) == se_items(sv.take(i as int)),
        decreases n - i,
    {
        let it = rest.remove(0);
        proof {
            assert(it@ == sv[i as int]);
            assert forall|t: int| 0 <= t < rest@.len() implies rest@[t]@ == sv[i + 1 + t] by {}
            crate::analyze::lemma_take_succ(sv, i as int);
        }
        let j = e_item(it);
        proof {
            crate::json::lemma_deep_seq(out@.push(j));
            crate::json::lemma_deep_seq(out@);
            assert(crate::json::deep_seq(out@.push(j)) =~= crate::json::deep_seq(out@).push(
                j.deep(),
            ));
        }
        out.push(j);
        i = i + 1;
    }
    proof {
        crate::analyze::lemma_take_all(sv);
    }
    out
}

#[verifier::loop_isolation(false)]
fn e_str_obj(p: Vec<(String, String)>) -> (r: Vec<(String, Json)>)
    ensures
        crate::json::deep_entry_seq(r@) == se_str_obj(crate::model::pairs_view(p@)),
{
    let ghost pv = crate::model::pairs_view(p@);
    let mut out: Vec<(String, Json)> = Vec::new();
    let mut rest = p;
    let n = rest.len();
    let mut i: usize = 0;
    proof {
        crate::json::lemma_deep_entry_seq(out@);
        assert(crate::json::deep_entry_seq(out@) =~= se_str_obj(pv.take(0)));
        assert(se_str_obj(pv.take(0)) =~= se_str_obj(pv).take(0));
    }
    while i < n
        invariant
            i <= n,
            n == pv.len(),
            rest@.len() == n - i,
            forall|t: int| 0 <= t < rest@.len() ==> (rest@[t].0@, rest@[t].1@) == pv[i + t],
            crate::json::deep_entry_seq(out@) == se_str_obj(pv).take(i as int),
        decreases n - i,
    {
        let (k, s) = rest.remove(0);
        proof {
            assert((k@, s@) == pv[i as int]);
            assert forall|t: int| 0 <= t < rest@.len() implies (rest@[t].0@, rest@[t].1@) == pv[i
                + 1 + t] by {}
            crate::analyze::lemma_take_succ(se_str_obj(pv), i as int);
            crate::json::lemma_deep_entry_seq(out@.push((k, Json::Str(s))));
            crate::json::lemma_deep_entry_seq(out@);
            assert(crate::json::deep_entry_seq(out@.push((k, Json::Str(s))))
                =~= crate::json::deep_entry_seq(out@).push((k@, JsonView::Str(s@))));
            assert(se_str_obj(pv)[i as int] == (pv[i as int].0, JsonView::Str(pv[i as int].1)));
        }
        out.push((k, Json::Str(s)));
        i = i + 1;
    }
    proof {
        crate::analyze::lemma_take_all(se_str_obj(pv));
    }
    out
}

fn e_cite(c: CitationMetadata) -> (r: Json)
    ensures
        r.deep() == se_cite(c@),
{
    let ghost cv = c@;
    let cf = e_str_obj(c.citation_format);
    let ml = e_items(c.metadata_list);
    let mut v: Vec<(String, Json)> = Vec::new();
    v.push(("citation_format".to_owned(), Json::Obj(cf)));
    v.push(("metadata_list".to_owned(), Json::Arr(ml)));
    proof {
        crate::json::lemma_deep_entry_seq(v@);
        assert(crate::json::deep_entry_seq(v@) =~= seq![
            ("citation_format"@, JsonView::Obj(se_str_obj(cv.citation_format))),
            ("metadata_list"@, JsonView::Arr(se_items(cv.metadata_list))),
        ]);
    }
    Json::Obj(v)
}

fn e_opt_cite(o: Option<CitationMetadata>) -> (r: Json)
    ensures
        r.deep() == se_opt_cite(crate::model::o_view(o)),
{
    match o {
        None => Json::Null,
        Some(c) => e_cite(c),
    }
}

/// Re-encodes message metadata as JSON, recognized fields first under
/// their canonical spellings, then the open mapping unchanged.
pub fn encode_message_metadata(m: MessageMetadata) -> (r: Json)
    ensures
        r.deep() == se_meta(m@),
{
    let ghost mv = m@;
    let mut v: Vec<(String, Json)> = Vec::new();
    v.push(
        (
            "is_visually_hidden_from_conversation".to_owned(),
            e_opt_bool(m.is_visually_hidden_from_conversation),
        ),
    );
    v.push(("user_context_message_data".to_owned(), e_opt_ctx(m.user_context_message_data)));
    v.push(("cite_metadata".to_owned(), e_opt_cite(m.cite_metadata)));
    let mut other = m.other;
    v.append(&mut other);
    proof {
        crate::json::lemma_deep_entry_seq(v@);
        crate::model::lemma_entries_pairs(v@);
        assert(crate::json::deep_entry_seq(v@) =~= seq![
            ("is_visually_hidden_from_conversation"@, se_opt_bool(
                mv.is_visually_hidden_from_conversation,
            )),
            ("user_context_message_data"@, se_opt_ctx(mv.user_context_message_data)),
            ("cite_metadata"@, se_opt_cite(mv.cite_metadata)),
        ] + mv.other);
    }
    Json::Obj(v)
}

} // verus!
