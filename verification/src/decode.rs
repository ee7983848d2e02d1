//! The tolerant decoder: turns the JSON document model into the typed
//! document model, absorbing optional fields, alias spellings and the
//! untagged content shapes.  Every decoding function mirrors a spec
//! function over `JsonView` exactly, so what the decoder accepts and
//! produces is pinned down field by field.

use vstd::prelude::*;
use crate::json::Json;
use crate::json::JsonView;
use crate::model::num_key;
use crate::model::pairs_view;
use crate::model::spec_num_key;
use crate::model::NumKey;
use crate::text::str_eq;

verus! {

/// Removes the first entry named `k` from an entry list: the value
/// found, if any, and the remaining entries in their order.
pub open spec fn take_key(es: Seq<(Seq<char>, JsonView)>, k: Seq<char>) -> (
    Option<JsonView>,
    Seq<(Seq<char>, JsonView)>,
)
    decreases es.len(),
{
    if es.len() == 0 {
        (None, es)
    } else {
        let (v, r) = take_key(es.drop_last(), k);
        if v is Some {
            (v, r.push(es.last()))
        } else if es.last().0 == k {
            (Some(es.last().1), es.drop_last())
        } else {
            (None, es)
        }
    }
}

/// When no entry is named `k`, `take_key` finds nothing and keeps the
/// list.
pub proof fn lemma_take_key_none(es: Seq<(Seq<char>, JsonView)>, k: Seq<char>)
    requires
        forall|j: int| 0 <= j < es.len() ==> (#[trigger] es[j]).0 != k,
    ensures
        take_key(es, k) == (None::<JsonView>, es),
    decreases es.len(),
{
    if es.len() > 0 {
        assert forall|j: int| 0 <= j < es.drop_last().len() implies (#[trigger] es.drop_last()[j]).0
            != k by {
            assert(es.drop_last()[j] == es[j]);
        }
        lemma_take_key_none(es.drop_last(), k);
        assert(es[es.len() - 1].0 != k);
    }
}

/// When `idx` is the first entry named `k`, `take_key` yields its value
/// and the list without it.
pub proof fn lemma_take_key_found(es: Seq<(Seq<char>, JsonView)>, k: Seq<char>, idx: int)
    requires
        0 <= idx < es.len(),
        es[idx].0 == k,
        forall|j: int| 0 <= j < idx ==> (#[trigger] es[j]).0 != k,
    ensures
        take_key(es, k) == (Some(es[idx].1), es.remove(idx)),
    decreases es.len(),
{
    if idx == es.len() - 1 {
        assert forall|j: int| 0 <= j < es.drop_last().len() implies (#[trigger] es.drop_last()[j]).0
            != k by {
            assert(es.drop_last()[j] == es[j]);
        }
        lemma_take_key_none(es.drop_last(), k);
        assert(es.remove(idx) =~= es.drop_last());
    } else {
        assert(es.drop_last()[idx] == es[idx]);
        assert forall|j: int| 0 <= j < idx implies (#[trigger] es.drop_last()[j]).0 != k by {
            assert(es.drop_last()[j] == es[j]);
        }
        lemma_take_key_found(es.drop_last(), k, idx);
        assert(es.drop_last().remove(idx).push(es.last()) =~= es.remove(idx));
    }
}

/// Removes the first entry named `key` from the vector, returning its
/// value.
#[verifier::loop_isolation(false)]
pub fn take_first(es: &mut Vec<(String, Json)>, key: &str) -> (r: Option<Json>)
    ensures
        r is Some <==> take_key(pairs_view(old(es)@), key@).0 is Some,
        r matches Some(j) ==> take_key(pairs_view(old(es)@), key@).0 == Some(j.deep()),
        pairs_view(final(es)@) == take_key(pairs_view(old(es)@), key@).1,
{
    let ghost ev = pairs_view(old(es)@);
    let n = es.len();
    let mut i: usize = 0;
    while i < n
        invariant
            i <= n,
            n == es@.len(),
            ev == pairs_view(es@),
            forall|j: int| 0 <= j < i ==> (#[trigger] ev[j]).0 != key@,
        decreases n - i,
    {
        if str_eq(es[i].0.as_str(), key) {
            proof {
                assert(ev[i as int] == (es@[i as int].0@, es@[i as int].1.deep()));
                lemma_take_key_found(ev, key@, i as int);
            }
            let pair = es.remove(i);
            proof {
                assert(pairs_view(es@) =~= ev.remove(i as int));
            }
            return Some(pair.1);
        }
        proof {
            assert(ev[i as int] == (es@[i as int].0@, es@[i as int].1.deep()));
        }
        i = i + 1;
    }
    proof {
        lemma_take_key_none(ev, key@);
    }
    None
}

/// A required string field.
pub open spec fn sd_str(v: Option<JsonView>) -> Option<Seq<char>> {
    match v {
        Some(JsonView::Str(s)) => Some(s),
        _ => None,
    }
}

pub fn d_str(o: Option<Json>) -> (r: Option<String>)
    ensures
        r is Some <==> sd_str(o_deep(o)) is Some,
        r matches Some(s) ==> sd_str(o_deep(o)) == Some(s@),
{
    match o {
        Some(Json::Str(s)) => Some(s),
        _ => None,
    }
}

/// The abstraction of an optional JSON value.
pub open spec fn o_deep(o: Option<Json>) -> Option<JsonView> {
    match o {
        Some(j) => Some(j.deep()),
        None => None,
    }
}

/// An optional string field: absent or null is an explicit absence.
pub open spec fn sd_opt_str(v: Option<JsonView>) -> Option<Option<Seq<char>>> {
    match v {
        None => Some(None),
        Some(JsonView::Null) => Some(None),
        Some(JsonView::Str(s)) => Some(Some(s)),
        _ => None,
    }
}

pub fn d_opt_str(o: Option<Json>) -> (r: Option<Option<String>>)
    ensures
        r is Some <==> sd_opt_str(o_deep(o)) is Some,
        r matches Some(x) ==> sd_opt_str(o_deep(o)) == Some(crate::model::o_view(x)),
{
    match o {
        None => Some(None),
        Some(Json::Null) => Some(None),
        Some(Json::Str(s)) => Some(Some(s)),
        _ => None,
    }
}

/// A required boolean field.
pub open spec fn sd_bool(v: Option<JsonView>) -> Option<bool> {
    match v {
        Some(JsonView::Bool(b)) => Some(b),
        _ => None,
    }
}

pub fn d_bool(o: Option<Json>) -> (r: Option<bool>)
    ensures
        r == sd_bool(o_deep(o)),
{
    match o {
        Some(Json::Bool(b)) => Some(b),
        _ => None,
    }
}

/// An optional boolean field.
pub open spec fn sd_opt_bool(v: Option<JsonView>) -> Option<Option<bool>> {
    match v {
        None => Some(None),
        Some(JsonView::Null) => Some(None),
        Some(JsonView::Bool(b)) => Some(Some(b)),
        _ => None,
    }
}

pub fn d_opt_bool(o: Option<Json>) -> (r: Option<Option<bool>>)
    ensures
        r == sd_opt_bool(o_deep(o)),
{
    match o {
        None => Some(None),
        Some(Json::Null) => Some(None),
        Some(Json::Bool(b)) => Some(Some(b)),
        _ => None,
    }
}

/// A required numeric field read as a double and stored as its
/// order-preserving key.
pub open spec fn sd_numkey(v: Option<JsonView>) -> Option<NumKey> {
    match v {
        Some(JsonView::Num(n)) => match n.bits {
            Some(b) => Some(spec_num_key(b)),
            None => None,
        },
        _ => None,
    }
}

pub fn d_numkey(o: Option<Json>) -> (r: Option<NumKey>)
    ensures
        r == sd_numkey(o_deep(o)),
{
    match o {
        Some(Json::Num(n)) => match n.bits {
            Some(b) => Some(num_key(b)),
            None => None,
        },
        _ => None,
    }
}

/// An optional numeric field stored as a key.
pub open spec fn sd_opt_numkey(v: Option<JsonView>) -> Option<Option<NumKey>> {
    match v {
        None => Some(None),
        Some(JsonView::Null) => Some(None),
        Some(JsonView::Num(n)) => match n.bits {
            Some(b) => Some(Some(spec_num_key(b))),
            None => None,
        },
        _ => None,
    }
}

pub fn d_opt_numkey(o: Option<Json>) -> (r: Option<Option<NumKey>>)
    ensures
        r == sd_opt_numkey(o_deep(o)),
{
    match o {
        None => Some(None),
        Some(Json::Null) => Some(None),
        Some(Json::Num(n)) => match n.bits {
            Some(b) => Some(Some(num_key(b))),
            None => None,
        },
        _ => None,
    }
}

/// A required integer field that must fit `i32`.
pub open spec fn sd_i32(v: Option<JsonView>) -> Option<i32> {
    match v {
        Some(JsonView::Num(n)) => match n.int {
            Some(x) => if i32::MIN <= x <= i32::MAX {
                Some(x as i32)
            } else {
                None
            },
            None => None,
        },
        _ => None,
    }
}

pub fn d_i32(o: Option<Json>) -> (r: Option<i32>)
    ensures
        r == sd_i32(o_deep(o)),
{
    match o {
        Some(Json::Num(n)) => match n.int {
            Some(x) => if i32::MIN as i64 <= x && x <= i32::MAX as i64 {
                Some(x as i32)
            } else {
                None
            },
            None => None,
        },
        _ => None,
    }
}

/// An optional integer field that must fit `i32` when present.
pub open spec fn sd_opt_i32(v: Option<JsonView>) -> Option<Option<i32>> {
    match v {
        None => Some(None),
        Some(JsonView::Null) => Some(None),
        Some(JsonView::Num(n)) => match n.int {
            Some(x) => if i32::MIN <= x <= i32::MAX {
                Some(Some(x as i32))
            } else {
                None
            },
            None => None,
        },
        _ => None,
    }
}

pub fn d_opt_i32(o: Option<Json>) -> (r: Option<Option<i32>>)
    ensures
        r == sd_opt_i32(o_deep(o)),
{
    match o {
        None => Some(None),
        Some(Json::Null) => Some(None),
        Some(Json::Num(n)) => match n.int {
            Some(x) => if i32::MIN as i64 <= x && x <= i32::MAX as i64 {
                Some(Some(x as i32))
            } else {
                None
            },
            None => None,
        },
        _ => None,
    }
}

/// A required array-of-strings field.
pub open spec fn sd_strs(v: Option<JsonView>) -> Option<Seq<Seq<char>>> {
    match v {
        Some(JsonView::Arr(a)) => sd_str_list(a),
        _ => None,
    }
}

/// Every element a string, in order.
pub open spec fn sd_str_list(a: Seq<JsonView>) -> Option<Seq<Seq<char>>>
    decreases a.len(),
{
    if a.len() == 0 {
        Some(Seq::empty())
    } else {
        match sd_str_list(a.drop_last()) {
            Some(p) => match a.last() {
                JsonView::Str(s) => Some(p.push(s)),
                _ => None,
            },
            None => None,
        }
    }
}

#[verifier::loop_isolation(false)]
pub fn d_strs(o: Option<Json>) -> (r: Option<Vec<String>>)
    ensures
        r is Some <==> sd_strs(o_deep(o)) is Some,
        r matches Some(v) ==> sd_strs(o_deep(o)) == Some(crate::model::seq_view(v@)),
{
    match o {
        Some(Json::Arr(a)) => {
            let ghost av = crate::json::deep_seq(a@);
            proof {
                crate::json::lemma_deep_seq(a@);
            }
            let mut out: Vec<String> = Vec::new();
            let mut rest = a;
            let n = rest.len();
            let mut i: usize = 0;
            proof {
                assert(av.take(0) =~= Seq::<JsonView>::empty());
                assert(sd_str_list(av.take(0)) == Some(Seq::<Seq<char>>::empty()));
                assert(crate::model::seq_view(out@) =~= Seq::<Seq<char>>::empty());
            }
            while i < n
                invariant
                    i <= n,
                    n == av.len(),
                    rest@.len() == n - i,
                    forall|t: int| 0 <= t < rest@.len() ==> rest@[t].deep() == av[i + t],
                    sd_str_list(av.take(i as int)) == Some(crate::model::seq_view(out@)),
                decreases n - i,
            {
                let x = rest.remove(0);
                proof {
                    assert(x.deep() == av[i as int]);
                    assert forall|t: int| 0 <= t < rest@.len() implies rest@[t].deep() == av[i + 1
                        + t] by {}
                    crate::analyze::lemma_take_succ(av, i as int);
                }
                match x {
                    Json::Str(s) => {
                        proof {
                            assert(crate::model::seq_view(out@.push(s)) =~= crate::model::seq_view(
                                out@,
                            ).push(s@));
                        }
                        out.push(s);
                    },
                    _ => {
                        proof {
                            lemma_sd_str_list_persists_none(av, i + 1);
                            assert(o_deep(o) == Some(JsonView::Arr(av)));
                            assert(sd_strs(o_deep(o)) is None);
                        }
                        return None;
                    },
                }
                i = i + 1;
            }
            proof {
                crate::analyze::lemma_take_all(av);
            }
            Some(out)
        },
        _ => None,
    }
}

/// Once a prefix fails, the whole list fails.
proof fn lemma_sd_str_list_persists_none(a: Seq<JsonView>, i: int)
    requires
        0 <= i <= a.len(),
        sd_str_list(a.take(i)) is None,
    ensures
        sd_str_list(a) is None,
    decreases a.len() - i,
{
    if i < a.len() {
        crate::analyze::lemma_take_succ(a, i);
        lemma_sd_str_list_persists_none(a, i + 1);
    } else {
        crate::analyze::lemma_take_all(a);
    }
}

/// An optional field passed through as raw JSON.
pub open spec fn sd_opt_json(v: Option<JsonView>) -> Option<JsonView> {
    match v {
        None => None,
        Some(JsonView::Null) => None,
        Some(x) => Some(x),
    }
}

pub fn d_opt_json(o: Option<Json>) -> (r: Option<Json>)
    ensures
        o_deep(r) == sd_opt_json(o_deep(o)),
{
    match o {
        None => None,
        Some(Json::Null) => None,
        Some(x) => Some(x),
    }
}

/// An object whose values are all strings, kept as ordered pairs.
pub open spec fn sd_str_obj(es: Seq<(Seq<char>, JsonView)>) -> Option<Seq<(Seq<char>, Seq<char>)>>
    decreases es.len(),
{
    if es.len() == 0 {
        Some(Seq::empty())
    } else {
        match sd_str_obj(es.drop_last()) {
            Some(p) => match es.last().1 {
                JsonView::Str(s) => Some(p.push((es.last().0, s))),
                _ => None,
            },
            None => None,
        }
    }
}

proof fn lemma_sd_str_obj_persists_none(es: Seq<(Seq<char>, JsonView)>, i: int)
    requires
        0 <= i <= es.len(),
        sd_str_obj(es.take(i)) is None,
    ensures
        sd_str_obj(es) is None,
    decreases es.len() - i,
{
    if i < es.len() {
        crate::analyze::lemma_take_succ(es, i);
        lemma_sd_str_obj_persists_none(es, i + 1);
    } else {
        crate::analyze::lemma_take_all(es);
    }
}

#[verifier::loop_isolation(false)]
pub fn d_str_obj(es: Vec<(String, Json)>) -> (r: Option<Vec<(String, String)>>)
    ensures
        r is Some <==> sd_str_obj(pairs_view(es@)) is Some,
        r matches Some(v) ==> sd_str_obj(pairs_view(es@)) == Some(pairs_view(v@)),
{
    let ghost ev = pairs_view(es@);
    let mut out: Vec<(String, String)> = Vec::new();
    let mut rest = es;
    let n = rest.len();
    let mut i: usize = 0;
    proof {
        assert(ev.take(0) =~= Seq::<(Seq<char>, JsonView)>::empty());
        assert(pairs_view(out@) =~= Seq::<(Seq<char>, Seq<char>)>::empty());
    }
    while i < n
        invariant
            i <= n,
            n == ev.len(),
            rest@.len() == n - i,
            forall|t: int|
                0 <= t < rest@.len() ==> (rest@[t].0@, rest@[t].1.deep()) == ev[i + t],
            sd_str_obj(ev.take(i as int)) == Some(pairs_view(out@)),
        decreases n - i,
    {
        let (k, v) = rest.remove(0);
        proof {
            assert((k@, v.deep()) == ev[i as int]);
            assert forall|t: int| 0 <= t < rest@.len() implies (rest@[t].0@, rest@[t].1.deep())
                == ev[i + 1 + t] by {}
            crate::analyze::lemma_take_succ(ev, i as int);
        }
        match v {
            Json::Str(s) => {
                proof {
                    assert(pairs_view(out@.push((k, s))) =~= pairs_view(out@).push((k@, s@)));
                }
                out.push((k, s));
            },
            _ => {
                proof {
                    lemma_sd_str_obj_persists_none(ev, i + 1);
                }
                return None;
            },
        }
        i = i + 1;
    }
    proof {
        crate::analyze::lemma_take_all(ev);
    }
    Some(out)
}

/// The archive's two-spelling status field: an integer fitting `i32`, or
/// a string.
pub open spec fn sd_async(v: JsonView) -> Option<crate::model::AsyncStatusView> {
    match v {
        JsonView::Num(n) => match n.int {
            Some(x) => if i32::MIN <= x <= i32::MAX {
                Some(crate::model::AsyncStatusView::Int(x as i32))
            } else {
                None
            },
            None => None,
        },
        JsonView::Str(s) => Some(crate::model::AsyncStatusView::Str(s)),
        _ => None,
    }
}

pub open spec fn sd_opt_async(v: Option<JsonView>) -> Option<Option<crate::model::AsyncStatusView>> {
    match v {
        None => Some(None),
        Some(JsonView::Null) => Some(None),
        Some(x) => match sd_async(x) {
            Some(a) => Some(Some(a)),
            None => None,
        },
    }
}

pub fn d_opt_async(o: Option<Json>) -> (r: Option<Option<crate::model::AsyncStatus>>)
    ensures
        r is Some <==> sd_opt_async(o_deep(o)) is Some,
        r matches Some(x) ==> sd_opt_async(o_deep(o)) == Some(crate::model::o_view(x)),
{
    match o {
        None => Some(None),
        Some(Json::Null) => Some(None),
        Some(Json::Num(n)) => match n.int {
            Some(x) => if i32::MIN as i64 <= x && x <= i32::MAX as i64 {
                Some(Some(crate::model::AsyncStatus::Int(x as i32)))
            } else {
                None
            },
            None => None,
        },
        Some(Json::Str(s)) => Some(Some(crate::model::AsyncStatus::Str(s))),
        _ => None,
    }
}

/// The user-context record: required about-user text, optional
/// about-model text; unknown fields are ignored.
pub open spec fn sd_userctx(jv: JsonView) -> Option<crate::model::UserCtxView> {
    match jv {
        JsonView::Obj(es) => {
            let (v_u, es1) = take_key(es, "about_user_message"@);
            let (v_m, es2) = take_key(es1, "about_model_message"@);
            match (sd_str(v_u), sd_opt_str(v_m)) {
                (Some(u), Some(m)) => Some(
                    crate::model::UserCtxView { about_user_message: u, about_model_message: m },
                ),
                _ => None,
            }
        },
        _ => None,
    }
}

pub fn d_userctx(j: Json) -> (r: Option<crate::model::UserContextData>)
    ensures
        r is Some <==> sd_userctx(j.deep()) is Some,
        r matches Some(x) ==> sd_userctx(j.deep()) == Some(x@),
{
    match j {
        Json::Obj(es) => {
            proof {
                crate::model::lemma_entries_pairs(es@);
            }
            let mut es = es;
            let v_u = take_first(&mut es, "about_user_message");
            let v_m = take_first(&mut es, "about_model_message");
            let u = match d_str(v_u) {
                Some(x) => x,
                None => {
                    return None;
                },
            };
            let m = match d_opt_str(v_m) {
                Some(x) => x,
                None => {
                    return None;
                },
            };
            Some(crate::model::UserContextData { about_user_message: u, about_model_message: m })
        },
        _ => None,
    }
}

/// Extra citation details.
pub open spec fn sd_extra(jv: JsonView) -> Option<crate::model::ExtraView> {
    match jv {
        JsonView::Obj(es) => {
            let (v_ci, es1) = take_key(es, "cited_message_idx"@);
            let (v_si, es2) = take_key(es1, "search_result_idx"@);
            let (v_ev, es3) = take_key(es2, "evidence_text"@);
            let (v_cd, es4) = take_key(es3, "cloud_doc_url"@);
            match (sd_i32(v_ci), sd_opt_i32(v_si), sd_str(v_ev), sd_opt_str(v_cd)) {
                (Some(ci), Some(si), Some(ev), Some(cd)) => Some(
                    crate::model::ExtraView {
                        cited_message_idx: ci,
                        search_result_idx: si,
                        evidence_text: ev,
                        cloud_doc_url: cd,
                    },
                ),
                _ => None,
            }
        },
        _ => None,
    }
}

pub fn d_extra(j: Json) -> (r: Option<crate::model::MetadataCitationExtra>)
    ensures
        r is Some <==> sd_extra(j.deep()) is Some,
        r matches Some(x) ==> sd_extra(j.deep()) == Some(x@),
{
    match j {
        Json::Obj(es) => {
            proof {
                crate::model::lemma_entries_pairs(es@);
            }
            let mut es = es;
            let v_ci = take_first(&mut es, "cited_message_idx");
            let v_si = take_first(&mut es, "search_result_idx");
            let v_ev = take_first(&mut es, "evidence_text");
            let v_cd = take_first(&mut es, "cloud_doc_url");
            let ci = match d_i32(v_ci) {
                Some(x) => x,
                None => {
                    return None;
                },
            };
            let si = match d_opt_i32(v_si) {
                Some(x) => x,
                None => {
                    return None;
                },
            };
            let ev = match d_str(v_ev) {
                Some(x) => x,
                None => {
                    return None;
                },
            };
            let cd = match d_opt_str(v_cd) {
                Some(x) => x,
                None => {
                    return None;
                },
            };
            Some(
                crate::model::MetadataCitationExtra {
                    cited_message_idx: ci,
                    search_result_idx: si,
                    evidence_text: ev,
                    cloud_doc_url: cd,
                },
            )
        },
        _ => None,
    }
}

pub open spec fn sd_opt_extra(v: Option<JsonView>) -> Option<Option<crate::model::ExtraView>> {
    match v {
        None => Some(None),
        Some(JsonView::Null) => Some(None),
        Some(x) => match sd_extra(x) {
            Some(e) => Some(Some(e)),
            None => None,
        },
    }
}

pub fn d_opt_extra(o: Option<Json>) -> (r: Option<Option<crate::model::MetadataCitationExtra>>)
    ensures
        r is Some <==> sd_opt_extra(o_deep(o)) is Some,
        r matches Some(x) ==> sd_opt_extra(o_deep(o)) == Some(crate::model::o_view(x)),
{
    match o {
        None => Some(None),
        Some(Json::Null) => Some(None),
        Some(j) => match d_extra(j) {
            Some(e) => Some(Some(e)),
            None => None,
        },
    }
}

/// One citation item: the type tag under its canonical or legacy
/// spelling, a required text, and optional descriptive fields; unknown
/// fields are ignored.
pub open spec fn sd_item(jv: JsonView) -> Option<crate::model::ItemView> {
    match jv {
        JsonView::Obj(es) => {
            let (v_mt, es1) = take_key(es, "metadata_type"@);
            let (v_ty, es2) = take_key(es1, "type"@);
            let tv = if v_mt is Some {
                v_mt
            } else {
                v_ty
            };
            let (v_title, es3) = take_key(es2, "title"@);
            let (v_name, es4) = take_key(es3, "name"@);
            let (v_id, es5) = take_key(es4, "id"@);
            let (v_source, es6) = take_key(es5, "source"@);
            let (v_url, es7) = take_key(es6, "url"@);
            let (v_text, es8) = take_key(es7, "text"@);
            let (v_pd, es9) = take_key(es8, "pub_date"@);
            let (v_ex, es10) = take_key(es9, "extra"@);
            match (sd_str(tv), sd_opt_str(v_title), sd_opt_str(v_name), sd_opt_str(v_id)) {
                (Some(mt), Some(title), Some(name), Some(id)) => match (
                    sd_opt_str(v_source),
                    sd_opt_str(v_url),
                    sd_str(v_text),
                    sd_opt_str(v_pd),
                    sd_opt_extra(v_ex),
                ) {
                    (Some(source), Some(url), Some(text), Some(pd), Some(ex)) => Some(
                        crate::model::ItemView {
                            metadata_type: mt,
                            title: title,
                            name: name,
                            id: id,
                            source: source,
                            url: url,
                            text: text,
                            pub_date: pd,
                            extra: ex,
                        },
                    ),
                    _ => None,
                },
                _ => None,
            }
        },
        _ => None,
    }
}

pub fn d_item(j: Json) -> (r: Option<crate::model::MetadataListItem>)
    ensures
        r is Some <==> sd_item(j.deep()) is Some,
        r matches Some(x) ==> sd_item(j.deep()) == Some(x@),
{
    match j {
        Json::Obj(es) => {
            proof {
                crate::model::lemma_entries_pairs(es@);
            }
            let mut es = es;
            let v_mt = take_first(&mut es, "metadata_type");
            let v_ty = take_first(&mut es, "type");
            let tv = if v_mt.is_some() {
                v_mt
            } else {
                v_ty
            };
            let v_title = take_first(&mut es, "title");
            let v_name = take_first(&mut es, "name");
            let v_id = take_first(&mut es, "id");
            let v_source = take_first(&mut es, "source");
            let v_url = take_first(&mut es, "url");
            let v_text = take_first(&mut es, "text");
            let v_pd = take_first(&mut es, "pub_date");
            let v_ex = take_first(&mut es, "extra");
            let mt = match d_str(tv) {
                Some(x) => x,
                None => {
                    return None;
                },
            };
            let title = match d_opt_str(v_title) {
                Some(x) => x,
                None => {
                    return None;
                },
            };
            let name = match d_opt_str(v_name) {
                Some(x) => x,
                None => {
                    return None;
                },
            };
            let id = match d_opt_str(v_id) {
                Some(x) => x,
                None => {
                    return None;
                },
            };
            let source = match d_opt_str(v_source) {
                Some(x) => x,
                None => {
                    return None;
                },
            };
            let url = match d_opt_str(v_url) {
                Some(x) => x,
                None => {
                    return None;
                },
            };
            let text = match d_str(v_text) {
                Some(x) => x,
                None => {
                    return None;
                },
            };
            let pd = match d_opt_str(v_pd) {
                Some(x) => x,
                None => {
                    return None;
                },
            };
            let ex = match d_opt_extra(v_ex) {
                Some(x) => x,
                None => {
                    return None;
                },
            };
            Some(
                crate::model::MetadataListItem {
                    metadata_type: mt,
                    title,
                    name,
                    id,
                    source,
                    url,
                    text,
                    pub_date: pd,
                    extra: ex,
                },
            )
        },
        _ => None,
    }
}

/// A citation list: every element a valid item.
pub open spec fn sd_items(a: Seq<JsonView>) -> Option<Seq<crate::model::ItemView>>
    decreases a.len(),
{
    if a.len() == 0 {
        Some(Seq::empty())
    } else {
        match sd_items(a.drop_last()) {
            Some(p) => match sd_item(a.last()) {
                Some(x) => Some(p.push(x)),
                None => None,
            },
            None => None,
        }
    }
}

proof fn lemma_sd_items_persists_none(a: Seq<JsonView>, i: int)
    requires
        0 <= i <= a.len(),
        sd_items(a.take(i)) is None,
    ensures
        sd_items(a) is None,
    decreases a.len() - i,
{
    if i < a.len() {
        crate::analyze::lemma_take_succ(a, i);
        lemma_sd_items_persists_none(a, i + 1);
    } else {
        crate::analyze::lemma_take_all(a);
    }
}

#[verifier::loop_isolation(false)]
pub fn d_items(a: Vec<Json>) -> (r: Option<Vec<crate::model::MetadataListItem>>)
    ensures
        r is Some <==> sd_items(crate::json::deep_seq(a@)) is Some,
        r matches Some(v) ==> sd_items(crate::json::deep_seq(a@)) == Some(
            crate::model::seq_view(v@),
        ),
{
    let ghost av = crate::json::deep_seq(a@);
    proof {
        crate::json::lemma_deep_seq(a@);
    }
    let mut out: Vec<crate::model::MetadataListItem> = Vec::new();
    let mut rest = a;
    let n = rest.len();
    let mut i: usize = 0;
    proof {
        assert(av.take(0) =~= Seq::<JsonView>::empty());
        assert(crate::model::seq_view(out@) =~= Seq::<crate::model::ItemView>::empty());
    }
    while i < n
        invariant
            i <= n,
            n == av.len(),
            rest@.len() == n - i,
            forall|t: int| 0 <= t < rest@.len() ==> rest@[t].deep() == av[i + t],
            sd_items(av.take(i as int)) == Some(crate::model::seq_view(out@)),
        decreases n - i,
    {
        let x = rest.remove(0);
        proof {
            assert(x.deep() == av[i as int]);
            assert forall|t: int| 0 <= t < rest@.len() implies rest@[t].deep() == av[i + 1 + t] by {}
            crate::analyze::lemma_take_succ(av, i as int);
        }
        match d_item(x) {
            Some(it) => {
                proof {
                    assert(crate::model::seq_view(out@.push(it)) =~= crate::model::seq_view(
                        out@,
                    ).push(it@));
                }
                out.push(it);
            },
            None => {
                proof {
                    lemma_sd_items_persists_none(av, i + 1);
                }
                return None;
            },
        }
        i = i + 1;
    }
    proof {
        crate::analyze::lemma_take_all(av);
    }
    Some(out)
}

/// Citation metadata: a string-to-string citation-format map and the
/// item list, both required.
pub open spec fn sd_cite(jv: JsonView) -> Option<crate::model::CiteView> {
    match jv {
        JsonView::Obj(es) => {
            let (v_cf, es1) = take_key(es, "citation_format"@);
            let (v_ml, es2) = take_key(es1, "metadata_list"@);
            match (v_cf, v_ml) {
                (Some(JsonView::Obj(cf)), Some(JsonView::Arr(ml))) => match (
                    sd_str_obj(cf),
                    sd_items(ml),
                ) {
                    (Some(f), Some(items)) => Some(
                        crate::model::CiteView { citation_format: f, metadata_list: items },
                    ),
                    _ => None,
                },
                _ => None,
            }
        },
        _ => None,
    }
}

pub fn d_cite(j: Json) -> (r: Option<crate::model::CitationMetadata>)
    ensures
        r is Some <==> sd_cite(j.deep()) is Some,
        r matches Some(x) ==> sd_cite(j.deep()) == Some(x@),
{
    match j {
        Json::Obj(es) => {
            proof {
                crate::model::lemma_entries_pairs(es@);
            }
            let mut es = es;
            let v_cf = take_first(&mut es, "citation_format");
            let v_ml = take_first(&mut es, "metadata_list");
            match (v_cf, v_ml) {
                (Some(Json::Obj(cf)), Some(Json::Arr(ml))) => {
                    proof {
                        crate::model::lemma_entries_pairs(cf@);
                    }
                    let f = match d_str_obj(cf) {
                        Some(x) => x,
                        None => {
                            return None;
                        },
                    };
                    let items = match d_items(ml) {
                        Some(x) => x,
                        None => {
                            return None;
                        },
                    };
                    Some(crate::model::CitationMetadata { citation_format: f, metadata_list: items })
                },
                _ => None,
            }
        },
        _ => None,
    }
}

pub open spec fn sd_opt_cite(v: Option<JsonView>) -> Option<Option<crate::model::CiteView>> {
    match v {
        None => Some(None),
        Some(JsonView::Null) => Some(None),
        Some(x) => match sd_cite(x) {
            Some(c) => Some(Some(c)),
            None => None,
        },
    }
}

pub fn d_opt_cite(o: Option<Json>) -> (r: Option<Option<crate::model::CitationMetadata>>)
    ensures
        r is Some <==> sd_opt_cite(o_deep(o)) is Some,
        r matches Some(x) ==> sd_opt_cite(o_deep(o)) == Some(crate::model::o_view(x)),
{
    match o {
        None => Some(None),
        Some(Json::Null) => Some(None),
        Some(j) => match d_cite(j) {
            Some(c) => Some(Some(c)),
            None => None,
        },
    }
}

pub open spec fn sd_opt_userctx(v: Option<JsonView>) -> Option<Option<crate::model::UserCtxView>> {
    match v {
        None => Some(None),
        Some(JsonView::Null) => Some(None),
        Some(x) => match sd_userctx(x) {
            Some(c) => Some(Some(c)),
            None => None,
        },
    }
}

pub fn d_opt_userctx(o: Option<Json>) -> (r: Option<Option<crate::model::UserContextData>>)
    ensures
        r is Some <==> sd_opt_userctx(o_deep(o)) is Some,
        r matches Some(x) ==> sd_opt_userctx(o_deep(o)) == Some(crate::model::o_view(x)),
{
    match o {
        None => Some(None),
        Some(Json::Null) => Some(None),
        Some(j) => match d_userctx(j) {
            Some(c) => Some(Some(c)),
            None => None,
        },
    }
}

/// Message metadata: the recognized fields are extracted (the citation
/// field under its canonical spelling first, then the legacy
/// `_cite_metadata`), and everything left over is preserved in the open
/// mapping.
pub open spec fn sd_meta(jv: JsonView) -> Option<crate::model::MetaView> {
    match jv {
        JsonView::Obj(es) => {
            let (v_vis, es1) = take_key(es, "is_visually_hidden_from_conversation"@);
            let (v_ctx, es2) = take_key(es1, "user_context_message_data"@);
            let (v_c1, es3) = take_key(es2, "cite_metadata"@);
            let (v_c2, es4) = take_key(es3, "_cite_metadata"@);
            let vc = if v_c1 is Some {
                v_c1
            } else {
                v_c2
            };
            match (sd_opt_bool(v_vis), sd_opt_userctx(v_ctx), sd_opt_cite(vc)) {
                (Some(vis), Some(ctx), Some(cite)) => Some(
                    crate::model::MetaView {
                        is_visually_hidden_from_conversation: vis,
                        user_context_message_data: ctx,
                        cite_metadata: cite,
                        other: es4,
                    },
                ),
                _ => None,
            }
        },
        _ => None,
    }
}

pub fn d_meta(j: Json) -> (r: Option<crate::model::MessageMetadata>)
    ensures
        r is Some <==> sd_meta(j.deep()) is Some,
        r matches Some(x) ==> sd_meta(j.deep()) == Some(x@),
{
    match j {
        Json::Obj(es) => {
            proof {
                crate::model::lemma_entries_pairs(es@);
            }
            let mut es = es;
            let v_vis = take_first(&mut es, "is_visually_hidden_from_conversation");
            let v_ctx = take_first(&mut es, "user_context_message_data");
            let v_c1 = take_first(&mut es, "cite_metadata");
            let v_c2 = take_first(&mut es, "_cite_metadata");
            let vc = if v_c1.is_some() {
                v_c1
            } else {
                v_c2
            };
            let vis = match d_opt_bool(v_vis) {
                Some(x) => x,
                None => {
                    return None;
                },
            };
            let ctx = match d_opt_userctx(v_ctx) {
                Some(x) => x,
                None => {
                    return None;
                },
            };
            let cite = match d_opt_cite(vc) {
                Some(x) => x,
                None => {
                    return None;
                },
            };
            Some(
                crate::model::MessageMetadata {
                    is_visually_hidden_from_conversation: vis,
                    user_context_message_data: ctx,
                    cite_metadata: cite,
                    other: es,
                },
            )
        },
        _ => None,
    }
}

/// A thought list: an array of string-to-string objects.
pub open spec fn sd_thoughts_list(a: Seq<JsonView>) -> Option<Seq<Seq<(Seq<char>, Seq<char>)>>>
    decreases a.len(),
{
    if a.len() == 0 {
        Some(Seq::empty())
    } else {
        match sd_thoughts_list(a.drop_last()) {
            Some(p) => match a.last() {
                JsonView::Obj(es) => match sd_str_obj(es) {
                    Some(t) => Some(p.push(t)),
                    None => None,
                },
                _ => None,
            },
            None => None,
        }
    }
}

pub open spec fn sd_opt_thoughts(v: Option<JsonView>) -> Option<
    Option<Seq<Seq<(Seq<char>, Seq<char>)>>>,
> {
    match v {
        None => Some(None),
        Some(JsonView::Null) => Some(None),
        Some(JsonView::Arr(a)) => match sd_thoughts_list(a) {
            Some(t) => Some(Some(t)),
            None => None,
        },
        _ => None,
    }
}

proof fn lemma_sd_thoughts_persists_none(a: Seq<JsonView>, i: int)
    requires
        0 <= i <= a.len(),
        sd_thoughts_list(a.take(i)) is None,
    ensures
        sd_thoughts_list(a) is None,
    decreases a.len() - i,
{
    if i < a.len() {
        crate::analyze::lemma_take_succ(a, i);
        lemma_sd_thoughts_persists_none(a, i + 1);
    } else {
        crate::analyze::lemma_take_all(a);
    }
}

/// The view of a decoded thoughts list.
pub open spec fn thoughts_view(v: Seq<Vec<(String, String)>>) -> Seq<Seq<(Seq<char>, Seq<char>)>> {
    v.map_values(|t: Vec<(String, String)>| crate::model::thought_view(t))
}

#[verifier::loop_isolation(false)]
pub fn d_opt_thoughts(o: Option<Json>) -> (r: Option<Option<Vec<Vec<(String, String)>>>>)
    ensures
        r is Some <==> sd_opt_thoughts(o_deep(o)) is Some,
        r matches Some(x) ==> sd_opt_thoughts(o_deep(o)) == Some(
            match x {
                Some(v) => Some(thoughts_view(v@)),
                None => None,
            },
        ),
{
    match o {
        None => Some(None),
        Some(Json::Null) => Some(None),
        Some(Json::Arr(a)) => {
            let ghost av = crate::json::deep_seq(a@);
            proof {
                crate::json::lemma_deep_seq(a@);
            }
            let mut out: Vec<Vec<(String, String)>> = Vec::new();
            let mut rest = a;
            let n = rest.len();
            let mut i: usize = 0;
            proof {
                assert(av.take(0) =~= Seq::<JsonView>::empty());
                assert(thoughts_view(out@) =~= Seq::<Seq<(Seq<char>, Seq<char>)>>::empty());
            }
            while i < n
                invariant
                    i <= n,
                    n == av.len(),
                    rest@.len() == n - i,
                    forall|t: int| 0 <= t < rest@.len() ==> rest@[t].deep() == av[i + t],
                    sd_thoughts_list(av.take(i as int)) == Some(thoughts_view(out@)),
                decreases n - i,
            {
                let x = rest.remove(0);
                proof {
                    assert(x.deep() == av[i as int]);
                    assert forall|t: int| 0 <= t < rest@.len() implies rest@[t].deep() == av[i + 1
                        + t] by {}
                    crate::analyze::lemma_take_succ(av, i as int);
                }
                match x {
                    Json::Obj(es) => {
                        proof {
                            crate::model::lemma_entries_pairs(es@);
                        }
                        match d_str_obj(es) {
                            Some(t) => {
                                proof {
                                    assert(thoughts_view(out@.push(t)) =~= thoughts_view(
                                        out@,
                                    ).push(crate::model::thought_view(t)));
                                }
                                out.push(t);
                            },
                            None => {
                                proof {
                                    lemma_sd_thoughts_persists_none(av, i + 1);
                                }
                                return None;
                            },
                        }
                    },
                    _ => {
                        proof {
                            lemma_sd_thoughts_persists_none(av, i + 1);
                        }
                        return None;
                    },
                }
                i = i + 1;
            }
            proof {
                crate::analyze::lemma_take_all(av);
            }
            Some(Some(out))
        },
        _ => None,
    }
}

/// The untagged content body, resolved by shape in a fixed order: a
/// `parts` list of strings wins, then a string `text` field, then the
/// empty shape, which accepts anything.
pub open spec fn sd_inner(rest: Seq<(Seq<char>, JsonView)>) -> crate::model::InnerView {
    let (v_parts, r1) = take_key(rest, "parts"@);
    match v_parts {
        Some(JsonView::Arr(a)) => match sd_str_list(a) {
            Some(ps) => crate::model::InnerView::TextObject { parts: ps },
            None => sd_inner_text(r1),
        },
        Some(_) => sd_inner_text(r1),
        None => sd_inner_text(r1),
    }
}

pub open spec fn sd_inner_text(rest: Seq<(Seq<char>, JsonView)>) -> crate::model::InnerView {
    let (v_text, r2) = take_key(rest, "text"@);
    match v_text {
        Some(JsonView::Str(t)) => crate::model::InnerView::TextField { text: t },
        _ => crate::model::InnerView::Empty {  },
    }
}

pub fn d_inner(es: Vec<(String, Json)>) -> (r: crate::model::ContentInner)
    ensures
        r@ == sd_inner(pairs_view(es@)),
{
    let mut es = es;
    let v_parts = take_first(&mut es, "parts");
    match v_parts {
        Some(Json::Arr(a)) => {
            match d_strs(Some(Json::Arr(a))) {
                Some(ps) => {
                    return crate::model::ContentInner::TextObject { parts: ps };
                },
                None => {},
            }
        },
        _ => {},
    }
    let v_text = take_first(&mut es, "text");
    match v_text {
        Some(Json::Str(t)) => crate::model::ContentInner::TextField { text: t },
        _ => crate::model::ContentInner::Empty {  },
    }
}

/// A message's content: the required tag, the optional descriptive
/// fields, and the shape-resolved body from whatever remains.
pub open spec fn sd_content(jv: JsonView) -> Option<crate::model::ContentView> {
    match jv {
        JsonView::Obj(es) => {
            let (v_ct, es1) = take_key(es, "content_type"@);
            let (v_lang, es2) = take_key(es1, "language"@);
            let (v_rfn, es3) = take_key(es2, "response_format_name"@);
            let (v_th, es4) = take_key(es3, "thoughts"@);
            let (v_sa, es5) = take_key(es4, "source_analysis_msg_id"@);
            match (sd_str(v_ct), sd_opt_str(v_lang), sd_opt_str(v_rfn)) {
                (Some(ct), Some(lang), Some(rfn)) => match (
                    sd_opt_thoughts(v_th),
                    sd_opt_str(v_sa),
                ) {
                    (Some(th), Some(sa)) => Some(
                        crate::model::ContentView {
                            content_type: ct,
                            language: lang,
                            response_format_name: rfn,
                            thoughts: th,
                            source_analysis_msg_id: sa,
                            inner: sd_inner(es5),
                        },
                    ),
                    _ => None,
                },
                _ => None,
            }
        },
        _ => None,
    }
}

pub fn d_content(j: Json) -> (r: Option<crate::model::MessageContent>)
    ensures
        r is Some <==> sd_content(j.deep()) is Some,
        r matches Some(x) ==> sd_content(j.deep()) == Some(x@),
{
    match j {
        Json::Obj(es) => {
            proof {
                crate::model::lemma_entries_pairs(es@);
            }
            let mut es = es;
            let v_ct = take_first(&mut es, "content_type");
            let v_lang = take_first(&mut es, "language");
            let v_rfn = take_first(&mut es, "response_format_name");
            let v_th = take_first(&mut es, "thoughts");
            let v_sa = take_first(&mut es, "source_analysis_msg_id");
            let ct = match d_str(v_ct) {
                Some(x) => x,
                None => {
                    return None;
                },
            };
            let lang = match d_opt_str(v_lang) {
                Some(x) => x,
                None => {
                    return None;
                },
            };
            let rfn = match d_opt_str(v_rfn) {
                Some(x) => x,
                None => {
                    return None;
                },
            };
            let th = match d_opt_thoughts(v_th) {
                Some(x) => x,
                None => {
                    return None;
                },
            };
            let sa = match d_opt_str(v_sa) {
                Some(x) => x,
                None => {
                    return None;
                },
            };
            let inner = d_inner(es);
            Some(
                crate::model::MessageContent {
                    content_type: ct,
                    language: lang,
                    response_format_name: rfn,
                    thoughts: th,
                    source_analysis_msg_id: sa,
                    inner,
                },
            )
        },
        _ => None,
    }
}

/// Who authored a turn: the required role, an optional display name and
/// the required free-form metadata object.
pub open spec fn sd_author(jv: JsonView) -> Option<crate::model::AuthorView> {
    match jv {
        JsonView::Obj(es) => {
            let (v_role, es1) = take_key(es, "role"@);
            let (v_name, es2) = take_key(es1, "name"@);
            let (v_md, es3) = take_key(es2, "metadata"@);
            match (sd_str(v_role), sd_opt_str(v_name), v_md) {
                (Some(role), Some(name), Some(JsonView::Obj(md))) => Some(
                    crate::model::AuthorView { role, name, metadata: md },
                ),
                _ => None,
            }
        },
        _ => None,
    }
}

pub fn d_author(j: Json) -> (r: Option<crate::model::Author>)
    ensures
        r is Some <==> sd_author(j.deep()) is Some,
        r matches Some(x) ==> sd_author(j.deep()) == Some(x@),
{
    match j {
        Json::Obj(es) => {
            proof {
                crate::model::lemma_entries_pairs(es@);
            }
            let mut es = es;
            let v_role = take_first(&mut es, "role");
            let v_name = take_first(&mut es, "name");
            let v_md = take_first(&mut es, "metadata");
            let role = match d_str(v_role) {
                Some(x) => x,
                None => {
                    return None;
                },
            };
            let name = match d_opt_str(v_name) {
                Some(x) => x,
                None => {
                    return None;
                },
            };
            match v_md {
                Some(Json::Obj(md)) => {
                    proof {
                        crate::model::lemma_entries_pairs(md@);
                    }
                    Some(crate::model::Author { role, name, metadata: md })
                },
                _ => None,
            }
        },
        _ => None,
    }
}

/// One authored turn, with its required author, content and metadata.
pub open spec fn sd_message(jv: JsonView) -> Option<crate::model::MsgView> {
    match jv {
        JsonView::Obj(es) => {
            let (v_id, es1) = take_key(es, "id"@);
            let (v_au, es2) = take_key(es1, "author"@);
            let (v_cr, es3) = take_key(es2, "create_time"@);
            let (v_up, es4) = take_key(es3, "update_time"@);
            let (v_co, es5) = take_key(es4, "content"@);
            let (v_st, es6) = take_key(es5, "status"@);
            let (v_et, es7) = take_key(es6, "end_turn"@);
            let (v_we, es8) = take_key(es7, "weight"@);
            let (v_md, es9) = take_key(es8, "metadata"@);
            let (v_re, es10) = take_key(es9, "recipient"@);
            let (v_ch, es11) = take_key(es10, "channel"@);
            let au = match v_au {
                Some(a) => sd_author(a),
                None => None,
            };
            let co = match v_co {
                Some(c) => sd_content(c),
                None => None,
            };
            let md = match v_md {
                Some(m) => sd_meta(m),
                None => None,
            };
            match (sd_str(v_id), au, sd_opt_numkey(v_cr), sd_opt_numkey(v_up)) {
                (Some(id), Some(author), Some(cr), Some(up)) => match (
                    co,
                    sd_str(v_st),
                    sd_opt_bool(v_et),
                    sd_numkey(v_we),
                ) {
                    (Some(content), Some(st), Some(et), Some(we)) => match (
                        md,
                        sd_str(v_re),
                        sd_opt_str(v_ch),
                    ) {
                        (Some(metadata), Some(re), Some(ch)) => Some(
                            crate::model::MsgView {
                                id: id,
                                author: author,
                                create_time: cr,
                                update_time: up,
                                content: content,
                                status: st,
                                end_turn: et,
                                weight: we,
                                metadata: metadata,
                                recipient: re,
                                channel: ch,
                            },
                        ),
                        _ => None,
                    },
                    _ => None,
                },
                _ => None,
            }
        },
        _ => None,
    }
}

pub fn d_message(j: Json) -> (r: Option<crate::model::Message>)
    ensures
        r is Some <==> sd_message(j.deep()) is Some,
        r matches Some(x) ==> sd_message(j.deep()) == Some(x@),
{
    match j {
        Json::Obj(es) => {
            proof {
                crate::model::lemma_entries_pairs(es@);
            }
            let mut es = es;
            let v_id = take_first(&mut es, "id");
            let v_au = take_first(&mut es, "author");
            let v_cr = take_first(&mut es, "create_time");
            let v_up = take_first(&mut es, "update_time");
            let v_co = take_first(&mut es, "content");
            let v_st = take_first(&mut es, "status");
            let v_et = take_first(&mut es, "end_turn");
            let v_we = take_first(&mut es, "weight");
            let v_md = take_first(&mut es, "metadata");
            let v_re = take_first(&mut es, "recipient");
            let v_ch = take_first(&mut es, "channel");
            let id = match d_str(v_id) {
                Some(x) => x,
                None => {
                    return None;
                },
            };
            let author = match v_au {
                Some(a) => match d_author(a) {
                    Some(x) => x,
                    None => {
                        return None;
                    },
                },
                None => {
                    return None;
                },
            };
            let cr = match d_opt_numkey(v_cr) {
                Some(x) => x,
                None => {
                    return None;
                },
            };
            let up = match d_opt_numkey(v_up) {
                Some(x) => x,
                None => {
                    return None;
                },
            };
            let content = match v_co {
                Some(c) => match d_content(c) {
                    Some(x) => x,
                    None => {
                        return None;
                    },
                },
                None => {
                    return None;
                },
            };
            let st = match d_str(v_st) {
                Some(x) => x,
                None => {
                    return None;
                },
            };
            let et = match d_opt_bool(v_et) {
                Some(x) => x,
                None => {
                    return None;
                },
            };
            let we = match d_numkey(v_we) {
                Some(x) => x,
                None => {
                    return None;
                },
            };
            let metadata = match v_md {
                Some(m) => match d_meta(m) {
                    Some(x) => x,
                    None => {
                        return None;
                    },
                },
                None => {
                    return None;
                },
            };
            let re = match d_str(v_re) {
                Some(x) => x,
                None => {
                    return None;
                },
            };
            let ch = match d_opt_str(v_ch) {
                Some(x) => x,
                None => {
                    return None;
                },
            };
            Some(
                crate::model::Message {
                    id,
                    author,
                    create_time: cr,
                    update_time: up,
                    content,
                    status: st,
                    end_turn: et,
                    weight: we,
                    metadata,
                    recipient: re,
                    channel: ch,
                },
            )
        },
        _ => None,
    }
}

pub open spec fn sd_opt_message(v: Option<JsonView>) -> Option<Option<crate::model::MsgView>> {
    match v {
        None => Some(None),
        Some(JsonView::Null) => Some(None),
        Some(x) => match sd_message(x) {
            Some(m) => Some(Some(m)),
            None => None,
        },
    }
}

pub fn d_opt_message(o: Option<Json>) -> (r: Option<Option<crate::model::Message>>)
    ensures
        r is Some <==> sd_opt_message(o_deep(o)) is Some,
        r matches Some(x) ==> sd_opt_message(o_deep(o)) == Some(crate::model::o_view(x)),
{
    match o {
        None => Some(None),
        Some(Json::Null) => Some(None),
        Some(j) => match d_message(j) {
            Some(m) => Some(Some(m)),
            None => None,
        },
    }
}

/// One tree node: its id, an optional message, an optional parent and
/// the child list.
pub open spec fn sd_node(jv: JsonView) -> Option<crate::model::NodeView> {
    match jv {
        JsonView::Obj(es) => {
            let (v_id, es1) = take_key(es, "id"@);
            let (v_msg, es2) = take_key(es1, "message"@);
            let (v_par, es3) = take_key(es2, "parent"@);
            let (v_ch, es4) = take_key(es3, "children"@);
            match (sd_str(v_id), sd_opt_message(v_msg), sd_opt_str(v_par), sd_strs(v_ch)) {
                (Some(id), Some(message), Some(parent), Some(children)) => Some(
                    crate::model::NodeView { id, message, parent, children },
                ),
                _ => None,
            }
        },
        _ => None,
    }
}

pub fn d_node(j: Json) -> (r: Option<crate::model::MessageNode>)
    ensures
        r is Some <==> sd_node(j.deep()) is Some,
        r matches Some(x) ==> sd_node(j.deep()) == Some(x@),
{
    match j {
        Json::Obj(es) => {
            proof {
                crate::model::lemma_entries_pairs(es@);
            }
            let mut es = es;
            let v_id = take_first(&mut es, "id");
            let v_msg = take_first(&mut es, "message");
            let v_par = take_first(&mut es, "parent");
            let v_ch = take_first(&mut es, "children");
            let id = match d_str(v_id) {
                Some(x) => x,
                None => {
                    return None;
                },
            };
            let message = match d_opt_message(v_msg) {
                Some(x) => x,
                None => {
                    return None;
                },
            };
            let parent = match d_opt_str(v_par) {
                Some(x) => x,
                None => {
                    return None;
                },
            };
            let children = match d_strs(v_ch) {
                Some(x) => x,
                None => {
                    return None;
                },
            };
            Some(crate::model::MessageNode { id, message, parent, children })
        },
        _ => None,
    }
}

/// The node mapping: the keys stay as given, every value must decode as
/// a node.
pub open spec fn sd_node_map(es: Seq<(Seq<char>, JsonView)>) -> Option<
    Seq<(Seq<char>, crate::model::NodeView)>,
>
    decreases es.len(),
{
    if es.len() == 0 {
        Some(Seq::empty())
    } else {
        match sd_node_map(es.drop_last()) {
            Some(p) => match sd_node(es.last().1) {
                Some(n) => Some(p.push((es.last().0, n))),
                None => None,
            },
            None => None,
        }
    }
}

proof fn lemma_sd_node_map_persists_none(es: Seq<(Seq<char>, JsonView)>, i: int)
    requires
        0 <= i <= es.len(),
        sd_node_map(es.take(i)) is None,
    ensures
        sd_node_map(es) is None,
    decreases es.len() - i,
{
    if i < es.len() {
        crate::analyze::lemma_take_succ(es, i);
        lemma_sd_node_map_persists_none(es, i + 1);
    } else {
        crate::analyze::lemma_take_all(es);
    }
}

#[verifier::loop_isolation(false)]
pub fn d_node_map(es: Vec<(String, Json)>) -> (r: Option<Vec<(String, crate::model::MessageNode)>>)
    ensures
        r is Some <==> sd_node_map(pairs_view(es@)) is Some,
        r matches Some(v) ==> sd_node_map(pairs_view(es@)) == Some(pairs_view(v@)),
{
    let ghost ev = pairs_view(es@);
    let mut out: Vec<(String, crate::model::MessageNode)> = Vec::new();
    let mut rest = es;
    let n = rest.len();
    let mut i: usize = 0;
    proof {
        assert(ev.take(0) =~= Seq::<(Seq<char>, JsonView)>::empty());
        assert(pairs_view(out@) =~= Seq::<(Seq<char>, crate::model::NodeView)>::empty());
    }
    while i < n
        invariant
            i <= n,
            n == ev.len(),
            rest@.len() == n - i,
            forall|t: int|
                0 <= t < rest@.len() ==> (rest@[t].0@, rest@[t].1.deep()) == ev[i + t],
            sd_node_map(ev.take(i as int)) == Some(pairs_view(out@)),
        decreases n - i,
    {
        let (k, v) = rest.remove(0);
        proof {
            assert((k@, v.deep()) == ev[i as int]);
            assert forall|t: int| 0 <= t < rest@.len() implies (rest@[t].0@, rest@[t].1.deep())
                == ev[i + 1 + t] by {}
            crate::analyze::lemma_take_succ(ev, i as int);
        }
        match d_node(v) {
            Some(nd) => {
                proof {
                    assert(pairs_view(out@.push((k, nd))) =~= pairs_view(out@).push((k@, nd@)));
                }
                out.push((k, nd));
            },
            None => {
                proof {
                    lemma_sd_node_map_persists_none(ev, i + 1);
                }
                return None;
            },
        }
        i = i + 1;
    }
    proof {
        crate::analyze::lemma_take_all(ev);
    }
    Some(out)
}

/// One exported conversation record.
pub open spec fn sd_conv(jv: JsonView) -> Option<crate::model::ConvView> {
    match jv {
        JsonView::Obj(es) => {
            let (v_title, es1) = take_key(es, "title"@);
            let (v_ct, es2) = take_key(es1, "create_time"@);
            let (v_ut, es3) = take_key(es2, "update_time"@);
            let (v_map, es4) = take_key(es3, "mapping"@);
            let (v_mr, es5) = take_key(es4, "moderation_results"@);
            let (v_cn, es6) = take_key(es5, "current_node"@);
            let (v_pi, es7) = take_key(es6, "plugin_ids"@);
            let (v_ci, es8) = take_key(es7, "conversation_id"@);
            let (v_cti, es9) = take_key(es8, "conversation_template_id"@);
            let (v_gi, es10) = take_key(es9, "gizmo_id"@);
            let (v_gt, es11) = take_key(es10, "gizmo_type"@);
            let (v_ia, es12) = take_key(es11, "is_archived"@);
            let (v_is, es13) = take_key(es12, "is_starred"@);
            let (v_su, es14) = take_key(es13, "safe_urls"@);
            let (v_bu, es15) = take_key(es14, "blocked_urls"@);
            let (v_dms, es16) = take_key(es15, "default_model_slug"@);
            let (v_co, es17) = take_key(es16, "conversation_origin"@);
            let (v_vo, es18) = take_key(es17, "voice"@);
            let (v_as, es19) = take_key(es18, "async_status"@);
            let (v_dti, es20) = take_key(es19, "disabled_tool_ids"@);
            let (v_dnr, es21) = take_key(es20, "is_do_not_remember"@);
            let (v_ms, es22) = take_key(es21, "memory_scope"@);
            let (v_si, es23) = take_key(es22, "sugar_item_id"@);
            let (v_id, es24) = take_key(es23, "id"@);
            let mapping = match v_map {
                Some(JsonView::Obj(me)) => sd_node_map(me),
                _ => None,
            };
            let moderation = match v_mr {
                Some(JsonView::Arr(a)) => Some(a),
                _ => None,
            };
            match (sd_str(v_title), sd_numkey(v_ct), sd_numkey(v_ut), mapping) {
                (Some(title), Some(ct), Some(ut), Some(mp)) => match (
                    moderation,
                    sd_str(v_cn),
                    sd_str(v_ci),
                    sd_bool(v_ia),
                ) {
                    (Some(mr), Some(cn), Some(ci), Some(ia)) => match (
                        sd_strs(v_su),
                        sd_strs(v_bu),
                        sd_strs(v_dti),
                        sd_str(v_ms),
                        sd_str(v_id),
                    ) {
                        (Some(su), Some(bu), Some(dti), Some(ms), Some(id)) => match (
                            sd_opt_str(v_cti),
                            sd_opt_str(v_gi),
                            sd_opt_str(v_gt),
                            sd_opt_bool(v_is),
                            sd_opt_str(v_dms),
                        ) {
                            (Some(cti), Some(gi), Some(gt), Some(is_st), Some(dms)) => match (
                                sd_opt_str(v_co),
                                sd_opt_str(v_vo),
                                sd_opt_async(v_as),
                                sd_opt_bool(v_dnr),
                                sd_opt_str(v_si),
                            ) {
                                (Some(co), Some(vo), Some(asv), Some(dnr), Some(si)) => Some(
                                    crate::model::ConvView {
                                        title: title,
                                        create_time: ct,
                                        update_time: ut,
                                        mapping: mp,
                                        moderation_results: mr,
                                        current_node: cn,
                                        plugin_ids: sd_opt_json(v_pi),
                                        conversation_id: ci,
                                        conversation_template_id: cti,
                                        gizmo_id: gi,
                                        gizmo_type: gt,
                                        is_archived: ia,
                                        is_starred: is_st,
                                        safe_urls: su,
                                        blocked_urls: bu,
                                        default_model_slug: dms,
                                        conversation_origin: co,
                                        voice: vo,
                                        async_status: asv,
                                        disabled_tool_ids: dti,
                                        is_do_not_remember: dnr,
                                        memory_scope: ms,
                                        sugar_item_id: si,
                                        id: id,
                                    },
                                ),
                                _ => None,
                            },
                            _ => None,
                        },
                        _ => None,
                    },
                    _ => None,
                },
                _ => None,
            }
        },
        _ => None,
    }
}

#[verifier::rlimit(60)]
pub fn d_conv(j: Json) -> (r: Option<crate::model::ConversationRoot>)
    ensures
        r is Some <==> sd_conv(j.deep()) is Some,
        r matches Some(x) ==> sd_conv(j.deep()) == Some(x@),
{
    match j {
        Json::Obj(es) => {
            proof {
                crate::model::lemma_entries_pairs(es@);
            }
            let mut es = es;
            let v_title = take_first(&mut es, "title");
            let v_ct = take_first(&mut es, "create_time");
            let v_ut = take_first(&mut es, "update_time");
            let v_map = take_first(&mut es, "mapping");
            let v_mr = take_first(&mut es, "moderation_results");
            let v_cn = take_first(&mut es, "current_node");
            let v_pi = take_first(&mut es, "plugin_ids");
            let v_ci = take_first(&mut es, "conversation_id");
            let v_cti = take_first(&mut es, "conversation_template_id");
            let v_gi = take_first(&mut es, "gizmo_id");
            let v_gt = take_first(&mut es, "gizmo_type");
            let v_ia = take_first(&mut es, "is_archived");
            let v_is = take_first(&mut es, "is_starred");
            let v_su = take_first(&mut es, "safe_urls");
            let v_bu = take_first(&mut es, "blocked_urls");
            let v_dms = take_first(&mut es, "default_model_slug");
            let v_co = take_first(&mut es, "conversation_origin");
            let v_vo = take_first(&mut es, "voice");
            let v_as = take_first(&mut es, "async_status");
            let v_dti = take_first(&mut es, "disabled_tool_ids");
            let v_dnr = take_first(&mut es, "is_do_not_remember");
            let v_ms = take_first(&mut es, "memory_scope");
            let v_si = take_first(&mut es, "sugar_item_id");
            let v_id = take_first(&mut es, "id");
            let title = match d_str(v_title) {
                Some(x) => x,
                None => {
                    return None;
                },
            };
            let ct = match d_numkey(v_ct) {
                Some(x) => x,
                None => {
                    return None;
                },
            };
            let ut = match d_numkey(v_ut) {
                Some(x) => x,
                None => {
                    return None;
                },
            };
            let mp = match v_map {
                Some(Json::Obj(me)) => {
                    proof {
                        crate::model::lemma_entries_pairs(me@);
                    }
                    match d_node_map(me) {
                        Some(x) => x,
                        None => {
                            return None;
                        },
                    }
                },
                _ => {
                    return None;
                },
            };
            let mr = match v_mr {
                Some(Json::Arr(a)) => {
                    proof {
                        crate::model::lemma_jsons_seq_view(a@);
                    }
                    a
                },
                _ => {
                    return None;
                },
            };
            let cn = match d_str(v_cn) {
                Some(x) => x,
                None => {
                    return None;
                },
            };
            let pi = d_opt_json(v_pi);
            let ci = match d_str(v_ci) {
                Some(x) => x,
                None => {
                    return None;
                },
            };
            let ia = match d_bool(v_ia) {
                Some(x) => x,
                None => {
                    return None;
                },
            };
            let su = match d_strs(v_su) {
                Some(x) => x,
                None => {
                    return None;
                },
            };
            let bu = match d_strs(v_bu) {
                Some(x) => x,
                None => {
                    return None;
                },
            };
            let dti = match d_strs(v_dti) {
                Some(x) => x,
                None => {
                    return None;
                },
            };
            let ms = match d_str(v_ms) {
                Some(x) => x,
                None => {
                    return None;
                },
            };
            let id = match d_str(v_id) {
                Some(x) => x,
                None => {
                    return None;
                },
            };
            let cti = match d_opt_str(v_cti) {
                Some(x) => x,
                None => {
                    return None;
                },
            };
            let gi = match d_opt_str(v_gi) {
                Some(x) => x,
                None => {
                    return None;
                },
            };
            let gt = match d_opt_str(v_gt) {
                Some(x) => x,
                None => {
                    return None;
                },
            };
            let is_st = match d_opt_bool(v_is) {
                Some(x) => x,
                None => {
                    return None;
                },
            };
            let dms = match d_opt_str(v_dms) {
                Some(x) => x,
                None => {
                    return None;
                },
            };
            let co = match d_opt_str(v_co) {
                Some(x) => x,
                None => {
                    return None;
                },
            };
            let vo = match d_opt_str(v_vo) {
                Some(x) => x,
                None => {
                    return None;
                },
            };
            let asv = match d_opt_async(v_as) {
                Some(x) => x,
                None => {
                    return None;
                },
            };
            let dnr = match d_opt_bool(v_dnr) {
                Some(x) => x,
                None => {
                    return None;
                },
            };
            let si = match d_opt_str(v_si) {
                Some(x) => x,
                None => {
                    return None;
                },
            };
            Some(
                crate::model::ConversationRoot {
                    title,
                    create_time: ct,
                    update_time: ut,
                    mapping: mp,
                    moderation_results: mr,
                    current_node: cn,
                    plugin_ids: pi,
                    conversation_id: ci,
                    conversation_template_id: cti,
                    gizmo_id: gi,
                    gizmo_type: gt,
                    is_archived: ia,
                    is_starred: is_st,
                    safe_urls: su,
                    blocked_urls: bu,
                    default_model_slug: dms,
                    conversation_origin: co,
                    voice: vo,
                    async_status: asv,
                    disabled_tool_ids: dti,
                    is_do_not_remember: dnr,
                    memory_scope: ms,
                    sugar_item_id: si,
                    id,
                },
            )
        },
        _ => None,
    }
}

/// Why a whole archive file fails to decode.
#[derive(Debug, PartialEq, Eq, Structural)]
pub enum MalformedArchive {
    /// The bytes are not valid JSON.
    NotJson,
    /// The document is not a JSON array.
    NotArray,
    /// The record at `index` does not have the expected shape.
    BadRecord { index: usize },
}

/// Every record decodes, in order.
pub open spec fn sd_conv_list(a: Seq<JsonView>) -> Option<Seq<crate::model::ConvView>>
    decreases a.len(),
{
    if a.len() == 0 {
        Some(Seq::empty())
    } else {
        match sd_conv_list(a.drop_last()) {
            Some(p) => match sd_conv(a.last()) {
                Some(c) => Some(p.push(c)),
                None => None,
            },
            None => None,
        }
    }
}

/// The whole document: an array of conversation records.
pub open spec fn sd_convs(jv: JsonView) -> Option<Seq<crate::model::ConvView>> {
    match jv {
        JsonView::Arr(a) => sd_conv_list(a),
        _ => None,
    }
}

proof fn lemma_sd_conv_list_persists_none(a: Seq<JsonView>, i: int)
    requires
        0 <= i <= a.len(),
        sd_conv_list(a.take(i)) is None,
    ensures
        sd_conv_list(a) is None,
    decreases a.len() - i,
{
    if i < a.len() {
        crate::analyze::lemma_take_succ(a, i);
        lemma_sd_conv_list_persists_none(a, i + 1);
    } else {
        crate::analyze::lemma_take_all(a);
    }
}

/// Decodes a parsed archive document into the conversation list.  The
/// whole list decodes, or the call fails naming the first record that
/// does not.
#[verifier::loop_isolation(false)]
pub fn decode_conversations(j: Json) -> (r: Result<
    Vec<crate::model::ConversationRoot>,
    MalformedArchive,
>)
    ensures
        r is Ok <==> sd_convs(j.deep()) is Some,
        r matches Ok(v) ==> sd_convs(j.deep()) == Some(crate::model::seq_view(v@)),
        r matches Err(e) ==> match j.deep() {
            JsonView::Arr(a) => e matches MalformedArchive::BadRecord { index } && index < a.len()
                && sd_conv(a[index as int]) is None && (forall|t: int|
                0 <= t < index ==> sd_conv(#[trigger] a[t]) is Some),
            _ => e == MalformedArchive::NotArray,
        },
{
    match j {
        Json::Arr(a) => {
            let ghost av = crate::json::deep_seq(a@);
            proof {
                crate::json::lemma_deep_seq(a@);
            }
            let mut out: Vec<crate::model::ConversationRoot> = Vec::new();
            let mut rest = a;
            let n = rest.len();
            let mut i: usize = 0;
            proof {
                assert(av.take(0) =~= Seq::<JsonView>::empty());
                assert(crate::model::seq_view(out@) =~= Seq::<crate::model::ConvView>::empty());
            }
            while i < n
                invariant
                    i <= n,
                    n == av.len(),
                    rest@.len() == n - i,
                    forall|t: int| 0 <= t < rest@.len() ==> rest@[t].deep() == av[i + t],
                    sd_conv_list(av.take(i as int)) == Some(crate::model::seq_view(out@)),
                    forall|t: int| 0 <= t < i ==> sd_conv(#[trigger] av[t]) is Some,
                decreases n - i,
            {
                let x = rest.remove(0);
                proof {
                    assert(x.deep() == av[i as int]);
                    assert forall|t: int| 0 <= t < rest@.len() implies rest@[t].deep() == av[i + 1
                        + t] by {}
                    crate::analyze::lemma_take_succ(av, i as int);
                }
                match d_conv(x) {
                    Some(c) => {
                        proof {
                            assert(crate::model::seq_view(out@.push(c)) =~= crate::model::seq_view(
                                out@,
                            ).push(c@));
                        }
                        out.push(c);
                    },
                    None => {
                        proof {
                            lemma_sd_conv_list_persists_none(av, i + 1);
                        }
                        return Err(MalformedArchive::BadRecord { index: i });
                    },
                }
                i = i + 1;
            }
            proof {
                crate::analyze::lemma_take_all(av);
            }
            Ok(out)
        },
        _ => Err(MalformedArchive::NotArray),
    }
}

/// Decodes the conversations file from its JSON text.
pub fn decode_conversations_str(s: &str) -> (r: Result<
    Vec<crate::model::ConversationRoot>,
    MalformedArchive,
>)
    ensures
        crate::ext::json_doc(s@) is None ==> r == Err::<
            Vec<crate::model::ConversationRoot>,
            MalformedArchive,
        >(MalformedArchive::NotJson),
        crate::ext::json_doc(s@) matches Some(jv) ==> {
            &&& (r is Ok <==> sd_convs(jv) is Some)
            &&& (r matches Ok(v) ==> sd_convs(jv) == Some(crate::model::seq_view(v@)))
            &&& (r matches Err(e) ==> match jv {
                JsonView::Arr(a) => e matches MalformedArchive::BadRecord { index } && index
                    < a.len() && sd_conv(a[index as int]) is None && (forall|t: int|
                    0 <= t < index ==> sd_conv(#[trigger] a[t]) is Some),
                _ => e == MalformedArchive::NotArray,
            })
        },
{
    match crate::ext::parse_json(s) {
        Some(j) => decode_conversations(j),
        None => Err(MalformedArchive::NotJson),
    }
}

/// One feedback rating, under either accepted spelling of each value.
pub open spec fn sd_rating(v: Option<JsonView>) -> Option<crate::model::Rating> {
    match v {
        Some(JsonView::Str(s)) => if s == "ThumbsUp"@ || s == "thumbs_up"@ {
            Some(crate::model::Rating::ThumbsUp)
        } else if s == "ThumbsDown"@ || s == "thumbs_down"@ {
            Some(crate::model::Rating::ThumbsDown)
        } else {
            None
        },
        _ => None,
    }
}

pub fn d_rating(o: Option<Json>) -> (r: Option<crate::model::Rating>)
    ensures
        r == sd_rating(o_deep(o)),
{
    match o {
        Some(Json::Str(s)) => {
            if crate::text::str_eq(s.as_str(), "ThumbsUp") || crate::text::str_eq(
                s.as_str(),
                "thumbs_up",
            ) {
                Some(crate::model::Rating::ThumbsUp)
            } else if crate::text::str_eq(s.as_str(), "ThumbsDown") || crate::text::str_eq(
                s.as_str(),
                "thumbs_down",
            ) {
                Some(crate::model::Rating::ThumbsDown)
            } else {
                None
            }
        },
        _ => None,
    }
}

/// One feedback record.
pub open spec fn sd_feedback(jv: JsonView) -> Option<crate::model::FeedbackEntryView> {
    match jv {
        JsonView::Obj(es) => {
            let (v_id, es1) = take_key(es, "id"@);
            let (v_cid, es2) = take_key(es1, "conversation_id"@);
            let (v_uid, es3) = take_key(es2, "user_id"@);
            let (v_ra, es4) = take_key(es3, "rating"@);
            let (v_ct, es5) = take_key(es4, "create_time"@);
            let (v_ws, es6) = take_key(es5, "workspace_id"@);
            let (v_co, es7) = take_key(es6, "content"@);
            let (v_en, es8) = take_key(es7, "evaluation_name"@);
            let (v_et, es9) = take_key(es8, "evaluation_treatment"@);
            let (v_ut, es10) = take_key(es9, "update_time"@);
            match (sd_str(v_id), sd_str(v_cid), sd_str(v_uid), sd_rating(v_ra)) {
                (Some(id), Some(cid), Some(uid), Some(ra)) => match (
                    sd_str(v_ct),
                    sd_opt_str(v_ws),
                    sd_str(v_co),
                ) {
                    (Some(ct), Some(ws), Some(co)) => match (
                        sd_opt_str(v_en),
                        sd_opt_str(v_et),
                        sd_str(v_ut),
                    ) {
                        (Some(en), Some(et), Some(ut)) => Some(
                            crate::model::FeedbackEntryView {
                                id: id,
                                conversation_id: cid,
                                user_id: uid,
                                rating: ra,
                                create_time: ct,
                                workspace_id: ws,
                                content: co,
                                evaluation_name: en,
                                evaluation_treatment: et,
                                update_time: ut,
                            },
                        ),
                        _ => None,
                    },
                    _ => None,
                },
                _ => None,
            }
        },
        _ => None,
    }
}

pub fn d_feedback(j: Json) -> (r: Option<crate::model::FeedbackEntry>)
    ensures
        r is Some <==> sd_feedback(j.deep()) is Some,
        r matches Some(x) ==> sd_feedback(j.deep()) == Some(x@),
{
    match j {
        Json::Obj(es) => {
            proof {
                crate::model::lemma_entries_pairs(es@);
            }
            let mut es = es;
            let v_id = take_first(&mut es, "id");
            let v_cid = take_first(&mut es, "conversation_id");
            let v_uid = take_first(&mut es, "user_id");
            let v_ra = take_first(&mut es, "rating");
            let v_ct = take_first(&mut es, "create_time");
            let v_ws = take_first(&mut es, "workspace_id");
            let v_co = take_first(&mut es, "content");
            let v_en = take_first(&mut es, "evaluation_name");
            let v_et = take_first(&mut es, "evaluation_treatment");
            let v_ut = take_first(&mut es, "update_time");
            let id = match d_str(v_id) {
                Some(x) => x,
                None => {
                    return None;
                },
            };
            let cid = match d_str(v_cid) {
                Some(x) => x,
                None => {
                    return None;
                },
            };
            let uid = match d_str(v_uid) {
                Some(x) => x,
                None => {
                    return None;
                },
            };
            let ra = match d_rating(v_ra) {
                Some(x) => x,
                None => {
                    return None;
                },
            };
            let ct = match d_str(v_ct) {
                Some(x) => x,
                None => {
                    return None;
                },
            };
            let ws = match d_opt_str(v_ws) {
                Some(x) => x,
                None => {
                    return None;
                },
            };
            let co = match d_str(v_co) {
                Some(x) => x,
                None => {
                    return None;
                },
            };
            let en = match d_opt_str(v_en) {
                Some(x) => x,
                None => {
                    return None;
                },
            };
            let et = match d_opt_str(v_et) {
                Some(x) => x,
                None => {
                    return None;
                },
            };
            let ut = match d_str(v_ut) {
                Some(x) => x,
                None => {
                    return None;
                },
            };
            Some(
                crate::model::FeedbackEntry {
                    id,
                    conversation_id: cid,
                    user_id: uid,
                    rating: ra,
                    create_time: ct,
                    workspace_id: ws,
                    content: co,
                    evaluation_name: en,
                    evaluation_treatment: et,
                    update_time: ut,
                },
            )
        },
        _ => None,
    }
}

pub open spec fn sd_feedback_list(a: Seq<JsonView>) -> Option<Seq<crate::model::FeedbackEntryView>>
    decreases a.len(),
{
    if a.len() == 0 {
        Some(Seq::empty())
    } else {
        match sd_feedback_list(a.drop_last()) {
            Some(p) => match sd_feedback(a.last()) {
                Some(c) => Some(p.push(c)),
                None => None,
            },
            None => None,
        }
    }
}

pub open spec fn sd_feedbacks(jv: JsonView) -> Option<Seq<crate::model::FeedbackEntryView>> {
    match jv {
        JsonView::Arr(a) => sd_feedback_list(a),
        _ => None,
    }
}

proof fn lemma_sd_feedback_list_persists_none(a: Seq<JsonView>, i: int)
    requires
        0 <= i <= a.len(),
        sd_feedback_list(a.take(i)) is None,
    ensures
        sd_feedback_list(a) is None,
    decreases a.len() - i,
{
    if i < a.len() {
        crate::analyze::lemma_take_succ(a, i);
        lemma_sd_feedback_list_persists_none(a, i + 1);
    } else {
        crate::analyze::lemma_take_all(a);
    }
}

/// Decodes a parsed feedback document into the feedback list.
#[verifier::loop_isolation(false)]
pub fn decode_feedback(j: Json) -> (r: Result<Vec<crate::model::FeedbackEntry>, MalformedArchive>)
    ensures
        r is Ok <==> sd_feedbacks(j.deep()) is Some,
        r matches Ok(v) ==> sd_feedbacks(j.deep()) == Some(crate::model::seq_view(v@)),
        r matches Err(e) ==> match j.deep() {
            JsonView::Arr(a) => e matches MalformedArchive::BadRecord { index } && index < a.len()
                && sd_feedback(a[index as int]) is None && (forall|t: int|
                0 <= t < index ==> sd_feedback(#[trigger] a[t]) is Some),
            _ => e == MalformedArchive::NotArray,
        },
{
    match j {
        Json::Arr(a) => {
            let ghost av = crate::json::deep_seq(a@);
            proof {
                crate::json::lemma_deep_seq(a@);
            }
            let mut out: Vec<crate::model::FeedbackEntry> = Vec::new();
            let mut rest = a;
            let n = rest.len();
            let mut i: usize = 0;
            proof {
                assert(av.take(0) =~= Seq::<JsonView>::empty());
                assert(crate::model::seq_view(out@) =~= Seq::<
                    crate::model::FeedbackEntryView,
                >::empty());
            }
            while i < n
                invariant
                    i <= n,
                    n == av.len(),
                    rest@.len() == n - i,
                    forall|t: int| 0 <= t < rest@.len() ==> rest@[t].deep() == av[i + t],
                    sd_feedback_list(av.take(i as int)) == Some(crate::model::seq_view(out@)),
                    forall|t: int| 0 <= t < i ==> sd_feedback(#[trigger] av[t]) is Some,
                decreases n - i,
            {
                let x = rest.remove(0);
                proof {
                    assert(x.deep() == av[i as int]);
                    assert forall|t: int| 0 <= t < rest@.len() implies rest@[t].deep() == av[i + 1
                        + t] by {}
                    crate::analyze::lemma_take_succ(av, i as int);
                }
                match d_feedback(x) {
                    Some(c) => {
                        proof {
                            assert(crate::model::seq_view(out@.push(c)) =~= crate::model::seq_view(
                                out@,
                            ).push(c@));
                        }
                        out.push(c);
                    },
                    None => {
                        proof {
                            lemma_sd_feedback_list_persists_none(av, i + 1);
                        }
                        return Err(MalformedArchive::BadRecord { index: i });
                    },
                }
                i = i + 1;
            }
            proof {
                crate::analyze::lemma_take_all(av);
            }
            Ok(out)
        },
        _ => Err(MalformedArchive::NotArray),
    }
}

/// Decodes the feedback file from its JSON text.
pub fn decode_feedback_str(s: &str) -> (r: Result<
    Vec<crate::model::FeedbackEntry>,
    MalformedArchive,
>)
    ensures
        crate::ext::json_doc(s@) is None ==> r == Err::<
            Vec<crate::model::FeedbackEntry>,
            MalformedArchive,
        >(MalformedArchive::NotJson),
        crate::ext::json_doc(s@) matches Some(jv) ==> {
            &&& (r is Ok <==> sd_feedbacks(jv) is Some)
            &&& (r matches Ok(v) ==> sd_feedbacks(jv) == Some(crate::model::seq_view(v@)))
            &&& (r matches Err(e) ==> match jv {
                JsonView::Arr(a) => e matches MalformedArchive::BadRecord { index } && index
                    < a.len() && sd_feedback(a[index as int]) is None && (forall|t: int|
                    0 <= t < index ==> sd_feedback(#[trigger] a[t]) is Some),
                _ => e == MalformedArchive::NotArray,
            })
        },
{
    match crate::ext::parse_json(s) {
        Some(j) => decode_feedback(j),
        None => Err(MalformedArchive::NotJson),
    }
}

} // verus!
