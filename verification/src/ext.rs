//! The crate's trusted boundary: the few outside calls the library
//! relies on, each behind a small wrapper whose contract states what the
//! outside crate's source shows, plus names for results that are pure
//! functions of their arguments but too involved to restate.

use vstd::prelude::*;
use crate::json::Json;
use crate::json::JsonNum;
use crate::json::JsonView;
use crate::text::spec_dec;

verus! {

#[verifier::external_type_specification]
#[verifier::external_body]
pub struct ExValue(serde_json::Value);

/// The JSON document model that parsing the text `s` yields, or `None`
/// when `s` is not valid JSON.  Parsing is a pure function of the text.
pub uninterp spec fn json_doc(s: Seq<char>) -> Option<JsonView>;

/// Rebuilds a parsed tree as the crate's own document model, variant by
/// variant.  Relies on serde_json::Value's public variants;
/// serde_json::Number keeps its integer reading (Number::as_i64) and its
/// reading as a double (Number::as_f64), stored as a bit pattern.
#[verifier::external_body]
fn to_json(v: serde_json::Value) -> Json {
    match v {
        serde_json::Value::Null => Json::Null,
        serde_json::Value::Bool(b) => Json::Bool(b),
        serde_json::Value::Number(n) => Json::Num(
            JsonNum { int: n.as_i64(), bits: n.as_f64().map(|x| x.to_bits()) },
        ),
        serde_json::Value::String(s) => Json::Str(s),
        serde_json::Value::Array(a) => Json::Arr(a.into_iter().map(to_json).collect()),
        serde_json::Value::Object(m) => Json::Obj(
            m.into_iter().map(|(k, x)| (k, to_json(x))).collect(),
        ),
    }
}

/// Relies on serde_json::from_str::<serde_json::Value>: turns JSON text
/// into a value tree, deterministically in the text; `to_json` above
/// rebuilds that tree in the crate's model, which `json_doc` names.
#[verifier::external_body]
pub fn parse_json(s: &str) -> (r: Option<Json>)
    ensures
        r is Some <==> json_doc(s@) is Some,
        r matches Some(j) ==> json_doc(s@) == Some(j.deep()),
{
    serde_json::from_str::<serde_json::Value>(s).ok().map(to_json)
}

/// Whether url::Url::parse accepts the string `s`.
pub uninterp spec fn url_ok(s: Seq<char>) -> bool;

/// The normalized serialization of the URL parsed from `s`.
pub uninterp spec fn url_norm(s: Seq<char>) -> Seq<char>;

/// The host component of the URL parsed from `s`, when it has one.
pub uninterp spec fn url_host(s: Seq<char>) -> Option<Seq<char>>;

/// Relies on url::Url::parse (whose success depends on the string
/// alone), url::Url::to_string (the normalized form) and
/// url::Url::host_str (the host component).
#[verifier::external_body]
pub fn parse_url(s: &str) -> (r: Option<(String, Option<String>)>)
    ensures
        r is Some <==> url_ok(s@),
        r matches Some(p) ==> {
            &&& p.0@ == url_norm(s@)
            &&& (p.1 is Some <==> url_host(s@) is Some)
            &&& (p.1 matches Some(h) ==> url_host(s@) == Some(h@))
        },
{
    match url::Url::parse(s) {
        Ok(u) => Some((u.to_string(), u.host_str().map(|h| h.to_owned()))),
        Err(_) => None,
    }
}

/// `s` with leading and trailing whitespace removed; a pure function of
/// the characters.
pub uninterp spec fn trim_of(s: Seq<char>) -> Seq<char>;

/// Relies on str::trim: the same string without leading and trailing
/// whitespace, hence never longer.
#[verifier::external_body]
pub fn trim_str(s: &str) -> (r: String)
    ensures
        r@ == trim_of(s@),
        r@.len() <= s@.len(),
{
    s.trim().to_owned()
}

/// Relies on the std Display formatting of u64, which prints the decimal
/// digits that `spec_dec` lists.
#[verifier::external_body]
pub fn fmt_count(name: &str, n: u64) -> (r: String)
    ensures
        r@ == name@ + ": "@ + spec_dec(n as int),
{
    format!("{}: {}", name, n)
}

} // verus!
