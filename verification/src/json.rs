//! An in-memory JSON document model.
//!
//! The archive arrives as JSON text; an outside parser turns it into this
//! tree, and everything after that point is reasoned about against the
//! `JsonView` abstraction, where strings are character sequences.

use vstd::prelude::*;

verus! {

broadcast use vstd::std_specs::vec::axiom_vec_index_decreases;

/// A JSON number.  `int` holds the value when it is an integer
/// representable in `i64`; `bits` holds the IEEE-754 bit pattern of the
/// value read as a double-precision float, when that reading exists.
#[derive(Debug, Clone, Copy, PartialEq, Eq, Structural)]
pub struct JsonNum {
    pub int: Option<i64>,
    pub bits: Option<u64>,
}

/// One JSON value.
#[derive(Debug)]
pub enum Json {
    Null,
    Bool(bool),
    Num(JsonNum),
    Str(String),
    Arr(Vec<Json>),
    Obj(Vec<(String, Json)>),
}

/// The abstraction of a JSON value: the same tree with every string
/// replaced by its character sequence.
pub enum JsonView {
    Null,
    Bool(bool),
    Num(JsonNum),
    Str(Seq<char>),
    Arr(Seq<JsonView>),
    Obj(Seq<(Seq<char>, JsonView)>),
}

impl Json {
    /// The abstraction of this value.
    pub open spec fn deep(self) -> JsonView
        decreases self,
    {
        match self {
            Json::Null => JsonView::Null,
            Json::Bool(b) => JsonView::Bool(b),
            Json::Num(n) => JsonView::Num(n),
            Json::Str(s) => JsonView::Str(s@),
            Json::Arr(a) => JsonView::Arr(deep_seq(a@)),
            Json::Obj(o) => JsonView::Obj(deep_entry_seq(o@)),
        }
    }
}

/// The abstraction of each value of a sequence.
pub open spec fn deep_seq(s: Seq<Json>) -> Seq<JsonView>
    decreases s,
{
    if s.len() == 0 {
        Seq::empty()
    } else {
        deep_seq(s.drop_last()).push(s.last().deep())
    }
}

/// The abstraction of each entry of an object's entry list.
pub open spec fn deep_entry_seq(s: Seq<(String, Json)>) -> Seq<(Seq<char>, JsonView)>
    decreases s,
{
    if s.len() == 0 {
        Seq::empty()
    } else {
        deep_entry_seq(s.drop_last()).push((s.last().0@, s.last().1.deep()))
    }
}

impl View for Json {
    type V = JsonView;

    open spec fn view(&self) -> JsonView {
        self.deep()
    }
}

/// `deep_seq` abstracts elementwise.
pub proof fn lemma_deep_seq(s: Seq<Json>)
    ensures
        deep_seq(s).len() == s.len(),
        forall|i: int| 0 <= i < s.len() ==> deep_seq(s)[i] == s[i].deep(),
    decreases s,
{
    if s.len() > 0 {
        lemma_deep_seq(s.drop_last());
        assert forall|i: int| 0 <= i < s.len() implies deep_seq(s)[i] == s[i].deep() by {
            if i < s.len() - 1 {
                assert(s.drop_last()[i] == s[i]);
            }
        }
    }
}

/// `deep_entry_seq` abstracts entrywise.
pub proof fn lemma_deep_entry_seq(s: Seq<(String, Json)>)
    ensures
        deep_entry_seq(s).len() == s.len(),
        forall|i: int|
            0 <= i < s.len() ==> deep_entry_seq(s)[i] == (s[i].0@, s[i].1.deep()),
    decreases s,
{
    if s.len() > 0 {
        lemma_deep_entry_seq(s.drop_last());
        assert forall|i: int|
            0 <= i < s.len() implies deep_entry_seq(s)[i] == (s[i].0@, s[i].1.deep()) by {
            if i < s.len() - 1 {
                assert(s.drop_last()[i] == s[i]);
            }
        }
    }
}

} // verus!
