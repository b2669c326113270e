//! Trusted boundary to `serde_json`, and the library's own JSON model. A
//! parsed document is converted, variant by variant, into `JsonTree`, whose
//! ghost image `JsonView` the contracts speak of: parsing is a function of
//! the input text alone, so the parse result carries a name, and every
//! decision about what a document means is verified over the tree.

use vstd::prelude::*;

verus! {

use crate::text;

#[verifier::external_type_specification]
#[verifier::external_body]
pub struct ExValue(serde_json::Value);

/// A JSON document as plain values. Numbers are kept only as far as the
/// library reads them: those representable as a `u64`, and the rest
/// (negative, fractional, or too large) collapsed to `OtherNum`, exactly the
/// distinction `serde_json::Value::as_u64` draws.
pub enum JsonTree {
    Null,
    Bool(bool),
    UNum(u64),
    OtherNum,
    Text(String),
    Arr(Vec<JsonTree>),
    Obj(Vec<(String, JsonTree)>),
}

/// The ghost image of a `JsonTree`: the same shape over `Seq`.
pub enum JsonView {
    Null,
    Bool(bool),
    UNum(u64),
    OtherNum,
    Text(Seq<char>),
    Arr(Seq<JsonView>),
    Obj(Seq<(Seq<char>, JsonView)>),
}

broadcast use vstd::std_specs::vec::axiom_vec_decreases_to_view;

/// The ghost image of a tree.
pub open spec fn view_tree(t: JsonTree) -> JsonView
    decreases t,
{
    match t {
        JsonTree::Null => JsonView::Null,
        JsonTree::Bool(b) => JsonView::Bool(b),
        JsonTree::UNum(n) => JsonView::UNum(n),
        JsonTree::OtherNum => JsonView::OtherNum,
        JsonTree::Text(s) => JsonView::Text(s@),
        JsonTree::Arr(ts) => JsonView::Arr(view_trees(ts@)),
        JsonTree::Obj(fs) => JsonView::Obj(view_fields(fs@)),
    }
}

/// The ghost images of array elements, in order.
pub open spec fn view_trees(ts: Seq<JsonTree>) -> Seq<JsonView>
    decreases ts,
{
    if ts.len() == 0 {
        Seq::empty()
    } else {
        seq![view_tree(ts[0])] + view_trees(ts.skip(1))
    }
}

/// The ghost images of object fields, in order.
pub open spec fn view_fields(fs: Seq<(String, JsonTree)>) -> Seq<(Seq<char>, JsonView)>
    decreases fs,
{
    if fs.len() == 0 {
        Seq::empty()
    } else {
        seq![(fs[0].0@, view_tree(fs[0].1))] + view_fields(fs.skip(1))
    }
}

pub proof fn lemma_view_trees(ts: Seq<JsonTree>)
    ensures
        view_trees(ts).len() == ts.len(),
        forall|i: int| 0 <= i < ts.len() ==> view_trees(ts)[i] == view_tree(#[trigger] ts[i]),
    decreases ts.len(),
{
    if ts.len() > 0 {
        lemma_view_trees(ts.skip(1));
        assert forall|i: int|
            0 <= i < ts.len() implies view_trees(ts)[i] == view_tree(#[trigger] ts[i]) by {
            if i > 0 {
                assert(view_trees(ts)[i] == view_trees(ts.skip(1))[i - 1]);
                assert(ts.skip(1)[i - 1] == ts[i]);
            }
        }
    }
}

pub proof fn lemma_view_fields(fs: Seq<(String, JsonTree)>)
    ensures
        view_fields(fs).len() == fs.len(),
        forall|i: int|
            0 <= i < fs.len() ==> view_fields(fs)[i] == ((#[trigger] fs[i]).0@, view_tree(
                fs[i].1,
            )),
    decreases fs.len(),
{
    if fs.len() > 0 {
        lemma_view_fields(fs.skip(1));
        assert forall|i: int|
            0 <= i < fs.len() implies view_fields(fs)[i] == ((#[trigger] fs[i]).0@, view_tree(
            fs[i].1,
        )) by {
            if i > 0 {
                assert(view_fields(fs)[i] == view_fields(fs.skip(1))[i - 1]);
                assert(fs.skip(1)[i - 1] == fs[i]);
            }
        }
    }
}

impl JsonTree {
    pub open spec fn view(self) -> JsonView {
        view_tree(self)
    }
}

pub open spec fn spec_opt_view(t: Option<JsonTree>) -> Option<JsonView> {
    match t {
        Some(t) => Some(t.view()),
        None => None,
    }
}

/// The tree a JSON text parses to, `None` on malformed input: a function of
/// the text alone.
pub uninterp spec fn json_tree_of(s: Seq<char>) -> Option<JsonView>;

/// The tree a JSON byte string parses to, `None` on malformed input: a
/// function of the bytes alone.
pub uninterp spec fn json_tree_of_bytes(b: Seq<u8>) -> Option<JsonView>;

/// Relies on `serde_json::Value`'s public variants: each maps to the tree
/// variant of the same meaning, fields moved one for one, `as_u64` drawing
/// the number distinction. Makes no decision of the library's.
#[verifier::external_body]
fn value_to_tree(v: &serde_json::Value) -> (r: JsonTree) {
    match v {
        serde_json::Value::Null => JsonTree::Null,
        serde_json::Value::Bool(b) => JsonTree::Bool(*b),
        serde_json::Value::Number(n) => match n.as_u64() {
            Some(u) => JsonTree::UNum(u),
            None => JsonTree::OtherNum,
        },
        serde_json::Value::String(s) => JsonTree::Text(s.clone()),
        serde_json::Value::Array(a) => JsonTree::Arr(a.iter().map(value_to_tree).collect()),
        serde_json::Value::Object(o) => JsonTree::Obj(
            o.iter().map(|(k, x)| (k.clone(), value_to_tree(x))).collect(),
        ),
    }
}

/// Relies on `serde_json::from_str`: the document a text parses to, a
/// function of the text alone; `None` exactly on malformed input.
#[verifier::external_body]
pub fn parse_json_tree(s: &str) -> (r: Option<JsonTree>)
    ensures
        spec_opt_view(r) == json_tree_of(s@),
{
    serde_json::from_str::<serde_json::Value>(s).ok().map(|v| value_to_tree(&v))
}

/// Relies on `serde_json::from_slice`: the document a byte string parses to,
/// a function of the bytes alone; `None` exactly on malformed input.
#[verifier::external_body]
pub fn parse_json_tree_bytes(b: &[u8]) -> (r: Option<JsonTree>)
    ensures
        spec_opt_view(r) == json_tree_of_bytes(b@),
{
    serde_json::from_slice::<serde_json::Value>(b).ok().map(|v| value_to_tree(&v))
}

/// The member under `key`, searching the fields front to back (an object's
/// keys are unique after parsing, so this is the member).
pub open spec fn spec_fields_get(fields: Seq<(Seq<char>, JsonView)>, key: Seq<char>) -> Option<
    JsonView,
>
    decreases fields.len(),
{
    if fields.len() == 0 {
        None
    } else if fields[0].0 == key {
        Some(fields[0].1)
    } else {
        spec_fields_get(fields.skip(1), key)
    }
}

/// The member under `key` of an object, `None` elsewhere.
pub open spec fn spec_get(t: JsonView, key: Seq<char>) -> Option<JsonView> {
    match t {
        JsonView::Obj(fields) => spec_fields_get(fields, key),
        _ => None,
    }
}

/// The text of a string member, `None` elsewhere (including a missing one).
pub open spec fn spec_get_text(t: JsonView, key: Seq<char>) -> Option<Seq<char>> {
    match spec_get(t, key) {
        Some(JsonView::Text(s)) => Some(s),
        _ => None,
    }
}

/// The value of an integral member that fits a `u64`, `None` elsewhere.
pub open spec fn spec_get_u64(t: JsonView, key: Seq<char>) -> Option<u64> {
    match spec_get(t, key) {
        Some(JsonView::UNum(n)) => Some(n),
        _ => None,
    }
}

/// The elements of an array member, `None` elsewhere.
pub open spec fn spec_get_arr(t: JsonView, key: Seq<char>) -> Option<Seq<JsonView>> {
    match spec_get(t, key) {
        Some(JsonView::Arr(a)) => Some(a),
        _ => None,
    }
}

/// The member under `key` of an object tree.
pub fn tree_get<'a>(t: &'a JsonTree, key: &str) -> (r: Option<&'a JsonTree>)
    ensures
        match r {
            Some(x) => spec_get(t.view(), key@) == Some(x.view()),
            None => spec_get(t.view(), key@) is None,
        },
{
    let kv = text::chars_of(key);
    match t {
        JsonTree::Obj(fields) => {
            let ghost fview = view_fields(fields@);
            let mut i: usize = 0;
            proof {
                lemma_view_fields(fields@);
                assert(t.view() == JsonView::Obj(fview));
                assert(fview.skip(0) =~= fview);
            }
            while i < fields.len()
                invariant
                    i <= fields@.len(),
                    kv@ == key@,
                    fview.len() == fields@.len(),
                    forall|j: int|
                        0 <= j < fields@.len() ==> #[trigger] fview[j] == (
                        fields@[j].0@,
                        fields@[j].1.view(),
                    ),
                    t.view() == JsonView::Obj(fview),
                    spec_fields_get(fview, key@) == spec_fields_get(fview.skip(i as int), key@),
                decreases fields@.len() - i,
            {
                let ghost rest = fview.skip(i as int);
                assert(rest[0] == fview[i as int]);
                let fk = text::chars_of(fields[i].0.as_str());
                if text::chars_eq(&fk, &kv) {
                    return Some(&fields[i].1);
                }
                proof {
                    assert(rest.skip(1) =~= fview.skip(i + 1));
                }
                i += 1;
            }
            proof {
                assert(fview.skip(fview.len() as int) =~= Seq::<(Seq<char>, JsonView)>::empty());
            }
            None
        },
        _ => None,
    }
}

/// The text of a string member.
pub fn tree_get_text(t: &JsonTree, key: &str) -> (r: Option<String>)
    ensures
        match r {
            Some(s) => spec_get_text(t.view(), key@) == Some(s@),
            None => spec_get_text(t.view(), key@) is None,
        },
{
    match tree_get(t, key) {
        Some(x) => match x {
            JsonTree::Text(s) => Some(s.clone()),
            _ => None,
        },
        None => None,
    }
}

/// The value of an integral member that fits a `u64`.
pub fn tree_get_u64(t: &JsonTree, key: &str) -> (r: Option<u64>)
    ensures
        r == spec_get_u64(t.view(), key@),
{
    match tree_get(t, key) {
        Some(x) => match x {
            JsonTree::UNum(n) => Some(*n),
            _ => None,
        },
        None => None,
    }
}

/// The elements of an array member.
pub fn tree_get_arr<'a>(t: &'a JsonTree, key: &str) -> (r: Option<&'a Vec<JsonTree>>)
    ensures
        match r {
            Some(a) => spec_get_arr(t.view(), key@) == Some(view_trees(a@)),
            None => spec_get_arr(t.view(), key@) is None,
        },
{
    match tree_get(t, key) {
        Some(x) => match x {
            JsonTree::Arr(a) => Some(a),
            _ => None,
        },
        None => None,
    }
}


/// A tree is an array exactly when its ghost image is.
pub proof fn lemma_view_arr(t: &JsonTree)
    ensures
        (t.view() is Arr) == (t is Arr),
{
    match t {
        JsonTree::Null => {},
        JsonTree::Bool(_) => {},
        JsonTree::UNum(_) => {},
        JsonTree::OtherNum => {},
        JsonTree::Text(_) => {},
        JsonTree::Arr(_) => {},
        JsonTree::Obj(_) => {},
    }
}

} // verus!
