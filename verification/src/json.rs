//! JSON documents as this crate reads them: parsed and written by
//! `serde_json`, looked into by the verified accessors below.
use vstd::prelude::*;
use crate::text::first_match;

verus! {

/// A JSON value. Numbers keep the text `serde_json` writes for them; an
/// object keeps its members in the order `serde_json` hands them out.
pub enum Json {
    Null,
    Bool(bool),
    Number(String),
    Str(String),
    Array(Vec<Json>),
    Object(Vec<(String, Json)>),
}

pub enum JsonView {
    Null,
    Bool(bool),
    Number(Seq<char>),
    Str(Seq<char>),
    Array(Seq<JsonView>),
    Object(Seq<(Seq<char>, JsonView)>),
}

pub open spec fn json_view(j: Json) -> JsonView
    decreases j,
{
    match j {
        Json::Null => JsonView::Null,
        Json::Bool(b) => JsonView::Bool(b),
        Json::Number(n) => JsonView::Number(n@),
        Json::Str(s) => JsonView::Str(s@),
        Json::Array(items) => JsonView::Array(items_view(items@)),
        Json::Object(fields) => JsonView::Object(fields_view(fields@)),
    }
}

pub open spec fn items_view(s: Seq<Json>) -> Seq<JsonView>
    decreases s,
{
    if s.len() == 0 {
        Seq::empty()
    } else {
        items_view(s.drop_last()).push(json_view(s.last()))
    }
}

pub open spec fn fields_view(s: Seq<(String, Json)>) -> Seq<(Seq<char>, JsonView)>
    decreases s,
{
    if s.len() == 0 {
        Seq::empty()
    } else {
        fields_view(s.drop_last()).push((s.last().0@, json_view(s.last().1)))
    }
}

impl View for Json {
    type V = JsonView;

    open spec fn view(&self) -> JsonView {
        json_view(*self)
    }
}

pub proof fn lemma_items_view(s: Seq<Json>)
    ensures
        items_view(s).len() == s.len(),
        forall|i: int| 0 <= i < s.len() ==> #[trigger] items_view(s)[i] == json_view(s[i]),
    decreases s.len(),
{
    if s.len() > 0 {
        lemma_items_view(s.drop_last());
        assert forall|i: int| 0 <= i < s.len() implies #[trigger] items_view(s)[i] == json_view(
            s[i],
        ) by {
            if i < s.len() - 1 {
                assert(s.drop_last()[i] == s[i]);
            }
        }
    }
}

pub proof fn lemma_fields_view(s: Seq<(String, Json)>)
    ensures
        fields_view(s).len() == s.len(),
        forall|i: int|
            0 <= i < s.len() ==> #[trigger] fields_view(s)[i] == (s[i].0@, json_view(s[i].1)),
    decreases s.len(),
{
    if s.len() > 0 {
        lemma_fields_view(s.drop_last());
        assert forall|i: int| 0 <= i < s.len() implies #[trigger] fields_view(s)[i] == (
            s[i].0@,
            json_view(s[i].1),
        ) by {
            if i < s.len() - 1 {
                assert(s.drop_last()[i] == s[i]);
            }
        }
    }
}

// ───────────────────────── looking into a value ─────────────────────────

pub open spec fn has_name(f: (Seq<char>, JsonView), key: Seq<char>) -> bool {
    f.0 == key
}

/// The member `key` of an object (`Value::get` with a string).
pub open spec fn field(v: JsonView, key: Seq<char>) -> Option<JsonView> {
    match v {
        JsonView::Object(fs) => {
            let i = first_match(fs, |f: (Seq<char>, JsonView)| has_name(f, key));
            if i < fs.len() {
                Some(fs[i].1)
            } else {
                None
            }
        },
        _ => None,
    }
}

/// The element `i` of an array (`Value::get` with an index).
pub open spec fn element(v: JsonView, i: int) -> Option<JsonView> {
    match v {
        JsonView::Array(a) => if 0 <= i < a.len() {
            Some(a[i])
        } else {
            None
        },
        _ => None,
    }
}

/// `as_str` on what may be a value.
pub open spec fn str_of(v: Option<JsonView>) -> Option<Seq<char>> {
    match v {
        Some(JsonView::Str(s)) => Some(s),
        _ => None,
    }
}

/// `as_bool` on what may be a value.
pub open spec fn bool_of(v: Option<JsonView>) -> Option<bool> {
    match v {
        Some(JsonView::Bool(b)) => Some(b),
        _ => None,
    }
}

/// `as_array` on what may be a value.
pub open spec fn array_of(v: Option<JsonView>) -> Option<Seq<JsonView>> {
    match v {
        Some(JsonView::Array(a)) => Some(a),
        _ => None,
    }
}

pub open spec fn opt_view(r: Option<&Json>) -> Option<JsonView> {
    match r {
        Some(j) => Some(j@),
        None => None,
    }
}

/// Whether two strings are equal.
pub fn same_str(a: &str, b: &str) -> (r: bool)
    ensures
        r == (a@ == b@),
{
    let x = crate::text::chars_of(a);
    let y = crate::text::chars_of(b);
    crate::text::chars_eq(&x, &y)
}

/// The member `key` of an object.
pub fn get_field<'a>(j: &'a Json, key: &str) -> (r: Option<&'a Json>)
    ensures
        opt_view(r) == field(j@, key@),
{
    match j {
        Json::Object(fs) => {
            proof {
                lemma_fields_view(fs@);
            }
            let ghost fv = fields_view(fs@);
            let mut i: usize = 0;
            while i < fs.len()
                invariant
                    i <= fs.len(),
                    fv == fields_view(fs@),
                    j@ == JsonView::Object(fv),
                    fv.len() == fs.len(),
                    forall|k: int| 0 <= k < fs.len() ==> #[trigger] fv[k] == (fs@[k].0@, json_view(fs@[k].1)),
                    forall|k: int| 0 <= k < i ==> !has_name(#[trigger] fv[k], key@),
                decreases fs.len() - i,
            {
                if same_str(fs[i].0.as_str(), key) {
                    proof {
                        crate::text::lemma_first_match_at(
                            fv,
                            |f: (Seq<char>, JsonView)| has_name(f, key@),
                            i as int,
                        );
                        assert(fv[i as int].1 == fs@[i as int].1@);
                    }
                    return Some(&fs[i].1);
                }
                i = i + 1;
            }
            proof {
                crate::text::lemma_first_match_at(
                    fv,
                    |f: (Seq<char>, JsonView)| has_name(f, key@),
                    i as int,
                );
            }
            None
        },
        _ => None,
    }
}

/// The element `i` of an array.
pub fn get_element<'a>(j: &'a Json, i: usize) -> (r: Option<&'a Json>)
    ensures
        opt_view(r) == element(j@, i as int),
{
    match j {
        Json::Array(items) => {
            proof {
                lemma_items_view(items@);
            }
            if i < items.len() {
                Some(&items[i])
            } else {
                None
            }
        },
        _ => None,
    }
}

/// The text of a string value.
pub fn as_str(j: Option<&Json>) -> (r: Option<String>)
    ensures
        match r {
            Some(s) => str_of(opt_view(j)) == Some(s@),
            None => str_of(opt_view(j)) is None,
        },
{
    match j {
        Some(Json::Str(s)) => Some(s.clone()),
        _ => None,
    }
}

/// A boolean value.
pub fn as_bool(j: Option<&Json>) -> (r: Option<bool>)
    ensures
        r == bool_of(opt_view(j)),
{
    match j {
        Some(Json::Bool(b)) => Some(*b),
        _ => None,
    }
}

/// The elements of an array value.
pub fn as_array<'a>(j: Option<&'a Json>) -> (r: Option<&'a Vec<Json>>)
    ensures
        match r {
            Some(v) => array_of(opt_view(j)) == Some(items_view(v@)),
            None => array_of(opt_view(j)) is None,
        },
{
    match j {
        Some(Json::Array(items)) => Some(items),
        _ => None,
    }
}

// ───────────────────────── serde_json ─────────────────────────

#[verifier::external_type_specification]
#[verifier::external_body]
pub struct ExJsonValue(serde_json::Value);

/// What `serde_json::from_slice::<Value>` makes of these bytes (`None`
/// where it reports an error).
pub uninterp spec fn json_from_bytes(bytes: Seq<u8>) -> Option<JsonView>;

/// What `serde_json::from_str::<Value>` makes of this text (`None` where it
/// reports an error).
pub uninterp spec fn json_from_text(text: Seq<char>) -> Option<JsonView>;

/// The compact text `Value::to_string` writes for a value.
pub uninterp spec fn json_text(v: JsonView) -> Seq<char>;

/// Moves a `serde_json::Value` into a `Json`, member for member and element
/// for element; a number becomes the text its `Display` writes.
#[verifier::external_body]
fn json_from_value(v: serde_json::Value) -> Json {
    match v {
        serde_json::Value::Null => Json::Null,
        serde_json::Value::Bool(b) => Json::Bool(b),
        serde_json::Value::Number(n) => Json::Number(n.to_string()),
        serde_json::Value::String(s) => Json::Str(s),
        serde_json::Value::Array(a) => Json::Array(a.into_iter().map(json_from_value).collect()),
        serde_json::Value::Object(m) => Json::Object(
            m.into_iter().map(|(k, v)| (k, json_from_value(v))).collect(),
        ),
    }
}

/// Builds the `serde_json::Value` of a `Json`, member for member; a number's
/// text is read back with `Number::from_str` (a text it refuses, which the
/// numbers made by `json_from_value` are not, becomes `null`).
#[verifier::external_body]
fn json_to_value(j: &Json) -> serde_json::Value {
    match j {
        Json::Null => serde_json::Value::Null,
        Json::Bool(b) => serde_json::Value::Bool(*b),
        Json::Number(t) => match t.parse::<serde_json::Number>() {
            Ok(n) => serde_json::Value::Number(n),
            Err(_) => serde_json::Value::Null,
        },
        Json::Str(s) => serde_json::Value::String(s.clone()),
        Json::Array(a) => serde_json::Value::Array(a.iter().map(json_to_value).collect()),
        Json::Object(fs) => serde_json::Value::Object(
            fs.iter().map(|(k, v)| (k.clone(), json_to_value(v))).collect(),
        ),
    }
}

/// Parses JSON bytes with `serde_json::from_slice`; the contract claims that
/// the result is the document `json_from_bytes` names, and `None` exactly
/// when serde_json reports an error.
#[verifier::external_body]
pub(crate) fn parse_json_bytes(bytes: &[u8]) -> (r: Option<Json>)
    ensures
        match r {
            Some(j) => json_from_bytes(bytes@) == Some(j@),
            None => json_from_bytes(bytes@) is None,
        },
{
    serde_json::from_slice::<serde_json::Value>(bytes).ok().map(json_from_value)
}

/// Parses JSON text with `serde_json::from_str`; the contract claims that the
/// result is the document `json_from_text` names, and `None` exactly when
/// serde_json reports an error.
#[verifier::external_body]
pub(crate) fn parse_json_text(text: &str) -> (r: Option<Json>)
    ensures
        match r {
            Some(j) => json_from_text(text@) == Some(j@),
            None => json_from_text(text@) is None,
        },
{
    serde_json::from_str::<serde_json::Value>(text).ok().map(json_from_value)
}

/// Writes a value as compact JSON with `Value::to_string`; the contract
/// claims the text `json_text` names for the value.
#[verifier::external_body]
pub(crate) fn render_json(j: &Json) -> (s: String)
    ensures
        s@ == json_text(j@),
{
    json_to_value(j).to_string()
}

} // verus!
