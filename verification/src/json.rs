//! JSON documents built by the library and written out with `serde_json`.
use vstd::prelude::*;

verus! {

/// A JSON value.
pub enum JsonValue {
    /// `null`.
    Null,
    /// `true` or `false`.
    Bool(bool),
    /// A non-negative integer.
    Number(u64),
    /// A string.
    Text(String),
    /// An array.
    Array(Vec<JsonValue>),
    /// An object, as (key, value) members.
    Object(Vec<(String, JsonValue)>),
}

/// What a JSON value holds.
pub enum JsonView {
    Null,
    Bool(bool),
    Number(u64),
    Text(Seq<char>),
    Array(Seq<JsonView>),
    Object(Seq<(Seq<char>, JsonView)>),
}

impl JsonValue {
    /// What this value holds.
    pub open spec fn view(&self) -> JsonView
        decreases self,
    {
        match self {
            JsonValue::Null => JsonView::Null,
            JsonValue::Bool(b) => JsonView::Bool(*b),
            JsonValue::Number(n) => JsonView::Number(*n),
            JsonValue::Text(s) => JsonView::Text(s@),
            JsonValue::Array(items) => JsonView::Array(
                Seq::new(
                    items@.len(),
                    |i: int|
                        if 0 <= i < items@.len() {
                            items@[i].view()
                        } else {
                            JsonView::Null
                        },
                ),
            ),
            JsonValue::Object(members) => JsonView::Object(
                Seq::new(
                    members@.len(),
                    |i: int|
                        if 0 <= i < members@.len() {
                            (members@[i].0@, members@[i].1.view())
                        } else {
                            (Seq::empty(), JsonView::Null)
                        },
                ),
            ),
        }
    }
}

/// The compact text `serde_json::to_string` writes for a value.
pub uninterp spec fn json_text(v: JsonView) -> Seq<char>;

/// The indented text `serde_json::to_string_pretty` writes for a value.
pub uninterp spec fn json_pretty_text(v: JsonView) -> Seq<char>;

#[verifier::external_type_specification]
#[verifier::external_body]
pub struct ExJsonValue(serde_json::Value);

#[verifier::external_body]
fn to_serde(v: &JsonValue) -> serde_json::Value {
    match v {
        JsonValue::Null => serde_json::Value::Null,
        JsonValue::Bool(b) => serde_json::Value::Bool(*b),
        JsonValue::Number(n) => serde_json::Value::from(*n),
        JsonValue::Text(s) => serde_json::Value::String(s.clone()),
        JsonValue::Array(items) => serde_json::Value::Array(items.iter().map(to_serde).collect()),
        JsonValue::Object(members) => serde_json::Value::Object(
            members.iter().map(|(k, x)| (k.clone(), to_serde(x))).collect(),
        ),
    }
}

/// Writes the value with `serde_json::to_string` (which cannot fail on a
/// `serde_json::Value`); the text is named by `json_text`.
#[verifier::external_body]
pub(crate) fn write_json(v: &JsonValue) -> (r: String)
    ensures
        r@ == json_text(v.view()),
{
    serde_json::to_string(&to_serde(v)).unwrap_or_default()
}

/// Writes the value with `serde_json::to_string_pretty`; the text is named
/// by `json_pretty_text`.
#[verifier::external_body]
pub(crate) fn write_json_pretty(v: &JsonValue) -> (r: String)
    ensures
        r@ == json_pretty_text(v.view()),
{
    serde_json::to_string_pretty(&to_serde(v)).unwrap_or_default()
}

/// The (key, value) text of object members.
pub open spec fn members_view(m: Seq<(String, JsonValue)>) -> Seq<(Seq<char>, JsonView)> {
    m.map_values(|p: (String, JsonValue)| (p.0@, p.1.view()))
}

/// An object with the given members, in order.
pub fn object(members: Vec<(String, JsonValue)>) -> (r: JsonValue)
    ensures
        r.view() == JsonView::Object(members_view(members@)),
{
    let ghost mv = members_view(members@);
    let r = JsonValue::Object(members);
    assert(r.view()->Object_0 =~= mv);
    r
}

/// What each item of an array holds.
pub open spec fn items_view(items: Seq<JsonValue>) -> Seq<JsonView> {
    items.map_values(|v: JsonValue| v.view())
}

/// An array of the strings, in order.
pub fn text_array(v: &Vec<String>) -> (r: JsonValue)
    ensures
        r.view() == JsonView::Array(v@.map_values(|s: String| JsonView::Text(s@))),
{
    let mut items: Vec<JsonValue> = Vec::new();
    let mut i: usize = 0;
    while i < v.len()
        invariant
            i <= v@.len(),
            items_view(items@) == v@.take(i as int).map_values(|s: String| JsonView::Text(s@)),
        decreases v@.len() - i,
    {
        let ghost prev = items@;
        items.push(JsonValue::Text(v[i].clone()));
        assert(items_view(items@) =~= items_view(prev).push(JsonView::Text(v@[i as int]@)));
        assert(v@.take(i + 1).map_values(|s: String| JsonView::Text(s@)) =~= v@.take(i as int).map_values(
            |s: String| JsonView::Text(s@),
        ).push(JsonView::Text(v@[i as int]@)));
        i = i + 1;
    }
    assert(v@.take(v@.len() as int) =~= v@);
    let ghost iv = items_view(items@);
    let r = JsonValue::Array(items);
    assert(r.view()->Array_0 =~= iv);
    r
}

/// A string member.
pub fn member_text(key: &str, value: String) -> (r: (String, JsonValue))
    ensures
        r.0@ == key@,
        r.1.view() == JsonView::Text(value@),
{
    (key.to_owned(), JsonValue::Text(value))
}

} // verus!
