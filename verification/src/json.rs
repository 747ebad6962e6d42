//! JSON documents as plain values, read and written by `serde_json`.

use crate::text::same_text;
use vstd::prelude::*;

verus! {

/// A JSON document.
#[derive(Debug, PartialEq, Eq)]
pub enum Json {
    Null,
    Bool(bool),
    /// A number: its value where it is an integer that fits `i64`.
    Number(Option<i64>),
    Text(String),
    Array(Vec<Json>),
    /// The members of an object in the order of the document. A document
    /// that was read holds each key once; of a key that stands twice the
    /// first member counts.
    Object(Vec<(String, Json)>),
}

/// The mathematical value of a `Json`.
pub enum JsonView {
    Null,
    Bool(bool),
    Number(Option<i64>),
    Text(Seq<char>),
    Array(Seq<JsonView>),
    Object(Seq<(Seq<char>, JsonView)>),
}

/// The value of a document.
pub open spec fn json_view(json: Json) -> JsonView
    decreases json,
{
    match json {
        Json::Null => JsonView::Null,
        Json::Bool(b) => JsonView::Bool(b),
        Json::Number(n) => JsonView::Number(n),
        Json::Text(t) => JsonView::Text(t@),
        Json::Array(items) => JsonView::Array(items_view(items@)),
        Json::Object(members) => JsonView::Object(members_view(members@)),
    }
}

/// The values of the items of an array.
pub open spec fn items_view(items: Seq<Json>) -> Seq<JsonView>
    decreases items,
{
    if items.len() == 0 {
        Seq::empty()
    } else {
        items_view(items.drop_last()).push(json_view(items.last()))
    }
}

/// The keys and values of the members of an object.
pub open spec fn members_view(members: Seq<(String, Json)>) -> Seq<(Seq<char>, JsonView)>
    decreases members,
{
    if members.len() == 0 {
        Seq::empty()
    } else {
        members_view(members.drop_last()).push((members.last().0@, json_view(members.last().1)))
    }
}

impl View for Json {
    type V = JsonView;

    open spec fn view(&self) -> JsonView {
        json_view(*self)
    }
}

/// The view of an array holds the views of its items.
pub proof fn lemma_items_view(items: Seq<Json>)
    ensures
        items_view(items).len() == items.len(),
        forall|i: int| 0 <= i < items.len() ==> #[trigger] items_view(items)[i] == items[i]@,
    decreases items.len(),
{
    if items.len() > 0 {
        lemma_items_view(items.drop_last());
    }
}

/// The view of an object holds the keys and the views of its members.
pub proof fn lemma_members_view(members: Seq<(String, Json)>)
    ensures
        members_view(members).len() == members.len(),
        forall|i: int|
            0 <= i < members.len() ==> #[trigger] members_view(members)[i] == (
                members[i].0@,
                members[i].1@,
            ),
    decreases members.len(),
{
    if members.len() > 0 {
        lemma_members_view(members.drop_last());
    }
}

/// The view of a document that may be absent.
pub open spec fn opt_json_view(json: Option<Json>) -> Option<JsonView> {
    match json {
        Some(j) => Some(j@),
        None => None,
    }
}

/// The value of the first member named `key`.
pub open spec fn spec_lookup(members: Seq<(Seq<char>, JsonView)>, key: Seq<char>) -> Option<
    JsonView,
>
    decreases members.len(),
{
    if members.len() == 0 {
        None
    } else if members[0].0 == key {
        Some(members[0].1)
    } else {
        spec_lookup(members.skip(1), key)
    }
}

impl JsonView {
    /// The value of the member `key` of an object; `None` where there is no
    /// such member or `self` is no object.
    pub open spec fn member(self, key: Seq<char>) -> Option<JsonView> {
        match self {
            JsonView::Object(members) => spec_lookup(members, key),
            _ => None,
        }
    }
}

/// `serde_json::Value`, carried through as it is: nothing inside it is seen
/// here, and all that is known of one is what the functions below say.
#[verifier::external_type_specification]
#[verifier::external_body]
pub struct ExValue(serde_json::Value);

/// What `serde_json::from_str` makes of a text: the document, or `None` where
/// the text is no JSON.
pub uninterp spec fn parsed_value(text: Seq<char>) -> Option<serde_json::Value>;

/// The document that a `serde_json::Value` holds.
pub uninterp spec fn value_model(value: serde_json::Value) -> JsonView;

/// The `serde_json::Value` that holds a document.
pub uninterp spec fn value_of(json: JsonView) -> serde_json::Value;

/// What `serde_json::to_string` writes for a value.
pub uninterp spec fn json_text(value: serde_json::Value) -> Option<Seq<char>>;

/// What `serde_yaml::to_string` writes for a value.
pub uninterp spec fn yaml_text(value: serde_json::Value) -> Option<Seq<char>>;

/// `serde_json::from_str` for a `serde_json::Value`: the same text always
/// gives the same document, and a text that is no JSON gives `None`.
#[verifier::external_body]
fn read_value(text: &str) -> (value: Option<serde_json::Value>)
    ensures
        value == parsed_value(text@),
{
    serde_json::from_str::<serde_json::Value>(text).ok()
}

/// Takes a `serde_json::Value` apart, variant by variant. A number is kept
/// as `serde_json::Number::as_i64` gives it.
#[verifier::external_body]
fn model_of_value(value: serde_json::Value) -> (json: Json)
    ensures
        json@ == value_model(value),
{
    match value {
        serde_json::Value::Null => Json::Null,
        serde_json::Value::Bool(b) => Json::Bool(b),
        serde_json::Value::Number(n) => Json::Number(n.as_i64()),
        serde_json::Value::String(s) => Json::Text(s),
        serde_json::Value::Array(items) => Json::Array(
            items.into_iter().map(model_of_value).collect(),
        ),
        serde_json::Value::Object(members) => Json::Object(
            members.into_iter().map(|(k, v)| (k, model_of_value(v))).collect(),
        ),
    }
}

/// Builds the `serde_json::Value` of a document, variant by variant. A
/// number without a value becomes `null`.
#[verifier::external_body]
pub(crate) fn value_of_model(json: &Json) -> (value: serde_json::Value)
    ensures
        value == value_of(json@),
{
    match json {
        Json::Null => serde_json::Value::Null,
        Json::Bool(b) => serde_json::Value::Bool(*b),
        Json::Number(n) => n.map_or(serde_json::Value::Null, serde_json::Value::from),
        Json::Text(t) => serde_json::Value::String(t.clone()),
        Json::Array(items) => serde_json::Value::Array(items.iter().map(value_of_model).collect()),
        Json::Object(members) => serde_json::Value::Object(
            members.iter().map(|(k, v)| (k.clone(), value_of_model(v))).collect(),
        ),
    }
}

/// `serde_json::to_string` on a `serde_json::Value`: the text depends on the
/// value alone.
#[verifier::external_body]
fn write_json(value: &serde_json::Value) -> (text: Option<String>)
    ensures
        crate::text::opt_view(text) == json_text(*value),
{
    serde_json::to_string(value).ok()
}

/// `serde_yaml::to_string` on a `serde_json::Value`: the text depends on the
/// value alone.
#[verifier::external_body]
fn write_yaml(value: &serde_json::Value) -> (text: Option<String>)
    ensures
        crate::text::opt_view(text) == yaml_text(*value),
{
    serde_yaml::to_string(value).ok()
}

/// The document that a text spells, where it spells one.
pub open spec fn parsed(text: Seq<char>) -> Option<JsonView> {
    match parsed_value(text) {
        Some(value) => Some(value_model(value)),
        None => None,
    }
}

impl Json {
    /// Reads a JSON text.
    pub fn parse(text: &str) -> (json: Option<Json>)
        ensures
            opt_json_view(json) == parsed(text@),
    {
        match read_value(text) {
            Some(value) => Some(model_of_value(value)),
            None => None,
        }
    }

    /// The document as JSON text.
    pub fn to_json(&self) -> (text: Option<String>)
        ensures
            crate::text::opt_view(text) == json_text(value_of(self@)),
    {
        let value = value_of_model(self);
        write_json(&value)
    }

    /// The document as YAML text.
    pub fn to_yaml(&self) -> (text: Option<String>)
        ensures
            crate::text::opt_view(text) == yaml_text(value_of(self@)),
    {
        let value = value_of_model(self);
        write_yaml(&value)
    }

    /// The member `key` of an object; `None` where there is no such member
    /// or `self` is no object.
    pub fn member(&self, key: &str) -> (found: Option<&Json>)
        ensures
            opt_json_view(
                match found {
                    Some(value) => Some(*value),
                    None => None,
                },
            ) == self@.member(key@),
    {
        match self {
            Json::Object(members) => {
                let ghost all = self@->Object_0;
                let mut i: usize = 0;
                proof {
                    lemma_members_view(members@);
                    assert(all.skip(0) =~= all);
                }
                while i < members.len()
                    invariant
                        i <= members.len(),
                        all.len() == members@.len(),
                        forall|j: int|
                            0 <= j < members@.len() ==> #[trigger] all[j] == (
                                members@[j].0@,
                                members@[j].1@,
                            ),
                        self@.member(key@) == spec_lookup(all.skip(i as int), key@),
                    decreases members.len() - i,
                {
                    assert(all.skip(i as int)[0] == all[i as int]);
                    if same_text(members[i].0.as_str(), key) {
                        return Some(&members[i].1);
                    }
                    assert(all.skip(i as int).skip(1) =~= all.skip(i + 1));
                    i += 1;
                }
                None
            },
            _ => None,
        }
    }
}

} // verus!
