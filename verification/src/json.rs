//! JSON documents as trees of plain values, and the calls that turn text into
//! such a tree and back.

use serde_json::Value;
use vstd::prelude::*;

verus! {

/// A JSON document.
///
/// Numbers are split by what they can hold: `Number` is an integer from zero
/// to `u64::MAX`, `Negative` an integer below zero, and `Fraction` keeps the
/// decimal text of any other number.
#[derive(Debug, PartialEq)]
pub enum Json {
    Null,
    Bool(bool),
    Number(u64),
    Negative(i64),
    Fraction(String),
    Text(String),
    List(Vec<Json>),
    Object(Vec<(String, Json)>),
}

/// The mathematical value of a [`Json`] document.
pub enum JsonModel {
    Null,
    Bool(bool),
    Number(u64),
    Negative(i64),
    Fraction(Seq<char>),
    Text(Seq<char>),
    List(Seq<JsonModel>),
    Object(Seq<(Seq<char>, JsonModel)>),
}

/// The value of one document.
pub open spec fn model_of(j: Json) -> JsonModel
    decreases j,
{
    match j {
        Json::Null => JsonModel::Null,
        Json::Bool(b) => JsonModel::Bool(b),
        Json::Number(n) => JsonModel::Number(n),
        Json::Negative(n) => JsonModel::Negative(n),
        Json::Fraction(s) => JsonModel::Fraction(s@),
        Json::Text(s) => JsonModel::Text(s@),
        Json::List(items) => JsonModel::List(list_model(items@)),
        Json::Object(fields) => JsonModel::Object(fields_model(fields@)),
    }
}

/// The values of the items of a list, in order.
pub open spec fn list_model(items: Seq<Json>) -> Seq<JsonModel>
    decreases items,
{
    if items.len() == 0 {
        Seq::empty()
    } else {
        list_model(items.drop_last()).push(model_of(items.last()))
    }
}

/// The keys and values of the entries of an object, in order.
pub open spec fn fields_model(fields: Seq<(String, Json)>) -> Seq<(Seq<char>, JsonModel)>
    decreases fields,
{
    if fields.len() == 0 {
        Seq::empty()
    } else {
        fields_model(fields.drop_last()).push((fields.last().0@, model_of(fields.last().1)))
    }
}

impl View for Json {
    type V = JsonModel;

    open spec fn view(&self) -> JsonModel {
        model_of(*self)
    }
}

/// `list_model` keeps the length and maps item by item.
pub proof fn lemma_list_model(items: Seq<Json>)
    ensures
        list_model(items).len() == items.len(),
        forall|i: int| 0 <= i < items.len() ==> (#[trigger] list_model(items)[i]) == items[i]@,
    decreases items.len(),
{
    if items.len() > 0 {
        lemma_list_model(items.drop_last());
    }
}

/// `fields_model` keeps the length and maps entry by entry.
pub proof fn lemma_fields_model(fields: Seq<(String, Json)>)
    ensures
        fields_model(fields).len() == fields.len(),
        forall|i: int|
            0 <= i < fields.len() ==> (#[trigger] fields_model(fields)[i]) == (
                fields[i].0@,
                fields[i].1@,
            ),
    decreases fields.len(),
{
    if fields.len() > 0 {
        lemma_fields_model(fields.drop_last());
    }
}

/// One more item at the end of a list is one more value at the end.
pub proof fn lemma_list_model_push(items: Seq<Json>, item: Json)
    ensures
        list_model(items.push(item)) == list_model(items).push(item@),
{
    assert(items.push(item).drop_last() =~= items);
}

/// One more entry at the end of an object is one more member at the end.
pub proof fn lemma_fields_model_push(fields: Seq<(String, Json)>, key: String, value: Json)
    ensures
        fields_model(fields.push((key, value))) == fields_model(fields).push((key@, value@)),
{
    assert(fields.push((key, value)).drop_last() =~= fields);
}

/// The value that `fields` gives to `key`: that of the last entry under that
/// key, as in a map filled entry by entry.
pub open spec fn lookup(fields: Seq<(Seq<char>, JsonModel)>, key: Seq<char>) -> Option<JsonModel>
    decreases fields.len(),
{
    if fields.len() == 0 {
        None
    } else if fields.last().0 == key {
        Some(fields.last().1)
    } else {
        lookup(fields.drop_last(), key)
    }
}

/// Where the last entry under `key` stands at `i`, the lookup gives its value.
pub proof fn lemma_lookup_found(fields: Seq<(Seq<char>, JsonModel)>, key: Seq<char>, i: int)
    requires
        0 <= i < fields.len(),
        fields[i].0 == key,
        forall|j: int| i < j < fields.len() ==> fields[j].0 != key,
    ensures
        lookup(fields, key) == Some(fields[i].1),
    decreases fields.len(),
{
    if i < fields.len() - 1 {
        lemma_lookup_found(fields.drop_last(), key, i);
    }
}

/// Where no entry stands under `key`, the lookup gives nothing.
pub proof fn lemma_lookup_absent(fields: Seq<(Seq<char>, JsonModel)>, key: Seq<char>)
    requires
        forall|j: int| 0 <= j < fields.len() ==> fields[j].0 != key,
    ensures
        lookup(fields, key) is None,
    decreases fields.len(),
{
    if fields.len() > 0 {
        lemma_lookup_absent(fields.drop_last(), key);
    }
}

/// Entries under other keys, put behind, do not change what a key is given.
pub proof fn lemma_lookup_behind(
    fields: Seq<(Seq<char>, JsonModel)>,
    behind: Seq<(Seq<char>, JsonModel)>,
    key: Seq<char>,
)
    requires
        forall|j: int| 0 <= j < behind.len() ==> behind[j].0 != key,
    ensures
        lookup(fields + behind, key) == lookup(fields, key),
    decreases behind.len(),
{
    if behind.len() == 0 {
        assert(fields + behind =~= fields);
    } else {
        assert((fields + behind).drop_last() =~= fields + behind.drop_last());
        lemma_lookup_behind(fields, behind.drop_last(), key);
    }
}

impl JsonModel {
    /// The member `key` of an object; `None` for any other document.
    pub open spec fn field(self, key: Seq<char>) -> Option<JsonModel> {
        match self {
            JsonModel::Object(fields) => lookup(fields, key),
            _ => None,
        }
    }
}

impl Json {
    /// The member `key` of an object.
    pub fn get(&self, key: &str) -> (r: Option<&Json>)
        ensures
            match r {
                Some(j) => self@.field(key@) == Some(j@),
                None => self@.field(key@) is None,
            },
    {
        match self {
            Json::Object(fields) => {
                let wanted = key.to_owned();
                let ghost model = self@->Object_0;
                let mut i: usize = fields.len();
                proof {
                    lemma_fields_model(fields@);
                }
                assert(model.take(i as int) =~= model);
                while i > 0
                    invariant
                        i <= fields@.len(),
                        wanted@ == key@,
                        model.len() == fields@.len(),
                        forall|k: int|
                            0 <= k < fields@.len() ==> model[k] == (
                                fields@[k].0@,
                                fields@[k].1@,
                            ),
                        self@.field(key@) == lookup(model.take(i as int), key@),
                    decreases i,
                {
                    i -= 1;
                    assert(model.take(i + 1).drop_last() =~= model.take(i as int));
                    if fields[i].0 == wanted {
                        return Some(&fields[i].1);
                    }
                }
                None
            },
            _ => None,
        }
    }
}

/// The document that a text denotes, where it is exactly one JSON document.
pub uninterp spec fn json_of_text(text: Seq<char>) -> Option<JsonModel>;

/// The compact JSON text of a document.
pub uninterp spec fn text_of_json(doc: JsonModel) -> Seq<char>;

/// `serde_json::Value`, of which nothing is seen here.
#[verifier::external_type_specification]
#[verifier::external_body]
pub struct ExValue(Value);

/// Carries a `serde_json::Value` over, variant by variant. `Number::as_u64`
/// and `Number::as_i64` tell the integers apart, and any other number keeps
/// the text of its `Display`; the members of an object come in the order in
/// which its `Map` walks them. Nothing is claimed of the result.
#[verifier::external_body]
fn tree_of_value(value: &Value) -> Json {
    match value {
        Value::Null => Json::Null,
        Value::Bool(b) => Json::Bool(*b),
        Value::Number(n) => match (n.as_u64(), n.as_i64()) {
            (Some(u), _) => Json::Number(u),
            (None, Some(i)) => Json::Negative(i),
            (None, None) => Json::Fraction(n.to_string()),
        },
        Value::String(s) => Json::Text(s.clone()),
        Value::Array(a) => Json::List(a.iter().map(tree_of_value).collect()),
        Value::Object(o) => Json::Object(
            o.iter().map(|(k, v)| (k.clone(), tree_of_value(v))).collect(),
        ),
    }
}

/// Builds the `serde_json::Value` of a document, variant by variant; a
/// `Fraction` whose text `serde_json` does not read as a number becomes `null`,
/// and of two members under one key the `Map` keeps the later. Nothing is
/// claimed of the result.
#[verifier::external_body]
fn value_of_tree(doc: &Json) -> Value {
    match doc {
        Json::Null => Value::Null,
        Json::Bool(b) => Value::Bool(*b),
        Json::Number(n) => Value::from(*n),
        Json::Negative(n) => Value::from(*n),
        Json::Fraction(s) => s.parse().map_or(Value::Null, Value::Number),
        Json::Text(s) => Value::String(s.clone()),
        Json::List(a) => Value::Array(a.iter().map(value_of_tree).collect()),
        Json::Object(o) => Value::Object(
            o.iter().map(|(k, v)| (k.clone(), value_of_tree(v))).collect(),
        ),
    }
}

/// Reads a text with `serde_json::from_str` as one `serde_json::Value`. The
/// contract names the outcome: the document that the text denotes, or none
/// where `serde_json` reports an error.
#[verifier::external_body]
fn read_text(text: &str) -> (r: Option<Json>)
    ensures
        match r {
            Some(doc) => json_of_text(text@) == Some(doc@),
            None => json_of_text(text@) is None,
        },
{
    serde_json::from_str::<Value>(text).ok().map(|v| tree_of_value(&v))
}

/// Writes a document with the `Display` of `serde_json::Value`, which is its
/// compact form. The contract names the text, and states what the compact
/// writer's source shows: it puts no white space between tokens and writes
/// every control character inside a string as an escape, so the text holds no
/// line break.
#[verifier::external_body]
fn write_text(doc: &Json) -> (r: String)
    ensures
        r@ == text_of_json(doc@),
        !r@.contains('\n'),
{
    value_of_tree(doc).to_string()
}

impl Json {
    /// Reads one JSON document from a text; `None` where the text is not one.
    pub fn parse(text: &str) -> (r: Option<Json>)
        ensures
            match r {
                Some(doc) => json_of_text(text@) == Some(doc@),
                None => json_of_text(text@) is None,
            },
    {
        read_text(text)
    }

    /// The compact text of the document, on one line.
    pub fn render(&self) -> (r: String)
        ensures
            r@ == text_of_json(self@),
            !r@.contains('\n'),
    {
        write_text(self)
    }
}

} // verus!
