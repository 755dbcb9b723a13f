//! JSON values, and their passage to and from `serde_json`.
use vstd::prelude::*;

use crate::text::text_eq;

verus! {

/// `serde_json::Value`, opaque here; [`json_of`] names what it holds.
#[verifier::external_type_specification]
#[verifier::external_body]
pub struct ExValue(serde_json::Value);

/// `serde_json::Number`, opaque here: numbers are only carried along.
#[verifier::external_type_specification]
#[verifier::external_body]
pub struct ExNumber(serde_json::Number);

/// `serde_json::Error`, opaque here.
#[verifier::external_type_specification]
#[verifier::external_body]
pub struct ExError(serde_json::Error);

/// `serde_json::Map`, opaque here; [`object_of`] names what it holds.
#[verifier::external_type_specification]
#[verifier::external_body]
#[verifier::reject_recursive_types(K)]
#[verifier::reject_recursive_types(V)]
pub struct ExMap<K, V>(serde_json::Map<K, V>);

/// A JSON value.
///
/// An object is a list of entries. Of entries with the same key the last one counts,
/// and the order of the keys carries no meaning.
#[derive(Debug)]
pub enum Json {
    Null,
    Bool(bool),
    Number(serde_json::Number),
    String(String),
    Array(Vec<Json>),
    Object(Vec<(String, Json)>),
}

/// What a JSON value means: an object is a map from keys to values.
#[verifier::ext_equal]
pub enum JsonModel {
    Null,
    Bool(bool),
    Number(serde_json::Number),
    String(Seq<char>),
    Array(Seq<JsonModel>),
    Object(Map<Seq<char>, JsonModel>),
}

/// The outermost layer of a `serde_json::Value`.
enum Layer {
    Null,
    Bool(bool),
    Number(serde_json::Number),
    String(String),
    Array(Vec<serde_json::Value>),
    Object(serde_json::Map<String, serde_json::Value>),
}

/// The map that a list of entries stands for: later entries overwrite earlier ones.
pub open spec fn members(entries: Seq<(Seq<char>, JsonModel)>) -> Map<Seq<char>, JsonModel>
    decreases entries.len(),
{
    if entries.len() == 0 {
        Map::empty()
    } else {
        members(entries.drop_last()).insert(entries.last().0, entries.last().1)
    }
}

/// The member of the object `value` under `key`; nothing where `value` is no object or has
/// no such member.
pub open spec fn member_of(value: JsonModel, key: Seq<char>) -> Option<JsonModel> {
    match value {
        JsonModel::Object(object) => if object.contains_key(key) {
            Some(object[key])
        } else {
            None
        },
        _ => None,
    }
}

impl Json {
    /// What the value means.
    pub open spec fn model(self) -> JsonModel
        decreases self,
    {
        match self {
            Json::Null => JsonModel::Null,
            Json::Bool(b) => JsonModel::Bool(b),
            Json::Number(n) => JsonModel::Number(n),
            Json::String(s) => JsonModel::String(s@),
            Json::Array(items) => JsonModel::Array(
                Seq::new(
                    items@.len(),
                    |i: int|
                        if 0 <= i < items@.len() {
                            items@[i].model()
                        } else {
                            JsonModel::Null
                        },
                ),
            ),
            Json::Object(entries) => JsonModel::Object(members(Json::entry_models(entries@))),
        }
    }

    /// What each of some entries means.
    pub open spec fn entry_models(entries: Seq<(String, Json)>) -> Seq<(Seq<char>, JsonModel)>
        decreases entries,
    {
        Seq::new(
            entries.len(),
            |i: int|
                if 0 <= i < entries.len() {
                    (entries[i].0@, entries[i].1.model())
                } else {
                    (Seq::empty(), JsonModel::Null)
                },
        )
    }
}

impl DeepView for Json {
    type V = JsonModel;

    open spec fn deep_view(&self) -> JsonModel {
        self.model()
    }
}

impl Layer {
    /// What a value with this outermost layer means.
    spec fn model(self) -> JsonModel {
        match self {
            Layer::Null => JsonModel::Null,
            Layer::Bool(b) => JsonModel::Bool(b),
            Layer::Number(n) => JsonModel::Number(n),
            Layer::String(s) => JsonModel::String(s@),
            Layer::Array(items) => JsonModel::Array(values_of(items@)),
            Layer::Object(object) => JsonModel::Object(object_of(object)),
        }
    }
}

/// What a `serde_json::Value` holds.
pub uninterp spec fn json_of(value: serde_json::Value) -> JsonModel;

/// The members of a `serde_json::Map`.
pub uninterp spec fn object_of(
    object: serde_json::Map<String, serde_json::Value>,
) -> Map<Seq<char>, JsonModel>;

/// What `serde_json::from_str` reads from a text; nothing where it fails.
pub uninterp spec fn parsed(text: Seq<char>) -> Option<JsonModel>;

/// The compact JSON text that `serde_json` displays for a value.
pub uninterp spec fn rendered(value: JsonModel) -> Seq<char>;

/// What each of some `serde_json` values holds.
pub open spec fn values_of(values: Seq<serde_json::Value>) -> Seq<JsonModel> {
    values.map_values(|value: serde_json::Value| json_of(value))
}

/// What some entries of a `serde_json` object hold.
pub open spec fn entries_of(entries: Seq<(String, serde_json::Value)>) -> Seq<
    (Seq<char>, JsonModel),
> {
    entries.map_values(|entry: (String, serde_json::Value)| (entry.0@, json_of(entry.1)))
}

/// Calls `serde_json::from_str` for a `serde_json::Value`. It either fails or gives a value,
/// and which of the two, and which value, depends on the text alone.
#[verifier::external_body]
fn parse_value(text: &str) -> (result: Result<serde_json::Value, serde_json::Error>)
    ensures
        match result {
            Ok(value) => parsed(text@) == Some(json_of(value)),
            Err(_) => parsed(text@) is None,
        },
{
    serde_json::from_str::<serde_json::Value>(text)
}

/// Calls `to_string` of `serde_json::Value`, its `Display` text. The text depends on what the
/// value holds alone: the members of an object come out sorted by key.
#[verifier::external_body]
fn value_text(value: &serde_json::Value) -> (text: String)
    ensures
        text@ == rendered(json_of(*value)),
{
    value.to_string()
}

/// Tells the variants of `serde_json::Value` apart and hands out their fields.
#[verifier::external_body]
fn open_value(value: serde_json::Value) -> (layer: Layer)
    ensures
        layer.model() == json_of(value),
{
    match value {
        serde_json::Value::Null => Layer::Null,
        serde_json::Value::Bool(b) => Layer::Bool(b),
        serde_json::Value::Number(n) => Layer::Number(n),
        serde_json::Value::String(s) => Layer::String(s),
        serde_json::Value::Array(items) => Layer::Array(items),
        serde_json::Value::Object(object) => Layer::Object(object),
    }
}

/// Builds the `serde_json::Value` of the variant that the layer names.
#[verifier::external_body]
fn close_value(layer: Layer) -> (value: serde_json::Value)
    ensures
        json_of(value) == layer.model(),
{
    match layer {
        Layer::Null => serde_json::Value::Null,
        Layer::Bool(b) => serde_json::Value::Bool(b),
        Layer::Number(n) => serde_json::Value::Number(n),
        Layer::String(s) => serde_json::Value::String(s),
        Layer::Array(items) => serde_json::Value::Array(items),
        Layer::Object(object) => serde_json::Value::Object(object),
    }
}

/// Calls `serde_json::Map::new`, which makes an object without members.
#[verifier::external_body]
fn new_object() -> (object: serde_json::Map<String, serde_json::Value>)
    ensures
        object_of(object) == members(Seq::empty()),
{
    serde_json::Map::new()
}

/// Calls `serde_json::Map::insert`, which sets the member under `key`.
#[verifier::external_body]
fn insert_member(
    object: &mut serde_json::Map<String, serde_json::Value>,
    key: String,
    value: serde_json::Value,
)
    ensures
        object_of(*final(object)) == object_of(*old(object)).insert(key@, json_of(value)),
{
    object.insert(key, value);
}

/// Calls `into_iter` of `serde_json::Map`, which hands out each member once, with its key.
#[verifier::external_body]
fn object_entries(object: serde_json::Map<String, serde_json::Value>) -> (entries: Vec<
    (String, serde_json::Value),
>)
    ensures
        members(entries_of(entries@)) == object_of(object),
        forall|i: int, j: int|
            0 <= i < j < entries@.len() ==> (#[trigger] entries@[i]).0@ != (
            #[trigger] entries@[j]).0@,
{
    object.into_iter().collect()
}

/// Calls `clone` of `serde_json::Number`, which gives the same number.
#[verifier::external_body]
fn copy_number(number: &serde_json::Number) -> (copy: serde_json::Number)
    ensures
        copy == *number,
{
    number.clone()
}

/// Adding an entry to a list sets that member.
proof fn lemma_members_push(entries: Seq<(Seq<char>, JsonModel)>, entry: (Seq<char>, JsonModel))
    ensures
        members(entries.push(entry)) == members(entries).insert(entry.0, entry.1),
{
    assert(entries.push(entry).drop_last() =~= entries);
}

/// Entries after which a key does not occur decide its member.
pub proof fn lemma_members_last(entries: Seq<(Seq<char>, JsonModel)>, at: int)
    requires
        0 <= at < entries.len(),
        forall|j: int| at < j < entries.len() ==> (#[trigger] entries[j]).0 != entries[at].0,
    ensures
        members(entries).contains_key(entries[at].0),
        members(entries)[entries[at].0] == entries[at].1,
    decreases entries.len(),
{
    if at < entries.len() - 1 {
        assert(entries[entries.len() - 1].0 != entries[at].0);
        assert(entries.drop_last()[at] == entries[at]);
        lemma_members_last(entries.drop_last(), at);
    }
}

/// A key that no entry has is no member.
pub proof fn lemma_members_absent(entries: Seq<(Seq<char>, JsonModel)>, key: Seq<char>)
    requires
        forall|j: int| 0 <= j < entries.len() ==> (#[trigger] entries[j]).0 != key,
    ensures
        !members(entries).contains_key(key),
    decreases entries.len(),
{
    if entries.len() > 0 {
        assert(entries[entries.len() - 1].0 != key);
        assert forall|j: int| 0 <= j < entries.drop_last().len() implies (
        #[trigger] entries.drop_last()[j]).0 != key by {
            assert(entries.drop_last()[j] == entries[j]);
        }
        lemma_members_absent(entries.drop_last(), key);
    }
}

/// A list of entries has finitely many members.
proof fn lemma_members_finite(entries: Seq<(Seq<char>, JsonModel)>)
    ensures
        members(entries).dom().finite(),
    decreases entries.len(),
{
    if entries.len() > 0 {
        lemma_members_finite(entries.drop_last());
    }
}

impl Clone for Json {
    #[verifier::loop_isolation(false)]
    fn clone(&self) -> (copy: Self)
        ensures
            copy.deep_view() == self.deep_view(),
        decreases self,
    {
        match self {
            Json::Null => Json::Null,
            Json::Bool(b) => Json::Bool(*b),
            Json::Number(n) => Json::Number(copy_number(n)),
            Json::String(s) => Json::String(s.clone()),
            Json::Array(items) => {
                let mut copies: Vec<Json> = Vec::new();
                let mut i: usize = 0;
                while i < items.len()
                    invariant
                        self == Json::Array(*items),
                        i <= items@.len(),
                        copies.deep_view() == items.deep_view().take(i as int),
                    decreases items@.len() - i,
                {
                    let item = items[i].clone();
                    copies.push(item);
                    assert(copies.deep_view() =~= items.deep_view().take(i + 1));
                    i += 1;
                }
                assert(copies.deep_view() =~= items.deep_view());
                proof {
                    lemma_array_model(*items);
                    lemma_array_model(copies);
                }
                Json::Array(copies)
            },
            Json::Object(entries) => {
                let mut copies: Vec<(String, Json)> = Vec::new();
                let mut i: usize = 0;
                while i < entries.len()
                    invariant
                        self == Json::Object(*entries),
                        i <= entries@.len(),
                        copies.deep_view() == entries.deep_view().take(i as int),
                    decreases entries@.len() - i,
                {
                    let value = entries[i].1.clone();
                    copies.push((entries[i].0.clone(), value));
                    assert(copies.deep_view() =~= entries.deep_view().take(i + 1));
                    i += 1;
                }
                assert(copies.deep_view() =~= entries.deep_view());
                proof {
                    lemma_object_model(*entries);
                    lemma_object_model(copies);
                }
                Json::Object(copies)
            },
        }
    }
}

/// An array means the array of what its items mean.
pub proof fn lemma_array_model(items: Vec<Json>)
    ensures
        Json::Array(items).deep_view() == JsonModel::Array(items.deep_view()),
{
    assert(Json::Array(items).deep_view()->Array_0 =~= items.deep_view());
}

/// An object means the map that its entries stand for.
pub proof fn lemma_object_model(entries: Vec<(String, Json)>)
    ensures
        Json::Object(entries).deep_view() == JsonModel::Object(members(entries.deep_view())),
{
    assert(Json::entry_models(entries@) =~= entries.deep_view());
}

/// Sets the member under `key` in a list of entries.
pub fn set_member(entries: &mut Vec<(String, Json)>, key: &str, value: Json)
    ensures
        members(final(entries).deep_view()) == members(old(entries).deep_view()).insert(
            key@,
            value.deep_view(),
        ),
{
    let ghost before = entries.deep_view();
    let ghost entry = (key@, value.deep_view());
    entries.push((key.to_string(), value));
    proof {
        assert(entries.deep_view() =~= before.push(entry));
        lemma_members_push(before, entry);
    }
}

/// The object with the given entries.
pub fn object(entries: Vec<(String, Json)>) -> (json: Json)
    ensures
        json.deep_view() == JsonModel::Object(members(entries.deep_view())),
{
    proof {
        lemma_object_model(entries);
    }
    Json::Object(entries)
}

/// The array of the given items.
pub fn array(items: Vec<Json>) -> (json: Json)
    ensures
        json.deep_view() == JsonModel::Array(items.deep_view()),
{
    proof {
        lemma_array_model(items);
    }
    Json::Array(items)
}

/// The given text as a JSON string.
pub fn string(text: &str) -> (json: Json)
    ensures
        json.deep_view() == JsonModel::String(text@),
{
    Json::String(text.to_string())
}

impl Json {
    /// The member of an object under `key`.
    pub fn member(&self, key: &str) -> (found: Option<&Json>)
        ensures
            found.deep_view() == member_of(self.deep_view(), key@),
    {
        match self {
            Json::Object(entries) => {
                proof {
                    lemma_object_model(*entries);
                }
                let ghost listed = entries.deep_view();
                let mut i: usize = entries.len();
                while i > 0
                    invariant
                        i <= entries@.len(),
                        listed == entries.deep_view(),
                        forall|j: int| i <= j < entries@.len() ==> (#[trigger] listed[j]).0 != key@,
                        self.deep_view() == JsonModel::Object(members(listed)),
                    decreases i,
                {
                    i -= 1;
                    if text_eq(entries[i].0.as_str(), key) {
                        proof {
                            assert(listed[i as int].0 == key@);
                            lemma_members_last(listed, i as int);
                        }
                        return Some(&entries[i].1);
                    }
                    assert(listed[i as int].0 != key@);
                }
                proof {
                    lemma_members_absent(listed, key@);
                }
                None
            },
            _ => None,
        }
    }

    /// The same value as a `serde_json::Value`.
    #[verifier::loop_isolation(false)]
    pub fn to_value(&self) -> (value: serde_json::Value)
        ensures
            json_of(value) == self.deep_view(),
        decreases self,
    {
        match self {
            Json::Null => close_value(Layer::Null),
            Json::Bool(b) => close_value(Layer::Bool(*b)),
            Json::Number(n) => close_value(Layer::Number(copy_number(n))),
            Json::String(s) => close_value(Layer::String(s.clone())),
            Json::Array(items) => {
                let mut values: Vec<serde_json::Value> = Vec::new();
                let mut i: usize = 0;
                while i < items.len()
                    invariant
                        self == Json::Array(*items),
                        i <= items@.len(),
                        values_of(values@) == items.deep_view().take(i as int),
                    decreases items@.len() - i,
                {
                    let value = items[i].to_value();
                    values.push(value);
                    assert(values_of(values@) =~= items.deep_view().take(i + 1));
                    i += 1;
                }
                proof {
                    assert(items.deep_view().take(i as int) =~= items.deep_view());
                    lemma_array_model(*items);
                }
                close_value(Layer::Array(values))
            },
            Json::Object(entries) => {
                let mut object = new_object();
                let mut i: usize = 0;
                while i < entries.len()
                    invariant
                        self == Json::Object(*entries),
                        i <= entries@.len(),
                        object_of(object) == members(entries.deep_view().take(i as int)),
                    decreases entries@.len() - i,
                {
                    let value = entries[i].1.to_value();
                    insert_member(&mut object, entries[i].0.clone(), value);
                    proof {
                        let before = entries.deep_view().take(i as int);
                        assert(entries.deep_view().take(i + 1) =~= before.push(
                            entries.deep_view()[i as int],
                        ));
                        lemma_members_push(before, entries.deep_view()[i as int]);
                    }
                    i += 1;
                }
                proof {
                    assert(entries.deep_view().take(i as int) =~= entries.deep_view());
                    lemma_object_model(*entries);
                }
                close_value(Layer::Object(object))
            },
        }
    }

    /// The value that a `serde_json::Value` holds.
    #[verifier::loop_isolation(false)]
    pub fn from_value(value: serde_json::Value) -> (json: Json)
        ensures
            json.deep_view() == json_of(value),
        decreases json_of(value),
    {
        let ghost whole = json_of(value);
        match open_value(value) {
            Layer::Null => Json::Null,
            Layer::Bool(b) => Json::Bool(b),
            Layer::Number(n) => Json::Number(n),
            Layer::String(s) => Json::String(s),
            Layer::Array(values) => {
                let ghost held = values_of(values@);
                let mut items: Vec<Json> = Vec::new();
                for item in it: values
                    invariant
                        whole == JsonModel::Array(held),
                        held == values_of(it.seq()),
                        items.deep_view() == held.take(it.index()),
                {
                    proof {
                        assert(held[it.index()] == json_of(item));
                        assert(decreases_to!(whole => whole->Array_0));
                        assert(decreases_to!(held => held[it.index()]));
                    }
                    let json = Json::from_value(item);
                    items.push(json);
                    assert(items.deep_view() =~= held.take(it.index() + 1));
                }
                proof {
                    assert(items.deep_view() =~= held);
                    lemma_array_model(items);
                }
                Json::Array(items)
            },
            Layer::Object(object) => {
                let ghost held = object_of(object);
                let listed = object_entries(object);
                let ghost entries = entries_of(listed@);
                let mut copies: Vec<(String, Json)> = Vec::new();
                for entry in it: listed
                    invariant
                        whole == JsonModel::Object(held),
                        entries == entries_of(it.seq()),
                        held == members(entries),
                        forall|i: int, j: int|
                            0 <= i < j < entries.len() ==> (#[trigger] entries[i]).0 != (
                            #[trigger] entries[j]).0,
                        copies.deep_view() == entries.take(it.index()),
                {
                    proof {
                        assert(entries[it.index()] == (entry.0@, json_of(entry.1)));
                        lemma_members_last(entries, it.index());
                        lemma_members_finite(entries);
                        assert(decreases_to!(whole => whole->Object_0));
                        assert(decreases_to!(held => held[entry.0@]));
                    }
                    let (key, member) = entry;
                    let json = Json::from_value(member);
                    copies.push((key, json));
                    assert(copies.deep_view() =~= entries.take(it.index() + 1));
                }
                proof {
                    assert(copies.deep_view() =~= entries);
                    lemma_object_model(copies);
                }
                Json::Object(copies)
            },
        }
    }

    /// Reads a JSON text; nothing where the text is not JSON.
    pub fn parse(text: &str) -> (json: Option<Json>)
        ensures
            json.deep_view() == parsed(text@),
    {
        match parse_value(text) {
            Ok(value) => Some(Json::from_value(value)),
            Err(_) => None,
        }
    }

    /// The value as compact JSON text.
    pub fn render(&self) -> (text: String)
        ensures
            text@ == rendered(self.deep_view()),
    {
        let value = self.to_value();
        value_text(&value)
    }
}

} // verus!
