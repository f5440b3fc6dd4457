//! JSON values as the App Server's JSONL messages carry them, and the lookups the client
//! makes in them. Turning text into values and values into text is serde_json's work; a
//! value here stands for one `serde_json::Value`, member for member.
use vstd::prelude::*;

use crate::text::same_text;

verus! {

/// A JSON value. A number is held as the `i64` it is, where it is one (what
/// `Value::as_i64` gives); any other number as `Number(None)`.
#[derive(Debug)]
pub enum Json {
    Null,
    Bool(bool),
    Number(Option<i64>),
    Str(String),
    Array(Vec<Json>),
    Object(Vec<(String, Json)>),
}

/// What a JSON value holds.
pub enum JsonModel {
    Null,
    Bool(bool),
    Number(Option<i64>),
    Str(Seq<char>),
    Array(Seq<JsonModel>),
    Object(Seq<(Seq<char>, JsonModel)>),
}

pub open spec fn model(j: Json) -> JsonModel
    decreases j,
{
    match j {
        Json::Null => JsonModel::Null,
        Json::Bool(b) => JsonModel::Bool(b),
        Json::Number(n) => JsonModel::Number(n),
        Json::Str(s) => JsonModel::Str(s@),
        Json::Array(items) => JsonModel::Array(models(items@)),
        Json::Object(entries) => JsonModel::Object(entry_models(entries@)),
    }
}

pub open spec fn models(items: Seq<Json>) -> Seq<JsonModel>
    decreases items,
{
    if items.len() == 0 {
        Seq::empty()
    } else {
        seq![model(items[0])] + models(items.subrange(1, items.len() as int))
    }
}

pub open spec fn entry_models(entries: Seq<(String, Json)>) -> Seq<(Seq<char>, JsonModel)>
    decreases entries,
{
    if entries.len() == 0 {
        Seq::empty()
    } else {
        seq![(entries[0].0@, model(entries[0].1))] + entry_models(entries.subrange(1, entries.len() as int))
    }
}

impl View for Json {
    type V = JsonModel;

    open spec fn view(&self) -> JsonModel {
        model(*self)
    }
}

pub proof fn lemma_models_push(items: Seq<Json>, x: Json)
    ensures
        models(items.push(x)) == models(items).push(model(x)),
    decreases items.len(),
{
    if items.len() == 0 {
        assert(items.push(x).subrange(1, 1) =~= Seq::<Json>::empty());
        assert(models(Seq::<Json>::empty()) =~= Seq::<JsonModel>::empty());
        assert(items =~= Seq::<Json>::empty());
        assert(models(items.push(x)) =~= models(items).push(model(x)));
    } else {
        let rest = items.subrange(1, items.len() as int);
        lemma_models_push(rest, x);
        assert(items.push(x).subrange(1, items.len() as int + 1) =~= rest.push(x));
        assert(models(items.push(x)) =~= models(items).push(model(x)));
    }
}

pub proof fn lemma_entry_models_push(entries: Seq<(String, Json)>, e: (String, Json))
    ensures
        entry_models(entries.push(e)) == entry_models(entries).push((e.0@, model(e.1))),
    decreases entries.len(),
{
    if entries.len() == 0 {
        assert(entries.push(e).subrange(1, 1) =~= Seq::<(String, Json)>::empty());
        assert(entry_models(Seq::<(String, Json)>::empty()) =~= Seq::<(Seq<char>, JsonModel)>::empty());
        assert(entries =~= Seq::<(String, Json)>::empty());
        assert(entry_models(entries.push(e)) =~= entry_models(entries).push((e.0@, model(e.1))));
    } else {
        let rest = entries.subrange(1, entries.len() as int);
        lemma_entry_models_push(rest, e);
        assert(entries.push(e).subrange(1, entries.len() as int + 1) =~= rest.push(e));
        assert(entry_models(entries.push(e)) =~= entry_models(entries).push((e.0@, model(e.1))));
    }
}

pub proof fn lemma_entry_models_len(entries: Seq<(String, Json)>)
    ensures
        entry_models(entries).len() == entries.len(),
    decreases entries.len(),
{
    if entries.len() > 0 {
        lemma_entry_models_len(entries.subrange(1, entries.len() as int));
    }
}

/// The `k`-th member of an object's model is the model of its `k`-th member.
pub proof fn lemma_entry_models_index(entries: Seq<(String, Json)>, k: int)
    requires
        0 <= k < entries.len(),
    ensures
        entry_models(entries).len() == entries.len(),
        entry_models(entries)[k] == (entries[k].0@, model(entries[k].1)),
    decreases entries.len(),
{
    lemma_entry_models_len(entries);
    let rest = entries.subrange(1, entries.len() as int);
    if k > 0 {
        lemma_entry_models_index(rest, k - 1);
    }
}

pub proof fn lemma_models_len(items: Seq<Json>)
    ensures
        models(items).len() == items.len(),
    decreases items.len(),
{
    if items.len() > 0 {
        lemma_models_len(items.subrange(1, items.len() as int));
    }
}

/// The `k`-th item of an array's model is the model of its `k`-th item.
pub proof fn lemma_models_index(items: Seq<Json>, k: int)
    requires
        0 <= k < items.len(),
    ensures
        models(items).len() == items.len(),
        models(items)[k] == model(items[k]),
    decreases items.len(),
{
    lemma_models_len(items);
    if k > 0 {
        lemma_models_index(items.subrange(1, items.len() as int), k - 1);
    }
}

/// The first member named `key` is at `k`.
pub open spec fn first_key_at(entries: Seq<(Seq<char>, JsonModel)>, key: Seq<char>, k: int) -> bool {
    &&& 0 <= k < entries.len()
    &&& entries[k].0 == key
    &&& forall|j: int| 0 <= j < k ==> (#[trigger] entries[j]).0 != key
}

/// `Value::get(key)`: the member named `key` of an object (an object read from text holds
/// each name once); nothing for anything else.
pub open spec fn member(m: JsonModel, key: Seq<char>) -> Option<JsonModel> {
    match m {
        JsonModel::Object(entries) => if exists|k: int| first_key_at(entries, key, k) {
            Some(entries[choose|k: int| first_key_at(entries, key, k)].1)
        } else {
            None
        },
        _ => None,
    }
}

/// `Value::pointer` along object member names.
pub open spec fn at(m: Option<JsonModel>, path: Seq<Seq<char>>) -> Option<JsonModel>
    decreases path.len(),
{
    if path.len() == 0 {
        m
    } else {
        match m {
            Some(v) => at(member(v, path[0]), path.subrange(1, path.len() as int)),
            None => None,
        }
    }
}

/// `Value::as_str`.
pub open spec fn str_value(m: Option<JsonModel>) -> Option<Seq<char>> {
    match m {
        Some(JsonModel::Str(s)) => Some(s),
        _ => None,
    }
}

/// `Value::as_i64`.
pub open spec fn int_value(m: Option<JsonModel>) -> Option<i64> {
    match m {
        Some(JsonModel::Number(n)) => n,
        _ => None,
    }
}

/// `Value::get(key)` on a value.
pub fn get<'a>(j: &'a Json, key: &str) -> (r: Option<&'a Json>)
    ensures
        match r {
            Some(v) => member(j@, key@) == Some(v@),
            None => member(j@, key@) is None,
        },
{
    match j {
        Json::Object(entries) => {
            let n = entries.len();
            let mut k: usize = 0;
            let ghost es = entry_models(entries@);
            assert(j@ == JsonModel::Object(es));
            proof {
                lemma_entry_models_len(entries@);
            }
            while k < n
                invariant
                    n == entries@.len(),
                    es == entry_models(entries@),
                    es.len() == n,
                    j@ == JsonModel::Object(es),
                    k <= n,
                    forall|i: int| 0 <= i < k ==> (#[trigger] es[i]).0 != key@,
                decreases n - k,
            {
                proof {
                    lemma_entry_models_index(entries@, k as int);
                }
                if same_text(entries[k].0.as_str(), key) {
                    proof {
                        assert(first_key_at(es, key@, k as int));
                        let c = choose|c: int| first_key_at(es, key@, c);
                        if c < k {
                            assert(es[c].0 != key@);
                        } else if k < c {
                            assert(es[k as int].0 != key@);
                        }
                        assert(c == k);
                        assert(member(j@, key@) == Some(es[k as int].1));
                        assert(es[k as int].1 == model(entries@[k as int].1));
                    }
                    return Some(&entries[k].1);
                }
                k = k + 1;
            }
            proof {
                if exists|c: int| first_key_at(es, key@, c) {
                    let c = choose|c: int| first_key_at(es, key@, c);
                    if n > 0 {
                        lemma_entry_models_index(entries@, 0);
                    }
                    assert(es[c].0 != key@);
                }
            }
            None
        },
        _ => None,
    }
}

/// `Value::as_str` of a member.
pub fn str_of(j: Option<&Json>) -> (r: Option<String>)
    ensures
        opt_view(r) == str_value(match j {
            Some(v) => Some(v@),
            None => None,
        }),
{
    match j {
        Some(Json::Str(s)) => Some(s.clone()),
        _ => None,
    }
}

pub open spec fn opt_view(o: Option<String>) -> Option<Seq<char>> {
    match o {
        Some(s) => Some(s@),
        None => None,
    }
}

/// The model of a value that may be missing.
pub open spec fn opt_ref(j: Option<&Json>) -> Option<JsonModel> {
    match j {
        Some(v) => Some(v@),
        None => None,
    }
}

/// `Value::as_bool`.
pub open spec fn bool_value(m: Option<JsonModel>) -> Option<bool> {
    match m {
        Some(JsonModel::Bool(b)) => Some(b),
        _ => None,
    }
}

/// `Value::as_array`.
pub open spec fn items_value(m: Option<JsonModel>) -> Option<Seq<JsonModel>> {
    match m {
        Some(JsonModel::Array(items)) => Some(items),
        _ => None,
    }
}

/// The items of an array, none for anything else.
pub open spec fn list_of(m: Option<JsonModel>) -> Seq<JsonModel> {
    match m {
        Some(JsonModel::Array(items)) => items,
        _ => Seq::empty(),
    }
}

/// `Value::as_bool` of a member.
pub fn bool_of(j: Option<&Json>) -> (r: Option<bool>)
    ensures
        r == bool_value(opt_ref(j)),
{
    match j {
        Some(Json::Bool(b)) => Some(*b),
        _ => None,
    }
}

/// `Value::as_array` of a member.
pub fn items_of<'a>(j: Option<&'a Json>) -> (r: Option<&'a Vec<Json>>)
    ensures
        match r {
            Some(v) => items_value(opt_ref(j)) == Some(models(v@)),
            None => items_value(opt_ref(j)) is None,
        },
{
    match j {
        Some(Json::Array(items)) => Some(items),
        _ => None,
    }
}

/// A builder of a JSON object, member by member in order.
pub fn put(entries: &mut Vec<(String, Json)>, key: &str, value: Json)
    ensures
        entry_models(final(entries)@) == entry_models(old(entries)@).push((key@, value@)),
{
    let e = (key.to_owned(), value);
    proof {
        lemma_entry_models_push(entries@, e);
    }
    entries.push(e);
}

/// A JSON array from its items.
pub fn array_of(items: Vec<Json>) -> (r: Json)
    ensures
        r@ == JsonModel::Array(models(items@)),
{
    Json::Array(items)
}

/// A JSON string.
pub fn string(s: &str) -> (r: Json)
    ensures
        r@ == JsonModel::Str(s@),
{
    Json::Str(s.to_owned())
}


// ---------------------------------------------------------------------------------------
// Text
// ---------------------------------------------------------------------------------------
#[verifier::external_type_specification]
#[verifier::external_body]
pub struct ExValue(serde_json::Value);

pub open spec fn opt_json(j: Option<Json>) -> Option<JsonModel> {
    match j {
        Some(v) => Some(v@),
        None => None,
    }
}

/// The value `serde_json::from_str::<Value>` reads from `text`, as a `Json`; nothing when
/// the text is not one JSON value.
pub uninterp spec fn parsed(text: Seq<char>) -> Option<JsonModel>;

/// The text `serde_json::to_string` writes for the value, when it writes one.
pub uninterp spec fn printed(value: JsonModel) -> Option<Seq<char>>;

/// Copies a `serde_json::Value` into a `Json`, member for member and in the map's order;
/// a number is kept as the `i64` it is, where it is one (`Number::as_i64`). It is part of
/// the conversion of `parse`'s result and has no contract of its own.
#[verifier::external_body]
fn json_of_value(v: &serde_json::Value) -> Json {
    match v {
        serde_json::Value::Null => Json::Null,
        serde_json::Value::Bool(b) => Json::Bool(*b),
        serde_json::Value::Number(n) => Json::Number(n.as_i64()),
        serde_json::Value::String(s) => Json::Str(s.clone()),
        serde_json::Value::Array(items) => Json::Array(items.iter().map(json_of_value).collect()),
        serde_json::Value::Object(map) => Json::Object(map.iter().map(|(k, v)| (k.clone(), json_of_value(v))).collect()),
    }
}

/// Copies a `Json` into a `serde_json::Value`, member for member; `Number(None)`, which
/// stands for a number that is no `i64`, becomes `null`. It is part of the conversion of
/// `print`'s argument and has no contract of its own.
#[verifier::external_body]
fn value_of_json(j: &Json) -> serde_json::Value {
    match j {
        Json::Null | Json::Number(None) => serde_json::Value::Null,
        Json::Bool(b) => serde_json::Value::Bool(*b),
        Json::Number(Some(n)) => serde_json::Value::from(*n),
        Json::Str(s) => serde_json::Value::String(s.clone()),
        Json::Array(items) => serde_json::Value::Array(items.iter().map(value_of_json).collect()),
        Json::Object(entries) => serde_json::Value::Object(entries.iter().map(|(k, v)| (k.clone(), value_of_json(v))).collect()),
    }
}

/// `serde_json::from_str::<Value>(text)`, the value copied into a `Json`; nothing when
/// serde_json refuses the text. The result is named, not described: the contract ties it
/// to `text` and says nothing more of it.
#[verifier::external_body]
pub(crate) fn parse(text: &str) -> (r: Option<Json>)
    ensures
        opt_json(r) == parsed(text@),
{
    match serde_json::from_str::<serde_json::Value>(text) {
        Ok(v) => Some(json_of_value(&v)),
        Err(_) => None,
    }
}

/// The value `serde_json::from_slice::<Value>` reads from `bytes`, as a `Json`, or the text
/// of serde_json's error when the bytes are not one JSON value.
pub uninterp spec fn parsed_bytes(bytes: Seq<u8>) -> Result<JsonModel, Seq<char>>;

/// `serde_json::from_slice::<Value>(bytes)`, the value copied into a `Json`; when serde_json
/// refuses the bytes, the text of its error (its `Display`). The result is named, not
/// described: the contract ties it to `bytes` and says nothing more of it.
#[verifier::external_body]
pub(crate) fn parse_bytes(bytes: &[u8]) -> (r: Result<Json, String>)
    ensures
        match r {
            Ok(j) => parsed_bytes(bytes@) == Ok::<JsonModel, Seq<char>>(j@),
            Err(e) => parsed_bytes(bytes@) == Err::<JsonModel, Seq<char>>(e@),
        },
{
    match serde_json::from_slice::<serde_json::Value>(bytes) {
        Ok(v) => Ok(json_of_value(&v)),
        Err(e) => Err(e.to_string()),
    }
}

/// `serde_json::to_string` of the value, copied into a `serde_json::Value` first; nothing
/// when serde_json reports an error. The text is named, not described: the contract ties
/// it to the value and says nothing more of it (serde_json writes an object's members in
/// its map's order, which sorts them by name).
#[verifier::external_body]
pub(crate) fn print(value: &Json) -> (r: Option<String>)
    ensures
        opt_view(r) == printed(value@),
{
    serde_json::to_string(&value_of_json(value)).ok()
}
} // verus!
