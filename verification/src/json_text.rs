//! JSON text: reading it into a [`JsonValue`] and printing a [`JsonValue`] as text.
//!
//! Reading and printing are the work of `serde_json`. A value of that crate is turned into one
//! of this library, and back, one level at a time.
use vstd::prelude::*;

use crate::json::{
    Json, JsonValue, distinct_keys, entry_models, is_floating, lemma_array_view,
    lemma_object_view, models,
};

verus! {

/// A value of `serde_json`, carried to and from the functions of that crate.
#[verifier::external_type_specification]
#[verifier::external_body]
pub struct ExValue(serde_json::Value);

/// The error of `serde_json`, of which only that it came is used.
#[verifier::external_type_specification]
#[verifier::external_body]
pub struct ExError(serde_json::Error);

/// The JSON that a `serde_json::Value` holds.
pub uninterp spec fn held_json(value: serde_json::Value) -> Json;

/// The JSON that `serde_json::from_str` reads from `text`, if it accepts it.
pub uninterp spec fn parsed_json(text: Seq<char>) -> Option<Json>;

/// The text that `serde_json` prints for `json`.
pub uninterp spec fn printed_json(json: Json) -> Seq<char>;

/// One level of a `serde_json::Value`, its variants told apart.
enum Parts {
    Null,
    Bool(bool),
    Number(serde_json::Number),
    String(String),
    Array(Vec<serde_json::Value>),
    Object(Vec<(String, serde_json::Value)>),
}

/// The JSON that `items` hold, in order.
spec fn held_items(items: Seq<serde_json::Value>) -> Seq<Json> {
    items.map_values(|item: serde_json::Value| held_json(item))
}

/// The names of `entries` and the JSON that they hold, in order.
spec fn held_entries(entries: Seq<(String, serde_json::Value)>) -> Seq<
    (Seq<char>, Json),
> {
    entries.map_values(|entry: (String, serde_json::Value)| (entry.0@, held_json(entry.1)))
}

impl Parts {
    /// The JSON that the parts make up.
    spec fn json(self) -> Json {
        match self {
            Parts::Null => Json::Null,
            Parts::Bool(b) => Json::Bool(b),
            Parts::Number(n) => Json::Number(n),
            Parts::String(s) => Json::Text(s@),
            Parts::Array(items) => Json::Array(held_items(items@)),
            Parts::Object(entries) => Json::Object(held_entries(entries@)),
        }
    }
}

/// Whether `json` has at most `levels` arrays and objects inside one another.
pub open spec fn nested_within(json: Json, levels: nat) -> bool
    decreases json,
{
    match json {
        Json::Array(items) => levels > 0 && forall|i: int|
            0 <= i < items.len() ==> nested_within(#[trigger] items[i], (levels - 1) as nat),
        Json::Object(entries) => levels > 0 && forall|i: int|
            0 <= i < entries.len() ==> nested_within(
                (#[trigger] entries[i]).1,
                (levels - 1) as nat,
            ),
        _ => true,
    }
}

/// Whether there is no floating-point number in `json`, at any depth.
pub open spec fn float_free(json: Json) -> bool
    decreases json,
{
    match json {
        Json::Number(n) => !is_floating(n),
        Json::Array(items) => forall|i: int|
            0 <= i < items.len() ==> float_free(#[trigger] items[i]),
        Json::Object(entries) => forall|i: int|
            0 <= i < entries.len() ==> float_free((#[trigger] entries[i]).1),
        _ => true,
    }
}

/// Whether the text printed for `json` is certain to be read back as `json`: it is nested no
/// deeper than the reader goes, and holds no floating-point number, which reading could round.
pub open spec fn reads_back(json: Json) -> bool {
    nested_within(json, 127) && float_free(json)
}

/// The variants of `serde_json::Value`, told apart: the parts are what the value holds, an
/// object's entries in the order in which `serde_json::Map` walks them. The names in a
/// `serde_json::Map` are distinct, at every depth.
#[verifier::external_body]
fn open_value(value: serde_json::Value) -> (parts: Parts)
    ensures
        parts.json() == held_json(value),
        distinct_keys(parts.json()),
{
    match value {
        serde_json::Value::Null => Parts::Null,
        serde_json::Value::Bool(b) => Parts::Bool(b),
        serde_json::Value::Number(n) => Parts::Number(n),
        serde_json::Value::String(s) => Parts::String(s),
        serde_json::Value::Array(items) => Parts::Array(items),
        serde_json::Value::Object(entries) => Parts::Object(entries.into_iter().collect()),
    }
}

/// The constructors of `serde_json::Value`. A `serde_json::Map` collected from entries with
/// distinct names holds these entries in their order (its feature `preserve_order`).
#[verifier::external_body]
fn close_value(parts: Parts) -> (value: serde_json::Value)
    requires
        distinct_keys(parts.json()),
    ensures
        held_json(value) == parts.json(),
{
    match parts {
        Parts::Null => serde_json::Value::Null,
        Parts::Bool(b) => serde_json::Value::Bool(b),
        Parts::Number(n) => serde_json::Value::Number(n),
        Parts::String(s) => serde_json::Value::String(s),
        Parts::Array(items) => serde_json::Value::Array(items),
        Parts::Object(entries) => serde_json::Value::Object(entries.into_iter().collect()),
    }
}

/// `serde_json::from_str` into a `serde_json::Value`: whether it succeeds and what it reads
/// depend on the text alone.
#[verifier::external_body]
fn read_value(text: &str) -> (result: Result<serde_json::Value, serde_json::Error>)
    ensures
        match result {
            Ok(value) => parsed_json(text@) == Some(held_json(value)),
            Err(_) => parsed_json(text@) is None,
        },
{
    serde_json::from_str(text)
}

/// `to_string` of a `serde_json::Value`: the compact text depends on the JSON that the value
/// holds alone. `serde_json::from_str` reads that text back, integers included, unless it gives
/// up at its recursion limit. Floating-point numbers may come back rounded: what is read from
/// the text of a value that holds one is left unsaid.
#[verifier::external_body]
fn print_value(value: &serde_json::Value) -> (text: String)
    ensures
        text@ == printed_json(held_json(*value)),
        reads_back(held_json(*value)) ==> parsed_json(text@) == Some(held_json(*value)),
{
    value.to_string()
}

/// The value of this library that holds what `value` holds.
fn adopt(value: serde_json::Value) -> (adopted: JsonValue)
    ensures
        adopted@ == held_json(value),
        distinct_keys(adopted@),
    decreases held_json(value),
{
    broadcast use {lemma_array_view, lemma_object_view};

    let ghost json = held_json(value);
    match open_value(value) {
        Parts::Null => JsonValue::Null,
        Parts::Bool(b) => JsonValue::Bool(b),
        Parts::Number(n) => JsonValue::Number(n),
        Parts::String(s) => JsonValue::String(s),
        Parts::Array(items) => {
            let ghost held = held_items(items@);
            let mut adopted: Vec<JsonValue> = Vec::new();
            for item in it: items.into_iter()
                invariant
                    json == held_json(value),
                    json == Json::Array(held),
                    json->Array_0 == held,
                    it.seq().len() == held.len(),
                    forall|k: int| 0 <= k < held.len() ==> held[k] == held_json(#[trigger] it.seq()[k]),
                    adopted@.len() == it.index(),
                    forall|k: int| 0 <= k < it.index() ==> (#[trigger] adopted@[k])@ == held[k],
            {
                adopted.push(adopt(item));
            }
            assert(models(adopted@) =~= held);
            JsonValue::Array(adopted)
        },
        Parts::Object(entries) => {
            let ghost held = held_entries(entries@);
            let mut adopted: Vec<(String, JsonValue)> = Vec::new();
            for entry in it: entries.into_iter()
                invariant
                    json == held_json(value),
                    json == Json::Object(held),
                    json->Object_0 == held,
                    it.seq().len() == held.len(),
                    forall|k: int|
                        0 <= k < held.len() ==> held[k] == ((#[trigger] it.seq()[k]).0@, held_json(it.seq()[k].1)),
                    adopted@.len() == it.index(),
                    forall|k: int|
                        0 <= k < it.index() ==> ((#[trigger] adopted@[k]).0@, adopted@[k].1@) == held[k],
            {
                let (name, item) = entry;
                assert(held_json(item) == held[it.index()].1);
                adopted.push((name, adopt(item)));
            }
            assert(entry_models(adopted@) =~= held);
            JsonValue::Object(adopted)
        },
    }
}

/// The `serde_json::Value` that holds what `value` holds.
fn release(value: &JsonValue) -> (released: serde_json::Value)
    requires
        distinct_keys(value@),
    ensures
        held_json(released) == value@,
    decreases value,
{
    broadcast use {lemma_array_view, lemma_object_view};

    let parts: Parts = match value {
        JsonValue::Null => Parts::Null,
        JsonValue::Bool(b) => Parts::Bool(*b),
        JsonValue::Number(n) => Parts::Number(n.clone()),
        JsonValue::String(s) => Parts::String(s.clone()),
        JsonValue::Array(items) => {
            let mut released: Vec<serde_json::Value> = Vec::new();
            let mut i: usize = 0;
            while i < items.len()
                invariant
                    i <= items@.len(),
                    *value == JsonValue::Array(*items),
                    value->Array_0 == *items,
                    distinct_keys(value@),
                    released@.len() == i,
                    forall|k: int|
                        0 <= k < i ==> held_json(#[trigger] released@[k]) == items@[k]@,
                decreases items@.len() - i,
            {
                proof {
                    lemma_array_view(*items);
                    assert(models(items@)[i as int] == items@[i as int]@);
                }
                released.push(release(&items[i]));
                i = i + 1;
            }
            assert(held_items(released@) =~= models(items@));
            Parts::Array(released)
        },
        JsonValue::Object(entries) => {
            let mut released: Vec<(String, serde_json::Value)> = Vec::new();
            let mut i: usize = 0;
            while i < entries.len()
                invariant
                    i <= entries@.len(),
                    *value == JsonValue::Object(*entries),
                    value->Object_0 == *entries,
                    distinct_keys(value@),
                    released@.len() == i,
                    forall|k: int|
                        0 <= k < i ==> (#[trigger] released@[k]).0@ == entries@[k].0@
                            && held_json(released@[k].1) == entries@[k].1@,
                decreases entries@.len() - i,
            {
                proof {
                    lemma_object_view(*entries);
                    assert(entry_models(entries@)[i as int].1 == entries@[i as int].1@);
                }
                let entry = &entries[i];
                released.push((entry.0.clone(), release(&entry.1)));
                i = i + 1;
            }
            assert(held_entries(released@) =~= entry_models(entries@));
            Parts::Object(released)
        },
    };
    close_value(parts)
}

/// The text is not JSON that can be read.
#[derive(Debug, Clone, Copy, PartialEq, Eq)]
pub struct MalformedJson;

/// Reads one JSON value from `text`.
pub fn parse_json(text: &str) -> (result: Result<JsonValue, MalformedJson>)
    ensures
        match result {
            Ok(value) => parsed_json(text@) == Some(value@) && distinct_keys(value@),
            Err(_) => parsed_json(text@) is None,
        },
{
    match read_value(text) {
        Ok(value) => Ok(adopt(value)),
        Err(_) => Err(MalformedJson),
    }
}

/// Prints `value` as compact JSON text. A value without floating-point numbers that is nested no
/// deeper than the reader goes is read back from that text.
pub fn print_json(value: &JsonValue) -> (text: String)
    requires
        distinct_keys(value@),
    ensures
        text@ == printed_json(value@),
        reads_back(value@) ==> parsed_json(text@) == Some(value@),
{
    let released = release(value);
    print_value(&released)
}

/// Whether the text printed for `value` is certain to be read back as `value`.
pub fn is_read_back(value: &JsonValue) -> (certain: bool)
    ensures
        certain == reads_back(value@),
{
    is_float_free_within(value, 127)
}

/// Whether `value` has at most `levels` arrays and objects inside one another, and no
/// floating-point number at any depth.
fn is_float_free_within(value: &JsonValue, levels: usize) -> (certain: bool)
    ensures
        certain == (nested_within(value@, levels as nat) && float_free(value@)),
    decreases value,
{
    match value {
        JsonValue::Number(n) => !n.is_f64(),
        JsonValue::Array(items) => {
            if levels == 0 {
                return false;
            }
            let mut i: usize = 0;
            while i < items.len()
                invariant
                    i <= items@.len(),
                    levels > 0,
                    *value == JsonValue::Array(*items),
                    value->Array_0 == *items,
                    forall|k: int|
                        0 <= k < i ==> nested_within((#[trigger] items@[k])@, (levels - 1) as nat)
                            && float_free(items@[k]@),
                decreases items@.len() - i,
            {
                proof {
                    lemma_array_view(*items);
                    assert(models(items@)[i as int] == items@[i as int]@);
                }
                if !is_float_free_within(&items[i], levels - 1) {
                    return false;
                }
                i = i + 1;
            }
            true
        },
        JsonValue::Object(entries) => {
            if levels == 0 {
                return false;
            }
            let mut i: usize = 0;
            while i < entries.len()
                invariant
                    i <= entries@.len(),
                    levels > 0,
                    *value == JsonValue::Object(*entries),
                    value->Object_0 == *entries,
                    forall|k: int|
                        0 <= k < i ==> nested_within(
                            (#[trigger] entries@[k]).1@,
                            (levels - 1) as nat,
                        ) && float_free(entries@[k].1@),
                decreases entries@.len() - i,
            {
                proof {
                    lemma_object_view(*entries);
                    assert(entry_models(entries@)[i as int].1 == entries@[i as int].1@);
                }
                if !is_float_free_within(&entries[i].1, levels - 1) {
                    return false;
                }
                i = i + 1;
            }
            true
        },
        _ => true,
    }
}

/// An array goes one level deeper than the deepest of its items, and holds a floating-point
/// number only where an item does.
pub proof fn law_arrays_nest_one_level_deeper(items: Seq<Json>, levels: nat)
    ensures
        nested_within(Json::Array(items), levels + 1) <==> forall|i: int|
            0 <= i < items.len() ==> nested_within(#[trigger] items[i], levels),
        !nested_within(Json::Array(items), 0),
        float_free(Json::Array(items)) <==> forall|i: int|
            0 <= i < items.len() ==> float_free(#[trigger] items[i]),
{
    assert(Json::Array(items)->Array_0 == items);
    assert((levels + 1 - 1) as nat == levels);
}

/// An object goes one level deeper than the deepest of its values, and holds a floating-point
/// number only where a value does.
pub proof fn law_objects_nest_one_level_deeper(entries: Seq<(Seq<char>, Json)>, levels: nat)
    ensures
        nested_within(Json::Object(entries), levels + 1) <==> forall|i: int|
            0 <= i < entries.len() ==> nested_within((#[trigger] entries[i]).1, levels),
        !nested_within(Json::Object(entries), 0),
        float_free(Json::Object(entries)) <==> forall|i: int|
            0 <= i < entries.len() ==> float_free((#[trigger] entries[i]).1),
{
    assert(Json::Object(entries)->Object_0 == entries);
    assert((levels + 1 - 1) as nat == levels);
}

/// What is neither array nor object nests nothing, and reads back unless it is a floating-point
/// number.
pub proof fn law_plain_values_read_back(json: Json, levels: nat)
    requires
        json !is Array,
        json !is Object,
    ensures
        nested_within(json, levels),
        reads_back(json) <==> (json is Number ==> !is_floating(json->Number_0)),
{
}

/// What reads back holds no floating-point number and stays within the depth that the reader goes
/// to, and so does every part of it; within that depth, all that holds none reads back.
pub proof fn law_reading_back_is_bounded_by_depth_and_floats_alone(json: Json, i: int)
    ensures
        float_free(json) ==> (reads_back(json) <==> nested_within(json, 127)),
        !float_free(json) ==> !reads_back(json),
        reads_back(json) && json is Array && 0 <= i < json->Array_0.len() ==> reads_back(
            json->Array_0[i],
        ),
        reads_back(json) && json is Object && 0 <= i < json->Object_0.len() ==> reads_back(
            json->Object_0[i].1,
        ),
{
    if reads_back(json) {
        if json is Array && 0 <= i < json->Array_0.len() {
            lemma_nested_within_more(json->Array_0[i], 126, 127);
        }
        if json is Object && 0 <= i < json->Object_0.len() {
            lemma_nested_within_more(json->Object_0[i].1, 126, 127);
        }
    }
}

proof fn lemma_nested_within_more(json: Json, levels: nat, more: nat)
    requires
        nested_within(json, levels),
        levels <= more,
    ensures
        nested_within(json, more),
    decreases json,
{
    match json {
        Json::Array(items) => {
            assert forall|i: int| 0 <= i < items.len() implies nested_within(
                #[trigger] items[i],
                (more - 1) as nat,
            ) by {
                lemma_nested_within_more(items[i], (levels - 1) as nat, (more - 1) as nat);
            }
        },
        Json::Object(entries) => {
            assert forall|i: int| 0 <= i < entries.len() implies nested_within(
                (#[trigger] entries[i]).1,
                (more - 1) as nat,
            ) by {
                lemma_nested_within_more(entries[i].1, (levels - 1) as nat, (more - 1) as nat);
            }
        },
        _ => {},
    }
}

} // verus!
