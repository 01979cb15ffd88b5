//! JSON values as the provider sees them, and their mathematical model.
use vstd::prelude::*;

use crate::text::same_text;

verus! {

/// A JSON number. All that is asked of it is whether it is a floating-point number.
#[verifier::external_type_specification]
#[verifier::external_body]
pub struct ExNumber(serde_json::Number);

/// `Clone::clone` of `serde_json::Number`: the copy is the same number.
pub assume_specification[ <serde_json::Number as Clone>::clone ](
    number: &serde_json::Number,
) -> (copy: serde_json::Number)
    ensures
        copy == *number,
;

/// What `serde_json::Number::is_f64` says of `number`: whether it is held as a floating-point
/// number, and not as an integer.
pub uninterp spec fn is_floating(number: serde_json::Number) -> bool;

/// `serde_json::Number::is_f64`: the outcome depends on the number alone.
pub assume_specification[ serde_json::Number::is_f64 ](
    number: &serde_json::Number,
) -> (floating: bool)
    ensures
        floating == is_floating(*number),
;

/// A JSON value. The entries of an object keep the order in which they were written.
#[derive(Debug, PartialEq, Eq)]
pub enum JsonValue {
    Null,
    Bool(bool),
    Number(serde_json::Number),
    String(String),
    Array(Vec<JsonValue>),
    Object(Vec<(String, JsonValue)>),
}

/// The mathematical model of a [`JsonValue`].
#[verifier::ext_equal]
pub enum Json {
    Null,
    Bool(bool),
    Number(serde_json::Number),
    Text(Seq<char>),
    Array(Seq<Json>),
    Object(Seq<(Seq<char>, Json)>),
}

impl View for JsonValue {
    type V = Json;

    open spec fn view(&self) -> Json
        decreases self,
    {
        match self {
            JsonValue::Null => Json::Null,
            JsonValue::Bool(b) => Json::Bool(*b),
            JsonValue::Number(n) => Json::Number(*n),
            JsonValue::String(s) => Json::Text(s@),
            JsonValue::Array(items) => Json::Array(
                Seq::new(
                    items@.len(),
                    |i: int|
                        if 0 <= i < items@.len() {
                            items@[i].view()
                        } else {
                            Json::Null
                        },
                ),
            ),
            JsonValue::Object(entries) => Json::Object(
                Seq::new(
                    entries@.len(),
                    |i: int|
                        (
                            entries@[i].0@,
                            if 0 <= i < entries@.len() {
                                entries@[i].1.view()
                            } else {
                                Json::Null
                            },
                        ),
                ),
            ),
        }
    }
}

/// The models of `items`, in order.
pub open spec fn models(items: Seq<JsonValue>) -> Seq<Json> {
    items.map_values(|item: JsonValue| item@)
}

/// The models of `entries`, in order.
pub open spec fn entry_models(entries: Seq<(String, JsonValue)>) -> Seq<(Seq<char>, Json)> {
    entries.map_values(|entry: (String, JsonValue)| (entry.0@, entry.1@))
}

/// The model of an array holds the models of its items.
pub broadcast proof fn lemma_array_view(items: Vec<JsonValue>)
    ensures
        (#[trigger] JsonValue::Array(items)@) is Array,
        JsonValue::Array(items)@->Array_0 == models(items@),
{
}

/// The model of an object holds the models of its entries.
pub broadcast proof fn lemma_object_view(entries: Vec<(String, JsonValue)>)
    ensures
        (#[trigger] JsonValue::Object(entries)@) is Object,
        JsonValue::Object(entries)@->Object_0 == entry_models(entries@),
{
}

impl Clone for JsonValue {
    fn clone(&self) -> (copy: JsonValue)
        ensures
            copy@ == self@,
    {
        self.duplicate()
    }
}

impl JsonValue {
    /// A copy of this value.
    fn duplicate(&self) -> (copy: JsonValue)
        ensures
            copy@ == self@,
        decreases self,
    {
        broadcast use {lemma_array_view, lemma_object_view};

        match self {
            JsonValue::Null => JsonValue::Null,
            JsonValue::Bool(b) => JsonValue::Bool(*b),
            JsonValue::Number(n) => JsonValue::Number(n.clone()),
            JsonValue::String(s) => JsonValue::String(s.clone()),
            JsonValue::Array(items) => {
                let mut copies: Vec<JsonValue> = Vec::new();
                let mut i: usize = 0;
                while i < items.len()
                    invariant
                        i <= items@.len(),
                        *self == JsonValue::Array(*items),
                        self->Array_0 == *items,
                        copies@.len() == i,
                        forall|k: int| 0 <= k < i ==> (#[trigger] copies@[k])@ == items@[k]@,
                    decreases items@.len() - i,
                {
                    let item = &items[i];
                    copies.push(item.duplicate());
                    i = i + 1;
                }
                assert(models(copies@) =~= models(items@));
                JsonValue::Array(copies)
            },
            JsonValue::Object(entries) => {
                let mut copies: Vec<(String, JsonValue)> = Vec::new();
                let mut i: usize = 0;
                while i < entries.len()
                    invariant
                        i <= entries@.len(),
                        *self == JsonValue::Object(*entries),
                        self->Object_0 == *entries,
                        copies@.len() == i,
                        forall|k: int|
                            0 <= k < i ==> (#[trigger] copies@[k]).0@ == entries@[k].0@
                                && copies@[k].1@ == entries@[k].1@,
                    decreases entries@.len() - i,
                {
                    let entry = &entries[i];
                    copies.push((entry.0.clone(), entry.1.duplicate()));
                    i = i + 1;
                }
                assert(entry_models(copies@) =~= entry_models(entries@));
                JsonValue::Object(copies)
            },
        }
    }
}

/// The value of the first of `entries` that is named `key`.
pub open spec fn lookup(entries: Seq<(Seq<char>, Json)>, key: Seq<char>) -> Option<Json>
    decreases entries.len(),
{
    if entries.len() == 0 {
        None
    } else if entries[0].0 == key {
        Some(entries[0].1)
    } else {
        lookup(entries.drop_first(), key)
    }
}

/// The entry named `key`, where `json` is an object that has one.
pub open spec fn field(json: Json, key: Seq<char>) -> Option<Json> {
    match json {
        Json::Object(entries) => lookup(entries, key),
        _ => None,
    }
}

/// An entry put at the end is found under its name, unless the name was there before.
pub proof fn lemma_lookup_push(
    entries: Seq<(Seq<char>, Json)>,
    entry: (Seq<char>, Json),
    key: Seq<char>,
)
    ensures
        lookup(entries.push(entry), key) == match lookup(entries, key) {
            Some(value) => Some(value),
            None => if entry.0 == key {
                Some(entry.1)
            } else {
                None
            },
        },
    decreases entries.len(),
{
    if entries.len() == 0 {
        assert(lookup(entries.push(entry).drop_first(), key) is None);
    } else {
        assert(entries.push(entry).drop_first() =~= entries.drop_first().push(entry));
        lemma_lookup_push(entries.drop_first(), entry, key);
    }
}

/// A name is looked for in what comes first, then in what comes after.
pub proof fn lemma_lookup_add(
    first: Seq<(Seq<char>, Json)>,
    rest: Seq<(Seq<char>, Json)>,
    key: Seq<char>,
)
    ensures
        lookup(first + rest, key) == match lookup(first, key) {
            Some(value) => Some(value),
            None => lookup(rest, key),
        },
    decreases first.len(),
{
    if first.len() > 0 {
        assert((first + rest).drop_first() =~= first.drop_first() + rest);
        lemma_lookup_add(first.drop_first(), rest, key);
    }
}

/// Looking up a name among two entries.
pub proof fn lemma_lookup_two(a: (Seq<char>, Json), b: (Seq<char>, Json), key: Seq<char>)
    ensures
        lookup(seq![a, b], key) == if a.0 == key {
            Some(a.1)
        } else if b.0 == key {
            Some(b.1)
        } else {
            None
        },
{
    reveal_with_fuel(lookup, 3);
}

/// Whether `key` names an entry of some object in `json`, at any depth.
pub open spec fn mentions_key(json: Json, key: Seq<char>) -> bool
    decreases json,
{
    match json {
        Json::Array(items) => exists|i: int|
            0 <= i < items.len() && mentions_key(#[trigger] items[i], key),
        Json::Object(entries) => exists|i: int|
            0 <= i < entries.len() && ((#[trigger] entries[i]).0 == key || mentions_key(
                entries[i].1,
                key,
            )),
        _ => false,
    }
}

/// Whether the names of every object in `json`, at any depth, are distinct.
pub open spec fn distinct_keys(json: Json) -> bool
    decreases json,
{
    match json {
        Json::Array(items) => forall|i: int|
            0 <= i < items.len() ==> distinct_keys(#[trigger] items[i]),
        Json::Object(entries) => {
            &&& forall|i: int, j: int|
                0 <= i < j < entries.len() ==> (#[trigger] entries[i]).0 != (
                #[trigger] entries[j]).0
            &&& forall|i: int| 0 <= i < entries.len() ==> distinct_keys((#[trigger] entries[i]).1)
        },
        _ => true,
    }
}

/// An array has distinct names where its items have.
pub proof fn lemma_array_distinct(items: Seq<Json>)
    requires
        forall|i: int| 0 <= i < items.len() ==> distinct_keys(#[trigger] items[i]),
    ensures
        distinct_keys(Json::Array(items)),
{
}

/// An object has distinct names where those of its entries differ and their values have
/// distinct names.
pub proof fn lemma_object_distinct(entries: Seq<(Seq<char>, Json)>)
    requires
        forall|i: int, j: int|
            0 <= i < j < entries.len() ==> (#[trigger] entries[i]).0 != (#[trigger] entries[j]).0,
        forall|i: int| 0 <= i < entries.len() ==> distinct_keys((#[trigger] entries[i]).1),
    ensures
        distinct_keys(Json::Object(entries)),
{
}

/// Whether the names of the first `upto` of `entries` all differ from `name`.
fn is_new_name(entries: &Vec<(String, JsonValue)>, upto: usize, name: &str) -> (new: bool)
    requires
        upto <= entries@.len(),
    ensures
        new == forall|k: int| 0 <= k < upto ==> (#[trigger] entries@[k]).0@ != name@,
{
    let mut i: usize = 0;
    while i < upto
        invariant
            i <= upto <= entries@.len(),
            forall|k: int| 0 <= k < i ==> (#[trigger] entries@[k]).0@ != name@,
        decreases upto - i,
    {
        if same_text(entries[i].0.as_str(), name) {
            return false;
        }
        i = i + 1;
    }
    true
}

impl JsonValue {
    /// Whether the names of every object in this value, at any depth, are distinct.
    pub fn has_distinct_names(&self) -> (distinct: bool)
        ensures
            distinct == distinct_keys(self@),
        decreases self,
    {
        match self {
            JsonValue::Array(items) => {
                let mut i: usize = 0;
                while i < items.len()
                    invariant
                        i <= items@.len(),
                        *self == JsonValue::Array(*items),
                        self->Array_0 == *items,
                        forall|k: int| 0 <= k < i ==> distinct_keys((#[trigger] items@[k])@),
                    decreases items@.len() - i,
                {
                    if !items[i].has_distinct_names() {
                        proof {
                            lemma_array_view(*items);
                            assert(!distinct_keys(models(items@)[i as int]));
                        }
                        return false;
                    }
                    i = i + 1;
                }
                true
            },
            JsonValue::Object(entries) => {
                let mut i: usize = 0;
                while i < entries.len()
                    invariant
                        i <= entries@.len(),
                        *self == JsonValue::Object(*entries),
                        self->Object_0 == *entries,
                        forall|k: int, m: int|
                            0 <= k < m < i ==> (#[trigger] entries@[k]).0@ != (
                            #[trigger] entries@[m]).0@,
                        forall|k: int| 0 <= k < i ==> distinct_keys((#[trigger] entries@[k]).1@),
                    decreases entries@.len() - i,
                {
                    let entry = &entries[i];
                    let new: bool = is_new_name(entries, i, entry.0.as_str());
                    if !new || !entry.1.has_distinct_names() {
                        proof {
                            lemma_object_view(*entries);
                            let names = entry_models(entries@);
                            assert(names[i as int] == (entry.0@, entry.1@));
                            if !new {
                                let k = choose|k: int|
                                    0 <= k < i && (#[trigger] entries@[k]).0@ == entry.0@;
                                assert(names[k].0 == names[i as int].0);
                            }
                        }
                        return false;
                    }
                    i = i + 1;
                }
                true
            },
            _ => true,
        }
    }

    /// The entry named `key`, where this is an object that has one.
    pub fn get(&self, key: &str) -> (found: Option<&JsonValue>)
        ensures
            match found {
                Some(value) => field(self@, key@) == Some(value@),
                None => field(self@, key@) is None,
            },
    {
        broadcast use lemma_object_view;

        match self {
            JsonValue::Object(entries) => {
                let mut i: usize = 0;
                assert(entry_models(entries@).skip(0) =~= entry_models(entries@));
                while i < entries.len()
                    invariant
                        i <= entries@.len(),
                        *self == JsonValue::Object(*entries),
                        field(self@, key@) == lookup(entry_models(entries@).skip(i as int), key@),
                    decreases entries@.len() - i,
                {
                    if same_text(entries[i].0.as_str(), key) {
                        return Some(&entries[i].1);
                    }
                    assert(entry_models(entries@).skip(i as int).drop_first() =~= entry_models(
                        entries@,
                    ).skip(i + 1));
                    i = i + 1;
                }
                None
            },
            _ => None,
        }
    }
}

/// An entry is found under its name, unless one before it has the same name.
pub proof fn law_first_entry_of_a_name_is_found(entries: Seq<(Seq<char>, Json)>, i: int)
    requires
        0 <= i < entries.len(),
        forall|k: int| 0 <= k < i ==> (#[trigger] entries[k]).0 != entries[i].0,
    ensures
        field(Json::Object(entries), entries[i].0) == Some(entries[i].1),
    decreases i,
{
    if i > 0 {
        let rest = entries.drop_first();
        assert(entries[0].0 != entries[i].0);
        assert(rest[i - 1] == entries[i]);
        assert forall|k: int| 0 <= k < i - 1 implies (#[trigger] rest[k]).0 != rest[i - 1].0 by {
            assert(rest[k] == entries[k + 1]);
        }
        law_first_entry_of_a_name_is_found(rest, i - 1);
    }
}

/// Nothing is found under a name that no entry has.
pub proof fn law_missing_names_are_not_found(entries: Seq<(Seq<char>, Json)>, key: Seq<char>)
    requires
        forall|k: int| 0 <= k < entries.len() ==> (#[trigger] entries[k]).0 != key,
    ensures
        field(Json::Object(entries), key) is None,
    decreases entries.len(),
{
    if entries.len() > 0 {
        assert(entries[0].0 != key);
        law_missing_names_are_not_found(entries.drop_first(), key);
    }
}

/// What is no object has no entries to be found.
pub proof fn law_only_objects_have_entries(json: Json, key: Seq<char>)
    requires
        json !is Object,
    ensures
        field(json, key) is None,
{
}

/// The model of a value shows all that the value holds, each thing where it stands.
pub proof fn law_values_are_shown_whole(value: JsonValue)
    ensures
        match value {
            JsonValue::Null => value@ == Json::Null,
            JsonValue::Bool(b) => value@ == Json::Bool(b),
            JsonValue::Number(n) => value@ == Json::Number(n),
            JsonValue::String(s) => value@ == Json::Text(s@),
            JsonValue::Array(items) => {
                &&& value@ is Array
                &&& value@->Array_0.len() == items@.len()
                &&& forall|i: int|
                    0 <= i < items@.len() ==> #[trigger] value@->Array_0[i] == items@[i]@
            },
            JsonValue::Object(entries) => {
                &&& value@ is Object
                &&& value@->Object_0.len() == entries@.len()
                &&& forall|i: int|
                    0 <= i < entries@.len() ==> #[trigger] value@->Object_0[i] == (
                        entries@[i].0@,
                        entries@[i].1@,
                    )
            },
        },
{
    broadcast use {lemma_array_view, lemma_object_view};

}

/// An array mentions a name where a part of it does: whatever the array is cut into, nothing is
/// passed over.
pub proof fn law_arrays_mention_what_their_items_mention(
    a: Seq<Json>,
    b: Seq<Json>,
    item: Json,
    key: Seq<char>,
)
    ensures
        mentions_key(Json::Array(a + b), key) <==> mentions_key(Json::Array(a), key)
            || mentions_key(Json::Array(b), key),
        mentions_key(Json::Array(seq![item]), key) <==> mentions_key(item, key),
        !mentions_key(Json::Array(seq![]), key),
{
    let both = a + b;
    assert(Json::Array(both)->Array_0 == both);
    assert(Json::Array(a)->Array_0 == a);
    assert(Json::Array(b)->Array_0 == b);
    if mentions_key(Json::Array(a), key) {
        let i = choose|i: int| 0 <= i < a.len() && mentions_key(#[trigger] a[i], key);
        assert(both[i] == a[i]);
    }
    if mentions_key(Json::Array(b), key) {
        let i = choose|i: int| 0 <= i < b.len() && mentions_key(#[trigger] b[i], key);
        assert(both[a.len() + i] == b[i]);
    }
    let single = seq![item];
    assert(Json::Array(single)->Array_0 == single);
    assert(single[0] == item);
    assert(Json::Array(Seq::<Json>::empty())->Array_0.len() == 0);
}

/// An object mentions a name where a part of it does. An entry mentions its own name and those
/// that its value mentions.
pub proof fn law_objects_mention_their_names_and_what_their_values_mention(
    a: Seq<(Seq<char>, Json)>,
    b: Seq<(Seq<char>, Json)>,
    entry: (Seq<char>, Json),
    key: Seq<char>,
)
    ensures
        mentions_key(Json::Object(a + b), key) <==> mentions_key(Json::Object(a), key)
            || mentions_key(Json::Object(b), key),
        mentions_key(Json::Object(seq![entry]), key) <==> entry.0 == key || mentions_key(
            entry.1,
            key,
        ),
        !mentions_key(Json::Object(seq![]), key),
{
    let both = a + b;
    assert(Json::Object(both)->Object_0 == both);
    assert(Json::Object(a)->Object_0 == a);
    assert(Json::Object(b)->Object_0 == b);
    if mentions_key(Json::Object(a), key) {
        let i = choose|i: int|
            0 <= i < a.len() && ((#[trigger] a[i]).0 == key || mentions_key(a[i].1, key));
        assert(both[i] == a[i]);
    }
    if mentions_key(Json::Object(b), key) {
        let i = choose|i: int|
            0 <= i < b.len() && ((#[trigger] b[i]).0 == key || mentions_key(b[i].1, key));
        assert(both[a.len() + i] == b[i]);
    }
    let single = seq![entry];
    assert(Json::Object(single)->Object_0 == single);
    assert(single[0] == entry);
    assert(Json::Object(Seq::<(Seq<char>, Json)>::empty())->Object_0.len() == 0);
}

/// What is neither array nor object mentions no name.
pub proof fn law_plain_values_mention_nothing(json: Json, key: Seq<char>)
    requires
        json !is Array,
        json !is Object,
    ensures
        !mentions_key(json, key),
{
}

/// Where the names in a value are distinct, no object in it has a name twice, and the names in
/// every part of it are distinct.
pub proof fn law_distinct_names_are_distinct_everywhere(json: Json, i: int, j: int)
    requires
        distinct_keys(json),
    ensures
        json is Array && 0 <= i < json->Array_0.len() ==> distinct_keys(json->Array_0[i]),
        json is Object && 0 <= i < json->Object_0.len() ==> distinct_keys(json->Object_0[i].1),
        json is Object && 0 <= i < j < json->Object_0.len() ==> json->Object_0[i].0
            != json->Object_0[j].0,
{
}

/// What is neither array nor object has no names that could be the same.
pub proof fn law_plain_values_have_distinct_names(json: Json)
    requires
        json !is Array,
        json !is Object,
    ensures
        distinct_keys(json),
{
}

} // verus!
