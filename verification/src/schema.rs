//! Tool schemas, and their form without the keyword `const`.
use vstd::prelude::*;

use crate::json::{Json, JsonValue};
use crate::json::{
    distinct_keys, entry_models, field, lemma_array_view, lemma_lookup_push, lemma_object_view,
    lookup, mentions_key, models,
};
use crate::text::same_text;

verus! {

/// Whether one of `entries` is named `key`.
pub open spec fn names(entries: Seq<(Seq<char>, Json)>, key: Seq<char>) -> bool {
    exists|i: int| 0 <= i < entries.len() && (#[trigger] entries[i]).0 == key
}

/// `schema` with the keyword `const` spelt as an `enum` of one value, at every depth.
pub open spec fn without_const(schema: Json) -> Json
    decreases schema,
{
    match schema {
        Json::Array(items) => Json::Array(items_without_const(items)),
        Json::Object(entries) => Json::Object(
            entries_without_const(entries, names(entries, "const"@)),
        ),
        _ => schema,
    }
}

/// The `items` of an array, each with `const` spelt as `enum`.
pub open spec fn items_without_const(items: Seq<Json>) -> Seq<Json>
    decreases items,
{
    Seq::new(
        items.len(),
        |i: int|
            if 0 <= i < items.len() {
                without_const(items[i])
            } else {
                Json::Null
            },
    )
}

/// The `entries` of an object with `const` spelt as `enum`. Where the object is `pinned` to a
/// value by `const`, an `enum` that it has besides says nothing more and is left out.
pub open spec fn entries_without_const(
    entries: Seq<(Seq<char>, Json)>,
    pinned: bool,
) -> Seq<(Seq<char>, Json)>
    decreases entries,
{
    if entries.len() == 0 {
        entries
    } else {
        let before = entries_without_const(entries.drop_last(), pinned);
        let (name, value) = entries.last();
        if name == "const"@ {
            before.push(("enum"@, Json::Array(seq![without_const(value)])))
        } else if name == "enum"@ && pinned {
            before
        } else {
            before.push((name, without_const(value)))
        }
    }
}

/// Whether `key` names an entry of some object in `schema`, at any depth.
pub fn schema_contains_key(schema: &JsonValue, key: &str) -> (found: bool)
    ensures
        found == mentions_key(schema@, key@),
    decreases schema,
{
    match schema {
        JsonValue::Object(entries) => {
            let mut i: usize = 0;
            while i < entries.len()
                invariant
                    i <= entries@.len(),
                    *schema == JsonValue::Object(*entries),
                    forall|k: int|
                        0 <= k < i ==> (#[trigger] entries@[k]).0@ != key@ && !mentions_key(
                            entries@[k].1@,
                            key@,
                        ),
                decreases entries@.len() - i,
            {
                proof {
                    lemma_object_view(*entries);
                    assert(entry_models(entries@)[i as int].0 == entries@[i as int].0@);
                }
                if same_text(entries[i].0.as_str(), key) || schema_contains_key(
                    &entries[i].1,
                    key,
                ) {
                    return true;
                }
                i = i + 1;
            }
            false
        },
        JsonValue::Array(items) => {
            let mut i: usize = 0;
            while i < items.len()
                invariant
                    i <= items@.len(),
                    *schema == JsonValue::Array(*items),
                    forall|k: int| 0 <= k < i ==> !mentions_key((#[trigger] items@[k])@, key@),
                decreases items@.len() - i,
            {
                proof {
                    lemma_array_view(*items);
                    assert(models(items@)[i as int] == items@[i as int]@);
                }
                if schema_contains_key(&items[i], key) {
                    return true;
                }
                i = i + 1;
            }
            false
        },
        _ => false,
    }
}

/// `schema` with the keyword `const`, which Gemini does not know, spelt as an `enum` of one
/// value, at every depth.
pub fn rewrite_const(schema: &JsonValue) -> (rewritten: JsonValue)
    ensures
        rewritten@ == without_const(schema@),
    decreases schema,
{
    broadcast use {lemma_array_view, lemma_object_view};

    match schema {
        JsonValue::Array(items) => {
            let mut rewritten: Vec<JsonValue> = Vec::new();
            let mut i: usize = 0;
            while i < items.len()
                invariant
                    i <= items@.len(),
                    *schema == JsonValue::Array(*items),
                    schema->Array_0 == *items,
                    rewritten@.len() == i,
                    forall|k: int|
                        0 <= k < i ==> (#[trigger] rewritten@[k])@ == without_const(items@[k]@),
                decreases items@.len() - i,
            {
                rewritten.push(rewrite_const(&items[i]));
                i = i + 1;
            }
            assert(models(rewritten@) =~= items_without_const(models(items@)));
            JsonValue::Array(rewritten)
        },
        JsonValue::Object(entries) => {
            let pinned: bool = has_entry(entries, "const");
            let mut rewritten: Vec<(String, JsonValue)> = Vec::new();
            let mut i: usize = 0;
            while i < entries.len()
                invariant
                    i <= entries@.len(),
                    *schema == JsonValue::Object(*entries),
                    schema->Object_0 == *entries,
                    entry_models(rewritten@) == entries_without_const(
                        entry_models(entries@).take(i as int),
                        pinned,
                    ),
                decreases entries@.len() - i,
            {
                let entry = &entries[i];
                let ghost prefix = entry_models(entries@).take(i + 1);
                assert(prefix.drop_last() =~= entry_models(entries@).take(i as int));
                if same_text(entry.0.as_str(), "const") {
                    let mut values: Vec<JsonValue> = Vec::new();
                    values.push(rewrite_const(&entry.1));
                    proof {
                        assert(models(values@) =~= seq![without_const(entry.1@)]);
                        lemma_array_view(values);
                    }
                    rewritten.push(("enum".to_owned(), JsonValue::Array(values)));
                } else if !(pinned && same_text(entry.0.as_str(), "enum")) {
                    rewritten.push((entry.0.clone(), rewrite_const(&entry.1)));
                }
                i = i + 1;
            }
            assert(entry_models(entries@).take(i as int) =~= entry_models(entries@));
            JsonValue::Object(rewritten)
        },
        _ => schema.clone(),
    }
}

/// Whether one of `entries` is named `key`.
fn has_entry(entries: &Vec<(String, JsonValue)>, key: &str) -> (found: bool)
    ensures
        found == names(entry_models(entries@), key@),
{
    let mut i: usize = 0;
    while i < entries.len()
        invariant
            i <= entries@.len(),
            forall|k: int| 0 <= k < i ==> (#[trigger] entry_models(entries@)[k]).0 != key@,
        decreases entries@.len() - i,
    {
        if same_text(entries[i].0.as_str(), key) {
            assert(entry_models(entries@)[i as int].0 == key@);
            return true;
        }
        i = i + 1;
    }
    false
}

/// No schema mentions `const` once it is rewritten, whatever it held before.
pub proof fn law_rewritten_schema_omits_const(schema: Json)
    ensures
        !mentions_key(without_const(schema), "const"@),
    decreases schema,
{
    let rewritten = without_const(schema);
    match schema {
        Json::Array(items) => {
            assert forall|i: int| 0 <= i < items.len() implies !mentions_key(
                #[trigger] rewritten->Array_0[i],
                "const"@,
            ) by {
                law_rewritten_schema_omits_const(items[i]);
            }
        },
        Json::Object(entries) => {
            let pinned = names(entries, "const"@);
            assert(rewritten->Object_0 == entries_without_const(entries, pinned));
            lemma_rewritten_entries_omit_const(entries, pinned);
        },
        _ => {},
    }
}

proof fn lemma_rewritten_entries_omit_const(entries: Seq<(Seq<char>, Json)>, pinned: bool)
    ensures
        forall|i: int|
            0 <= i < entries_without_const(entries, pinned).len() ==> {
                let entry = #[trigger] entries_without_const(entries, pinned)[i];
                entry.0 != "const"@ && !mentions_key(entry.1, "const"@)
            },
    decreases entries,
{
    if entries.len() > 0 {
        lemma_rewritten_entries_omit_const(entries.drop_last(), pinned);
        law_rewritten_schema_omits_const(entries.last().1);
        lemma_keywords_differ();
        let values = Json::Array(seq![without_const(entries.last().1)]);
        assert(values->Array_0 == seq![without_const(entries.last().1)]);
        assert(!mentions_key(values, "const"@));
        let before = entries_without_const(entries.drop_last(), pinned);
        let after = entries_without_const(entries, pinned);
        assert forall|i: int| 0 <= i < after.len() implies (#[trigger] after[i]).0 != "const"@
            && !mentions_key(after[i].1, "const"@) by {
            assert(i < before.len() ==> after[i] == before[i]);
        }
    }
}

/// A schema that does not mention `const` is left as it is.
pub proof fn law_schema_without_const_is_kept(schema: Json)
    requires
        !mentions_key(schema, "const"@),
    ensures
        without_const(schema) == schema,
    decreases schema,
{
    match schema {
        Json::Array(items) => {
            assert forall|i: int| 0 <= i < items.len() implies without_const(#[trigger] items[i])
                == items[i] by {
                law_schema_without_const_is_kept(items[i]);
            }
            assert(items_without_const(items) =~= items);
        },
        Json::Object(entries) => {
            assert forall|i: int| 0 <= i < entries.len() implies (#[trigger] entries[i]).0
                != "const"@ && without_const(entries[i].1) == entries[i].1 by {
                law_schema_without_const_is_kept(entries[i].1);
            }
            lemma_entries_kept(entries);
        },
        _ => {},
    }
}

proof fn lemma_entries_kept(entries: Seq<(Seq<char>, Json)>)
    requires
        forall|i: int|
            0 <= i < entries.len() ==> (#[trigger] entries[i]).0 != "const"@ && without_const(
                entries[i].1,
            ) == entries[i].1,
    ensures
        entries_without_const(entries, false) == entries,
    decreases entries.len(),
{
    if entries.len() > 0 {
        lemma_entries_kept(entries.drop_last());
    }
}

/// Rewriting a second time changes nothing.
pub proof fn law_rewriting_is_idempotent(schema: Json)
    ensures
        without_const(without_const(schema)) == without_const(schema),
{
    law_rewritten_schema_omits_const(schema);
    law_schema_without_const_is_kept(without_const(schema));
}

proof fn lemma_keywords_differ()
    ensures
        "const"@ != "enum"@,
{
    reveal_strlit("const");
    reveal_strlit("enum");
    assert("const"@.len() != "enum"@.len());
}

/// The value that `const` pins an object to is the only value of its `enum` afterwards.
pub proof fn law_const_becomes_enum(schema: Json)
    requires
        field(schema, "const"@) is Some,
    ensures
        field(without_const(schema), "enum"@) == Some(
            Json::Array(seq![without_const(field(schema, "const"@)->0)]),
        ),
{
    let entries = schema->Object_0;
    lemma_lookup_names(entries, "const"@);
    lemma_keywords_differ();
    lemma_rewritten_lookup(entries, true, "enum"@);
}

/// Every keyword but `const` and `enum` stays, its value rewritten, and none is added.
pub proof fn law_other_keywords_are_kept(schema: Json, key: Seq<char>)
    requires
        key != "const"@,
        key != "enum"@,
    ensures
        field(without_const(schema), key) == match field(schema, key) {
            Some(value) => Some(without_const(value)),
            None => None,
        },
{
    if let Json::Object(entries) = schema {
        lemma_rewritten_lookup(entries, names(entries, "const"@), key);
    }
}

proof fn lemma_lookup_names(entries: Seq<(Seq<char>, Json)>, key: Seq<char>)
    ensures
        lookup(entries, key) is Some <==> names(entries, key),
    decreases entries.len(),
{
    if entries.len() > 0 {
        let rest = entries.drop_first();
        lemma_lookup_names(rest, key);
        if entries[0].0 != key && names(entries, key) {
            let i = choose|i: int| 0 <= i < entries.len() && (#[trigger] entries[i]).0 == key;
            assert(rest[i - 1].0 == key);
        }
    }
}

proof fn lemma_rewritten_lookup(entries: Seq<(Seq<char>, Json)>, pinned: bool, key: Seq<char>)
    requires
        key != "const"@,
        names(entries, "const"@) ==> pinned,
    ensures
        lookup(entries_without_const(entries, pinned), key) == if key == "enum"@ && pinned {
            match lookup(entries, "const"@) {
                Some(value) => Some(Json::Array(seq![without_const(value)])),
                None => None,
            }
        } else {
            match lookup(entries, key) {
                Some(value) => Some(without_const(value)),
                None => None,
            }
        },
    decreases entries.len(),
{
    if entries.len() > 0 {
        let before = entries.drop_last();
        lemma_rewritten_lookup(before, pinned, key);
        assert(before.push(entries.last()) =~= entries);
        lemma_lookup_push(before, entries.last(), key);
        lemma_lookup_push(before, entries.last(), "const"@);
        let (name, value) = entries.last();
        let out = entries_without_const(before, pinned);
        lemma_lookup_push(out, ("enum"@, Json::Array(seq![without_const(value)])), key);
        lemma_lookup_push(out, (name, without_const(value)), key);
    }
}

/// Where the names of every object are distinct, they are distinct after rewriting.
pub proof fn law_names_stay_distinct(schema: Json)
    requires
        distinct_keys(schema),
    ensures
        distinct_keys(without_const(schema)),
    decreases schema,
{
    let rewritten = without_const(schema);
    match schema {
        Json::Array(items) => {
            assert forall|i: int| 0 <= i < items.len() implies distinct_keys(
                #[trigger] rewritten->Array_0[i],
            ) by {
                law_names_stay_distinct(items[i]);
            }
        },
        Json::Object(entries) => {
            let pinned = names(entries, "const"@);
            lemma_rewritten_entries_distinct(entries, pinned);
        },
        _ => {},
    }
}

spec fn distinct_entries(entries: Seq<(Seq<char>, Json)>) -> bool {
    &&& forall|i: int, j: int|
        0 <= i < j < entries.len() ==> (#[trigger] entries[i]).0 != (#[trigger] entries[j]).0
    &&& forall|i: int| 0 <= i < entries.len() ==> distinct_keys((#[trigger] entries[i]).1)
}

proof fn lemma_rewritten_entries_distinct(entries: Seq<(Seq<char>, Json)>, pinned: bool)
    requires
        distinct_entries(entries),
        names(entries, "const"@) ==> pinned,
    ensures
        distinct_entries(entries_without_const(entries, pinned)),
    decreases entries,
{
    if entries.len() > 0 {
        let before = entries.drop_last();
        let (name, value) = entries.last();
        lemma_rewritten_entries_distinct(before, pinned);
        law_names_stay_distinct(value);
        let out = entries_without_const(before, pinned);
        let new_name = if name == "const"@ {
            "enum"@
        } else {
            name
        };
        lemma_keywords_differ();
        lemma_rewritten_lookup(before, pinned, new_name);
        lemma_lookup_names(out, new_name);
        lemma_lookup_names(before, name);
    }
}

/// An array keeps its length, and each of its items is rewritten where it stands.
pub proof fn law_arrays_are_rewritten_item_by_item(items: Seq<Json>)
    ensures
        without_const(Json::Array(items)) is Array,
        without_const(Json::Array(items))->Array_0.len() == items.len(),
        forall|i: int|
            0 <= i < items.len() ==> #[trigger] without_const(Json::Array(items))->Array_0[i]
                == without_const(items[i]),
{
}

/// What is neither array nor object is left as it is.
pub proof fn law_plain_values_are_kept(schema: Json)
    requires
        schema !is Array,
        schema !is Object,
    ensures
        without_const(schema) == schema,
{
}

/// An object that has not both `const` and `enum` keeps its length and the order of its
/// keywords: each stays where it stands with its value rewritten, but for `const`, in whose place
/// stands an `enum` of its one value.
pub proof fn law_keywords_keep_their_places(entries: Seq<(Seq<char>, Json)>)
    requires
        forall|c: int, e: int|
            0 <= c < entries.len() && 0 <= e < entries.len() ==> !((#[trigger] entries[c]).0
                == "const"@ && (#[trigger] entries[e]).0 == "enum"@),
    ensures
        without_const(Json::Object(entries)) is Object,
        without_const(Json::Object(entries))->Object_0.len() == entries.len(),
        forall|i: int|
            0 <= i < entries.len() ==> #[trigger] without_const(Json::Object(entries))->Object_0[i]
                == if entries[i].0 == "const"@ {
                ("enum"@, Json::Array(seq![without_const(entries[i].1)]))
            } else {
                (entries[i].0, without_const(entries[i].1))
            },
{
    let pinned = names(entries, "const"@);
    assert forall|e: int| 0 <= e < entries.len() && pinned implies (#[trigger] entries[e]).0
        != "enum"@ by {
        let c = choose|c: int| 0 <= c < entries.len() && (#[trigger] entries[c]).0 == "const"@;
        assert(entries[c].0 == "const"@);
    }
    lemma_entries_keep_their_places(entries, pinned);
}

proof fn lemma_entries_keep_their_places(entries: Seq<(Seq<char>, Json)>, pinned: bool)
    requires
        pinned ==> forall|e: int| 0 <= e < entries.len() ==> (#[trigger] entries[e]).0 != "enum"@,
    ensures
        entries_without_const(entries, pinned).len() == entries.len(),
        forall|i: int|
            0 <= i < entries.len() ==> #[trigger] entries_without_const(entries, pinned)[i] == if
                entries[i].0 == "const"@ {
                ("enum"@, Json::Array(seq![without_const(entries[i].1)]))
            } else {
                (entries[i].0, without_const(entries[i].1))
            },
    decreases entries.len(),
{
    if entries.len() > 0 {
        let before = entries.drop_last();
        assert forall|e: int| 0 <= e < before.len() && pinned implies (#[trigger] before[e]).0
            != "enum"@ by {
            assert(before[e] == entries[e]);
        }
        lemma_entries_keep_their_places(before, pinned);
        assert(entries.last() == entries[entries.len() - 1]);
        assert forall|i: int| 0 <= i < entries.len() implies #[trigger] entries_without_const(
            entries,
            pinned,
        )[i] == if entries[i].0 == "const"@ {
            ("enum"@, Json::Array(seq![without_const(entries[i].1)]))
        } else {
            (entries[i].0, without_const(entries[i].1))
        } by {
            if i < before.len() {
                assert(entries_without_const(before, pinned)[i] == entries_without_const(
                    entries,
                    pinned,
                )[i]);
                assert(before[i] == entries[i]);
            }
        }
    }
}

/// An `enum` beside a `const` makes no difference: without it, the object is rewritten to the
/// same.
pub proof fn law_an_enum_beside_const_makes_no_difference(
    entries: Seq<(Seq<char>, Json)>,
    c: int,
    e: int,
)
    requires
        0 <= c < entries.len(),
        0 <= e < entries.len(),
        entries[c].0 == "const"@,
        entries[e].0 == "enum"@,
    ensures
        without_const(Json::Object(entries)) == without_const(Json::Object(entries.remove(e))),
{
    lemma_keywords_differ();
    let rest = entries.remove(e);
    let at = if c < e {
        c
    } else {
        c - 1
    };
    assert(rest[at] == entries[c]);
    assert(names(entries, "const"@));
    assert(names(rest, "const"@));
    lemma_pinned_enum_goes(entries, e);
}

proof fn lemma_pinned_enum_goes(entries: Seq<(Seq<char>, Json)>, e: int)
    requires
        0 <= e < entries.len(),
        entries[e].0 == "enum"@,
    ensures
        entries_without_const(entries, true) == entries_without_const(entries.remove(e), true),
    decreases entries.len(),
{
    lemma_keywords_differ();
    let rest = entries.remove(e);
    if e == entries.len() - 1 {
        assert(rest =~= entries.drop_last());
    } else {
        assert(rest.drop_last() =~= entries.drop_last().remove(e));
        assert(rest.last() == entries.last());
        lemma_pinned_enum_goes(entries.drop_last(), e);
    }
}

} // verus!
