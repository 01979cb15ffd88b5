//! The models that the answers of the service name.
use vstd::prelude::*;

use crate::json::{
    Json, JsonValue, entry_models, field, lemma_array_view, lemma_object_view, models,
};
use crate::models::{
    is_gemini_model, is_gemini_model_id, law_ranking_keeps_every_model, lemma_contains_add,
    lemma_contains_push, lemma_filter_contains, rank_models, ranked,
};
use crate::text::{
    begins_with, law_text_with_a_prefix_begins_with_it, same_text, starts_with, texts,
};

verus! {

/// Those of `names` that are names of Gemini models, in order.
pub open spec fn gemini_only(names: Seq<Seq<char>>) -> Seq<Seq<char>> {
    names.filter(|name: Seq<char>| is_gemini_model(name))
}

/// Every string in `json`, at any depth, in the order in which they are written. The names of
/// entries are not among them.
pub open spec fn strings_in(json: Json) -> Seq<Seq<char>>
    decreases json,
{
    match json {
        Json::Text(text) => seq![text],
        Json::Array(items) => strings_in_items(items),
        Json::Object(entries) => strings_in_entries(entries),
        _ => seq![],
    }
}

/// Every string in `items`.
pub open spec fn strings_in_items(items: Seq<Json>) -> Seq<Seq<char>>
    decreases items,
{
    if items.len() == 0 {
        seq![]
    } else {
        strings_in_items(items.drop_last()) + strings_in(items.last())
    }
}

/// Every string in the values of `entries`.
pub open spec fn strings_in_entries(entries: Seq<(Seq<char>, Json)>) -> Seq<Seq<char>>
    decreases entries,
{
    if entries.len() == 0 {
        seq![]
    } else {
        strings_in_entries(entries.drop_last()) + strings_in(entries.last().1)
    }
}

/// The Gemini models that `response` names anywhere, in the order in which models are shown.
pub fn extract_gemini_model_ids(response: &JsonValue) -> (ids: Vec<String>)
    ensures
        texts(ids@) == ranked(gemini_only(strings_in(response@))),
{
    let mut found: Vec<String> = Vec::new();
    collect_model_ids(response, &mut found);
    rank_models(&found)
}

/// Puts the Gemini models that `value` names at the end of `found`, as they come.
fn collect_model_ids(value: &JsonValue, found: &mut Vec<String>)
    ensures
        texts(final(found)@) == texts(old(found)@) + gemini_only(strings_in(value@)),
    decreases value,
{
    broadcast use {lemma_array_view, lemma_object_view};

    let ghost start = texts(found@);
    match value {
        JsonValue::String(text) => {
            proof {
                lemma_gemini_only_one(text@);
            }
            if is_gemini_model_id(text.as_str()) {
                found.push(text.clone());
            }
        },
        JsonValue::Array(items) => {
            let mut i: usize = 0;
            while i < items.len()
                invariant
                    i <= items@.len(),
                    *value == JsonValue::Array(*items),
                    value->Array_0 == *items,
                    texts(found@) == start + gemini_only(
                        strings_in_items(models(items@).take(i as int)),
                    ),
                decreases items@.len() - i,
            {
                proof {
                    let prefix = models(items@).take(i + 1);
                    assert(prefix.drop_last() =~= models(items@).take(i as int));
                }
                collect_model_ids(&items[i], found);
                i = i + 1;
            }
            assert(models(items@).take(i as int) =~= models(items@));
        },
        JsonValue::Object(entries) => {
            let mut i: usize = 0;
            while i < entries.len()
                invariant
                    i <= entries@.len(),
                    *value == JsonValue::Object(*entries),
                    value->Object_0 == *entries,
                    texts(found@) == start + gemini_only(
                        strings_in_entries(entry_models(entries@).take(i as int)),
                    ),
                decreases entries@.len() - i,
            {
                proof {
                    let prefix = entry_models(entries@).take(i + 1);
                    assert(prefix.drop_last() =~= entry_models(entries@).take(i as int));
                }
                collect_model_ids(&entries[i].1, found);
                i = i + 1;
            }
            assert(entry_models(entries@).take(i as int) =~= entry_models(entries@));
        },
        _ => {
        },
    }
}

proof fn lemma_gemini_only_one(name: Seq<char>)
    ensures
        gemini_only(seq![name]) == if is_gemini_model(name) {
            seq![name]
        } else {
            seq![]
        },
{
    reveal(Seq::filter);
    let none = seq![name].drop_last();
    assert(gemini_only(none) =~= none);
}

/// The name of a model without the collection that it is listed in.
pub open spec fn bare_name(name: Seq<char>) -> Seq<char> {
    if begins_with(name, "models/"@) {
        name.skip("models/"@.len() as int)
    } else {
        name
    }
}

/// Whether the model that `item` describes generates content.
pub open spec fn generates_content(item: Json) -> bool {
    match field(item, "supportedGenerationMethods"@) {
        Some(Json::Array(methods)) => methods.contains(Json::Text("generateContent"@)),
        _ => false,
    }
}

/// The Gemini model that `item` offers for generating content, if it does.
pub open spec fn offered_model(item: Json) -> Option<Seq<char>> {
    match field(item, "name"@) {
        Some(Json::Text(name)) => if generates_content(item) && is_gemini_model(bare_name(name)) {
            Some(bare_name(name))
        } else {
            None
        },
        _ => None,
    }
}

/// The models that `items` offer, in order.
pub open spec fn offered_models(items: Seq<Json>) -> Seq<Seq<char>>
    decreases items.len(),
{
    if items.len() == 0 {
        seq![]
    } else {
        let before = offered_models(items.drop_last());
        match offered_model(items.last()) {
            Some(model) => before.push(model),
            None => before,
        }
    }
}

/// The items of the list of models that `listing` holds.
pub open spec fn listed_items(listing: Json) -> Seq<Json> {
    match field(listing, "models"@) {
        Some(Json::Array(items)) => items,
        _ => seq![],
    }
}

/// The Gemini models that the public `listing` offers for generating content, in the order in
/// which models are shown.
pub fn public_model_ids(listing: &JsonValue) -> (ids: Vec<String>)
    ensures
        texts(ids@) == ranked(offered_models(listed_items(listing@))),
{
    broadcast use lemma_array_view;

    let mut offered: Vec<String> = Vec::new();
    if let Some(JsonValue::Array(items)) = listing.get("models") {
        let mut i: usize = 0;
        while i < items.len()
            invariant
                i <= items@.len(),
                texts(offered@) == offered_models(models(items@).take(i as int)),
            decreases items@.len() - i,
        {
            proof {
                let prefix = models(items@).take(i + 1);
                assert(prefix.drop_last() =~= models(items@).take(i as int));
            }
            if let Some(model) = offer(&items[i]) {
                offered.push(model);
            }
            i = i + 1;
        }
        assert(models(items@).take(i as int) =~= models(items@));
    } else {
        assert(texts(offered@) =~= offered_models(listed_items(listing@)));
    }
    rank_models(&offered)
}

/// The Gemini model that `item` offers for generating content, if it does.
fn offer(item: &JsonValue) -> (model: Option<String>)
    ensures
        match model {
            Some(name) => offered_model(item@) == Some(name@),
            None => offered_model(item@) is None,
        },
{
    if let Some(JsonValue::String(name)) = item.get("name") {
        let bare = strip_collection(name.as_str());
        if offers_content(item) && is_gemini_model_id(bare.as_str()) {
            return Some(bare);
        }
    }
    None
}

/// The name of a model without the collection that it is listed in.
fn strip_collection(name: &str) -> (bare: String)
    ensures
        bare@ == bare_name(name@),
{
    if starts_with(name, "models/") {
        name.substring_char("models/".unicode_len(), name.unicode_len()).to_owned()
    } else {
        name.to_owned()
    }
}

/// Whether the model that `item` describes generates content.
fn offers_content(item: &JsonValue) -> (offers: bool)
    ensures
        offers == generates_content(item@),
{
    broadcast use lemma_array_view;

    if let Some(JsonValue::Array(methods)) = item.get("supportedGenerationMethods") {
        let mut i: usize = 0;
        while i < methods.len()
            invariant
                i <= methods@.len(),
                field(item@, "supportedGenerationMethods"@) == Some(
                    Json::Array(models(methods@)),
                ),
                forall|k: int|
                    0 <= k < i ==> models(methods@)[k] != Json::Text("generateContent"@),
            decreases methods@.len() - i,
        {
            assert(models(methods@)[i as int] == methods@[i as int]@);
            if let JsonValue::String(method) = &methods[i] {
                if same_text(method.as_str(), "generateContent") {
                    return true;
                }
            }
            i = i + 1;
        }
    }
    false
}

/// Whether `name` is a string in `json`, at any depth.
pub open spec fn holds_string(json: Json, name: Seq<char>) -> bool
    decreases json,
{
    match json {
        Json::Text(text) => text == name,
        Json::Array(items) => exists|i: int|
            0 <= i < items.len() && holds_string(#[trigger] items[i], name),
        Json::Object(entries) => exists|i: int|
            0 <= i < entries.len() && holds_string((#[trigger] entries[i]).1, name),
        _ => false,
    }
}

/// Exactly the names of Gemini models that a response holds as strings, at whatever depth, are
/// extracted from it.
pub proof fn law_extraction_finds_every_model(response: Json, model: Seq<char>)
    ensures
        ranked(gemini_only(strings_in(response))).contains(model) <==> is_gemini_model(model)
            && holds_string(response, model),
{
    let found = strings_in(response);
    law_ranking_keeps_every_model(gemini_only(found), model);
    lemma_filter_contains(found, |name: Seq<char>| is_gemini_model(name), model);
    lemma_strings_in(response, model);
}

/// Exactly the models that an item of the public list offers come out of it.
pub proof fn law_public_list_offers_every_model(listing: Json, model: Seq<char>)
    ensures
        ranked(offered_models(listed_items(listing))).contains(model) <==> exists|i: int|
            0 <= i < listed_items(listing).len() && offered_model(
                #[trigger] listed_items(listing)[i],
            ) == Some(model),
{
    law_ranking_keeps_every_model(offered_models(listed_items(listing)), model);
    lemma_offered_models(listed_items(listing), model);
}

proof fn lemma_offered_models(items: Seq<Json>, model: Seq<char>)
    ensures
        offered_models(items).contains(model) <==> exists|i: int|
            0 <= i < items.len() && offered_model(#[trigger] items[i]) == Some(model),
    decreases items.len(),
{
    if items.len() > 0 {
        let before = items.drop_last();
        lemma_offered_models(before, model);
        lemma_contains_push(offered_models(before), offered_model(items.last())->0, model);
        if exists|i: int| 0 <= i < items.len() && offered_model(#[trigger] items[i]) == Some(model) {
            let i = choose|i: int|
                0 <= i < items.len() && offered_model(#[trigger] items[i]) == Some(model);
            if i < before.len() {
                assert(offered_model(before[i]) == Some(model));
            }
        }
    }
}

proof fn lemma_strings_in(json: Json, name: Seq<char>)
    ensures
        strings_in(json).contains(name) <==> holds_string(json, name),
    decreases json,
{
    match json {
        Json::Text(text) => {
            assert(strings_in(json)[0] == text);
        },
        Json::Array(items) => {
            lemma_strings_in_items(items, name);
        },
        Json::Object(entries) => {
            lemma_strings_in_entries(entries, name);
        },
        _ => {},
    }
}

proof fn lemma_strings_in_items(items: Seq<Json>, name: Seq<char>)
    ensures
        strings_in_items(items).contains(name) <==> exists|i: int|
            0 <= i < items.len() && holds_string(#[trigger] items[i], name),
    decreases items,
{
    if items.len() > 0 {
        let before = items.drop_last();
        lemma_strings_in_items(before, name);
        lemma_strings_in(items.last(), name);
        lemma_contains_add(strings_in_items(before), strings_in(items.last()), name);
        if exists|i: int| 0 <= i < items.len() && holds_string(#[trigger] items[i], name) {
            let i = choose|i: int| 0 <= i < items.len() && holds_string(#[trigger] items[i], name);
            if i < before.len() {
                assert(holds_string(before[i], name));
            }
        }
    }
}

proof fn lemma_strings_in_entries(entries: Seq<(Seq<char>, Json)>, name: Seq<char>)
    ensures
        strings_in_entries(entries).contains(name) <==> exists|i: int|
            0 <= i < entries.len() && holds_string((#[trigger] entries[i]).1, name),
    decreases entries,
{
    if entries.len() > 0 {
        let before = entries.drop_last();
        lemma_strings_in_entries(before, name);
        lemma_strings_in(entries.last().1, name);
        lemma_contains_add(strings_in_entries(before), strings_in(entries.last().1), name);
        if exists|i: int| 0 <= i < entries.len() && holds_string((#[trigger] entries[i]).1, name) {
            let i = choose|i: int|
                0 <= i < entries.len() && holds_string((#[trigger] entries[i]).1, name);
            if i < before.len() {
                assert(holds_string(before[i].1, name));
            }
        }
    }
}

/// The strings of an array that is joined from two are those of the first and then those of the
/// second, and those of an array of one item are those of the item.
pub proof fn law_arrays_hold_the_strings_of_their_items(a: Seq<Json>, b: Seq<Json>, item: Json)
    ensures
        strings_in(Json::Array(a + b)) == strings_in(Json::Array(a)) + strings_in(Json::Array(b)),
        strings_in(Json::Array(seq![item])) == strings_in(item),
    decreases b.len(),
{
    if b.len() == 0 {
        assert(a + b =~= a);
        assert(strings_in_items(a) + strings_in_items(b) =~= strings_in_items(a));
    } else {
        law_arrays_hold_the_strings_of_their_items(a, b.drop_last(), item);
        assert((a + b).drop_last() =~= a + b.drop_last());
        assert((a + b).last() == b.last());
        assert(strings_in_items(a + b) =~= strings_in_items(a) + strings_in_items(b));
    }
    let none = seq![item].drop_last();
    assert(none.len() == 0);
    assert(strings_in_items(none).len() == 0);
    assert(strings_in_items(seq![item]) =~= strings_in(item));
}

/// The strings of an object that is joined from two are those of the first and then those of the
/// second, and those of an object of one entry are those of its value: its name is none of them.
pub proof fn law_objects_hold_the_strings_of_their_values(
    a: Seq<(Seq<char>, Json)>,
    b: Seq<(Seq<char>, Json)>,
    entry: (Seq<char>, Json),
)
    ensures
        strings_in(Json::Object(a + b)) == strings_in(Json::Object(a)) + strings_in(
            Json::Object(b),
        ),
        strings_in(Json::Object(seq![entry])) == strings_in(entry.1),
    decreases b.len(),
{
    if b.len() == 0 {
        assert(a + b =~= a);
        assert(strings_in_entries(a) + strings_in_entries(b) =~= strings_in_entries(a));
    } else {
        law_objects_hold_the_strings_of_their_values(a, b.drop_last(), entry);
        assert((a + b).drop_last() =~= a + b.drop_last());
        assert((a + b).last() == b.last());
        assert(strings_in_entries(a + b) =~= strings_in_entries(a) + strings_in_entries(b));
    }
    let none = seq![entry].drop_last();
    assert(none.len() == 0);
    assert(strings_in_entries(none).len() == 0);
    assert(strings_in_entries(seq![entry]) =~= strings_in(entry.1));
}

/// A string holds itself, and what is neither string, array nor object holds none.
pub proof fn law_plain_values_hold_at_most_themselves(json: Json)
    ensures
        json is Text ==> strings_in(json) == seq![json->Text_0],
        json !is Text && json !is Array && json !is Object ==> strings_in(json).len() == 0,
{
}

/// Among names that are joined, those of Gemini models are kept, all and in order.
pub proof fn law_names_of_gemini_models_are_kept_in_order(
    a: Seq<Seq<char>>,
    b: Seq<Seq<char>>,
    name: Seq<char>,
)
    ensures
        gemini_only(a + b) == gemini_only(a) + gemini_only(b),
        is_gemini_model(name) ==> gemini_only(seq![name]) == seq![name],
        !is_gemini_model(name) ==> gemini_only(seq![name]).len() == 0,
{
    Seq::filter_distributes_over_add(a, b, |name: Seq<char>| is_gemini_model(name));
    lemma_gemini_only_one(name);
}

/// A response yields a model wherever it names it: in an array where an item yields it, in an
/// object where a value does, and as a string where it is the model.
pub proof fn law_models_are_extracted_from_every_part(response: Json, model: Seq<char>)
    ensures
        ranked(gemini_only(strings_in(response))).contains(model) <==> match response {
            Json::Text(text) => text == model && is_gemini_model(model),
            Json::Array(items) => exists|i: int|
                0 <= i < items.len() && ranked(
                    gemini_only(strings_in(#[trigger] items[i])),
                ).contains(model),
            Json::Object(entries) => exists|i: int|
                0 <= i < entries.len() && ranked(
                    gemini_only(strings_in((#[trigger] entries[i]).1)),
                ).contains(model),
            _ => false,
        },
{
    law_extraction_finds_every_model(response, model);
    match response {
        Json::Array(items) => {
            assert forall|i: int| 0 <= i < items.len() implies ranked(
                gemini_only(strings_in(#[trigger] items[i])),
            ).contains(model) == (is_gemini_model(model) && holds_string(items[i], model)) by {
                law_extraction_finds_every_model(items[i], model);
            }
        },
        Json::Object(entries) => {
            assert forall|i: int| 0 <= i < entries.len() implies ranked(
                gemini_only(strings_in((#[trigger] entries[i]).1)),
            ).contains(model) == (is_gemini_model(model) && holds_string(
                entries[i].1,
                model,
            )) by {
                law_extraction_finds_every_model(entries[i].1, model);
            }
        },
        _ => {},
    }
}

/// The collection `models/` is taken off a name, once and from its front alone.
pub proof fn law_only_the_collection_is_taken_off(name: Seq<char>)
    ensures
        bare_name("models/"@ + name) == name,
        bare_name(name) == name || name == "models/"@ + bare_name(name),
        begins_with(name, "models/"@) ==> name == "models/"@ + bare_name(name),
{
    law_text_with_a_prefix_begins_with_it(name, "models/"@, name);
    assert(("models/"@ + name).skip("models/"@.len() as int) =~= name);
    if begins_with(name, "models/"@) {
        assert(name =~= "models/"@ + bare_name(name));
    }
}

/// A Gemini model that is listed is offered where `generateContent` stands anywhere among its
/// methods, whatever the others are, and whatever else is listed.
pub proof fn law_a_listed_model_that_generates_content_is_offered(
    listing: Json,
    items: Seq<Json>,
    i: int,
    methods: Seq<Json>,
    k: int,
    model: Seq<char>,
)
    requires
        field(listing, "models"@) == Some(Json::Array(items)),
        0 <= i < items.len(),
        field(items[i], "name"@) == Some(Json::Text("models/"@ + model)),
        is_gemini_model(model),
        field(items[i], "supportedGenerationMethods"@) == Some(Json::Array(methods)),
        0 <= k < methods.len(),
        methods[k] == Json::Text("generateContent"@),
    ensures
        ranked(offered_models(listed_items(listing))).contains(model),
{
    law_only_the_collection_is_taken_off(model);
    assert(methods.contains(Json::Text("generateContent"@)));
    assert(offered_model(listed_items(listing)[i]) == Some(model));
    law_public_list_offers_every_model(listing, model);
}

/// A model is offered by an item exactly where the item names it, with or without the collection,
/// it is a Gemini model, and one of its methods is `generateContent`.
pub proof fn law_an_item_offers_the_gemini_model_that_it_names(item: Json, model: Seq<char>)
    ensures
        offered_model(item) == Some(model) <==> {
            let name = field(item, "name"@);
            let methods = field(item, "supportedGenerationMethods"@);
            &&& name is Some && name->0 is Text
            &&& name->0->Text_0 == "models/"@ + model || (name->0->Text_0 == model && !begins_with(
                model,
                "models/"@,
            ))
            &&& is_gemini_model(model)
            &&& methods is Some && methods->0 is Array
            &&& exists|k: int|
                0 <= k < methods->0->Array_0.len() && #[trigger] methods->0->Array_0[k]
                    == Json::Text("generateContent"@)
        },
{
    let name = field(item, "name"@);
    if name is Some && name->0 is Text {
        law_only_the_collection_is_taken_off(name->0->Text_0);
        law_only_the_collection_is_taken_off(model);
    }
}

/// What is offered by items that are joined is what the first offer and then what the others do:
/// an item adds the model that it offers, wherever it stands, and nothing where it offers none.
pub proof fn law_offers_of_joined_items_are_joined(a: Seq<Json>, b: Seq<Json>, item: Json)
    ensures
        offered_models(a + b) == offered_models(a) + offered_models(b),
        offered_model(item) is Some ==> offered_models(seq![item]) == seq![offered_model(item)->0],
        offered_model(item) is None ==> offered_models(seq![item]).len() == 0,
    decreases b.len(),
{
    if b.len() == 0 {
        assert(a + b =~= a);
        assert(offered_models(a) + offered_models(b) =~= offered_models(a));
    } else {
        law_offers_of_joined_items_are_joined(a, b.drop_last(), item);
        assert((a + b).drop_last() =~= a + b.drop_last());
        assert((a + b).last() == b.last());
        assert(offered_models(a + b) =~= offered_models(a) + offered_models(b));
    }
    let none = seq![item].drop_last();
    assert(none.len() == 0);
    assert(offered_models(none).len() == 0);
    if offered_model(item) is Some {
        assert(offered_models(seq![item]) =~= seq![offered_model(item)->0]);
    }
}

/// The items of a listing are those of the array under `models`; there are none where there is no
/// such array.
pub proof fn law_listed_items_stand_under_models(listing: Json)
    ensures
        field(listing, "models"@) is Some && field(listing, "models"@)->0 is Array
            ==> listed_items(listing) == field(listing, "models"@)->0->Array_0,
        !(field(listing, "models"@) is Some && field(listing, "models"@)->0 is Array)
            ==> listed_items(listing).len() == 0,
{
}

} // verus!
