//! The provider: which model is in use, and which models are to be had.
use vstd::prelude::*;

use crate::content_json::{array_value, object_value, text_value};
use crate::discovery::{
    law_public_list_offers_every_model, listed_items, offered_model, offered_models,
    public_model_ids,
};
use crate::json::{
    Json, JsonValue, distinct_keys, entry_models, field, law_first_entry_of_a_name_is_found,
    lemma_array_view, lemma_lookup_two, models,
};
use crate::json_text::{
    MalformedJson, float_free, nested_within, parse_json, parsed_json, print_json, printed_json,
    reads_back,
};
use crate::models::{
    is_gemini_model, is_gemini_model_id, known_model_names, known_models,
    law_ranking_follows_the_known_order, law_ranking_keeps_every_model,
    law_ranking_keeps_the_order_of_unknown_models, law_ranking_shows_each_model_once, name_texts,
    rank_models, ranked,
};
use crate::text::texts;

verus! {

/// The name is not that of a Gemini model.
#[derive(Debug, PartialEq, Eq)]
pub struct UnsupportedModel {
    pub model: String,
}

/// The models that were discovered, as they are kept between runs.
#[derive(Debug, PartialEq, Eq)]
pub struct PersistedCatalog {
    pub models: Vec<String>,
    pub fetched_at_rfc3339: String,
}

/// The state of the provider.
#[derive(Debug, PartialEq, Eq)]
pub struct GeminiProvider {
    /// The model in use.
    pub model: String,
    /// The models that were discovered.
    pub fetched_models: Vec<String>,
}

/// The model of a [`PersistedCatalog`].
pub struct Catalog {
    pub models: Seq<Seq<char>>,
    pub fetched_at: Seq<char>,
}

/// The model of a [`GeminiProvider`].
pub struct State {
    pub model: Seq<char>,
    pub fetched: Seq<Seq<char>>,
}

impl View for PersistedCatalog {
    type V = Catalog;

    open spec fn view(&self) -> Catalog {
        Catalog { models: texts(self.models@), fetched_at: self.fetched_at_rfc3339@ }
    }
}

impl View for GeminiProvider {
    type V = State;

    open spec fn view(&self) -> State {
        State { model: self.model@, fetched: texts(self.fetched_models@) }
    }
}

/// The models that a provider in `state` shows: the discovered ones and the one in use.
pub open spec fn displayed(state: State) -> Seq<Seq<char>> {
    ranked(state.fetched.push(state.model))
}

impl GeminiProvider {
    /// A provider that has discovered no models yet.
    pub fn new() -> (provider: GeminiProvider)
        ensures
            provider@ == (State { model: "gemini-2.5-pro"@, fetched: seq![] }),
    {
        let provider = GeminiProvider {
            model: "gemini-2.5-pro".to_owned(),
            fetched_models: Vec::new(),
        };
        assert(provider@.fetched =~= seq![]);
        provider
    }

    /// A provider that knows the models of `catalog` from an earlier run.
    pub fn from_catalog(catalog: PersistedCatalog) -> (provider: GeminiProvider)
        ensures
            provider@ == (State { model: "gemini-2.5-pro"@, fetched: catalog@.models }),
    {
        GeminiProvider { model: "gemini-2.5-pro".to_owned(), fetched_models: catalog.models }
    }

    /// The model in use.
    pub fn model(&self) -> (model: String)
        ensures
            model@ == self@.model,
    {
        self.model.clone()
    }

    /// Uses `model` from now on, if it is a Gemini model.
    pub fn set_model(&mut self, model: &str) -> (result: Result<(), UnsupportedModel>)
        ensures
            match result {
                Ok(_) => is_gemini_model(model@) && final(self)@ == (State {
                    model: model@,
                    fetched: old(self)@.fetched,
                }),
                Err(error) => !is_gemini_model(model@) && error.model@ == model@ && final(self)@
                    == old(self)@,
            },
    {
        if is_gemini_model_id(model) {
            self.model = model.to_owned();
            Ok(())
        } else {
            Err(UnsupportedModel { model: model.to_owned() })
        }
    }

    /// The models known from the start, the preferred ones first.
    pub fn available_models(&self) -> (models: Vec<&'static str>)
        ensures
            name_texts(models@) == known_models(),
    {
        known_model_names()
    }

    /// The discovered models and the one in use, in the order in which models are shown.
    pub fn available_models_display(&self) -> (shown: Vec<String>)
        ensures
            texts(shown@) == displayed(self@),
    {
        let mut ids: Vec<String> = Vec::new();
        let mut i: usize = 0;
        while i < self.fetched_models.len()
            invariant
                i <= self.fetched_models@.len(),
                ids@.len() == i,
                forall|k: int| 0 <= k < i ==> (#[trigger] ids@[k])@ == self.fetched_models@[k]@,
            decreases self.fetched_models@.len() - i,
        {
            ids.push(self.fetched_models[i].clone());
            i = i + 1;
        }
        ids.push(self.model.clone());
        assert(texts(ids@) =~= self@.fetched.push(self@.model));
        rank_models(&ids)
    }

    /// Takes over the models that the public list in `body` offers. A body that cannot be read
    /// changes nothing.
    pub fn record_public_models(&mut self, body: &str) -> (result: Result<(), MalformedJson>)
        ensures
            match parsed_json(body@) {
                Some(listing) => result is Ok && final(self)@ == (State {
                    model: old(self)@.model,
                    fetched: ranked(offered_models(listed_items(listing))),
                }),
                None => result is Err && final(self)@ == old(self)@,
            },
    {
        match parse_json(body) {
            Ok(listing) => {
                self.fetched_models = public_model_ids(&listing);
                Ok(())
            },
            Err(error) => Err(error),
        }
    }
}

/// The JSON that a catalog is kept as.
pub open spec fn catalog_json(catalog: Catalog) -> Json {
    Json::Object(
        seq![
            (
                "models"@,
                Json::Array(catalog.models.map_values(|model: Seq<char>| Json::Text(model))),
            ),
            ("fetched_at_rfc3339"@, Json::Text(catalog.fetched_at)),
        ],
    )
}

/// The catalog that `json` stands for.
pub open spec fn catalog_from(json: Json) -> Option<Catalog> {
    match (field(json, "models"@), field(json, "fetched_at_rfc3339"@)) {
        (Some(Json::Array(items)), Some(Json::Text(fetched_at))) => if forall|i: int|
            0 <= i < items.len() ==> (#[trigger] items[i]) is Text {
            Some(Catalog { models: items.map_values(|item: Json| item->Text_0), fetched_at })
        } else {
            None
        },
        _ => None,
    }
}

/// The catalog that is kept as `text`.
pub open spec fn catalog_in(text: Seq<char>) -> Option<Catalog> {
    match parsed_json(text) {
        Some(json) => catalog_from(json),
        None => None,
    }
}

impl PersistedCatalog {
    /// The text that the catalog is kept as. The catalog is read back from it.
    pub fn to_text(&self) -> (text: String)
        ensures
            text@ == printed_json(catalog_json(self@)),
            catalog_in(text@) == Some(self@),
    {
        let mut items: Vec<JsonValue> = Vec::new();
        let mut i: usize = 0;
        while i < self.models.len()
            invariant
                i <= self.models@.len(),
                items@.len() == i,
                forall|k: int|
                    0 <= k < i ==> (#[trigger] items@[k])@ == Json::Text(self.models@[k]@),
            decreases self.models@.len() - i,
        {
            items.push(text_value(self.models[i].as_str()));
            i = i + 1;
        }
        assert(models(items@) =~= self@.models.map_values(|model: Seq<char>| Json::Text(model)));
        let mut entries: Vec<(String, JsonValue)> = Vec::new();
        entries.push(("models".to_owned(), array_value(items)));
        entries.push(
            ("fetched_at_rfc3339".to_owned(), text_value(self.fetched_at_rfc3339.as_str())),
        );
        assert(entry_models(entries@) =~= catalog_json(self@)->Object_0);
        let value = object_value(entries);
        proof {
            lemma_catalog_json_reads_back(self@);
            law_catalog_is_read_back(self@);
        }
        print_json(&value)
    }

    /// The catalog that is kept as `text`, if it is one.
    pub fn from_text(text: &str) -> (catalog: Option<PersistedCatalog>)
        ensures
            match catalog {
                Some(catalog) => catalog_in(text@) == Some(catalog@),
                None => catalog_in(text@) is None,
            },
    {
        match parse_json(text) {
            Ok(value) => read_catalog(&value),
            Err(_) => None,
        }
    }
}

/// The catalog that `value` stands for, if it is one.
fn read_catalog(value: &JsonValue) -> (catalog: Option<PersistedCatalog>)
    ensures
        match catalog {
            Some(catalog) => catalog_from(value@) == Some(catalog@),
            None => catalog_from(value@) is None,
        },
{
    broadcast use lemma_array_view;

    let fetched_at_rfc3339: String = match value.get("fetched_at_rfc3339") {
        Some(JsonValue::String(text)) => text.clone(),
        _ => return None,
    };
    match value.get("models") {
        Some(JsonValue::Array(items)) => {
            let ghost jsons = models(items@);
            let mut names: Vec<String> = Vec::new();
            let mut i: usize = 0;
            while i < items.len()
                invariant
                    i <= items@.len(),
                    jsons == models(items@),
                    field(value@, "models"@) == Some(Json::Array(jsons)),
                    names@.len() == i,
                    forall|k: int|
                        0 <= k < i ==> (#[trigger] jsons[k]) == Json::Text(names@[k]@),
                decreases items@.len() - i,
            {
                assert(jsons[i as int] == items@[i as int]@);
                match &items[i] {
                    JsonValue::String(name) => names.push(name.clone()),
                    _ => return None,
                }
                i = i + 1;
            }
            assert(texts(names@) =~= jsons.map_values(|item: Json| item->Text_0));
            Some(PersistedCatalog { models: names, fetched_at_rfc3339 })
        },
        _ => None,
    }
}

proof fn lemma_catalog_json_reads_back(catalog: Catalog)
    ensures
        distinct_keys(catalog_json(catalog)),
        reads_back(catalog_json(catalog)),
{
    let json = catalog_json(catalog);
    let entries = json->Object_0;
    let items = entries[0].1->Array_0;
    let array = entries[0].1;
    reveal_strlit("models");
    reveal_strlit("fetched_at_rfc3339");
    assert(entries[0].0.len() != entries[1].0.len());
    assert(forall|i: int|
        0 <= i < items.len() ==> distinct_keys(#[trigger] items[i]) && float_free(items[i])
            && nested_within(items[i], 125));
    assert(distinct_keys(array));
    assert(float_free(array));
    assert(nested_within(array, 126));
    assert(distinct_keys(entries[1].1) && float_free(entries[1].1) && nested_within(
        entries[1].1,
        126,
    ));
}

/// A catalog is read back from the JSON that it is kept as.
pub proof fn law_catalog_is_read_back(catalog: Catalog)
    ensures
        catalog_from(catalog_json(catalog)) == Some(catalog),
{
    let json = catalog_json(catalog);
    let entries = json->Object_0;
    let items = entries[0].1->Array_0;
    reveal_strlit("models");
    reveal_strlit("fetched_at_rfc3339");
    assert("models"@.len() != "fetched_at_rfc3339"@.len());
    lemma_lookup_two(entries[0], entries[1], "fetched_at_rfc3339"@);
    assert(items.map_values(|item: Json| item->Text_0) =~= catalog.models);
}

/// A provider shows the model in use and every model that was discovered, and no others.
pub proof fn law_display_shows_current_and_discovered(state: State, model: Seq<char>)
    ensures
        displayed(state).contains(model) <==> model == state.model || state.fetched.contains(
            model,
        ),
{
    let ids = state.fetched.push(state.model);
    law_ranking_keeps_every_model(ids, model);
    if state.fetched.contains(model) {
        let i = choose|i: int| 0 <= i < state.fetched.len() && state.fetched[i] == model;
        assert(ids[i] == model);
    }
}

/// A provider that starts from a catalog kept by an earlier run shows every model in it.
pub proof fn law_persisted_models_are_shown(
    catalog: Catalog,
    current: Seq<char>,
    model: Seq<char>,
)
    requires
        catalog.models.contains(model),
    ensures
        catalog_from(catalog_json(catalog)) is Some,
        displayed(
            State { model: current, fetched: catalog_from(catalog_json(catalog))->0.models },
        ).contains(model),
{
    law_catalog_is_read_back(catalog);
    law_display_shows_current_and_discovered(
        State { model: current, fetched: catalog.models },
        model,
    );
}

/// A provider that took over a public list shows every model that the list offers.
pub proof fn law_offered_models_are_shown(
    listing: Json,
    i: int,
    current: Seq<char>,
    model: Seq<char>,
)
    requires
        0 <= i < listed_items(listing).len(),
        offered_model(listed_items(listing)[i]) == Some(model),
    ensures
        displayed(
            State { model: current, fetched: ranked(offered_models(listed_items(listing))) },
        ).contains(model),
{
    law_public_list_offers_every_model(listing, model);
    law_display_shows_current_and_discovered(
        State { model: current, fetched: ranked(offered_models(listed_items(listing))) },
        model,
    );
}

/// A provider that has discovered nothing shows the model in use and nothing else.
pub proof fn law_display_without_discovery(state: State)
    requires
        state.fetched.len() == 0,
    ensures
        displayed(state) == seq![state.model],
{
    let shown = displayed(state);
    law_ranking_shows_each_model_once(state.fetched.push(state.model));
    law_display_shows_current_and_discovered(state, state.model);
    assert forall|i: int| 0 <= i < shown.len() implies #[trigger] shown[i] == state.model by {
        law_display_shows_current_and_discovered(state, shown[i]);
    }
    if shown.len() > 1 {
        assert(shown[0] == shown[1]);
    }
}

/// No model is shown twice.
pub proof fn law_display_shows_each_model_once(state: State)
    ensures
        displayed(state).no_duplicates(),
{
    law_ranking_shows_each_model_once(state.fetched.push(state.model));
}

/// A known model is shown before those known models that come after it, and before every model
/// that is not known from the start.
pub proof fn law_display_follows_the_known_order(state: State, i: int, j: int)
    requires
        0 <= i < displayed(state).len(),
        0 <= j < displayed(state).len(),
        known_models().contains(displayed(state)[i]),
        known_models().contains(displayed(state)[j]) ==> known_models().index_of(
            displayed(state)[i],
        ) < known_models().index_of(displayed(state)[j]),
    ensures
        i < j,
{
    law_ranking_follows_the_known_order(state.fetched.push(state.model), i, j);
}

/// Of models that are not known from the start, the one that was discovered first is shown first,
/// and the model in use after those that were discovered.
pub proof fn law_display_keeps_the_order_of_discovery(state: State, i: int, j: int)
    requires
        0 <= i < j < displayed(state).len(),
        !known_models().contains(displayed(state)[i]),
        !known_models().contains(displayed(state)[j]),
    ensures
        exists|k: int|
            0 <= k < state.fetched.len() && #[trigger] state.fetched[k] == displayed(state)[i]
                && forall|l: int|
                0 <= l <= k ==> #[trigger] state.fetched[l] != displayed(state)[j],
{
    let ids = state.fetched.push(state.model);
    law_ranking_keeps_the_order_of_unknown_models(ids, i, j);
    law_ranking_keeps_every_model(ids, displayed(state)[j]);
    let k = choose|k: int|
        0 <= k < ids.len() && #[trigger] ids[k] == ranked(ids)[i] && forall|l: int|
            0 <= l <= k ==> #[trigger] ids[l] != ranked(ids)[j];
    if k == state.fetched.len() {
        assert(ids.contains(ranked(ids)[j]));
        let m = choose|m: int| 0 <= m < ids.len() && ids[m] == ranked(ids)[j];
        assert(ids[m] != ranked(ids)[j]);
    }
    assert(state.fetched[k] == ids[k]);
    assert forall|l: int| 0 <= l <= k implies #[trigger] state.fetched[l] != displayed(
        state,
    )[j] by {
        assert(ids[l] != ranked(ids)[j]);
    }
}

/// The state of a provider shows the model in use and every discovered model, in order.
pub proof fn law_providers_are_shown_whole(provider: GeminiProvider)
    ensures
        provider@.model == provider.model@,
        provider@.fetched.len() == provider.fetched_models@.len(),
        forall|i: int|
            0 <= i < provider.fetched_models@.len() ==> #[trigger] provider@.fetched[i]
                == provider.fetched_models@[i]@,
{
}

/// The model of a catalog shows each of its models, in order, and when they were fetched.
pub proof fn law_catalogs_are_shown_whole(catalog: PersistedCatalog)
    ensures
        catalog@.fetched_at == catalog.fetched_at_rfc3339@,
        catalog@.models.len() == catalog.models@.len(),
        forall|i: int|
            0 <= i < catalog.models@.len() ==> #[trigger] catalog@.models[i]
                == catalog.models@[i]@,
{
}

/// The JSON of a catalog holds each of its models, in order, and when they were fetched, each
/// under its own name, and nothing else.
pub proof fn law_catalog_json_holds_the_catalog(catalog: Catalog)
    ensures
        catalog_json(catalog) is Object,
        catalog_json(catalog)->Object_0.len() == 2,
        field(catalog_json(catalog), "fetched_at_rfc3339"@) == Some(
            Json::Text(catalog.fetched_at),
        ),
        field(catalog_json(catalog), "models"@) is Some,
        field(catalog_json(catalog), "models"@)->0 is Array,
        field(catalog_json(catalog), "models"@)->0->Array_0.len() == catalog.models.len(),
        forall|i: int|
            0 <= i < catalog.models.len() ==> #[trigger] field(
                catalog_json(catalog),
                "models"@,
            )->0->Array_0[i] == Json::Text(catalog.models[i]),
{
    let entries = catalog_json(catalog)->Object_0;
    reveal_strlit("models");
    reveal_strlit("fetched_at_rfc3339");
    assert("models"@.len() != "fetched_at_rfc3339"@.len());
    law_first_entry_of_a_name_is_found(entries, 0);
    law_first_entry_of_a_name_is_found(entries, 1);
}

/// A catalog is read exactly from what has an array of texts under `models` and a text under
/// `fetched_at_rfc3339`, whatever its other entries are: it has each of these texts, in order.
pub proof fn law_read_catalogs_have_what_their_entries_say(json: Json)
    ensures
        catalog_from(json) is Some <==> {
            let items = field(json, "models"@);
            let fetched_at = field(json, "fetched_at_rfc3339"@);
            &&& items is Some && items->0 is Array
            &&& forall|i: int|
                0 <= i < items->0->Array_0.len() ==> (#[trigger] items->0->Array_0[i]) is Text
            &&& fetched_at is Some && fetched_at->0 is Text
        },
        catalog_from(json) is Some ==> {
            let items = field(json, "models"@)->0->Array_0;
            let catalog = catalog_from(json)->0;
            &&& field(json, "fetched_at_rfc3339"@) == Some(Json::Text(catalog.fetched_at))
            &&& catalog.models.len() == items.len()
            &&& forall|i: int|
                0 <= i < items.len() ==> #[trigger] items[i] == Json::Text(catalog.models[i])
        },
{
}

} // verus!
