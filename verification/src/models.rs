//! Gemini model names: the models known from the start, and the order in which models are
//! shown.
use vstd::prelude::*;

use crate::errors::{ProviderError, is_gemini_model_not_found_error, reports_missing_model};
use crate::text::{
    begins_with, is_listed, law_text_with_a_prefix_begins_with_it, same_text, starts_with, texts,
};

verus! {

/// The models known from the start, the preferred ones first.
pub open spec fn known_models() -> Seq<Seq<char>> {
    seq![
        "gemini-3.1-pro-preview"@,
        "gemini-3-pro-preview"@,
        "gemini-2.5-pro"@,
        "gemini-3-flash-preview"@,
        "gemini-2.5-flash"@,
        "gemini-2.0-flash"@,
    ]
}

/// The characters of each name, in order.
pub open spec fn name_texts(names: Seq<&'static str>) -> Seq<Seq<char>> {
    names.map_values(|name: &'static str| name@)
}

/// Whether `name` is that of a Gemini model.
pub open spec fn is_gemini_model(name: Seq<char>) -> bool {
    begins_with(name, "gemini-"@)
}

/// The test of being another name than `current`.
pub open spec fn differs_from(current: Seq<char>) -> spec_fn(Seq<char>) -> bool {
    |model: Seq<char>| model != current
}

/// Those of `models` that are not `current`, in order.
pub open spec fn other_than(models: Seq<Seq<char>>, current: Seq<char>) -> Seq<Seq<char>> {
    models.filter(differs_from(current))
}

/// Those of `models` that are among `ids`, in the order of `models`.
pub open spec fn among(models: Seq<Seq<char>>, ids: Seq<Seq<char>>) -> Seq<Seq<char>> {
    models.filter(|model: Seq<char>| ids.contains(model))
}

/// Those of `ids` that are not known from the start, each where it comes first.
pub open spec fn unknown_models(ids: Seq<Seq<char>>) -> Seq<Seq<char>>
    decreases ids.len(),
{
    if ids.len() == 0 {
        ids
    } else {
        let before = unknown_models(ids.drop_last());
        if known_models().contains(ids.last()) || before.contains(ids.last()) {
            before
        } else {
            before.push(ids.last())
        }
    }
}

/// `ids` in the order in which models are shown, each once: those known from the start in
/// their order, then the others as they come.
pub open spec fn ranked(ids: Seq<Seq<char>>) -> Seq<Seq<char>> {
    among(known_models(), ids) + unknown_models(ids)
}

/// The models known from the start, the preferred ones first.
pub fn known_model_names() -> (names: Vec<&'static str>)
    ensures
        name_texts(names@) == known_models(),
{
    let mut names: Vec<&'static str> = Vec::new();
    names.push("gemini-3.1-pro-preview");
    names.push("gemini-3-pro-preview");
    names.push("gemini-2.5-pro");
    names.push("gemini-3-flash-preview");
    names.push("gemini-2.5-flash");
    names.push("gemini-2.0-flash");
    names
}

/// Whether `name` is that of a Gemini model.
pub fn is_gemini_model_id(name: &str) -> (gemini: bool)
    ensures
        gemini == is_gemini_model(name@),
{
    starts_with(name, "gemini-")
}

/// The models to try, in order, when `current` is not to be had.
pub fn gemini_fallback_models(current: &str) -> (models: Vec<&'static str>)
    ensures
        name_texts(models@) == other_than(known_models(), current@),
{
    let known = known_model_names();
    let mut models: Vec<&'static str> = Vec::new();
    let mut i: usize = 0;
    while i < known.len()
        invariant
            i <= known@.len(),
            name_texts(known@) == known_models(),
            name_texts(models@) == other_than(known_models().take(i as int), current@),
        decreases known@.len() - i,
    {
        proof {
            reveal(Seq::filter);
            assert(known_models().take(i + 1).drop_last() =~= known_models().take(i as int));
        }
        if !same_text(known[i], current) {
            models.push(known[i]);
        }
        i = i + 1;
    }
    assert(known_models().take(i as int) =~= known_models());
    models
}

/// The model to try after a request failed with `error`, where `tried` models to fall back on
/// were tried already and `current` before them. There is one as long as the failure is that the
/// service does not have the model, and not every model to fall back on was tried.
pub fn next_model(current: &str, tried: usize, error: &ProviderError) -> (next: Option<
    &'static str,
>)
    ensures
        next is Some <==> reports_missing_model(error.message@) && tried < other_than(
            known_models(),
            current@,
        ).len(),
        next is Some ==> next->0@ == other_than(known_models(), current@)[tried as int],
{
    if !is_gemini_model_not_found_error(error) {
        return None;
    }
    let models = gemini_fallback_models(current);
    if tried < models.len() {
        Some(models[tried])
    } else {
        None
    }
}

/// `ids` in the order in which models are shown, each once.
pub fn rank_models(ids: &Vec<String>) -> (shown: Vec<String>)
    ensures
        texts(shown@) == ranked(texts(ids@)),
{
    let known = known_model_names();
    let mut shown: Vec<String> = Vec::new();
    let mut i: usize = 0;
    while i < known.len()
        invariant
            i <= known@.len(),
            name_texts(known@) == known_models(),
            texts(shown@) == among(known_models().take(i as int), texts(ids@)),
        decreases known@.len() - i,
    {
        proof {
            reveal(Seq::filter);
            assert(known_models().take(i + 1).drop_last() =~= known_models().take(i as int));
        }
        if is_listed(ids, known[i]) {
            shown.push(known[i].to_owned());
        }
        i = i + 1;
    }
    assert(known_models().take(i as int) =~= known_models());
    let mut others: Vec<String> = Vec::new();
    let mut j: usize = 0;
    while j < ids.len()
        invariant
            j <= ids@.len(),
            name_texts(known@) == known_models(),
            texts(others@) == unknown_models(texts(ids@).take(j as int)),
        decreases ids@.len() - j,
    {
        assert(texts(ids@).take(j + 1).drop_last() =~= texts(ids@).take(j as int));
        if !is_named(&known, ids[j].as_str()) && !is_listed(&others, ids[j].as_str()) {
            others.push(ids[j].clone());
        }
        j = j + 1;
    }
    assert(texts(ids@).take(j as int) =~= texts(ids@));
    shown.append(&mut others);
    shown
}

/// Whether `wanted` is one of `names`.
fn is_named(names: &Vec<&'static str>, wanted: &str) -> (found: bool)
    ensures
        found == name_texts(names@).contains(wanted@),
{
    let mut i: usize = 0;
    while i < names.len()
        invariant
            i <= names@.len(),
            forall|k: int| 0 <= k < i ==> name_texts(names@)[k] != wanted@,
        decreases names@.len() - i,
    {
        if same_text(names[i], wanted) {
            assert(name_texts(names@)[i as int] == wanted@);
            return true;
        }
        i = i + 1;
    }
    false
}

/// The models known from the start are distinct, and each is a Gemini model.
pub proof fn law_known_models_are_distinct_gemini_models()
    ensures
        known_models().no_duplicates(),
        forall|i: int|
            0 <= i < known_models().len() ==> is_gemini_model(#[trigger] known_models()[i]),
{
    reveal_strlit("gemini-3.1-pro-preview");
    reveal_strlit("gemini-3-pro-preview");
    reveal_strlit("gemini-2.5-pro");
    reveal_strlit("gemini-3-flash-preview");
    reveal_strlit("gemini-2.5-flash");
    reveal_strlit("gemini-2.0-flash");
    reveal_strlit("gemini-");
    assert("gemini-3.1-pro-preview"@[8] == '.');
    assert("gemini-2.5-flash"@[9] == '5');
    assert forall|i: int| 0 <= i < known_models().len() implies is_gemini_model(
        #[trigger] known_models()[i],
    ) by {
        assert(known_models()[i].subrange(0, 7) =~= "gemini-"@);
    }
}

/// The models to fall back on are the known ones, but never the current one.
pub proof fn law_fallback_skips_only_the_current_model(current: Seq<char>, model: Seq<char>)
    ensures
        other_than(known_models(), current).contains(model) <==> known_models().contains(model)
            && model != current,
{
    lemma_filter_contains(known_models(), differs_from(current), model);
}

/// The models to fall back on come in the order of the known ones, none of them twice.
pub proof fn law_fallback_follows_the_known_order(current: Seq<char>, i: int, j: int)
    requires
        0 <= i < j < other_than(known_models(), current).len(),
    ensures
        known_models().index_of(other_than(known_models(), current)[i])
            < known_models().index_of(other_than(known_models(), current)[j]),
        other_than(known_models(), current)[i] != other_than(known_models(), current)[j],
{
    law_known_models_are_distinct_gemini_models();
    lemma_filter_keeps_order(known_models(), differs_from(current));
}

/// Nothing is shown that was not listed, and all that was listed is shown.
pub proof fn law_ranking_keeps_every_model(ids: Seq<Seq<char>>, model: Seq<char>)
    ensures
        ranked(ids).contains(model) <==> ids.contains(model),
{
    let listed = among(known_models(), ids);
    let others = unknown_models(ids);
    lemma_unknown_models(ids, model);
    lemma_contains_add(listed, others, model);
}

/// No model is shown twice.
pub proof fn law_ranking_shows_each_model_once(ids: Seq<Seq<char>>)
    ensures
        ranked(ids).no_duplicates(),
{
    let listed = among(known_models(), ids);
    let others = unknown_models(ids);
    law_known_models_are_distinct_gemini_models();
    lemma_filter_keeps_order(known_models(), |m: Seq<char>| ids.contains(m));
    lemma_unknown_models_distinct(ids);
    assert forall|i: int, j: int| 0 <= i < j < ranked(ids).len() implies #[trigger] ranked(ids)[i]
        != #[trigger] ranked(ids)[j] by {
        if i < listed.len() && j >= listed.len() {
            let model = others[j - listed.len()];
            lemma_unknown_models(ids, model);
            if listed[i] == model {
                lemma_filter_contains(known_models(), |m: Seq<char>| ids.contains(m), model);
            }
        }
    }
}

/// A known model is shown before the known models that come after it, and before every model
/// that is not known from the start.
pub proof fn law_ranking_follows_the_known_order(ids: Seq<Seq<char>>, i: int, j: int)
    requires
        0 <= i < ranked(ids).len(),
        0 <= j < ranked(ids).len(),
        known_models().contains(ranked(ids)[i]),
        known_models().contains(ranked(ids)[j]) ==> known_models().index_of(ranked(ids)[i])
            < known_models().index_of(ranked(ids)[j]),
    ensures
        i < j,
{
    let listed = among(known_models(), ids);
    let shown = ranked(ids);
    if i >= listed.len() {
        lemma_unknown_models(ids, shown[i]);
    }
    if j < listed.len() {
        lemma_filter_contains(known_models(), |m: Seq<char>| ids.contains(m), shown[j]);
        law_known_models_are_distinct_gemini_models();
        lemma_filter_keeps_order(known_models(), |m: Seq<char>| ids.contains(m));
    }
}

pub(crate) proof fn lemma_contains_push(s: Seq<Seq<char>>, last: Seq<char>, model: Seq<char>)
    ensures
        s.push(last).contains(model) <==> s.contains(model) || last == model,
{
    if s.contains(model) {
        let i = choose|i: int| 0 <= i < s.len() && s[i] == model;
        assert(s.push(last)[i] == model);
    }
    assert(s.push(last)[s.len() as int] == last);
}

pub(crate) proof fn lemma_contains_add(a: Seq<Seq<char>>, b: Seq<Seq<char>>, model: Seq<char>)
    ensures
        (a + b).contains(model) <==> a.contains(model) || b.contains(model),
{
    if a.contains(model) {
        let i = choose|i: int| 0 <= i < a.len() && a[i] == model;
        assert((a + b)[i] == model);
    }
    if b.contains(model) {
        let i = choose|i: int| 0 <= i < b.len() && b[i] == model;
        assert((a + b)[a.len() + i] == model);
    }
}

pub(crate) proof fn lemma_filter_contains(
    s: Seq<Seq<char>>,
    keep: spec_fn(Seq<char>) -> bool,
    model: Seq<char>,
)
    ensures
        s.filter(keep).contains(model) <==> s.contains(model) && keep(model),
    decreases s.len(),
{
    reveal(Seq::filter);
    if s.len() > 0 {
        lemma_filter_contains(s.drop_last(), keep, model);
    }
}

proof fn lemma_filter_keeps_order(s: Seq<Seq<char>>, keep: spec_fn(Seq<char>) -> bool)
    requires
        s.no_duplicates(),
    ensures
        forall|i: int, j: int|
            0 <= i < j < s.filter(keep).len() ==> s.index_of(#[trigger] s.filter(keep)[i])
                < s.index_of(#[trigger] s.filter(keep)[j]),
        s.filter(keep).no_duplicates(),
    decreases s.len(),
{
    reveal(Seq::filter);
    if s.len() > 0 {
        let before = s.drop_last();
        lemma_filter_keeps_order(before, keep);
        let kept = s.filter(keep);
        let kept_before = before.filter(keep);
        assert forall|i: int| 0 <= i < kept_before.len() implies kept[i] == kept_before[i]
            && s.index_of(#[trigger] kept[i]) == before.index_of(kept_before[i])
            && s.index_of(kept[i]) < s.len() - 1 by {
            lemma_filter_contains(before, keep, kept_before[i]);
        }
    }
}

proof fn lemma_unknown_models(ids: Seq<Seq<char>>, model: Seq<char>)
    ensures
        unknown_models(ids).contains(model) <==> ids.contains(model) && !known_models().contains(
            model,
        ),
    decreases ids.len(),
{
    if ids.len() > 0 {
        lemma_unknown_models(ids.drop_last(), model);
        assert(ids.drop_last().push(ids.last()) =~= ids);
        lemma_contains_push(unknown_models(ids.drop_last()), ids.last(), model);
    }
}

proof fn lemma_unknown_models_distinct(ids: Seq<Seq<char>>)
    ensures
        unknown_models(ids).no_duplicates(),
    decreases ids.len(),
{
    if ids.len() > 0 {
        lemma_unknown_models_distinct(ids.drop_last());
    }
}

/// The names of Gemini models are those that begin with `gemini-`, whatever comes after it.
pub proof fn law_gemini_models_are_named_by_their_prefix(name: Seq<char>, rest: Seq<char>)
    ensures
        is_gemini_model("gemini-"@ + rest),
        is_gemini_model(name) ==> exists|after: Seq<char>| name == #[trigger] ("gemini-"@ + after),
{
    law_text_with_a_prefix_begins_with_it(name, "gemini-"@, rest);
}

/// Each name is shown by its characters, where it stands.
pub proof fn law_names_are_shown_in_place(names: Seq<&'static str>)
    ensures
        name_texts(names).len() == names.len(),
        forall|i: int| 0 <= i < names.len() ==> #[trigger] name_texts(names)[i] == names[i]@,
{
}

/// Of models that are not known from the start, the one that was listed first is shown first.
pub proof fn law_ranking_keeps_the_order_of_unknown_models(ids: Seq<Seq<char>>, i: int, j: int)
    requires
        0 <= i < j < ranked(ids).len(),
        !known_models().contains(ranked(ids)[i]),
        !known_models().contains(ranked(ids)[j]),
    ensures
        exists|k: int|
            0 <= k < ids.len() && #[trigger] ids[k] == ranked(ids)[i] && forall|l: int|
                0 <= l <= k ==> #[trigger] ids[l] != ranked(ids)[j],
{
    let listed = among(known_models(), ids);
    let shown = ranked(ids);
    if i < listed.len() {
        assert(listed[i] == shown[i]);
        lemma_filter_contains(known_models(), |m: Seq<char>| ids.contains(m), shown[i]);
    }
    let a = i - listed.len();
    let b = j - listed.len();
    assert(unknown_models(ids)[a] == shown[i]);
    assert(unknown_models(ids)[b] == shown[j]);
    lemma_unknown_models_in_order(ids, a, b);
}

proof fn lemma_unknown_models_in_order(ids: Seq<Seq<char>>, i: int, j: int)
    requires
        0 <= i < j < unknown_models(ids).len(),
    ensures
        exists|k: int|
            0 <= k < ids.len() && #[trigger] ids[k] == unknown_models(ids)[i] && forall|l: int|
                0 <= l <= k ==> #[trigger] ids[l] != unknown_models(ids)[j],
    decreases ids.len(),
{
    let before = ids.drop_last();
    let others = unknown_models(before);
    let first = unknown_models(ids)[i];
    let second = unknown_models(ids)[j];
    assert(others[i] == first);
    if j < others.len() {
        assert(others[j] == second);
        lemma_unknown_models_in_order(before, i, j);
        let k = choose|k: int|
            0 <= k < before.len() && #[trigger] before[k] == first && forall|l: int|
                0 <= l <= k ==> #[trigger] before[l] != second;
        assert(ids[k] == first);
        assert forall|l: int| 0 <= l <= k implies #[trigger] ids[l] != second by {
            assert(before[l] != second);
        }
    } else {
        assert(second == ids.last());
        lemma_unknown_models(before, second);
        lemma_unknown_models(before, first);
        assert(others.contains(first));
        let k = choose|k: int| 0 <= k < before.len() && before[k] == first;
        assert(ids[k] == first);
        assert forall|l: int| 0 <= l <= k implies #[trigger] ids[l] != second by {
            assert(before[l] == ids[l]);
            assert(!before.contains(second));
        }
    }
}

} // verus!
