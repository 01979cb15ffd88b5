use gemini_provider::discovery::{extract_gemini_model_ids, public_model_ids};
use gemini_provider::errors::{is_gemini_model_not_found_error, request_failure, ProviderError};
use gemini_provider::json_text::{parse_json, MalformedJson};
use gemini_provider::models::{
    gemini_fallback_models, is_gemini_model_id, known_model_names, next_model, rank_models,
};
use gemini_provider::provider::{GeminiProvider, PersistedCatalog, UnsupportedModel};

fn strings(items: &[&str]) -> Vec<String> {
    items.iter().map(|s| s.to_string()).collect()
}

fn error(message: &str) -> ProviderError {
    ProviderError {
        message: message.to_string(),
    }
}

#[test]
fn known_models_are_gemini_models() {
    for name in known_model_names() {
        assert!(is_gemini_model_id(name));
    }
    assert!(!is_gemini_model_id("not-a-model"));
    assert!(!is_gemini_model_id("gemini"));
    assert!(!is_gemini_model_id(""));
}

#[test]
fn fallback_for_an_unknown_model_is_every_known_model() {
    assert_eq!(gemini_fallback_models("gemini-4-pro-preview"), known_model_names());
    assert_eq!(known_model_names().len(), 6);
}

#[test]
fn ranking_puts_known_models_first_and_drops_repetitions() {
    assert_eq!(
        rank_models(&strings(&[
            "gemini-9",
            "gemini-2.0-flash",
            "gemini-8",
            "gemini-9",
            "gemini-3.1-pro-preview",
            "gemini-2.0-flash",
        ])),
        strings(&[
            "gemini-3.1-pro-preview",
            "gemini-2.0-flash",
            "gemini-9",
            "gemini-8",
        ])
    );
}

#[test]
fn extraction_skips_the_names_of_entries_and_repeats_nothing() {
    let response = parse_json(
        "{\"gemini-7\": [\"gemini-8\", {\"x\": \"gemini-8\"}, 5, null, \"a gemini-9\"]}",
    )
    .unwrap();
    assert_eq!(extract_gemini_model_ids(&response), strings(&["gemini-8"]));
    assert!(extract_gemini_model_ids(&parse_json("17").unwrap()).is_empty());
    assert_eq!(
        extract_gemini_model_ids(&parse_json("\"gemini-2.5-pro\"").unwrap()),
        strings(&["gemini-2.5-pro"])
    );
}

#[test]
fn public_list_offers_models_that_generate_content() {
    let listing = parse_json(
        "{\"models\": [
            {\"name\": \"gemini-9\", \"supportedGenerationMethods\": [\"embedContent\", \"generateContent\"]},
            {\"name\": \"models/gemini-2.5-pro\", \"supportedGenerationMethods\": [\"generateContent\"]},
            {\"name\": \"models/gemini-embedding\", \"supportedGenerationMethods\": [\"embedContent\"]},
            {\"name\": \"models/gemini-none\"},
            {\"name\": \"models/gemma\", \"supportedGenerationMethods\": [\"generateContent\"]},
            {\"supportedGenerationMethods\": [\"generateContent\"]},
            \"models/gemini-8\"
        ]}",
    )
    .unwrap();
    assert_eq!(public_model_ids(&listing), strings(&["gemini-2.5-pro", "gemini-9"]));
    assert!(public_model_ids(&parse_json("{\"models\": {}}").unwrap()).is_empty());
    assert!(public_model_ids(&parse_json("{}").unwrap()).is_empty());
}

#[test]
fn set_model_refuses_other_models_and_keeps_the_current_one() {
    let mut provider = GeminiProvider::new();
    provider.set_model("gemini-2.0-flash").unwrap();
    assert_eq!(
        provider.set_model("embedding-001"),
        Err(UnsupportedModel {
            model: "embedding-001".to_string()
        })
    );
    assert_eq!(provider.model(), "gemini-2.0-flash");
    assert_eq!(GeminiProvider::new().model(), "gemini-2.5-pro");
}

#[test]
fn the_current_model_is_shown_once() {
    let mut provider = GeminiProvider::new();
    provider.fetched_models = strings(&["gemini-2.5-flash", "gemini-2.5-pro"]);
    assert_eq!(
        provider.available_models_display(),
        strings(&["gemini-2.5-pro", "gemini-2.5-flash"])
    );
}

#[test]
fn a_malformed_list_changes_nothing() {
    let mut provider = GeminiProvider::new();
    provider.fetched_models = strings(&["gemini-9"]);
    assert_eq!(provider.record_public_models("oops"), Err(MalformedJson));
    assert_eq!(provider.fetched_models, strings(&["gemini-9"]));
}

#[test]
fn catalogs_are_read_back() {
    let catalog = PersistedCatalog {
        models: strings(&["gemini-9", "with \"quotes\"\n", ""]),
        fetched_at_rfc3339: "2026-01-02T03:04:05+00:00".to_string(),
    };
    let text = catalog.to_text();
    assert_eq!(
        text,
        "{\"models\":[\"gemini-9\",\"with \\\"quotes\\\"\\n\",\"\"],\"fetched_at_rfc3339\":\"2026-01-02T03:04:05+00:00\"}"
    );
    assert_eq!(PersistedCatalog::from_text(&text), Some(catalog));
}

#[test]
fn other_text_is_no_catalog() {
    assert_eq!(PersistedCatalog::from_text("oops"), None);
    assert_eq!(PersistedCatalog::from_text("{\"models\": []}"), None);
    assert_eq!(
        PersistedCatalog::from_text("{\"models\": [1], \"fetched_at_rfc3339\": \"\"}"),
        None
    );
    assert_eq!(
        PersistedCatalog::from_text("{\"models\": \"gemini-9\", \"fetched_at_rfc3339\": \"\"}"),
        None
    );
}

#[test]
fn failures_tell_what_was_asked_and_what_came_back() {
    let failure = request_failure("generateContent", "404 Not Found", "{}");
    assert_eq!(
        failure.message,
        "Gemini request generateContent failed (HTTP 404 Not Found): {}"
    );
    assert!(is_gemini_model_not_found_error(&failure));
    assert!(is_gemini_model_not_found_error(&request_failure("", "404", "")));
}

#[test]
fn each_sign_of_a_missing_model_is_enough() {
    assert!(is_gemini_model_not_found_error(&error("HTTP 404")));
    assert!(is_gemini_model_not_found_error(&error("status: NOT_FOUND")));
    assert!(is_gemini_model_not_found_error(&error(
        "Requested entity was not found."
    )));
    assert!(!is_gemini_model_not_found_error(&error("HTTP 40")));
    assert!(!is_gemini_model_not_found_error(&error("")));
    assert!(!is_gemini_model_not_found_error(&request_failure(
        "generateContent",
        "500 Internal Server Error",
        "try again"
    )));
}

#[test]
fn a_missing_model_is_followed_by_each_other_known_model() {
    let missing = request_failure("generateContent", "404 Not Found", "{}");
    let mut tried = vec![];
    while let Some(next) = next_model("gemini-2.5-flash", tried.len(), &missing) {
        tried.push(next);
    }
    assert_eq!(tried, gemini_fallback_models("gemini-2.5-flash"));
    assert_eq!(tried[0], "gemini-3.1-pro-preview");
    assert_eq!(next_model("gemini-2.5-flash", 5, &missing), None);
    let other = request_failure("generateContent", "500 Internal Server Error", "{}");
    assert_eq!(next_model("gemini-2.5-flash", 0, &other), None);
}
