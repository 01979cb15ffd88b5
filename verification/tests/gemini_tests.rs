use gemini_provider::contents::build_contents;
use gemini_provider::discovery::extract_gemini_model_ids;
use gemini_provider::errors::{is_gemini_model_not_found_error, ProviderError};
use gemini_provider::json::JsonValue;
use gemini_provider::json_text::print_json;
use gemini_provider::message::{ContentBlock, Message, Role, ToolDefinition};
use gemini_provider::mock::MockProvider;
use gemini_provider::models::gemini_fallback_models;
use gemini_provider::provider::{GeminiProvider, PersistedCatalog};
use gemini_provider::request::{generate_content_target, list_models_target, request_body};
use gemini_provider::response::{read_body, read_response, StreamEvent};
use gemini_provider::schema::schema_contains_key;
use gemini_provider::tools::{build_tools, tool_value};

fn text(s: &str) -> JsonValue {
    JsonValue::String(s.to_string())
}

fn array(items: Vec<JsonValue>) -> JsonValue {
    JsonValue::Array(items)
}

fn object(entries: Vec<(&str, JsonValue)>) -> JsonValue {
    JsonValue::Object(
        entries
            .into_iter()
            .map(|(name, value)| (name.to_string(), value))
            .collect(),
    )
}

fn item(value: &JsonValue, index: usize) -> &JsonValue {
    match value {
        JsonValue::Array(items) => &items[index],
        _ => panic!("not an array"),
    }
}

#[test]
fn available_models_include_gemini_defaults() {
    let provider = GeminiProvider::new();
    let models = provider.available_models();
    assert!(models.contains(&"gemini-3-pro-preview"));
    assert!(models.contains(&"gemini-3.1-pro-preview"));
    assert!(models.contains(&"gemini-2.5-pro"));
    assert!(models.contains(&"gemini-2.5-flash"));
}

#[test]
fn set_model_accepts_gemini_models() {
    let mut provider = GeminiProvider::new();
    provider.set_model("gemini-2.5-flash").unwrap();
    assert_eq!(provider.model(), "gemini-2.5-flash");
}

#[test]
fn detects_model_not_found_errors() {
    let err = ProviderError {
        message: "Gemini request generateContent failed (HTTP 404 Not Found): {\"error\":{\"status\":\"NOT_FOUND\",\"message\":\"Requested entity was not found.\"}}".to_string(),
    };
    assert!(is_gemini_model_not_found_error(&err));
}

#[test]
fn fallback_models_skip_current_model() {
    assert_eq!(
        gemini_fallback_models("gemini-2.5-flash"),
        vec![
            "gemini-3.1-pro-preview",
            "gemini-3-pro-preview",
            "gemini-2.5-pro",
            "gemini-3-flash-preview",
            "gemini-2.0-flash",
        ]
    );
}

#[test]
fn extract_gemini_model_ids_discovers_nested_models() {
    let response = object(vec![(
        "routing",
        object(vec![
            (
                "manual",
                object(vec![(
                    "models",
                    array(vec![
                        object(vec![("id", text("gemini-3-pro-preview"))]),
                        object(vec![("name", text("gemini-3.1-pro-preview"))]),
                    ]),
                )]),
            ),
            (
                "auto",
                array(vec![text("gemini-3-flash-preview"), text("not-a-model")]),
            ),
        ]),
    )]);

    assert_eq!(
        extract_gemini_model_ids(&response),
        vec![
            "gemini-3.1-pro-preview".to_string(),
            "gemini-3-pro-preview".to_string(),
            "gemini-3-flash-preview".to_string(),
        ]
    );
}

#[test]
fn available_models_display_prefers_discovered_models_and_current_model() {
    let mut provider = GeminiProvider::new();
    provider.set_model("gemini-4-pro-preview").unwrap();
    provider.fetched_models = vec![
        "gemini-3-flash-preview".to_string(),
        "gemini-3-pro-preview".to_string(),
    ];

    assert_eq!(
        provider.available_models_display(),
        vec![
            "gemini-3-pro-preview".to_string(),
            "gemini-3-flash-preview".to_string(),
            "gemini-4-pro-preview".to_string(),
        ]
    );
}

#[test]
fn available_models_display_without_discovery_uses_current_model_only() {
    let mut provider = GeminiProvider::new();
    provider.set_model("gemini-4-pro-preview").unwrap();

    assert_eq!(
        provider.available_models_display(),
        vec!["gemini-4-pro-preview".to_string()]
    );
}

#[test]
fn available_models_display_seeds_from_persisted_catalog() {
    let kept = PersistedCatalog {
        models: vec!["gemini-3-pro-preview".to_string()],
        fetched_at_rfc3339: "2026-01-02T03:04:05+00:00".to_string(),
    }
    .to_text();

    let provider = GeminiProvider::from_catalog(PersistedCatalog::from_text(&kept).unwrap());
    assert!(provider
        .available_models_display()
        .contains(&"gemini-3-pro-preview".to_string()));
}

#[test]
fn prefetch_models_with_api_key_uses_public_model_list_without_oauth() {
    let request = format!(
        "GET {} HTTP/1.1",
        list_models_target("v1beta", "gemini-test-key")
    );
    assert!(request.starts_with("GET /v1beta/models?key=gemini-test-key HTTP/1.1"));

    let body = print_json(&object(vec![(
        "models",
        array(vec![
            object(vec![
                ("name", text("models/gemini-2.5-flash")),
                (
                    "supportedGenerationMethods",
                    array(vec![text("generateContent")]),
                ),
            ]),
            object(vec![
                ("name", text("models/embedding-001")),
                (
                    "supportedGenerationMethods",
                    array(vec![text("embedContent")]),
                ),
            ]),
        ]),
    )]));

    let mut provider = GeminiProvider::new();
    provider.record_public_models(&body).expect("prefetch models");
    assert!(provider
        .available_models_display()
        .contains(&"gemini-2.5-flash".to_string()));
    assert!(!provider
        .available_models_display()
        .contains(&"embedding-001".to_string()));
}

#[test]
fn complete_with_api_key_uses_public_generate_content_without_oauth_setup() {
    let mut provider = GeminiProvider::new();
    provider.set_model("gemini-2.5-flash").expect("set model");
    let messages = vec![Message {
        role: Role::User,
        content: vec![ContentBlock::Text {
            text: "hello gemini".to_string(),
            cache_control: None,
        }],
        timestamp: None,
        tool_duration_ms: None,
    }];
    let request = format!(
        "POST {} HTTP/1.1\r\n\r\n{}",
        generate_content_target("v1beta", &provider.model(), "gemini-test-key"),
        request_body(&messages, &[], "")
    );
    assert!(request.starts_with(
        "POST /v1beta/models/gemini-2.5-flash:generateContent?key=gemini-test-key HTTP/1.1"
    ));
    assert!(request.contains("hello gemini"));

    let body = print_json(&object(vec![(
        "candidates",
        array(vec![object(vec![
            (
                "content",
                object(vec![
                    ("role", text("model")),
                    (
                        "parts",
                        array(vec![object(vec![("text", text("hello from api key"))])]),
                    ),
                ]),
            ),
            ("finishReason", text("STOP")),
        ])]),
    )]));
    let mut saw_text = false;
    for event in read_body(&body).expect("complete stream") {
        if let StreamEvent::TextDelta(text) = event {
            assert_eq!(text, "hello from api key");
            saw_text = true;
        }
    }
    assert!(saw_text);
}

#[test]
fn build_contents_preserves_tool_calls_and_results() {
    let messages = vec![
        Message {
            role: Role::Assistant,
            content: vec![ContentBlock::ToolUse {
                id: "call_1".to_string(),
                name: "read".to_string(),
                input: object(vec![("path", text("README.md"))]),
            }],
            timestamp: None,
            tool_duration_ms: None,
        },
        Message {
            role: Role::User,
            content: vec![ContentBlock::ToolResult {
                tool_use_id: "call_1".to_string(),
                content: "ok".to_string(),
                is_error: None,
            }],
            timestamp: None,
            tool_duration_ms: None,
        },
    ];

    let contents = build_contents(&messages);
    assert_eq!(contents.len(), 2);
    assert_eq!(contents[0].role, "model");
    assert_eq!(contents[1].role, "user");
    assert_eq!(
        contents[0].parts[0].function_call.as_ref().unwrap().name,
        "read"
    );
    assert_eq!(
        contents[1].parts[0]
            .function_response
            .as_ref()
            .unwrap()
            .name,
        "read"
    );
}

#[test]
fn build_tools_uses_function_declarations() {
    let defs = vec![ToolDefinition {
        name: "read".to_string(),
        description: "Read a file".to_string(),
        input_schema: object(vec![
            ("type", text("object")),
            (
                "properties",
                object(vec![("path", object(vec![("type", text("string"))]))]),
            ),
        ]),
    }];

    let built = build_tools(&defs).unwrap();
    assert_eq!(built.len(), 1);
    assert_eq!(built[0].function_declarations[0].name, "read");
}

#[test]
fn build_tools_rewrites_const_for_gemini_schema_compatibility() {
    let defs = vec![ToolDefinition {
        name: "batch".to_string(),
        description: "Batch tools".to_string(),
        input_schema: object(vec![
            ("type", text("object")),
            (
                "properties",
                object(vec![(
                    "tool_calls",
                    object(vec![
                        ("type", text("array")),
                        (
                            "items",
                            object(vec![(
                                "oneOf",
                                array(vec![object(vec![
                                    ("type", text("object")),
                                    (
                                        "properties",
                                        object(vec![
                                            (
                                                "tool",
                                                object(vec![
                                                    ("type", text("string")),
                                                    ("const", text("read")),
                                                ]),
                                            ),
                                            (
                                                "file_path",
                                                object(vec![("type", text("string"))]),
                                            ),
                                        ]),
                                    ),
                                    (
                                        "required",
                                        array(vec![text("tool"), text("file_path")]),
                                    ),
                                ])]),
                            )]),
                        ),
                    ]),
                )]),
            ),
        ]),
    }];

    let built = build_tools(&defs).expect("gemini tools");
    let parameters = &built[0].function_declarations[0].parameters;

    assert!(!schema_contains_key(parameters, "const"));
    let choices = parameters
        .get("properties")
        .and_then(|v| v.get("tool_calls"))
        .and_then(|v| v.get("items"))
        .and_then(|v| v.get("oneOf"))
        .unwrap();
    assert_eq!(
        item(choices, 0)
            .get("properties")
            .and_then(|v| v.get("tool"))
            .and_then(|v| v.get("enum")),
        Some(&array(vec![text("read")]))
    );
}

#[test]
fn build_tools_from_registry_definitions_omits_const_keywords() {
    assert_eq!(MockProvider.fork().name(), "mock");
    let defs = vec![
        ToolDefinition {
            name: "one".to_string(),
            description: "Takes one action".to_string(),
            input_schema: object(vec![("anyOf", array(vec![object(vec![("const", text("a"))])]))]),
        },
        ToolDefinition {
            name: "two".to_string(),
            description: "Takes a path".to_string(),
            input_schema: object(vec![("type", text("string"))]),
        },
    ];

    let built = build_tools(&defs).expect("gemini tools");
    assert_eq!(built[0].function_declarations.len(), 2);

    assert!(!schema_contains_key(&tool_value(&built[0]), "const"));
}

#[test]
fn parses_prompt_feedback_block_reason() {
    let response = read_response(&object(vec![(
        "promptFeedback",
        object(vec![
            ("blockReason", text("PROHIBITED_CONTENT")),
            ("blockReasonMessage", text("Prompt violated policy")),
        ]),
    )]))
    .expect("parse prompt feedback");

    let feedback = response.prompt_feedback.expect("missing prompt feedback");
    assert_eq!(feedback.block_reason.as_deref(), Some("PROHIBITED_CONTENT"));
    assert_eq!(
        feedback.block_reason_message.as_deref(),
        Some("Prompt violated policy")
    );
}

#[test]
fn parses_candidate_finish_message() {
    let response = read_response(&object(vec![(
        "candidates",
        array(vec![object(vec![
            ("finishReason", text("SAFETY")),
            ("finishMessage", text("Response blocked by safety filters")),
        ])]),
    )]))
    .expect("parse candidate");

    let candidate = response
        .candidates
        .expect("missing candidates")
        .into_iter()
        .next()
        .expect("missing first candidate");
    assert_eq!(candidate.finish_reason.as_deref(), Some("SAFETY"));
    assert_eq!(
        candidate.finish_message.as_deref(),
        Some("Response blocked by safety filters")
    );
}
