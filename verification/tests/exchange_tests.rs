use gemini_provider::content_json::{content_value, read_content, UnexpectedShape};
use gemini_provider::contents::{
    build_contents, GeminiContent, GeminiFunctionCall, GeminiFunctionResponse, GeminiPart,
};
use gemini_provider::json::JsonValue;
use gemini_provider::json_text::{is_read_back, parse_json};
use gemini_provider::message::{ContentBlock, Message, Role, ToolDefinition};
use gemini_provider::mock::MockProvider;
use gemini_provider::request::{
    checked_request_body, generate_request, is_sound, request_body,
};
use gemini_provider::response::{read_body, read_response, text_deltas, BodyError, StreamEvent};
use gemini_provider::tools::{build_tools, tool_value};

fn json(text: &str) -> JsonValue {
    parse_json(text).unwrap()
}

fn message(role: Role, content: Vec<ContentBlock>) -> Message {
    Message {
        role,
        content,
        timestamp: None,
        tool_duration_ms: None,
    }
}

fn text(s: &str) -> ContentBlock {
    ContentBlock::Text {
        text: s.to_string(),
        cache_control: None,
    }
}

fn call(id: &str, name: &str) -> ContentBlock {
    ContentBlock::ToolUse {
        id: id.to_string(),
        name: name.to_string(),
        input: json("{\"path\": \"README.md\"}"),
    }
}

fn result(id: &str, content: &str, is_error: Option<bool>) -> ContentBlock {
    ContentBlock::ToolResult {
        tool_use_id: id.to_string(),
        content: content.to_string(),
        is_error,
    }
}

fn delta(s: &str) -> StreamEvent {
    StreamEvent::TextDelta(s.to_string())
}

#[test]
fn one_content_for_each_message_and_one_part_for_each_block() {
    let contents = build_contents(&[
        message(Role::User, vec![text("a"), text("b")]),
        message(Role::Assistant, vec![]),
        message(Role::Assistant, vec![text("c"), call("1", "read")]),
    ]);
    assert_eq!(contents.len(), 3);
    assert_eq!(contents[0].role, "user");
    assert_eq!(contents[0].parts.len(), 2);
    assert_eq!(contents[0].parts[1].text.as_deref(), Some("b"));
    assert!(contents[1].parts.is_empty());
    let called = contents[2].parts[1].function_call.as_ref().unwrap();
    assert_eq!(called.name, "read");
    assert_eq!(called.args, json("{\"path\": \"README.md\"}"));
}

#[test]
fn results_go_under_the_name_of_the_latest_call() {
    let contents = build_contents(&[
        message(Role::Assistant, vec![call("1", "read"), call("2", "write")]),
        message(Role::Assistant, vec![call("1", "list")]),
        message(
            Role::User,
            vec![
                result("1", "ok", None),
                result("2", "full", Some(true)),
                result("3", "?", Some(false)),
            ],
        ),
        message(Role::Assistant, vec![call("1", "late")]),
    ]);
    let replies: Vec<&GeminiFunctionResponse> = contents[2]
        .parts
        .iter()
        .map(|part| part.function_response.as_ref().unwrap())
        .collect();
    assert_eq!(replies[0].name, "list");
    assert_eq!(replies[0].response, json("{\"output\": \"ok\"}"));
    assert_eq!(replies[1].name, "write");
    assert_eq!(replies[1].response, json("{\"error\": \"full\"}"));
    assert_eq!(replies[2].name, "3");
    assert_eq!(replies[2].response, json("{\"output\": \"?\"}"));
}

#[test]
fn no_tools_are_built_from_no_definitions() {
    assert_eq!(build_tools(&[]), None);
}

#[test]
fn tools_are_written_as_declarations() {
    let built = build_tools(&[ToolDefinition {
        name: "read".to_string(),
        description: "Read a file".to_string(),
        input_schema: json("{\"const\": 1}"),
    }])
    .unwrap();
    assert_eq!(
        tool_value(&built[0]),
        json("{\"functionDeclarations\": [{\"name\": \"read\", \"description\": \"Read a file\", \"parameters\": {\"enum\": [1]}}]}")
    );
}

#[test]
fn contents_are_read_back() {
    let content = GeminiContent {
        role: "model".to_string(),
        parts: vec![
            GeminiPart {
                text: Some("hi".to_string()),
                function_call: Some(GeminiFunctionCall {
                    name: "f".to_string(),
                    args: JsonValue::Null,
                }),
                function_response: None,
            },
            GeminiPart {
                text: None,
                function_call: None,
                function_response: Some(GeminiFunctionResponse {
                    name: "g".to_string(),
                    response: json("{\"output\": [1]}"),
                }),
            },
        ],
    };
    let value = content_value(&content);
    assert_eq!(
        value,
        json("{\"role\": \"model\", \"parts\": [{\"text\": \"hi\", \"functionCall\": {\"name\": \"f\", \"args\": null}}, {\"functionResponse\": {\"name\": \"g\", \"response\": {\"output\": [1]}}}]}")
    );
    assert_eq!(read_content(&value), Ok(content));
}

#[test]
fn other_json_is_no_content() {
    for text in [
        "[]",
        "{\"role\": 1}",
        "{\"parts\": {}}",
        "{\"parts\": [1]}",
        "{\"parts\": [{\"text\": []}]}",
        "{\"parts\": [{\"functionCall\": {\"args\": {}}}]}",
        "{\"parts\": [{\"functionResponse\": \"x\"}]}",
    ] {
        assert_eq!(read_content(&json(text)), Err(UnexpectedShape));
    }
}

#[test]
fn missing_pieces_of_a_content_are_empty() {
    assert_eq!(
        read_content(&json("{\"parts\": null, \"more\": 1}")),
        Ok(GeminiContent {
            role: String::new(),
            parts: vec![]
        })
    );
    let content = read_content(&json("{\"parts\": [{\"functionCall\": {\"name\": \"f\"}}]}")).unwrap();
    assert_eq!(
        content.parts[0].function_call.as_ref().unwrap().args,
        JsonValue::Null
    );
}

#[test]
fn requests_hold_the_conversation_the_instructions_and_the_tools() {
    let messages = [message(Role::User, vec![text("hello gemini")])];
    let definitions = [ToolDefinition {
        name: "read".to_string(),
        description: "Read a file".to_string(),
        input_schema: json("{\"type\": \"object\"}"),
    }];
    assert!(is_sound(&messages, &definitions));
    assert_eq!(
        request_body(&messages, &definitions, "Be brief."),
        "{\"contents\":[{\"role\":\"user\",\"parts\":[{\"text\":\"hello gemini\"}]}],\"systemInstruction\":{\"parts\":[{\"text\":\"Be brief.\"}]},\"tools\":[{\"functionDeclarations\":[{\"name\":\"read\",\"description\":\"Read a file\",\"parameters\":{\"type\":\"object\"}}]}]}"
    );
    assert_eq!(
        request_body(&messages, &[], ""),
        "{\"contents\":[{\"role\":\"user\",\"parts\":[{\"text\":\"hello gemini\"}]}]}"
    );
    assert_eq!(
        generate_request(&messages, &definitions, "Be brief."),
        json(&request_body(&messages, &definitions, "Be brief."))
    );
}

#[test]
fn repeated_names_make_a_request_unsound() {
    let twice = || {
        JsonValue::Object(vec![
            ("a".to_string(), JsonValue::Null),
            ("a".to_string(), JsonValue::Null),
        ])
    };
    let calling = [message(
        Role::Assistant,
        vec![ContentBlock::ToolUse {
            id: "1".to_string(),
            name: "f".to_string(),
            input: twice(),
        }],
    )];
    assert!(!is_sound(&calling, &[]));
    assert_eq!(checked_request_body(&calling, &[], ""), None);
    assert!(!is_sound(
        &[],
        &[ToolDefinition {
            name: "f".to_string(),
            description: String::new(),
            input_schema: twice(),
        }]
    ));
    assert!(is_sound(&[], &[]));
    assert_eq!(
        checked_request_body(&[], &[], ""),
        Some("{\"contents\":[]}".to_string())
    );
}

#[test]
fn requests_with_integer_bounds_are_read_back() {
    let messages = [message(Role::User, vec![text("count")])];
    let definitions = [ToolDefinition {
        name: "take".to_string(),
        description: "Take some".to_string(),
        input_schema: json("{\"type\": \"integer\", \"minimum\": -1, \"maximum\": 10}"),
    }];
    let body = checked_request_body(&messages, &definitions, "").unwrap();
    assert_eq!(body, request_body(&messages, &definitions, ""));
    let request = generate_request(&messages, &definitions, "");
    assert!(is_read_back(&request));
    assert_eq!(json(&body), request);
}

#[test]
fn every_text_of_the_first_candidate_comes_through() {
    let body = "{\"candidates\": [
        {\"content\": {\"role\": \"model\", \"parts\": [{\"text\": \"a\"}, {\"functionCall\": {\"name\": \"f\"}}, {\"text\": \"b\"}]}, \"finishReason\": \"STOP\"},
        {\"content\": {\"parts\": [{\"text\": \"c\"}]}}
    ]}";
    assert_eq!(read_body(body), Ok(vec![delta("a"), delta("b")]));
}

#[test]
fn answers_without_text_add_nothing() {
    for body in [
        "{}",
        "{\"candidates\": null}",
        "{\"candidates\": []}",
        "{\"candidates\": [{\"content\": null}]}",
        "{\"candidates\": [{\"finishReason\": \"SAFETY\"}]}",
        "{\"promptFeedback\": {\"blockReason\": \"OTHER\"}}",
    ] {
        assert_eq!(read_body(body), Ok(vec![]));
    }
}

#[test]
fn bodies_that_are_no_answers_are_refused() {
    assert_eq!(read_body("oops"), Err(BodyError::Malformed));
    for body in [
        "[]",
        "{\"candidates\": {}}",
        "{\"candidates\": [null]}",
        "{\"candidates\": [{\"content\": 1}]}",
        "{\"candidates\": [{\"finishReason\": 1}]}",
        "{\"promptFeedback\": []}",
        "{\"promptFeedback\": {\"blockReason\": {}}}",
    ] {
        assert_eq!(read_body(body), Err(BodyError::UnexpectedShape));
    }
}

#[test]
fn responses_keep_what_is_missing_apart_from_what_is_empty() {
    let missing = read_response(&json("{}")).unwrap();
    assert!(missing.candidates.is_none());
    assert!(missing.prompt_feedback.is_none());
    let empty = read_response(&json("{\"candidates\": [], \"promptFeedback\": {}}")).unwrap();
    assert_eq!(empty.candidates, Some(vec![]));
    assert_eq!(empty.prompt_feedback.as_ref().unwrap().block_reason, None);
    assert!(text_deltas(&empty).is_empty());
}

#[test]
fn the_mock_refuses_every_completion() {
    let mock = MockProvider;
    let refusal = mock.complete(&[], &[], "", None).unwrap_err();
    assert_eq!(
        refusal.message,
        "Mock provider should not be used for streaming completions in Gemini tests"
    );
    assert_eq!(mock.name(), "mock");
    assert_eq!(*mock.fork(), mock);
}

#[test]
fn every_fork_of_the_mock_behaves_as_the_mock() {
    let fork = MockProvider.fork();
    let second = fork.fork();
    assert_eq!(std::sync::Arc::strong_count(&fork), 1);
    assert_eq!(*second, MockProvider);
    assert_eq!(second.name(), MockProvider.name());
    assert_eq!(
        second.complete(&[], &[], "", Some("session")),
        MockProvider.complete(&[], &[], "", Some("session"))
    );
}
