//! Contents as JSON: how they are written into a request and read from an answer.
use vstd::prelude::*;

use crate::contents::{
    Call, Content, GeminiContent, GeminiFunctionCall, GeminiFunctionResponse, GeminiPart, Part,
    Reply, part_models,
};
use crate::json::{
    Json, JsonValue, entry_models, field, law_first_entry_of_a_name_is_found, lemma_array_view,
    lemma_lookup_add, lemma_lookup_two, lemma_object_view, lookup, models,
};

verus! {

/// The JSON has not the shape of what it should stand for.
#[derive(Debug, Clone, Copy, PartialEq, Eq)]
pub struct UnexpectedShape;

/// The JSON of a call.
pub open spec fn call_json(call: Call) -> Json {
    Json::Object(seq![("name"@, Json::Text(call.name)), ("args"@, call.args)])
}

/// The JSON of a reply.
pub open spec fn reply_json(reply: Reply) -> Json {
    Json::Object(seq![("name"@, Json::Text(reply.name)), ("response"@, reply.response)])
}

/// The entry named `key`, where there is a value for it.
pub open spec fn optional_entry(key: Seq<char>, value: Option<Json>) -> Seq<(Seq<char>, Json)> {
    match value {
        Some(json) => seq![(key, json)],
        None => seq![],
    }
}

/// The entries of the JSON of a part: what the part has not is left out.
pub open spec fn part_entries(part: Part) -> Seq<(Seq<char>, Json)> {
    optional_entry(
        "text"@,
        match part.text {
            Some(text) => Some(Json::Text(text)),
            None => None,
        },
    ) + optional_entry(
        "functionCall"@,
        match part.call {
            Some(call) => Some(call_json(call)),
            None => None,
        },
    ) + optional_entry(
        "functionResponse"@,
        match part.reply {
            Some(reply) => Some(reply_json(reply)),
            None => None,
        },
    )
}

/// The JSON of a part.
pub open spec fn part_json(part: Part) -> Json {
    Json::Object(part_entries(part))
}

/// The JSON of a content.
pub open spec fn content_json(content: Content) -> Json {
    Json::Object(
        seq![
            ("role"@, Json::Text(content.role)),
            ("parts"@, Json::Array(content.parts.map_values(|part: Part| part_json(part)))),
        ],
    )
}

/// The text named `key` in `json`, if it is there and not null. `None` where it is no text.
pub open spec fn optional_text(json: Json, key: Seq<char>) -> Option<Option<Seq<char>>> {
    match field(json, key) {
        None => Some(None),
        Some(Json::Null) => Some(None),
        Some(Json::Text(text)) => Some(Some(text)),
        Some(_) => None,
    }
}

/// The items of the array named `key` in `json`; none where it is missing or null. `None` where
/// it is no array.
pub open spec fn optional_items(json: Json, key: Seq<char>) -> Option<Seq<Json>> {
    match field(json, key) {
        None => Some(seq![]),
        Some(Json::Null) => Some(seq![]),
        Some(Json::Array(items)) => Some(items),
        Some(_) => None,
    }
}

/// The call that `json` stands for. Arguments that are missing are null.
pub open spec fn call_from(json: Json) -> Option<Call> {
    match field(json, "name"@) {
        Some(Json::Text(name)) => Some(
            Call {
                name,
                args: match field(json, "args"@) {
                    Some(args) => args,
                    None => Json::Null,
                },
            },
        ),
        _ => None,
    }
}

/// The reply that `json` stands for. A response that is missing is null.
pub open spec fn reply_from(json: Json) -> Option<Reply> {
    match field(json, "name"@) {
        Some(Json::Text(name)) => Some(
            Reply {
                name,
                response: match field(json, "response"@) {
                    Some(response) => response,
                    None => Json::Null,
                },
            },
        ),
        _ => None,
    }
}

/// The call named `key` in `json`, if it is there and not null. `None` where it is no call.
pub open spec fn optional_call(json: Json, key: Seq<char>) -> Option<Option<Call>> {
    match field(json, key) {
        None => Some(None),
        Some(Json::Null) => Some(None),
        Some(value) => match call_from(value) {
            Some(call) => Some(Some(call)),
            None => None,
        },
    }
}

/// The reply named `key` in `json`, if it is there and not null. `None` where it is no reply.
pub open spec fn optional_reply(json: Json, key: Seq<char>) -> Option<Option<Reply>> {
    match field(json, key) {
        None => Some(None),
        Some(Json::Null) => Some(None),
        Some(value) => match reply_from(value) {
            Some(reply) => Some(Some(reply)),
            None => None,
        },
    }
}

/// The part that `json` stands for.
pub open spec fn part_from(json: Json) -> Option<Part> {
    match (
        json is Object,
        optional_text(json, "text"@),
        optional_call(json, "functionCall"@),
        optional_reply(json, "functionResponse"@),
    ) {
        (true, Some(text), Some(call), Some(reply)) => Some(Part { text, call, reply }),
        _ => None,
    }
}

/// The parts that `items` stand for, if each stands for one.
pub open spec fn parts_from(items: Seq<Json>) -> Option<Seq<Part>> {
    if forall|i: int| 0 <= i < items.len() ==> part_from(#[trigger] items[i]) is Some {
        Some(items.map_values(|item: Json| part_from(item)->0))
    } else {
        None
    }
}

/// The content that `json` stands for. A role that is missing is empty, and so are parts.
pub open spec fn content_from(json: Json) -> Option<Content> {
    match (json is Object, optional_text(json, "role"@), optional_items(json, "parts"@)) {
        (true, Some(role), Some(items)) => match parts_from(items) {
            Some(parts) => Some(
                Content {
                    role: match role {
                        Some(role) => role,
                        None => seq![],
                    },
                    parts,
                },
            ),
            None => None,
        },
        _ => None,
    }
}

/// The JSON of `text`.
pub(crate) fn text_value(text: &str) -> (value: JsonValue)
    ensures
        value@ == Json::Text(text@),
{
    JsonValue::String(text.to_owned())
}

/// The object with `entries`.
pub(crate) fn object_value(entries: Vec<(String, JsonValue)>) -> (value: JsonValue)
    ensures
        value@ == Json::Object(entry_models(entries@)),
{
    proof {
        lemma_object_view(entries);
    }
    JsonValue::Object(entries)
}

/// The array with `items`.
pub(crate) fn array_value(items: Vec<JsonValue>) -> (value: JsonValue)
    ensures
        value@ == Json::Array(models(items@)),
{
    proof {
        lemma_array_view(items);
    }
    JsonValue::Array(items)
}

/// The JSON of a part.
fn part_value(part: &GeminiPart) -> (value: JsonValue)
    ensures
        value@ == part_json(part@),
{
    let mut entries: Vec<(String, JsonValue)> = Vec::new();
    if let Some(text) = &part.text {
        entries.push(("text".to_owned(), text_value(text.as_str())));
    }
    if let Some(call) = &part.function_call {
        let mut inner: Vec<(String, JsonValue)> = Vec::new();
        inner.push(("name".to_owned(), text_value(call.name.as_str())));
        inner.push(("args".to_owned(), call.args.clone()));
        assert(entry_models(inner@) =~= call_json(call@)->Object_0);
        entries.push(("functionCall".to_owned(), object_value(inner)));
    }
    if let Some(reply) = &part.function_response {
        let mut inner: Vec<(String, JsonValue)> = Vec::new();
        inner.push(("name".to_owned(), text_value(reply.name.as_str())));
        inner.push(("response".to_owned(), reply.response.clone()));
        assert(entry_models(inner@) =~= reply_json(reply@)->Object_0);
        entries.push(("functionResponse".to_owned(), object_value(inner)));
    }
    assert(entry_models(entries@) =~= part_entries(part@));
    object_value(entries)
}

/// The JSON of a content.
pub fn content_value(content: &GeminiContent) -> (value: JsonValue)
    ensures
        value@ == content_json(content@),
{
    let mut parts: Vec<JsonValue> = Vec::new();
    let mut i: usize = 0;
    while i < content.parts.len()
        invariant
            i <= content.parts@.len(),
            parts@.len() == i,
            forall|k: int|
                0 <= k < i ==> (#[trigger] parts@[k])@ == part_json(content.parts@[k]@),
        decreases content.parts@.len() - i,
    {
        parts.push(part_value(&content.parts[i]));
        i = i + 1;
    }
    assert(models(parts@) =~= content@.parts.map_values(|part: Part| part_json(part)));
    let mut entries: Vec<(String, JsonValue)> = Vec::new();
    entries.push(("role".to_owned(), text_value(content.role.as_str())));
    entries.push(("parts".to_owned(), array_value(parts)));
    assert(entry_models(entries@) =~= content_json(content@)->Object_0);
    object_value(entries)
}

/// The text named `key` in `value`, if it is there and not null.
pub(crate) fn read_text(value: &JsonValue, key: &str) -> (result: Result<
    Option<String>,
    UnexpectedShape,
>)
    ensures
        match result {
            Ok(Some(text)) => optional_text(value@, key@) == Some(Some(text@)),
            Ok(None) => optional_text(value@, key@) == Some(None::<Seq<char>>),
            Err(_) => optional_text(value@, key@) is None,
        },
{
    match value.get(key) {
        None => Ok(None),
        Some(JsonValue::Null) => Ok(None),
        Some(JsonValue::String(text)) => Ok(Some(text.clone())),
        Some(_) => Err(UnexpectedShape),
    }
}

/// The call that `value` stands for.
fn read_call(value: &JsonValue) -> (result: Result<GeminiFunctionCall, UnexpectedShape>)
    ensures
        match result {
            Ok(call) => call_from(value@) == Some(call@),
            Err(_) => call_from(value@) is None,
        },
{
    let args: JsonValue = match value.get("args") {
        Some(args) => args.clone(),
        None => JsonValue::Null,
    };
    match value.get("name") {
        Some(JsonValue::String(name)) => Ok(GeminiFunctionCall { name: name.clone(), args }),
        _ => Err(UnexpectedShape),
    }
}

/// The reply that `value` stands for.
fn read_reply(value: &JsonValue) -> (result: Result<GeminiFunctionResponse, UnexpectedShape>)
    ensures
        match result {
            Ok(reply) => reply_from(value@) == Some(reply@),
            Err(_) => reply_from(value@) is None,
        },
{
    let response: JsonValue = match value.get("response") {
        Some(response) => response.clone(),
        None => JsonValue::Null,
    };
    match value.get("name") {
        Some(JsonValue::String(name)) => Ok(
            GeminiFunctionResponse { name: name.clone(), response },
        ),
        _ => Err(UnexpectedShape),
    }
}

/// The part that `value` stands for.
fn read_part(value: &JsonValue) -> (result: Result<GeminiPart, UnexpectedShape>)
    ensures
        match result {
            Ok(part) => part_from(value@) == Some(part@),
            Err(_) => part_from(value@) is None,
        },
{
    if !is_object(value) {
        return Err(UnexpectedShape);
    }
    let text: Option<String> = match read_text(value, "text") {
        Ok(text) => text,
        Err(error) => return Err(error),
    };
    let function_call: Option<GeminiFunctionCall> = match value.get("functionCall") {
        None => None,
        Some(JsonValue::Null) => None,
        Some(inner) => match read_call(inner) {
            Ok(call) => Some(call),
            Err(error) => return Err(error),
        },
    };
    let function_response: Option<GeminiFunctionResponse> = match value.get("functionResponse") {
        None => None,
        Some(JsonValue::Null) => None,
        Some(inner) => match read_reply(inner) {
            Ok(reply) => Some(reply),
            Err(error) => return Err(error),
        },
    };
    Ok(GeminiPart { text, function_call, function_response })
}

/// Whether `value` is an object.
pub(crate) fn is_object(value: &JsonValue) -> (object: bool)
    ensures
        object == (value@ is Object),
{
    match value {
        JsonValue::Object(_) => true,
        _ => false,
    }
}

/// The content that `value` stands for.
pub fn read_content(value: &JsonValue) -> (result: Result<GeminiContent, UnexpectedShape>)
    ensures
        match result {
            Ok(content) => content_from(value@) == Some(content@),
            Err(_) => content_from(value@) is None,
        },
{
    broadcast use lemma_array_view;

    if !is_object(value) {
        return Err(UnexpectedShape);
    }
    let role: String = match read_text(value, "role") {
        Ok(Some(role)) => role,
        Ok(None) => String::new(),
        Err(error) => return Err(error),
    };
    let mut parts: Vec<GeminiPart> = Vec::new();
    match value.get("parts") {
        None => {
            assert(part_models(parts@) =~= parts_from(seq![])->0);
        },
        Some(JsonValue::Null) => {
            assert(part_models(parts@) =~= parts_from(seq![])->0);
        },
        Some(JsonValue::Array(items)) => {
            let ghost jsons = models(items@);
            let mut i: usize = 0;
            while i < items.len()
                invariant
                    i <= items@.len(),
                    jsons == models(items@),
                    optional_items(value@, "parts"@) == Some(jsons),
                    parts@.len() == i,
                    forall|k: int|
                        0 <= k < i ==> part_from(#[trigger] jsons[k]) == Some(parts@[k]@),
                decreases items@.len() - i,
            {
                assert(jsons[i as int] == items@[i as int]@);
                match read_part(&items[i]) {
                    Ok(part) => parts.push(part),
                    Err(error) => return Err(error),
                }
                i = i + 1;
            }
            assert(part_models(parts@) =~= parts_from(jsons)->0);
        },
        Some(_) => return Err(UnexpectedShape),
    }
    Ok(GeminiContent { role, parts })
}

/// A content is read back from the JSON that it is written as.
pub proof fn law_content_is_read_back(content: Content)
    ensures
        content_from(content_json(content)) == Some(content),
{
    let role = ("role"@, Json::Text(content.role));
    let parts = ("parts"@, Json::Array(content.parts.map_values(|part: Part| part_json(part))));
    reveal_strlit("role");
    reveal_strlit("parts");
    assert("role"@.len() != "parts"@.len());
    lemma_lookup_two(role, parts, "parts"@);
    let items = content.parts.map_values(|part: Part| part_json(part));
    assert forall|i: int| 0 <= i < items.len() implies part_from(#[trigger] items[i]) == Some(
        content.parts[i],
    ) by {
        law_part_is_read_back(content.parts[i]);
    }
    assert(parts_from(items)->0 =~= content.parts);
}

/// A part is read back from the JSON that it is written as.
pub proof fn law_part_is_read_back(part: Part)
    ensures
        part_from(part_json(part)) == Some(part),
{
    lemma_part_lookup(part, "text"@);
    lemma_part_lookup(part, "functionCall"@);
    lemma_part_lookup(part, "functionResponse"@);
    reveal_strlit("name");
    reveal_strlit("args");
    reveal_strlit("response");
    reveal_strlit("text");
    reveal_strlit("functionCall");
    reveal_strlit("functionResponse");
    assert("text"@.len() == 4 && "functionCall"@.len() == 12 && "functionResponse"@.len() == 16);
    assert("name"@[0] != "args"@[0]);
    if let Some(call) = part.call {
        let name = ("name"@, Json::Text(call.name));
        lemma_lookup_two(name, ("args"@, call.args), "args"@);
    }
    if let Some(reply) = part.reply {
        let name = ("name"@, Json::Text(reply.name));
        lemma_lookup_two(name, ("response"@, reply.response), "response"@);
    }
}

spec fn lookup_optional(key: Seq<char>, value: Option<Json>, wanted: Seq<char>) -> Option<Json> {
    if key == wanted {
        value
    } else {
        None
    }
}

proof fn lemma_lookup_optional(key: Seq<char>, value: Option<Json>, wanted: Seq<char>)
    ensures
        lookup(optional_entry(key, value), wanted) == lookup_optional(key, value, wanted),
{
    reveal_with_fuel(lookup, 2);
}

proof fn lemma_part_lookup(part: Part, key: Seq<char>)
    ensures
        lookup(part_entries(part), key) == match (part.text, key == "text"@) {
            (Some(text), true) => Some(Json::Text(text)),
            _ => match (part.call, key == "functionCall"@) {
                (Some(call), true) => Some(call_json(call)),
                _ => match (part.reply, key == "functionResponse"@) {
                    (Some(reply), true) => Some(reply_json(reply)),
                    _ => None,
                },
            },
        },
{
    let text = match part.text {
        Some(text) => Some(Json::Text(text)),
        None => None,
    };
    let call = match part.call {
        Some(call) => Some(call_json(call)),
        None => None,
    };
    let reply = match part.reply {
        Some(reply) => Some(reply_json(reply)),
        None => None,
    };
    let first = optional_entry("text"@, text);
    let second = optional_entry("functionCall"@, call);
    let third = optional_entry("functionResponse"@, reply);
    lemma_lookup_add(first + second, third, key);
    lemma_lookup_add(first, second, key);
    lemma_lookup_optional("text"@, text, key);
    lemma_lookup_optional("functionCall"@, call, key);
    lemma_lookup_optional("functionResponse"@, reply, key);
}

/// The JSON of a content holds its role and every one of its parts, in order, and nothing else.
pub proof fn law_content_json_holds_the_content(content: Content)
    ensures
        content_json(content) is Object,
        content_json(content)->Object_0.len() == 2,
        field(content_json(content), "role"@) == Some(Json::Text(content.role)),
        field(content_json(content), "parts"@) is Some,
        field(content_json(content), "parts"@)->0 is Array,
        field(content_json(content), "parts"@)->0->Array_0.len() == content.parts.len(),
        forall|i: int|
            0 <= i < content.parts.len() ==> #[trigger] field(
                content_json(content),
                "parts"@,
            )->0->Array_0[i] == part_json(content.parts[i]),
{
    let entries = content_json(content)->Object_0;
    reveal_strlit("role");
    reveal_strlit("parts");
    assert("role"@.len() != "parts"@.len());
    law_first_entry_of_a_name_is_found(entries, 0);
    law_first_entry_of_a_name_is_found(entries, 1);
}

/// The JSON of a part holds exactly what the part has: its text, the name and the arguments of
/// its call, the name and the response of its reply, each whatever the others are.
pub proof fn law_part_json_holds_the_part(part: Part, key: Seq<char>)
    ensures
        part_json(part) is Object,
        part.text is None ==> field(part_json(part), "text"@) is None,
        part.text is Some ==> field(part_json(part), "text"@) == Some(Json::Text(part.text->0)),
        part.call is None ==> field(part_json(part), "functionCall"@) is None,
        part.call is Some ==> {
            let call = field(part_json(part), "functionCall"@);
            &&& call is Some && call->0 is Object && call->0->Object_0.len() == 2
            &&& field(call->0, "name"@) == Some(Json::Text(part.call->0.name))
            &&& field(call->0, "args"@) == Some(part.call->0.args)
        },
        part.reply is None ==> field(part_json(part), "functionResponse"@) is None,
        part.reply is Some ==> {
            let reply = field(part_json(part), "functionResponse"@);
            &&& reply is Some && reply->0 is Object && reply->0->Object_0.len() == 2
            &&& field(reply->0, "name"@) == Some(Json::Text(part.reply->0.name))
            &&& field(reply->0, "response"@) == Some(part.reply->0.response)
        },
        key != "text"@ && key != "functionCall"@ && key != "functionResponse"@ ==> field(
            part_json(part),
            key,
        ) is None,
{
    lemma_part_lookup(part, "text"@);
    lemma_part_lookup(part, "functionCall"@);
    lemma_part_lookup(part, "functionResponse"@);
    lemma_part_lookup(part, key);
    reveal_strlit("name");
    reveal_strlit("args");
    reveal_strlit("response");
    reveal_strlit("text");
    reveal_strlit("functionCall");
    reveal_strlit("functionResponse");
    assert("text"@.len() == 4 && "functionCall"@.len() == 12 && "functionResponse"@.len() == 16);
    assert("name"@[0] != "args"@[0]);
    assert("name"@.len() == 4 && "response"@.len() == 8);
    if let Some(call) = part.call {
        law_first_entry_of_a_name_is_found(call_json(call)->Object_0, 0);
        law_first_entry_of_a_name_is_found(call_json(call)->Object_0, 1);
    }
    if let Some(reply) = part.reply {
        law_first_entry_of_a_name_is_found(reply_json(reply)->Object_0, 0);
        law_first_entry_of_a_name_is_found(reply_json(reply)->Object_0, 1);
    }
}

/// Whether nothing is said under `key` in `json`: there is no such entry, or it is null.
pub open spec fn unsaid(json: Json, key: Seq<char>) -> bool {
    field(json, key) is None || field(json, key) == Some(Json::Null)
}

/// A part that is read has the text under `text`, whatever its other entries are, and none
/// exactly where that entry is missing or null. It has a call and a reply in the same way, each
/// with its name, and with null where the rest is missing.
pub proof fn law_read_parts_have_what_their_entries_say(json: Json)
    requires
        part_from(json) is Some,
    ensures
        json is Object,
        part_from(json)->0.text is None <==> field(json, "text"@) is None || field(json, "text"@)
            == Some(Json::Null),
        part_from(json)->0.text is Some ==> field(json, "text"@) == Some(
            Json::Text(part_from(json)->0.text->0),
        ),
        part_from(json)->0.call is None <==> field(json, "functionCall"@) is None || field(
            json,
            "functionCall"@,
        ) == Some(Json::Null),
        part_from(json)->0.call is Some ==> {
            let call = part_from(json)->0.call->0;
            let entry = field(json, "functionCall"@)->0;
            &&& field(entry, "name"@) == Some(Json::Text(call.name))
            &&& field(entry, "args"@) is Some ==> field(entry, "args"@) == Some(call.args)
            &&& field(entry, "args"@) is None ==> call.args == Json::Null
        },
        part_from(json)->0.reply is None <==> field(json, "functionResponse"@) is None || field(
            json,
            "functionResponse"@,
        ) == Some(Json::Null),
        part_from(json)->0.reply is Some ==> {
            let reply = part_from(json)->0.reply->0;
            let entry = field(json, "functionResponse"@)->0;
            &&& field(entry, "name"@) == Some(Json::Text(reply.name))
            &&& field(entry, "response"@) is Some ==> field(entry, "response"@) == Some(
                reply.response,
            )
            &&& field(entry, "response"@) is None ==> reply.response == Json::Null
        },
{
}

/// An object is read as a part exactly where its text is a text, and its call and its reply have
/// a name, as far as it has them. Nothing else is asked of it.
pub proof fn law_parts_are_read_where_their_entries_have_the_right_kind(json: Json)
    ensures
        part_from(json) is Some <==> {
            &&& json is Object
            &&& unsaid(json, "text"@) || field(json, "text"@)->0 is Text
            &&& unsaid(json, "functionCall"@) || {
                let name = field(field(json, "functionCall"@)->0, "name"@);
                name is Some && name->0 is Text
            }
            &&& unsaid(json, "functionResponse"@) || {
                let name = field(field(json, "functionResponse"@)->0, "name"@);
                name is Some && name->0 is Text
            }
        },
{
}

/// A content that is read has the role under `role` and every part under `parts`, in order; where
/// an entry is missing or null, it is empty.
pub proof fn law_read_contents_have_what_their_entries_say(json: Json)
    requires
        content_from(json) is Some,
    ensures
        json is Object,
        field(json, "role"@) is None || field(json, "role"@) == Some(Json::Null)
            ==> content_from(json)->0.role.len() == 0,
        !(field(json, "role"@) is None || field(json, "role"@) == Some(Json::Null)) ==> field(
            json,
            "role"@,
        ) == Some(Json::Text(content_from(json)->0.role)),
        field(json, "parts"@) is None || field(json, "parts"@) == Some(Json::Null)
            ==> content_from(json)->0.parts.len() == 0,
        !(field(json, "parts"@) is None || field(json, "parts"@) == Some(Json::Null)) ==> {
            let items = field(json, "parts"@)->0->Array_0;
            &&& field(json, "parts"@)->0 is Array
            &&& content_from(json)->0.parts.len() == items.len()
            &&& forall|i: int|
                0 <= i < items.len() ==> part_from(#[trigger] items[i]) == Some(
                    content_from(json)->0.parts[i],
                )
        },
{
}

/// An object is read as a content exactly where its role is a text and its parts are an array of
/// parts, as far as it has them. Nothing else is asked of it.
pub proof fn law_contents_are_read_where_their_entries_have_the_right_kind(json: Json)
    ensures
        content_from(json) is Some <==> {
            &&& json is Object
            &&& unsaid(json, "role"@) || field(json, "role"@)->0 is Text
            &&& unsaid(json, "parts"@) || {
                let items = field(json, "parts"@)->0->Array_0;
                &&& field(json, "parts"@)->0 is Array
                &&& forall|i: int| 0 <= i < items.len() ==> part_from(#[trigger] items[i]) is Some
            }
        },
{
}

} // verus!
