//! Requests to the public service, which an API key opens.
use vstd::prelude::*;

use crate::content_json::{
    array_value, call_json, content_from, content_json, content_value, law_content_is_read_back,
    object_value, optional_entry, part_entries, part_json, reply_json, text_value,
};
use crate::contents::{
    Content, Part, blocks_before, build_contents, content_models, contents_of, part_of,
    tool_answer,
};
use crate::json::{
    Json, JsonValue, distinct_keys, entry_models, field, law_first_entry_of_a_name_is_found,
    law_missing_names_are_not_found, lemma_array_distinct, lemma_object_distinct, models,
};
use crate::json_text::{parsed_json, print_json, printed_json, reads_back};
use crate::message::{Block, ContentBlock, Message, ToolDefinition, Turn, calls_in, turns};
use crate::schema::{law_names_stay_distinct, without_const};
use crate::tools::{
    Declaration, build_tools, declaration_json, declarations_of,
    law_declaration_json_holds_the_declaration, law_tool_json_holds_every_declaration, tool_json,
    tool_value,
};

verus! {

/// The target of a request for the list of models.
pub fn list_models_target(version: &str, key: &str) -> (target: String)
    ensures
        target@ == "/"@ + version@ + "/models?key="@ + key@,
{
    let mut target: String = "/".to_owned();
    target.append(version);
    target.append("/models?key=");
    target.append(key);
    target
}

/// The target of a request for content from `model`.
pub fn generate_content_target(version: &str, model: &str, key: &str) -> (target: String)
    ensures
        target@ == "/"@ + version@ + "/models/"@ + model@ + ":generateContent?key="@ + key@,
{
    let mut target: String = "/".to_owned();
    target.append(version);
    target.append("/models/");
    target.append(model);
    target.append(":generateContent?key=");
    target.append(key);
    target
}

/// The JSON of the instructions in `system`.
pub open spec fn instruction_json(system: Seq<char>) -> Json {
    Json::Object(
        seq![
            (
                "parts"@,
                Json::Array(seq![Json::Object(seq![("text"@, Json::Text(system))])]),
            ),
        ],
    )
}

/// The entries of the JSON of a request: instructions that are empty are left out, and so are
/// tools where there are none.
pub open spec fn request_entries(
    contents: Seq<Content>,
    tools: Option<Seq<Declaration>>,
    system: Seq<char>,
) -> Seq<(Seq<char>, Json)> {
    seq![
        ("contents"@, Json::Array(contents.map_values(|content: Content| content_json(content)))),
    ] + optional_entry(
        "systemInstruction"@,
        if system.len() > 0 {
            Some(instruction_json(system))
        } else {
            None
        },
    ) + optional_entry(
        "tools"@,
        match tools {
            Some(declarations) => Some(Json::Array(seq![tool_json(declarations)])),
            None => None,
        },
    )
}

/// The JSON of a request that continues `turns`, with the tools that `definitions` define and
/// the instructions in `system`.
pub open spec fn request_json(
    turns: Seq<Turn>,
    definitions: Seq<ToolDefinition>,
    system: Seq<char>,
) -> Json {
    Json::Object(
        request_entries(
            contents_of(turns),
            if definitions.len() > 0 {
                Some(declarations_of(definitions))
            } else {
                None
            },
            system,
        ),
    )
}

/// The JSON of a request that continues `messages`, with the tools that `definitions` define
/// and the instructions in `system`.
pub fn generate_request(
    messages: &[Message],
    definitions: &[ToolDefinition],
    system: &str,
) -> (request: JsonValue)
    ensures
        request@ == request_json(turns(messages@), definitions@, system@),
{
    let contents = build_contents(messages);
    let mut items: Vec<JsonValue> = Vec::new();
    let mut i: usize = 0;
    while i < contents.len()
        invariant
            i <= contents@.len(),
            items@.len() == i,
            forall|k: int| 0 <= k < i ==> (#[trigger] items@[k])@ == content_json(contents@[k]@),
        decreases contents@.len() - i,
    {
        items.push(content_value(&contents[i]));
        i = i + 1;
    }
    assert(models(items@) =~= content_models(contents@).map_values(
        |content: Content| content_json(content),
    ));
    let mut entries: Vec<(String, JsonValue)> = Vec::new();
    entries.push(("contents".to_owned(), array_value(items)));
    if !system.is_empty() {
        entries.push(("systemInstruction".to_owned(), instruction_value(system)));
    }
    if let Some(tools) = build_tools(definitions) {
        let mut sets: Vec<JsonValue> = Vec::new();
        sets.push(tool_value(&tools[0]));
        assert(models(sets@) =~= seq![tool_json(declarations_of(definitions@))]);
        entries.push(("tools".to_owned(), array_value(sets)));
    }
    assert(entry_models(entries@) =~= request_json(
        turns(messages@),
        definitions@,
        system@,
    )->Object_0);
    object_value(entries)
}

/// The JSON of the instructions in `system`.
fn instruction_value(system: &str) -> (value: JsonValue)
    ensures
        value@ == instruction_json(system@),
{
    let mut inner: Vec<(String, JsonValue)> = Vec::new();
    inner.push(("text".to_owned(), text_value(system)));
    assert(entry_models(inner@) =~= seq![("text"@, Json::Text(system@))]);
    let mut parts: Vec<JsonValue> = Vec::new();
    parts.push(object_value(inner));
    assert(models(parts@) =~= seq![Json::Object(seq![("text"@, Json::Text(system@))])]);
    let mut entries: Vec<(String, JsonValue)> = Vec::new();
    entries.push(("parts".to_owned(), array_value(parts)));
    assert(entry_models(entries@) =~= instruction_json(system@)->Object_0);
    object_value(entries)
}

/// Whether the JSON in `block` has distinct names.
pub open spec fn sound_block(block: Block) -> bool {
    block is ToolUse ==> distinct_keys(block->input)
}

/// Whether the JSON in `turns` has distinct names.
pub open spec fn sound_turns(turns: Seq<Turn>) -> bool {
    forall|i: int, j: int|
        0 <= i < turns.len() && 0 <= j < turns[i].blocks.len() ==> sound_block(
            #[trigger] turns[i].blocks[j],
        )
}

/// Whether the schemas of `definitions` have distinct names.
pub open spec fn sound_definitions(definitions: Seq<ToolDefinition>) -> bool {
    forall|i: int|
        0 <= i < definitions.len() ==> distinct_keys((#[trigger] definitions[i]).input_schema@)
}

/// Whether the JSON in the conversation and in the schemas has distinct names.
pub fn is_sound(messages: &[Message], definitions: &[ToolDefinition]) -> (sound: bool)
    ensures
        sound == (sound_turns(turns(messages@)) && sound_definitions(definitions@)),
{
    let ghost all = turns(messages@);
    let mut i: usize = 0;
    while i < messages.len()
        invariant
            i <= messages@.len(),
            all == turns(messages@),
            forall|k: int, j: int|
                0 <= k < i && 0 <= j < all[k].blocks.len() ==> sound_block(
                    #[trigger] all[k].blocks[j],
                ),
        decreases messages@.len() - i,
    {
        let blocks = &messages[i].content;
        let mut j: usize = 0;
        while j < blocks.len()
            invariant
                i < all.len(),
                j <= blocks@.len(),
                all == turns(messages@),
                all[i as int].blocks == blocks@.map_values(|block: ContentBlock| block@),
                forall|k: int| 0 <= k < j ==> sound_block(#[trigger] all[i as int].blocks[k]),
            decreases blocks@.len() - j,
        {
            assert(all[i as int].blocks[j as int] == blocks@[j as int]@);
            if let ContentBlock::ToolUse { input, .. } = &blocks[j] {
                if !input.has_distinct_names() {
                    return false;
                }
            }
            j = j + 1;
        }
        i = i + 1;
    }
    let mut i: usize = 0;
    while i < definitions.len()
        invariant
            i <= definitions@.len(),
            sound_turns(turns(messages@)),
            forall|k: int|
                0 <= k < i ==> distinct_keys((#[trigger] definitions@[k]).input_schema@),
        decreases definitions@.len() - i,
    {
        if !definitions[i].input_schema.has_distinct_names() {
            return false;
        }
        i = i + 1;
    }
    true
}

/// The body of a request that continues `messages`, with the tools that `definitions` define
/// and the instructions in `system`.
pub fn request_body(messages: &[Message], definitions: &[ToolDefinition], system: &str) -> (body:
    String)
    requires
        sound_turns(turns(messages@)),
        sound_definitions(definitions@),
    ensures
        body@ == printed_json(request_json(turns(messages@), definitions@, system@)),
        reads_back(request_json(turns(messages@), definitions@, system@)) ==> parsed_json(body@)
            == Some(request_json(turns(messages@), definitions@, system@)),
{
    let request = generate_request(messages, definitions, system);
    proof {
        law_request_names_are_distinct(turns(messages@), definitions@, system@);
    }
    print_json(&request)
}

/// The body of a request that continues `messages`, if the JSON in the conversation and in the
/// schemas has distinct names.
pub fn checked_request_body(
    messages: &[Message],
    definitions: &[ToolDefinition],
    system: &str,
) -> (body: Option<String>)
    ensures
        body is Some <==> sound_turns(turns(messages@)) && sound_definitions(definitions@),
        body is Some ==> body->0@ == printed_json(
            request_json(turns(messages@), definitions@, system@),
        ),
        body is Some && reads_back(request_json(turns(messages@), definitions@, system@))
            ==> parsed_json(body->0@) == Some(
            request_json(turns(messages@), definitions@, system@),
        ),
{
    if is_sound(messages, definitions) {
        Some(request_body(messages, definitions, system))
    } else {
        None
    }
}

/// The conversation goes out whole: each turn of it is read back from the `contents` of the
/// request.
pub proof fn law_request_carries_the_conversation(
    turns: Seq<Turn>,
    definitions: Seq<ToolDefinition>,
    system: Seq<char>,
)
    ensures
        field(request_json(turns, definitions, system), "contents"@) is Some,
        field(request_json(turns, definitions, system), "contents"@)->0 is Array,
        field(request_json(turns, definitions, system), "contents"@)->0->Array_0.len()
            == turns.len(),
        forall|i: int|
            0 <= i < turns.len() ==> content_from(
                #[trigger] field(
                    request_json(turns, definitions, system),
                    "contents"@,
                )->0->Array_0[i],
            ) == Some(contents_of(turns)[i]),
{
    let items = contents_of(turns).map_values(|content: Content| content_json(content));
    assert forall|i: int| 0 <= i < turns.len() implies content_from(#[trigger] items[i]) == Some(
        contents_of(turns)[i],
    ) by {
        law_content_is_read_back(contents_of(turns)[i]);
    }
}

/// Where the names in the conversation and in the schemas are distinct, those in the request
/// are.
pub proof fn law_request_names_are_distinct(
    turns: Seq<Turn>,
    definitions: Seq<ToolDefinition>,
    system: Seq<char>,
)
    requires
        sound_turns(turns),
        sound_definitions(definitions),
    ensures
        distinct_keys(request_json(turns, definitions, system)),
{
    let items = contents_of(turns).map_values(|content: Content| content_json(content));
    assert forall|i: int| 0 <= i < items.len() implies distinct_keys(#[trigger] items[i]) by {
        let content = contents_of(turns)[i];
        assert forall|j: int| 0 <= j < content.parts.len() implies sound_part(
            #[trigger] content.parts[j],
        ) by {
            lemma_part_of_is_sound(turns[i].blocks[j], calls_in(blocks_before(turns, i, j)));
        }
        lemma_content_distinct(content);
    }
    lemma_array_distinct(items);
    lemma_instruction_distinct(system);
    if definitions.len() > 0 {
        lemma_tools_distinct(definitions);
    }
    reveal_strlit("contents");
    reveal_strlit("systemInstruction");
    reveal_strlit("tools");
    assert("contents"@.len() == 8 && "systemInstruction"@.len() == 17 && "tools"@.len() == 5);
}

/// Whether the JSON in `part` has distinct names.
spec fn sound_part(part: Part) -> bool {
    &&& part.call is Some ==> distinct_keys(part.call->0.args)
    &&& part.reply is Some ==> distinct_keys(part.reply->0.response)
}

proof fn lemma_part_of_is_sound(block: Block, calls: Seq<(Seq<char>, Seq<char>)>)
    requires
        sound_block(block),
    ensures
        sound_part(part_of(block, calls)),
{
    if let Block::ToolResult { content, is_error, .. } = block {
        lemma_object_distinct(tool_answer(content, is_error)->Object_0);
    }
}

proof fn lemma_content_distinct(content: Content)
    requires
        forall|j: int| 0 <= j < content.parts.len() ==> sound_part(#[trigger] content.parts[j]),
    ensures
        distinct_keys(content_json(content)),
{
    let items = content.parts.map_values(|part: Part| part_json(part));
    assert forall|j: int| 0 <= j < items.len() implies distinct_keys(#[trigger] items[j]) by {
        lemma_part_distinct(content.parts[j]);
    }
    reveal_strlit("role");
    reveal_strlit("parts");
    assert("role"@.len() != "parts"@.len());
    lemma_object_distinct(content_json(content)->Object_0);
}

proof fn lemma_part_distinct(part: Part)
    requires
        sound_part(part),
    ensures
        distinct_keys(part_json(part)),
{
    reveal_strlit("text");
    reveal_strlit("functionCall");
    reveal_strlit("functionResponse");
    reveal_strlit("name");
    reveal_strlit("args");
    reveal_strlit("response");
    assert("text"@.len() == 4 && "functionCall"@.len() == 12 && "functionResponse"@.len() == 16);
    assert("name"@[0] != "args"@[0]);
    if let Some(call) = part.call {
        lemma_object_distinct(call_json(call)->Object_0);
    }
    if let Some(reply) = part.reply {
        lemma_object_distinct(reply_json(reply)->Object_0);
    }
    lemma_object_distinct(part_entries(part));
}

proof fn lemma_instruction_distinct(system: Seq<char>)
    ensures
        distinct_keys(instruction_json(system)),
{
    let part = Json::Object(seq![("text"@, Json::Text(system))]);
    lemma_object_distinct(seq![("text"@, Json::Text(system))]);
    lemma_array_distinct(seq![part]);
}

proof fn lemma_tools_distinct(definitions: Seq<ToolDefinition>)
    requires
        sound_definitions(definitions),
    ensures
        distinct_keys(Json::Array(seq![tool_json(declarations_of(definitions))])),
{
    let declarations = declarations_of(definitions);
    let items = declarations.map_values(|d: Declaration| declaration_json(d));
    reveal_strlit("name");
    reveal_strlit("description");
    reveal_strlit("parameters");
    assert("name"@.len() == 4 && "description"@.len() == 11 && "parameters"@.len() == 10);
    assert forall|i: int| 0 <= i < items.len() implies distinct_keys(#[trigger] items[i]) by {
        law_names_stay_distinct(definitions[i].input_schema@);
        lemma_object_distinct(declaration_json(declarations[i])->Object_0);
    }
    lemma_object_distinct(tool_json(declarations)->Object_0);
}

proof fn lemma_request_names_differ()
    ensures
        "contents"@ != "systemInstruction"@,
        "contents"@ != "tools"@,
        "systemInstruction"@ != "tools"@,
{
    reveal_strlit("contents");
    reveal_strlit("systemInstruction");
    reveal_strlit("tools");
    assert("contents"@.len() == 8 && "systemInstruction"@.len() == 17 && "tools"@.len() == 5);
}

/// Every turn goes out as its content, in order, whatever the tools and the instructions are.
pub proof fn law_request_holds_every_content(
    turns: Seq<Turn>,
    definitions: Seq<ToolDefinition>,
    system: Seq<char>,
)
    ensures
        field(request_json(turns, definitions, system), "contents"@) == Some(
            Json::Array(contents_of(turns).map_values(|content: Content| content_json(content))),
        ),
{
    law_first_entry_of_a_name_is_found(
        request_json(turns, definitions, system)->Object_0,
        0,
    );
}

/// Where there are tool definitions, they go out whatever the instructions are: `tools` is one
/// tool set, with one declaration for each definition, in order, that holds the name, the
/// description and the rewritten schema of the definition. Without definitions there is no
/// `tools`.
pub proof fn law_request_declares_every_tool(
    turns: Seq<Turn>,
    definitions: Seq<ToolDefinition>,
    system: Seq<char>,
    i: int,
)
    ensures
        definitions.len() == 0 ==> field(request_json(turns, definitions, system), "tools"@)
            is None,
        definitions.len() > 0 ==> {
            let tools = field(request_json(turns, definitions, system), "tools"@);
            let declared = field(tools->0->Array_0[0], "functionDeclarations"@);
            &&& tools is Some && tools->0 is Array && tools->0->Array_0.len() == 1
            &&& declared is Some && declared->0 is Array
            &&& declared->0->Array_0.len() == definitions.len()
            &&& 0 <= i < definitions.len() ==> {
                let declaration = declared->0->Array_0[i];
                &&& field(declaration, "name"@) == Some(Json::Text(definitions[i].name@))
                &&& field(declaration, "description"@) == Some(
                    Json::Text(definitions[i].description@),
                )
                &&& field(declaration, "parameters"@) == Some(
                    without_const(definitions[i].input_schema@),
                )
            }
        },
{
    lemma_request_names_differ();
    let entries = request_json(turns, definitions, system)->Object_0;
    if definitions.len() == 0 {
        law_missing_names_are_not_found(entries, "tools"@);
    } else {
        law_first_entry_of_a_name_is_found(entries, entries.len() - 1);
        let tools = Json::Array(seq![tool_json(declarations_of(definitions))]);
        assert(entries.last() == ("tools"@, tools));
        assert(tools->Array_0[0] == tool_json(declarations_of(definitions)));
        law_tool_json_holds_every_declaration(declarations_of(definitions));
        if 0 <= i < definitions.len() {
            law_declaration_json_holds_the_declaration(declarations_of(definitions)[i]);
        }
    }
}

/// Where there are instructions, they go out whatever the tools are: `systemInstruction` has one
/// part, which holds their text. Without instructions there is no `systemInstruction`.
pub proof fn law_request_carries_the_instructions(
    turns: Seq<Turn>,
    definitions: Seq<ToolDefinition>,
    system: Seq<char>,
)
    ensures
        system.len() == 0 ==> field(
            request_json(turns, definitions, system),
            "systemInstruction"@,
        ) is None,
        system.len() > 0 ==> {
            let instruction = field(request_json(turns, definitions, system), "systemInstruction"@);
            let parts = field(instruction->0, "parts"@);
            &&& instruction is Some
            &&& parts is Some && parts->0 is Array && parts->0->Array_0.len() == 1
            &&& field(parts->0->Array_0[0], "text"@) == Some(Json::Text(system))
        },
{
    lemma_request_names_differ();
    let entries = request_json(turns, definitions, system)->Object_0;
    if system.len() == 0 {
        law_missing_names_are_not_found(entries, "systemInstruction"@);
    } else {
        assert(entries[1] == ("systemInstruction"@, instruction_json(system)));
        law_first_entry_of_a_name_is_found(entries, 1);
        let outer = instruction_json(system)->Object_0;
        law_first_entry_of_a_name_is_found(outer, 0);
        let inner = outer[0].1->Array_0[0]->Object_0;
        assert(inner[0] == ("text"@, Json::Text(system)));
        law_first_entry_of_a_name_is_found(inner, 0);
    }
}

/// Nothing goes out but the conversation, the instructions and the tools.
pub proof fn law_request_holds_nothing_else(
    turns: Seq<Turn>,
    definitions: Seq<ToolDefinition>,
    system: Seq<char>,
    key: Seq<char>,
)
    requires
        key != "contents"@,
        key != "systemInstruction"@,
        key != "tools"@,
    ensures
        field(request_json(turns, definitions, system), key) is None,
{
    law_missing_names_are_not_found(request_json(turns, definitions, system)->Object_0, key);
}

/// A conversation is sound exactly where the input of every call in it has distinct names.
pub proof fn law_soundness_asks_for_distinct_names_in_every_input(turns: Seq<Turn>)
    ensures
        sound_turns(turns) <==> forall|i: int, j: int|
            0 <= i < turns.len() && 0 <= j < turns[i].blocks.len() && (
            #[trigger] turns[i].blocks[j]) is ToolUse ==> distinct_keys(turns[i].blocks[j]->input),
{
}

/// Definitions are sound exactly where the schema of each has distinct names.
pub proof fn law_soundness_asks_for_distinct_names_in_every_schema(
    definitions: Seq<ToolDefinition>,
)
    ensures
        sound_definitions(definitions) <==> forall|i: int|
            0 <= i < definitions.len() ==> distinct_keys((#[trigger] definitions[i]).input_schema@),
{
}

} // verus!
