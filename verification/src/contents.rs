//! The conversation as the service takes it.
use vstd::prelude::*;

use crate::json::{Json, JsonValue, entry_models, lemma_object_view};
use crate::message::{
    Block, ContentBlock, Message, Role, Turn, all_blocks, called_name, calls_in, turns,
};
use crate::text::same_text;

verus! {

/// A call of a function by the model.
#[derive(Debug, PartialEq, Eq)]
pub struct GeminiFunctionCall {
    pub name: String,
    pub args: JsonValue,
}

/// What a function answered.
#[derive(Debug, PartialEq, Eq)]
pub struct GeminiFunctionResponse {
    pub name: String,
    pub response: JsonValue,
}

/// A part of a content.
#[derive(Debug, PartialEq, Eq)]
pub struct GeminiPart {
    pub text: Option<String>,
    pub function_call: Option<GeminiFunctionCall>,
    pub function_response: Option<GeminiFunctionResponse>,
}

/// One turn of the conversation.
#[derive(Debug, PartialEq, Eq)]
pub struct GeminiContent {
    pub role: String,
    pub parts: Vec<GeminiPart>,
}

/// The model of a [`GeminiFunctionCall`].
pub struct Call {
    pub name: Seq<char>,
    pub args: Json,
}

/// The model of a [`GeminiFunctionResponse`].
pub struct Reply {
    pub name: Seq<char>,
    pub response: Json,
}

/// The model of a [`GeminiPart`].
pub struct Part {
    pub text: Option<Seq<char>>,
    pub call: Option<Call>,
    pub reply: Option<Reply>,
}

/// The model of a [`GeminiContent`].
pub struct Content {
    pub role: Seq<char>,
    pub parts: Seq<Part>,
}

impl View for GeminiFunctionCall {
    type V = Call;

    open spec fn view(&self) -> Call {
        Call { name: self.name@, args: self.args@ }
    }
}

impl View for GeminiFunctionResponse {
    type V = Reply;

    open spec fn view(&self) -> Reply {
        Reply { name: self.name@, response: self.response@ }
    }
}

impl View for GeminiPart {
    type V = Part;

    open spec fn view(&self) -> Part {
        Part {
            text: match self.text {
                Some(text) => Some(text@),
                None => None,
            },
            call: match self.function_call {
                Some(call) => Some(call@),
                None => None,
            },
            reply: match self.function_response {
                Some(reply) => Some(reply@),
                None => None,
            },
        }
    }
}

impl View for GeminiContent {
    type V = Content;

    open spec fn view(&self) -> Content {
        Content { role: self.role@, parts: part_models(self.parts@) }
    }
}

/// The models of `parts`, in order.
pub open spec fn part_models(parts: Seq<GeminiPart>) -> Seq<Part> {
    parts.map_values(|part: GeminiPart| part@)
}

/// The models of `contents`, in order.
pub open spec fn content_models(contents: Seq<GeminiContent>) -> Seq<Content> {
    contents.map_values(|content: GeminiContent| content@)
}

/// What the service calls `role`.
pub open spec fn role_name(role: Role) -> Seq<char> {
    match role {
        Role::User => "user"@,
        Role::Assistant => "model"@,
    }
}

/// What a tool answered, as the service takes it: an `output`, or an `error`.
pub open spec fn tool_answer(content: Seq<char>, is_error: Option<bool>) -> Json {
    Json::Object(
        seq![
            (
                if is_error == Some(true) {
                    "error"@
                } else {
                    "output"@
                },
                Json::Text(content),
            ),
        ],
    )
}

/// The part that stands for `block`, where `calls` were made before it. The answer of a tool
/// goes under the name of the call that it answers; under the id, where no such call was made.
pub open spec fn part_of(block: Block, calls: Seq<(Seq<char>, Seq<char>)>) -> Part {
    match block {
        Block::Text(text) => Part { text: Some(text), call: None, reply: None },
        Block::ToolUse { name, input, .. } => Part {
            text: None,
            call: Some(Call { name, args: input }),
            reply: None,
        },
        Block::ToolResult { tool_use_id, content, is_error } => Part {
            text: None,
            call: None,
            reply: Some(
                Reply {
                    name: match called_name(calls, tool_use_id) {
                        Some(name) => name,
                        None => tool_use_id,
                    },
                    response: tool_answer(content, is_error),
                },
            ),
        },
    }
}

/// The blocks before block `j` of turn `i`.
pub open spec fn blocks_before(turns: Seq<Turn>, i: int, j: int) -> Seq<Block> {
    all_blocks(turns.take(i)) + turns[i].blocks.take(j)
}

/// The parts that stand for the blocks of turn `i`, one for each.
pub open spec fn parts_of(turns: Seq<Turn>, i: int) -> Seq<Part> {
    Seq::new(
        turns[i].blocks.len(),
        |j: int| part_of(turns[i].blocks[j], calls_in(blocks_before(turns, i, j))),
    )
}

/// The contents that stand for `turns`, one for each.
pub open spec fn contents_of(turns: Seq<Turn>) -> Seq<Content> {
    Seq::new(
        turns.len(),
        |i: int| Content { role: role_name(turns[i].role), parts: parts_of(turns, i) },
    )
}

/// The id and the name of each of `calls`.
spec fn call_texts(calls: Seq<(String, String)>) -> Seq<(Seq<char>, Seq<char>)> {
    calls.map_values(|call: (String, String)| (call.0@, call.1@))
}

/// The contents that stand for `messages`: one content for each message, one part for each
/// block.
pub fn build_contents(messages: &[Message]) -> (contents: Vec<GeminiContent>)
    ensures
        content_models(contents@) == contents_of(turns(messages@)),
{
    let ghost all = turns(messages@);
    let mut contents: Vec<GeminiContent> = Vec::new();
    let mut calls: Vec<(String, String)> = Vec::new();
    let mut i: usize = 0;
    while i < messages.len()
        invariant
            i <= messages@.len(),
            all == turns(messages@),
            call_texts(calls@) == calls_in(all_blocks(all.take(i as int))),
            contents@.len() == i,
            forall|k: int|
                0 <= k < i ==> (#[trigger] contents@[k])@ == contents_of(all)[k],
        decreases messages@.len() - i,
    {
        let message = &messages[i];
        let ghost blocks = all[i as int].blocks;
        let mut parts: Vec<GeminiPart> = Vec::new();
        let mut j: usize = 0;
        while j < message.content.len()
            invariant
                j <= message.content@.len(),
                0 <= i < all.len(),
                all[i as int] == message@,
                blocks == all[i as int].blocks,
                call_texts(calls@) == calls_in(blocks_before(all, i as int, j as int)),
                parts@.len() == j,
                forall|k: int|
                    0 <= k < j ==> (#[trigger] parts@[k])@ == parts_of(all, i as int)[k],
            decreases message.content@.len() - j,
        {
            let block = &message.content[j];
            let ghost before = blocks_before(all, i as int, j as int);
            let ghost after = blocks_before(all, i as int, j + 1);
            assert(after.drop_last() =~= before);
            parts.push(build_part(block, &calls));
            if let ContentBlock::ToolUse { id, name, .. } = block {
                calls.push((id.clone(), name.clone()));
            }
            j = j + 1;
        }
        assert(part_models(parts@) =~= parts_of(all, i as int));
        assert(blocks.take(j as int) =~= blocks);
        assert(all.take(i + 1).drop_last() =~= all.take(i as int));
        contents.push(GeminiContent { role: wire_role(message.role), parts });
        i = i + 1;
    }
    contents
}

/// What the service calls `role`.
fn wire_role(role: Role) -> (name: String)
    ensures
        name@ == role_name(role),
{
    match role {
        Role::User => "user".to_owned(),
        Role::Assistant => "model".to_owned(),
    }
}

/// The part that stands for `block`, where `calls` were made before it.
fn build_part(block: &ContentBlock, calls: &Vec<(String, String)>) -> (part: GeminiPart)
    ensures
        part@ == part_of(block@, call_texts(calls@)),
{
    match block {
        ContentBlock::Text { text, .. } => GeminiPart {
            text: Some(text.clone()),
            function_call: None,
            function_response: None,
        },
        ContentBlock::ToolUse { name, input, .. } => GeminiPart {
            text: None,
            function_call: Some(GeminiFunctionCall { name: name.clone(), args: input.clone() }),
            function_response: None,
        },
        ContentBlock::ToolResult { tool_use_id, content, is_error } => {
            let key: &str = match is_error {
                Some(true) => "error",
                _ => "output",
            };
            let mut entries: Vec<(String, JsonValue)> = Vec::new();
            entries.push((key.to_owned(), JsonValue::String(content.clone())));
            proof {
                lemma_object_view(entries);
                assert(entry_models(entries@) =~= tool_answer(content@, *is_error)->Object_0);
            }
            GeminiPart {
                text: None,
                function_call: None,
                function_response: Some(
                    GeminiFunctionResponse {
                        name: answered_name(calls, tool_use_id),
                        response: JsonValue::Object(entries),
                    },
                ),
            }
        },
    }
}

/// The name of the last of `calls` that has the id `id`; the id itself where there is none.
fn answered_name(calls: &Vec<(String, String)>, id: &String) -> (name: String)
    ensures
        name@ == match called_name(call_texts(calls@), id@) {
            Some(name) => name,
            None => id@,
        },
{
    let ghost all = call_texts(calls@);
    let mut i: usize = calls.len();
    assert(all.take(i as int) =~= all);
    while i > 0
        invariant
            i <= calls@.len(),
            all == call_texts(calls@),
            called_name(all, id@) == called_name(all.take(i as int), id@),
        decreases i,
    {
        i = i - 1;
        assert(all.take(i + 1).drop_last() =~= all.take(i as int));
        if same_text(calls[i].0.as_str(), id.as_str()) {
            return calls[i].1.clone();
        }
    }
    id.clone()
}

/// One content stands for each message and one part for each block, under the name that the
/// service has for the role.
pub proof fn law_contents_match_messages(turns: Seq<Turn>, i: int)
    requires
        0 <= i < turns.len(),
    ensures
        contents_of(turns).len() == turns.len(),
        contents_of(turns)[i].role == role_name(turns[i].role),
        contents_of(turns)[i].parts.len() == turns[i].blocks.len(),
{
}

/// A call of a tool keeps its name and its input, and text stays text.
pub proof fn law_text_and_calls_are_preserved(turns: Seq<Turn>, i: int, j: int)
    requires
        0 <= i < turns.len(),
        0 <= j < turns[i].blocks.len(),
    ensures
        match turns[i].blocks[j] {
            Block::Text(text) => contents_of(turns)[i].parts[j].text == Some(text),
            Block::ToolUse { name, input, .. } => contents_of(turns)[i].parts[j].call == Some(
                Call { name, args: input },
            ),
            Block::ToolResult { .. } => contents_of(turns)[i].parts[j].reply is Some,
        },
{
}

/// The result of a tool goes out under the name of the tool: that of the latest call before it
/// with the id that it answers. What the tool said goes with it.
pub proof fn law_results_name_the_call_they_answer(
    turns: Seq<Turn>,
    i: int,
    j: int,
    at: int,
    input: Json,
    name: Seq<char>,
)
    requires
        0 <= i < turns.len(),
        0 <= j < turns[i].blocks.len(),
        turns[i].blocks[j] is ToolResult,
        0 <= at < blocks_before(turns, i, j).len(),
        blocks_before(turns, i, j)[at] == (Block::ToolUse {
            id: turns[i].blocks[j]->tool_use_id,
            name,
            input,
        }),
        forall|k: int|
            at < k < blocks_before(turns, i, j).len() ==> !is_call_with(
                #[trigger] blocks_before(turns, i, j)[k],
                turns[i].blocks[j]->tool_use_id,
            ),
    ensures
        contents_of(turns)[i].parts[j].reply == Some(
            Reply {
                name,
                response: tool_answer(
                    turns[i].blocks[j]->ToolResult_content,
                    turns[i].blocks[j]->is_error,
                ),
            },
        ),
{
    lemma_called_name(blocks_before(turns, i, j), at, turns[i].blocks[j]->tool_use_id);
}

/// Whether `block` is a call of a tool with the id `id`.
pub open spec fn is_call_with(block: Block, id: Seq<char>) -> bool {
    block is ToolUse && block->id == id
}

proof fn lemma_called_name(blocks: Seq<Block>, at: int, id: Seq<char>)
    requires
        0 <= at < blocks.len(),
        is_call_with(blocks[at], id),
        forall|k: int| at < k < blocks.len() ==> !is_call_with(#[trigger] blocks[k], id),
    ensures
        called_name(calls_in(blocks), id) == Some(blocks[at]->name),
    decreases blocks.len(),
{
    let before = blocks.drop_last();
    if at < blocks.len() - 1 {
        lemma_called_name(before, at, id);
    }
    if blocks.last() is ToolUse {
        assert(calls_in(blocks).drop_last() =~= calls_in(before));
    }
}

/// What the user wrote goes out under `user`, and what the assistant wrote under `model`.
pub proof fn law_roles_go_out_under_their_names(turns: Seq<Turn>, i: int)
    requires
        0 <= i < turns.len(),
    ensures
        turns[i].role == Role::User ==> contents_of(turns)[i].role == "user"@,
        turns[i].role == Role::Assistant ==> contents_of(turns)[i].role == "model"@,
{
}

/// Text goes out as text alone, and a call as a call alone, whatever stands before them.
pub proof fn law_text_and_calls_go_out_alone(turns: Seq<Turn>, i: int, j: int)
    requires
        0 <= i < turns.len(),
        0 <= j < turns[i].blocks.len(),
    ensures
        match turns[i].blocks[j] {
            Block::Text(text) => contents_of(turns)[i].parts[j] == (Part {
                text: Some(text),
                call: None,
                reply: None,
            }),
            Block::ToolUse { name, input, .. } => contents_of(turns)[i].parts[j] == (Part {
                text: None,
                call: Some(Call { name, args: input }),
                reply: None,
            }),
            Block::ToolResult { .. } => {
                &&& contents_of(turns)[i].parts[j].text is None
                &&& contents_of(turns)[i].parts[j].call is None
            },
        },
{
}

/// What a tool said goes out as it said it: as the `output`, or as the `error` where the tool
/// failed, and with nothing besides.
pub proof fn law_results_carry_what_the_tool_said(turns: Seq<Turn>, i: int, j: int)
    requires
        0 <= i < turns.len(),
        0 <= j < turns[i].blocks.len(),
        turns[i].blocks[j] is ToolResult,
    ensures
        contents_of(turns)[i].parts[j].reply is Some,
        turns[i].blocks[j]->is_error == Some(true)
            ==> contents_of(turns)[i].parts[j].reply->0.response == Json::Object(
            seq![("error"@, Json::Text(turns[i].blocks[j]->ToolResult_content))],
        ),
        turns[i].blocks[j]->is_error != Some(true)
            ==> contents_of(turns)[i].parts[j].reply->0.response == Json::Object(
            seq![("output"@, Json::Text(turns[i].blocks[j]->ToolResult_content))],
        ),
{
}

/// Whether block `l` of turn `k` comes before block `j` of turn `i`.
spec fn comes_before(k: int, l: int, i: int, j: int) -> bool {
    k < i || (k == i && l < j)
}

/// A result goes out under the name of the call with its id, in whatever turn the call was made:
/// that of the latest, where there are several before it.
pub proof fn law_results_go_under_the_latest_call_with_their_id(
    turns: Seq<Turn>,
    i: int,
    j: int,
    ci: int,
    cj: int,
)
    requires
        0 <= i < turns.len(),
        0 <= j < turns[i].blocks.len(),
        turns[i].blocks[j] is ToolResult,
        0 <= ci < turns.len(),
        0 <= cj < turns[ci].blocks.len(),
        ci < i || (ci == i && cj < j),
        turns[ci].blocks[cj] is ToolUse,
        turns[ci].blocks[cj]->id == turns[i].blocks[j]->tool_use_id,
        forall|k: int, l: int|
            0 <= k < turns.len() && 0 <= l < turns[k].blocks.len() && (ci < k || (ci == k && cj
                < l)) && (k < i || (k == i && l < j)) && (#[trigger] turns[k].blocks[l])
                is ToolUse ==> turns[k].blocks[l]->id != turns[i].blocks[j]->tool_use_id,
    ensures
        contents_of(turns)[i].parts[j].reply is Some,
        contents_of(turns)[i].parts[j].reply->0.name == turns[ci].blocks[cj]->name,
{
    let id = turns[i].blocks[j]->tool_use_id;
    let earlier = turns.take(i);
    let here = turns[i].blocks.take(j);
    lemma_calls_in_add(all_blocks(earlier), here);
    lemma_called_name_add(calls_in(all_blocks(earlier)), calls_in(here), id);
    if ci == i {
        assert(here[cj] == turns[ci].blocks[cj]);
        assert forall|k: int| cj < k < here.len() implies !is_call_with(#[trigger] here[k], id) by {
            assert(here[k] == turns[i].blocks[k]);
        }
        lemma_called_name(here, cj, id);
    } else {
        assert forall|k: int| 0 <= k < here.len() implies !is_call_with(
            #[trigger] here[k],
            id,
        ) by {
            assert(here[k] == turns[i].blocks[k]);
        }
        lemma_no_call(here, id);
        assert(earlier[ci] == turns[ci]);
        assert forall|k: int, l: int|
            0 <= k < earlier.len() && 0 <= l < earlier[k].blocks.len() && comes_before(
                ci,
                cj,
                k,
                l,
            ) implies !is_call_with(#[trigger] earlier[k].blocks[l], id) by {
            assert(earlier[k] == turns[k]);
            assert(turns[k].blocks[l] == earlier[k].blocks[l]);
        }
        lemma_called_in_turns(earlier, ci, cj, id);
    }
}

/// A result whose id no call before it has goes out under the id.
pub proof fn law_results_without_a_call_go_under_their_id(turns: Seq<Turn>, i: int, j: int)
    requires
        0 <= i < turns.len(),
        0 <= j < turns[i].blocks.len(),
        turns[i].blocks[j] is ToolResult,
        forall|k: int, l: int|
            0 <= k < turns.len() && 0 <= l < turns[k].blocks.len() && (k < i || (k == i && l < j))
                && (#[trigger] turns[k].blocks[l]) is ToolUse ==> turns[k].blocks[l]->id
                != turns[i].blocks[j]->tool_use_id,
    ensures
        contents_of(turns)[i].parts[j].reply is Some,
        contents_of(turns)[i].parts[j].reply->0.name == turns[i].blocks[j]->tool_use_id,
{
    let id = turns[i].blocks[j]->tool_use_id;
    let earlier = turns.take(i);
    let here = turns[i].blocks.take(j);
    lemma_calls_in_add(all_blocks(earlier), here);
    lemma_called_name_add(calls_in(all_blocks(earlier)), calls_in(here), id);
    assert forall|k: int| 0 <= k < here.len() implies !is_call_with(#[trigger] here[k], id) by {
        assert(here[k] == turns[i].blocks[k]);
    }
    lemma_no_call(here, id);
    assert forall|k: int, l: int|
        0 <= k < earlier.len() && 0 <= l < earlier[k].blocks.len() implies !is_call_with(
        #[trigger] earlier[k].blocks[l],
        id,
    ) by {
        assert(earlier[k] == turns[k]);
        assert(turns[k].blocks[l] == earlier[k].blocks[l]);
    }
    lemma_no_call_in_turns(earlier, id);
}

proof fn lemma_calls_in_add(a: Seq<Block>, b: Seq<Block>)
    ensures
        calls_in(a + b) == calls_in(a) + calls_in(b),
    decreases b.len(),
{
    if b.len() == 0 {
        assert(a + b =~= a);
        assert(calls_in(a) + calls_in(b) =~= calls_in(a));
    } else {
        lemma_calls_in_add(a, b.drop_last());
        assert((a + b).drop_last() =~= a + b.drop_last());
        assert((a + b).last() == b.last());
        assert(calls_in(a + b) =~= calls_in(a) + calls_in(b));
    }
}

proof fn lemma_called_name_add(
    first: Seq<(Seq<char>, Seq<char>)>,
    rest: Seq<(Seq<char>, Seq<char>)>,
    id: Seq<char>,
)
    ensures
        called_name(first + rest, id) == match called_name(rest, id) {
            Some(name) => Some(name),
            None => called_name(first, id),
        },
    decreases rest.len(),
{
    if rest.len() == 0 {
        assert(first + rest =~= first);
    } else {
        lemma_called_name_add(first, rest.drop_last(), id);
        assert((first + rest).drop_last() =~= first + rest.drop_last());
        assert((first + rest).last() == rest.last());
    }
}

proof fn lemma_no_call(blocks: Seq<Block>, id: Seq<char>)
    requires
        forall|k: int| 0 <= k < blocks.len() ==> !is_call_with(#[trigger] blocks[k], id),
    ensures
        called_name(calls_in(blocks), id) is None,
    decreases blocks.len(),
{
    if blocks.len() > 0 {
        let before = blocks.drop_last();
        assert forall|k: int| 0 <= k < before.len() implies !is_call_with(
            #[trigger] before[k],
            id,
        ) by {
            assert(before[k] == blocks[k]);
        }
        lemma_no_call(before, id);
        assert(!is_call_with(blocks[blocks.len() - 1], id));
        if blocks.last() is ToolUse {
            assert(calls_in(blocks).drop_last() =~= calls_in(before));
        }
    }
}

proof fn lemma_no_call_in_turns(turns: Seq<Turn>, id: Seq<char>)
    requires
        forall|k: int, l: int|
            0 <= k < turns.len() && 0 <= l < turns[k].blocks.len() ==> !is_call_with(
                #[trigger] turns[k].blocks[l],
                id,
            ),
    ensures
        called_name(calls_in(all_blocks(turns)), id) is None,
    decreases turns.len(),
{
    if turns.len() > 0 {
        let before = turns.drop_last();
        let last = turns.last().blocks;
        assert forall|k: int, l: int|
            0 <= k < before.len() && 0 <= l < before[k].blocks.len() implies !is_call_with(
            #[trigger] before[k].blocks[l],
            id,
        ) by {
            assert(before[k] == turns[k]);
            assert(turns[k].blocks[l] == before[k].blocks[l]);
        }
        lemma_no_call_in_turns(before, id);
        assert forall|l: int| 0 <= l < last.len() implies !is_call_with(#[trigger] last[l], id) by {
            assert(turns[turns.len() - 1].blocks[l] == last[l]);
        }
        lemma_no_call(last, id);
        lemma_calls_in_add(all_blocks(before), last);
        lemma_called_name_add(calls_in(all_blocks(before)), calls_in(last), id);
    }
}

proof fn lemma_called_in_turns(turns: Seq<Turn>, ci: int, cj: int, id: Seq<char>)
    requires
        0 <= ci < turns.len(),
        0 <= cj < turns[ci].blocks.len(),
        is_call_with(turns[ci].blocks[cj], id),
        forall|k: int, l: int|
            0 <= k < turns.len() && 0 <= l < turns[k].blocks.len() && comes_before(ci, cj, k, l)
                ==> !is_call_with(#[trigger] turns[k].blocks[l], id),
    ensures
        called_name(calls_in(all_blocks(turns)), id) == Some(turns[ci].blocks[cj]->name),
    decreases turns.len(),
{
    let before = turns.drop_last();
    let last = turns.last().blocks;
    lemma_calls_in_add(all_blocks(before), last);
    lemma_called_name_add(calls_in(all_blocks(before)), calls_in(last), id);
    if ci == turns.len() - 1 {
        assert forall|l: int| cj < l < last.len() implies !is_call_with(#[trigger] last[l], id) by {
            assert(turns[ci].blocks[l] == last[l]);
        }
        lemma_called_name(last, cj, id);
    } else {
        assert forall|l: int| 0 <= l < last.len() implies !is_call_with(#[trigger] last[l], id) by {
            assert(turns[turns.len() - 1].blocks[l] == last[l]);
        }
        lemma_no_call(last, id);
        assert(before[ci] == turns[ci]);
        assert forall|k: int, l: int|
            0 <= k < before.len() && 0 <= l < before[k].blocks.len() && comes_before(
                ci,
                cj,
                k,
                l,
            ) implies !is_call_with(#[trigger] before[k].blocks[l], id) by {
            assert(before[k] == turns[k]);
            assert(turns[k].blocks[l] == before[k].blocks[l]);
        }
        lemma_called_in_turns(before, ci, cj, id);
    }
}

/// The model of contents shows each of them where it stands: its role, and of each of its parts
/// the text, the call and the reply that the part has.
pub proof fn law_contents_are_shown_whole(contents: Seq<GeminiContent>, i: int, j: int)
    requires
        0 <= i < contents.len(),
    ensures
        content_models(contents).len() == contents.len(),
        content_models(contents)[i].role == contents[i].role@,
        content_models(contents)[i].parts.len() == contents[i].parts@.len(),
        0 <= j < contents[i].parts@.len() ==> {
            let part = contents[i].parts@[j];
            let shown = content_models(contents)[i].parts[j];
            &&& shown.text is Some <==> part.text is Some
            &&& part.text is Some ==> shown.text->0 == part.text->0@
            &&& shown.call is Some <==> part.function_call is Some
            &&& part.function_call is Some ==> shown.call->0.name == part.function_call->0.name@
                && shown.call->0.args == part.function_call->0.args@
            &&& shown.reply is Some <==> part.function_response is Some
            &&& part.function_response is Some ==> shown.reply->0.name
                == part.function_response->0.name@ && shown.reply->0.response
                == part.function_response->0.response@
        },
{
}

} // verus!
