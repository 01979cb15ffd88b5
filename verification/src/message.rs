//! The conversation as the caller keeps it.
use vstd::prelude::*;

use crate::json::{Json, JsonValue};

verus! {

/// Who wrote a message.
#[derive(Debug, Clone, Copy, PartialEq, Eq, Structural)]
pub enum Role {
    User,
    Assistant,
}

/// A part of a message.
#[derive(Debug, PartialEq, Eq)]
pub enum ContentBlock {
    /// Text, with the hint for a cache that came with it.
    Text { text: String, cache_control: Option<String> },
    /// A call of a tool by the assistant.
    ToolUse { id: String, name: String, input: JsonValue },
    /// What a tool answered to the call `tool_use_id`.
    ToolResult { tool_use_id: String, content: String, is_error: Option<bool> },
}

/// A message of the conversation.
#[derive(Debug, PartialEq, Eq)]
pub struct Message {
    pub role: Role,
    pub content: Vec<ContentBlock>,
    /// When the message was written.
    pub timestamp: Option<String>,
    /// How long the tool ran whose result this is.
    pub tool_duration_ms: Option<u64>,
}

/// A tool that the assistant may call.
#[derive(Debug, PartialEq, Eq)]
pub struct ToolDefinition {
    pub name: String,
    pub description: String,
    pub input_schema: JsonValue,
}

/// The model of a [`ContentBlock`].
pub enum Block {
    Text(Seq<char>),
    ToolUse { id: Seq<char>, name: Seq<char>, input: Json },
    ToolResult { tool_use_id: Seq<char>, content: Seq<char>, is_error: Option<bool> },
}

/// The model of a [`Message`]: who wrote it, and its blocks.
pub struct Turn {
    pub role: Role,
    pub blocks: Seq<Block>,
}

impl View for ContentBlock {
    type V = Block;

    open spec fn view(&self) -> Block {
        match self {
            ContentBlock::Text { text, .. } => Block::Text(text@),
            ContentBlock::ToolUse { id, name, input } => Block::ToolUse {
                id: id@,
                name: name@,
                input: input@,
            },
            ContentBlock::ToolResult { tool_use_id, content, is_error } => Block::ToolResult {
                tool_use_id: tool_use_id@,
                content: content@,
                is_error: *is_error,
            },
        }
    }
}

impl View for Message {
    type V = Turn;

    open spec fn view(&self) -> Turn {
        Turn { role: self.role, blocks: self.content@.map_values(|block: ContentBlock| block@) }
    }
}

/// The models of `messages`, in order.
pub open spec fn turns(messages: Seq<Message>) -> Seq<Turn> {
    messages.map_values(|message: Message| message@)
}

/// The blocks of all `turns`, in order.
pub open spec fn all_blocks(turns: Seq<Turn>) -> Seq<Block>
    decreases turns.len(),
{
    if turns.len() == 0 {
        seq![]
    } else {
        all_blocks(turns.drop_last()) + turns.last().blocks
    }
}

/// The calls of tools among `blocks`, in order: the id and the name of each.
pub open spec fn calls_in(blocks: Seq<Block>) -> Seq<(Seq<char>, Seq<char>)>
    decreases blocks.len(),
{
    if blocks.len() == 0 {
        seq![]
    } else {
        let before = calls_in(blocks.drop_last());
        match blocks.last() {
            Block::ToolUse { id, name, .. } => before.push((id, name)),
            _ => before,
        }
    }
}

/// The name of the last of `calls` that has the id `id`.
pub open spec fn called_name(calls: Seq<(Seq<char>, Seq<char>)>, id: Seq<char>) -> Option<
    Seq<char>,
>
    decreases calls.len(),
{
    if calls.len() == 0 {
        None
    } else if calls.last().0 == id {
        Some(calls.last().1)
    } else {
        called_name(calls.drop_last(), id)
    }
}

/// The model of a conversation shows each message where it stands: who wrote it, and each of its
/// blocks in order.
pub proof fn law_messages_are_shown_whole(messages: Seq<Message>, i: int)
    requires
        0 <= i < messages.len(),
    ensures
        turns(messages).len() == messages.len(),
        turns(messages)[i].role == messages[i].role,
        turns(messages)[i].blocks.len() == messages[i].content@.len(),
        forall|j: int|
            0 <= j < messages[i].content@.len() ==> (match messages[i].content@[j] {
                ContentBlock::Text { text, .. } => #[trigger] turns(messages)[i].blocks[j]
                    == Block::Text(text@),
                ContentBlock::ToolUse { id, name, input } => turns(messages)[i].blocks[j] == (
                Block::ToolUse { id: id@, name: name@, input: input@ }),
                ContentBlock::ToolResult { tool_use_id, content, is_error } => turns(
                    messages,
                )[i].blocks[j] == (Block::ToolResult {
                    tool_use_id: tool_use_id@,
                    content: content@,
                    is_error,
                }),
            }),
{
}

} // verus!
