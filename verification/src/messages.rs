//! Chat messages exchanged with the model, and their constructors.
use vstd::prelude::*;
use crate::json::{Json, json_text};
use crate::text::owned;

verus! {

/// The function a tool call names and the JSON text of its arguments.
pub struct ToolFunction {
    pub name: String,
    pub arguments: String,
}

/// A tool call requested by the assistant.
pub struct ToolCall {
    pub id: String,
    pub function: ToolFunction,
}

/// A system prompt.
pub struct SystemMessage {
    pub content: Option<String>,
}

/// A user turn.
pub struct UserMessage {
    pub content: Option<String>,
}

/// An assistant turn: text, tool calls, or both.
pub struct AssistantMessage {
    pub content: Option<String>,
    pub tool_calls: Option<Vec<ToolCall>>,
}

/// The result of one tool call, sent back to the model.
pub struct ToolMessage {
    pub content: Option<String>,
    pub tool_call_id: String,
}

/// One chat message.
pub enum Message {
    SystemMessage(SystemMessage),
    UserMessage(UserMessage),
    AssistantMessage(AssistantMessage),
    ToolMessage(ToolMessage),
}

/// View of a tool call: id, function name, argument text.
pub struct ToolCallV {
    pub id: Seq<char>,
    pub name: Seq<char>,
    pub arguments: Seq<char>,
}

/// View of a message.
pub enum MessageV {
    System { content: Option<Seq<char>> },
    User { content: Option<Seq<char>> },
    Assistant { content: Option<Seq<char>>, tool_calls: Option<Seq<ToolCallV>> },
    Tool { content: Option<Seq<char>>, tool_call_id: Seq<char> },
}

pub open spec fn opt_view(o: Option<String>) -> Option<Seq<char>> {
    match o {
        Some(s) => Some(s@),
        None => None,
    }
}

pub open spec fn calls_view(v: Seq<ToolCall>) -> Seq<ToolCallV> {
    v.map_values(|c: ToolCall| c@)
}

impl View for ToolCall {
    type V = ToolCallV;

    open spec fn view(&self) -> ToolCallV {
        ToolCallV { id: self.id@, name: self.function.name@, arguments: self.function.arguments@ }
    }
}

impl View for Message {
    type V = MessageV;

    open spec fn view(&self) -> MessageV {
        match self {
            Message::SystemMessage(m) => MessageV::System { content: opt_view(m.content) },
            Message::UserMessage(m) => MessageV::User { content: opt_view(m.content) },
            Message::AssistantMessage(m) => MessageV::Assistant {
                content: opt_view(m.content),
                tool_calls: match m.tool_calls {
                    Some(v) => Some(calls_view(v@)),
                    None => None,
                },
            },
            Message::ToolMessage(m) => MessageV::Tool {
                content: opt_view(m.content),
                tool_call_id: m.tool_call_id@,
            },
        }
    }
}

pub open spec fn history_view(v: Seq<Message>) -> Seq<MessageV> {
    v.map_values(|m: Message| m@)
}

/// Conversation history.
pub type Messages = Vec<Message>;

/// A system message with the given text.
pub fn system(content: &str) -> (m: Message)
    ensures
        m@ == (MessageV::System { content: Some(content@) }),
{
    Message::SystemMessage(SystemMessage { content: Some(owned(content)) })
}

/// A user message with the given text.
pub fn user(content: &str) -> (m: Message)
    ensures
        m@ == (MessageV::User { content: Some(content@) }),
{
    Message::UserMessage(UserMessage { content: Some(owned(content)) })
}

/// An assistant message with the given text and no tool calls.
pub fn assistant(content: &str) -> (m: Message)
    ensures
        m@ == (MessageV::Assistant { content: Some(content@), tool_calls: None }),
{
    Message::AssistantMessage(AssistantMessage { content: Some(owned(content)), tool_calls: None })
}

/// A tool result message answering the call `tool_call_id`.
pub fn tool(content: &str, tool_call_id: &str) -> (m: Message)
    ensures
        m@ == (MessageV::Tool { content: Some(content@), tool_call_id: tool_call_id@ }),
{
    Message::ToolMessage(ToolMessage { content: Some(owned(content)), tool_call_id: owned(tool_call_id) })
}

/// An assistant message holding a single tool call, with no text; the
/// arguments are the JSON text of `arguments`.
pub fn assistant_tool_call(name: &str, call_id: &str, arguments: &Json) -> (m: Message)
    ensures
        m@ == (MessageV::Assistant {
            content: None,
            tool_calls: Some(seq![ToolCallV { id: call_id@, name: name@, arguments: json_text(arguments@) }]),
        }),
{
    assistant_call_text(name, call_id, crate::json::to_json_string(arguments))
}

/// An assistant message holding a single tool call with the given argument
/// text, and no text of its own.
pub fn assistant_call_text(name: &str, call_id: &str, arguments: String) -> (m: Message)
    ensures
        m@ == (MessageV::Assistant {
            content: None,
            tool_calls: Some(seq![ToolCallV { id: call_id@, name: name@, arguments: arguments@ }]),
        }),
{
    let call = ToolCall { id: owned(call_id), function: ToolFunction { name: owned(name), arguments } };
    let mut calls: Vec<ToolCall> = Vec::new();
    calls.push(call);
    let m = Message::AssistantMessage(AssistantMessage { content: None, tool_calls: Some(calls) });
    proof {
        assert(calls_view(calls@) =~= seq![calls@[0]@]);
    }
    m
}

} // verus!
