use vstd::prelude::*;

use crate::text::owned;

verus! {

/// The function part of a tool call: which tool, and its JSON arguments.
#[derive(Debug)]
pub struct FunctionCall {
    pub name: String,
    pub arguments: String,
}

/// A tool call that the model asked for.
#[derive(Debug)]
pub struct ToolCall {
    pub id: String,
    pub kind: String,
    pub function: FunctionCall,
}

/// One message of a chat completion conversation.
#[derive(Debug)]
pub struct ChatMessage {
    pub role: String,
    pub content: Option<String>,
    pub tool_call_id: Option<String>,
    pub tool_calls: Option<Vec<ToolCall>>,
}

pub struct ToolCallView {
    pub id: Seq<char>,
    pub kind: Seq<char>,
    pub name: Seq<char>,
    pub arguments: Seq<char>,
}

pub struct ChatMessageView {
    pub role: Seq<char>,
    pub content: Option<Seq<char>>,
    pub tool_call_id: Option<Seq<char>>,
    pub tool_calls: Option<Seq<ToolCallView>>,
}

impl View for ToolCall {
    type V = ToolCallView;

    open spec fn view(&self) -> ToolCallView {
        ToolCallView {
            id: self.id@,
            kind: self.kind@,
            name: self.function.name@,
            arguments: self.function.arguments@,
        }
    }
}

pub open spec fn opt_text(o: Option<String>) -> Option<Seq<char>> {
    match o {
        Some(s) => Some(s@),
        None => None,
    }
}

impl View for ChatMessage {
    type V = ChatMessageView;

    open spec fn view(&self) -> ChatMessageView {
        ChatMessageView {
            role: self.role@,
            content: opt_text(self.content),
            tool_call_id: opt_text(self.tool_call_id),
            tool_calls: match self.tool_calls {
                Some(v) => Some(v@.map_values(|t: ToolCall| t@)),
                None => None,
            },
        }
    }
}

/// The views of a list of messages.
pub open spec fn message_views(ms: Seq<ChatMessage>) -> Seq<ChatMessageView> {
    ms.map_values(|m: ChatMessage| m@)
}

impl Clone for FunctionCall {
    fn clone(&self) -> (r: Self)
        ensures
            r == *self,
    {
        FunctionCall { name: self.name.clone(), arguments: self.arguments.clone() }
    }
}

impl Clone for ToolCall {
    fn clone(&self) -> (r: Self)
        ensures
            r == *self,
    {
        ToolCall { id: self.id.clone(), kind: self.kind.clone(), function: self.function.clone() }
    }
}

fn clone_opt_string(o: &Option<String>) -> (r: Option<String>)
    ensures
        r == *o,
{
    match o {
        Some(s) => Some(s.clone()),
        None => None,
    }
}

fn clone_tool_calls(v: &Vec<ToolCall>) -> (r: Vec<ToolCall>)
    ensures
        r@ == v@,
{
    let mut r: Vec<ToolCall> = Vec::new();
    let mut i: usize = 0;
    while i < v.len()
        invariant
            0 <= i <= v.len(),
            r@ == v@.take(i as int),
        decreases v.len() - i,
    {
        r.push(v[i].clone());
        assert(r@ =~= v@.take(i + 1));
        i += 1;
    }
    assert(v@.take(v.len() as int) =~= v@);
    r
}

impl Clone for ChatMessage {
    fn clone(&self) -> (r: Self)
        ensures
            r@ == self@,
    {
        ChatMessage {
            role: self.role.clone(),
            content: clone_opt_string(&self.content),
            tool_call_id: clone_opt_string(&self.tool_call_id),
            tool_calls: match &self.tool_calls {
                Some(v) => Some(clone_tool_calls(v)),
                None => None,
            },
        }
    }
}

impl ChatMessage {
    /// A user message with the given content.
    pub open spec fn user_view(content: Seq<char>) -> ChatMessageView {
        ChatMessageView {
            role: "user"@,
            content: Some(content),
            tool_call_id: None,
            tool_calls: None,
        }
    }

    /// An assistant message with the given content and no tool calls.
    pub open spec fn assistant_view(content: Seq<char>) -> ChatMessageView {
        ChatMessageView {
            role: "assistant"@,
            content: Some(content),
            tool_call_id: None,
            tool_calls: None,
        }
    }

    /// A system message.
    pub fn system(content: &str) -> (m: Self)
        ensures
            m@.role == "system"@,
            m@.content == Some(content@),
            m@.tool_call_id is None,
            m@.tool_calls is None,
    {
        ChatMessage {
            role: owned("system"),
            content: Some(owned(content)),
            tool_call_id: None,
            tool_calls: None,
        }
    }

    /// A user message.
    pub fn user(content: &str) -> (m: Self)
        ensures
            m@.role == "user"@,
            m@.content == Some(content@),
            m@.tool_call_id is None,
            m@.tool_calls is None,
    {
        ChatMessage {
            role: owned("user"),
            content: Some(owned(content)),
            tool_call_id: None,
            tool_calls: None,
        }
    }

    /// An assistant message; an empty list of tool calls is kept as none.
    pub fn assistant(content: Option<String>, tool_calls: Vec<ToolCall>) -> (m: Self)
        ensures
            m@.role == "assistant"@,
            m@.content == opt_text(content),
            m@.tool_call_id is None,
            tool_calls@.len() == 0 ==> m@.tool_calls is None,
            tool_calls@.len() > 0 ==> m@.tool_calls == Some(
                tool_calls@.map_values(|t: ToolCall| t@),
            ),
    {
        let calls = if tool_calls.len() == 0 {
            None
        } else {
            Some(tool_calls)
        };
        ChatMessage { role: owned("assistant"), content, tool_call_id: None, tool_calls: calls }
    }

    /// The result of a tool call.
    pub fn tool(tool_call_id: &str, content: &str) -> (m: Self)
        ensures
            m@.role == "tool"@,
            m@.content == Some(content@),
            m@.tool_call_id == Some(tool_call_id@),
            m@.tool_calls is None,
    {
        ChatMessage {
            role: owned("tool"),
            content: Some(owned(content)),
            tool_call_id: Some(owned(tool_call_id)),
            tool_calls: None,
        }
    }
}

} // verus!
