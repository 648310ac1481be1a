//! The messages, tools and requests of a chat with a language model.

use vstd::prelude::*;

use crate::json::{Json, JsonView};
use crate::text;

verus! {

/// The function that a model wants called, with its arguments in JSON.
#[derive(Debug, Clone, PartialEq, Eq)]
pub struct FunctionCall {
    pub name: String,
    pub arguments: String,
}

/// A call of a tool that a model asks for.
#[derive(Debug, Clone, PartialEq, Eq)]
pub struct ToolCall {
    pub id: String,
    pub call_type: String,
    pub function: FunctionCall,
}

/// A message of a chat.
#[derive(Debug, Clone, PartialEq, Eq)]
pub struct Message {
    pub role: String,
    pub content: Option<String>,
    pub tool_calls: Option<Vec<ToolCall>>,
    pub tool_call_id: Option<String>,
}

/// A function that a model may call.
#[derive(Debug, PartialEq)]
pub struct OpenAIFunction {
    pub name: String,
    pub description: String,
    pub parameters: Json,
}

/// A tool that a model may call.
#[derive(Debug, PartialEq)]
pub struct OpenAITool {
    pub tool_type: String,
    pub function: OpenAIFunction,
}

/// How many tokens a request took.
#[derive(Debug, Clone, Copy, PartialEq, Eq, Structural)]
pub struct Usage {
    pub prompt_tokens: u64,
    pub completion_tokens: u64,
    pub total_tokens: u64,
}

/// The message that a model answers with.
#[derive(Debug, Clone, PartialEq, Eq)]
pub struct ResponseMessage {
    pub content: Option<String>,
    pub reasoning_content: Option<String>,
    pub reasoning: Option<String>,
    pub tool_calls: Option<Vec<ToolCall>>,
}

/// A model's answer: its choices, and what they took.
#[derive(Debug, Clone, PartialEq, Eq)]
pub struct ChatCompletionResponse {
    pub choices: Vec<ResponseMessage>,
    pub usage: Option<Usage>,
}

/// A request to a model. The temperature is a JSON number.
#[derive(Debug, PartialEq)]
pub struct ChatCompletionRequest {
    pub model: String,
    pub messages: Vec<Message>,
    pub tools: Option<Vec<OpenAITool>>,
    pub tool_choice: Option<String>,
    pub max_tokens: Option<u32>,
    pub temperature: Option<Json>,
    pub stream: bool,
}

/// What a call is, over texts.
pub struct CallView {
    pub id: Seq<char>,
    pub call_type: Seq<char>,
    pub name: Seq<char>,
    pub arguments: Seq<char>,
}

/// What a message is, over texts.
pub struct MessageView {
    pub role: Seq<char>,
    pub content: Option<Seq<char>>,
    pub tool_calls: Option<Seq<CallView>>,
    pub tool_call_id: Option<Seq<char>>,
}

/// What a tool is, over texts.
pub struct ToolView {
    pub tool_type: Seq<char>,
    pub name: Seq<char>,
    pub description: Seq<char>,
    pub parameters: JsonView,
}

/// What a request is, over texts.
pub struct RequestView {
    pub model: Seq<char>,
    pub messages: Seq<MessageView>,
    pub tools: Option<Seq<ToolView>>,
    pub tool_choice: Option<Seq<char>>,
    pub max_tokens: Option<u32>,
    pub temperature: Option<JsonView>,
    pub stream: bool,
}

/// What a model's message is, over texts.
pub struct ResponseMessageView {
    pub content: Option<Seq<char>>,
    pub reasoning_content: Option<Seq<char>>,
    pub reasoning: Option<Seq<char>>,
    pub tool_calls: Option<Seq<CallView>>,
}

/// What a model's answer is, over texts.
pub struct ResponseView {
    pub choices: Seq<ResponseMessageView>,
    pub usage: Option<Usage>,
}

impl ToolCall {
    pub open spec fn view(&self) -> CallView {
        CallView {
            id: self.id@,
            call_type: self.call_type@,
            name: self.function.name@,
            arguments: self.function.arguments@,
        }
    }

    /// The same call again.
    pub fn copy(&self) -> (r: ToolCall)
        ensures
            r@ == self@,
    {
        ToolCall {
            id: self.id.clone(),
            call_type: self.call_type.clone(),
            function: FunctionCall {
                name: self.function.name.clone(),
                arguments: self.function.arguments.clone(),
            },
        }
    }
}

/// What calls are, over texts.
pub open spec fn calls_view(calls: Seq<ToolCall>) -> Seq<CallView> {
    Seq::new(calls.len(), |i: int| calls[i]@)
}

/// What calls that may be missing are, over texts.
pub open spec fn opt_calls_view(calls: Option<Vec<ToolCall>>) -> Option<Seq<CallView>> {
    match calls {
        Some(v) => Some(calls_view(v@)),
        None => None,
    }
}

/// The same calls again.
pub fn copy_calls(calls: &Vec<ToolCall>) -> (r: Vec<ToolCall>)
    ensures
        calls_view(r@) == calls_view(calls@),
{
    let mut out: Vec<ToolCall> = Vec::new();
    let mut i: usize = 0;
    while i < calls.len()
        invariant
            i <= calls@.len(),
            out@.len() == i,
            forall|j: int| 0 <= j < i ==> (#[trigger] out@[j])@ == calls@[j]@,
        decreases calls@.len() - i,
    {
        out.push(calls[i].copy());
        i += 1;
    }
    proof {
        assert(calls_view(out@) =~= calls_view(calls@));
    }
    out
}

/// The same text again, if there is one.
pub fn copy_opt(s: &Option<String>) -> (r: Option<String>)
    ensures
        text::opt_text(r) == text::opt_text(*s),
{
    match s {
        Some(t) => Some(t.clone()),
        None => None,
    }
}

impl Message {
    pub open spec fn view(&self) -> MessageView {
        MessageView {
            role: self.role@,
            content: text::opt_text(self.content),
            tool_calls: opt_calls_view(self.tool_calls),
            tool_call_id: text::opt_text(self.tool_call_id),
        }
    }

    /// The same message again.
    pub fn copy(&self) -> (r: Message)
        ensures
            r@ == self@,
    {
        Message {
            role: self.role.clone(),
            content: copy_opt(&self.content),
            tool_calls: match &self.tool_calls {
                Some(calls) => Some(copy_calls(calls)),
                None => None,
            },
            tool_call_id: copy_opt(&self.tool_call_id),
        }
    }
}

/// What messages are, over texts.
pub open spec fn messages_view(messages: Seq<Message>) -> Seq<MessageView> {
    Seq::new(messages.len(), |i: int| messages[i]@)
}

/// One message more is one message more.
pub proof fn lemma_messages_push(messages: Seq<Message>, m: Message)
    ensures
        messages_view(messages.push(m)) == messages_view(messages).push(m@),
{
    assert(messages_view(messages.push(m)) =~= messages_view(messages).push(m@));
}

/// The same messages again.
pub fn copy_messages(messages: &Vec<Message>) -> (r: Vec<Message>)
    ensures
        messages_view(r@) == messages_view(messages@),
{
    let mut out: Vec<Message> = Vec::new();
    let mut i: usize = 0;
    while i < messages.len()
        invariant
            i <= messages@.len(),
            out@.len() == i,
            forall|j: int| 0 <= j < i ==> (#[trigger] out@[j])@ == messages@[j]@,
        decreases messages@.len() - i,
    {
        out.push(messages[i].copy());
        i += 1;
    }
    proof {
        assert(messages_view(out@) =~= messages_view(messages@));
    }
    out
}

/// A message that is one text.
pub open spec fn plain_message(role: Seq<char>, content: Seq<char>) -> MessageView {
    MessageView { role, content: Some(content), tool_calls: None, tool_call_id: None }
}

/// A message that is one text.
pub fn plain(role: &str, content: &str) -> (r: Message)
    ensures
        r@ == plain_message(role@, content@),
{
    Message {
        role: text::copy(role),
        content: Some(text::copy(content)),
        tool_calls: None,
        tool_call_id: None,
    }
}

impl OpenAITool {
    pub open spec fn view(&self) -> ToolView {
        ToolView {
            tool_type: self.tool_type@,
            name: self.function.name@,
            description: self.function.description@,
            parameters: self.function.parameters@,
        }
    }

    /// The same tool again.
    pub fn copy(&self) -> (r: OpenAITool)
        ensures
            r@ == self@,
    {
        OpenAITool {
            tool_type: self.tool_type.clone(),
            function: OpenAIFunction {
                name: self.function.name.clone(),
                description: self.function.description.clone(),
                parameters: self.function.parameters.copy(),
            },
        }
    }
}

/// What tools are, over texts.
pub open spec fn tools_view(tools: Seq<OpenAITool>) -> Seq<ToolView> {
    Seq::new(tools.len(), |i: int| tools[i]@)
}

/// The same tools again.
pub fn copy_tools(tools: &Vec<OpenAITool>) -> (r: Vec<OpenAITool>)
    ensures
        tools_view(r@) == tools_view(tools@),
{
    let mut out: Vec<OpenAITool> = Vec::new();
    let mut i: usize = 0;
    while i < tools.len()
        invariant
            i <= tools@.len(),
            out@.len() == i,
            forall|j: int| 0 <= j < i ==> (#[trigger] out@[j])@ == tools@[j]@,
        decreases tools@.len() - i,
    {
        out.push(tools[i].copy());
        i += 1;
    }
    proof {
        assert(tools_view(out@) =~= tools_view(tools@));
    }
    out
}

impl ChatCompletionRequest {
    pub open spec fn view(&self) -> RequestView {
        RequestView {
            model: self.model@,
            messages: messages_view(self.messages@),
            tools: match self.tools {
                Some(v) => Some(tools_view(v@)),
                None => None,
            },
            tool_choice: text::opt_text(self.tool_choice),
            max_tokens: self.max_tokens,
            temperature: match self.temperature {
                Some(t) => Some(t@),
                None => None,
            },
            stream: self.stream,
        }
    }
}

impl ResponseMessage {
    pub open spec fn view(&self) -> ResponseMessageView {
        ResponseMessageView {
            content: text::opt_text(self.content),
            reasoning_content: text::opt_text(self.reasoning_content),
            reasoning: text::opt_text(self.reasoning),
            tool_calls: opt_calls_view(self.tool_calls),
        }
    }
}

impl ChatCompletionResponse {
    pub open spec fn view(&self) -> ResponseView {
        ResponseView {
            choices: Seq::new(self.choices@.len(), |i: int| self.choices@[i]@),
            usage: self.usage,
        }
    }
}

} // verus!
