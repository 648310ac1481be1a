//! The loop in which a model answers, calls tools and answers again.
//!
//! The loop itself waits for the model and for the tools; here stands what it does between
//! one wait and the next.

use vstd::prelude::*;

use crate::config::ModelConfig;
use crate::events;
use crate::events::{Entry, EntryView};
use crate::json;
use crate::json::{Json, JsonView, Members};
use crate::mcp;
use crate::mcp::ToolCallResult;
use crate::openai;
use crate::openai::{
    CallView, ChatCompletionRequest, ChatCompletionResponse, Message, MessageView, OpenAITool,
    RequestView, ResponseMessageView, ResponseView, ToolCall, ToolView, Usage,
};
use crate::text;

verus! {

/// What a run of the loop came to.
#[derive(Debug, Clone, PartialEq, Eq)]
pub struct AgentResult {
    pub final_answer: String,
    pub iterations: u32,
    pub duration_ms: u64,
    pub total_usage: Usage,
}

/// An answer without the thinking block that it begins with: what follows the block's end,
/// trimmed. An answer that does not begin with such a block is left as it is.
pub open spec fn without_thinking(content: Seq<char>) -> Seq<char> {
    if text::has_prefix(content, "<|channel|>"@) && text::contains_text(content, "<|end|>"@) {
        text::trimmed(content.skip(first_position(content, "<|end|>"@) + "<|end|>"@.len()))
    } else {
        content
    }
}

/// The first position where `needle` stands in `hay`.
pub open spec fn first_position(hay: Seq<char>, needle: Seq<char>) -> int {
    choose|i: int| text::first_at(hay, needle, 0, i)
}

/// An answer without the thinking block that it begins with.
pub fn strip_thinking_tags(content: &str) -> (r: String)
    ensures
        r@ == without_thinking(content@),
{
    lazy_static_regex(content)
}

/// An answer without the thinking block that it begins with.
pub fn lazy_static_regex(content: &str) -> (r: String)
    ensures
        r@ == without_thinking(content@),
{
    let chars = text::to_chars(content);
    let end = text::to_chars("<|end|>");
    match text::find_from(&chars, &end, 0) {
        Some(pos) => {
            proof {
                assert(text::occurs_at(content@, "<|end|>"@, pos as int));
                let first = first_position(content@, "<|end|>"@);
                assert(text::first_at(content@, "<|end|>"@, 0, first));
                assert(first == pos);
            }
            if text::starts_with(content, "<|channel|>") {
                proof {
                    assert(pos + end.len() <= chars.len());
                }
                let after = text::from_chars(&chars, pos + end.len(), chars.len());
                proof {
                    assert(after@ =~= content@.skip(pos + "<|end|>"@.len()));
                }
                text::trim(after.as_str())
            } else {
                text::copy(content)
            }
        },
        None => {
            proof {
                if text::contains_text(content@, "<|end|>"@) {
                    let i = choose|i: int| text::occurs_at(content@, "<|end|>"@, i);
                    assert(text::occurs_at(chars@, end@, i));
                }
            }
            text::copy(content)
        },
    }
}

/// The messages that a chat opens with: the system prompt in front of the user's, in a
/// message of its own or in the user's.
pub open spec fn opening(strategy: Seq<char>, system: Seq<char>, user: Seq<char>) -> Seq<
    MessageView,
> {
    if strategy == "first_user_turn"@ {
        seq![openai::plain_message("user"@, system + "\n\n"@ + user)]
    } else {
        seq![
            openai::plain_message("system"@, system),
            openai::plain_message("user"@, user),
        ]
    }
}

/// A chat in progress.
pub struct AgentLoop {
    model_id: String,
    strip_tags: bool,
    max_tokens: u32,
    temperature: Json,
    max_iterations: u32,
    tools: Vec<OpenAITool>,
    messages: Vec<Message>,
    usage: Usage,
    iterations: u32,
    calls: Vec<ToolCall>,
    answered: usize,
}

/// What a chat in progress is. `calls` are those of the model's latest answer, and the first
/// `answered` of them have been answered.
pub struct AgentView {
    pub model_id: Seq<char>,
    pub strip_tags: bool,
    pub max_tokens: u32,
    pub temperature: JsonView,
    pub max_iterations: u32,
    pub tools: Seq<ToolView>,
    pub messages: Seq<MessageView>,
    pub usage: Usage,
    pub iterations: u32,
    pub calls: Seq<CallView>,
    pub answered: nat,
}

/// Whether a message answers a call.
pub open spec fn answers(m: MessageView, call: CallView) -> bool {
    m.role == "tool"@ && m.content is Some && m.tool_calls is None && m.tool_call_id == Some(
        call.id,
    )
}

/// Whether a chat is nothing but an opening.
pub open spec fn is_opening(m: Seq<MessageView>) -> bool {
    exists|strategy: Seq<char>, system: Seq<char>, user: Seq<char>|
        m == #[trigger] opening(strategy, system, user)
}

/// Whether the messages from `start` on are the model's message with `calls` and the answers to
/// the first of them.
pub open spec fn turn_from(m: Seq<MessageView>, start: int, calls: Seq<CallView>) -> bool {
    let answered = m.len() - start - 1;
    &&& 0 <= start < m.len()
    &&& answered <= calls.len()
    &&& m[start].role == "assistant"@
    &&& m[start].tool_calls == Some(calls)
    &&& forall|i: int| 0 <= i < answered ==> answers(#[trigger] m[start + 1 + i], calls[i])
}

/// Whether the messages from `start` on are the model's message with calls and the answers to
/// all of them.
pub open spec fn full_turn_from(m: Seq<MessageView>, start: int) -> bool {
    &&& 0 <= start < m.len()
    &&& m[start].tool_calls is Some
    &&& m[start].tool_calls->0.len() > 0
    &&& m[start].tool_calls->0.len() == m.len() - start - 1
    &&& turn_from(m, start, m[start].tool_calls->0)
}

/// Whether a chat is an opening, followed by turns in which the model calls tools and every
/// call is answered, in order and by its identifier.
pub open spec fn complete(m: Seq<MessageView>) -> bool
    decreases m.len(),
{
    is_opening(m) || exists|start: int|
        #[trigger] full_turn_from(m, start) && 0 <= start < m.len() && complete(m.take(start))
}

/// Whether a chat's last messages are the model's message with `calls` and the answers to the
/// first `answered` of them, behind a chat in which every call has been answered.
pub open spec fn open_turn(m: Seq<MessageView>, calls: Seq<CallView>, answered: nat) -> bool {
    let start = m.len() - 1 - answered;
    turn_from(m, start, calls) && complete(m.take(start))
}

/// A turn in which every call has been answered completes the chat.
proof fn lemma_turn_completes(m: Seq<MessageView>, calls: Seq<CallView>)
    requires
        calls.len() > 0,
        open_turn(m, calls, calls.len()),
    ensures
        complete(m),
{
    assert(full_turn_from(m, m.len() - 1 - calls.len()));
}

impl AgentView {
    /// Whether a call waits for its answer.
    pub open spec fn waiting(self) -> bool {
        self.answered < self.calls.len()
    }

    /// Whether the messages tell of the calls and of the answers so far.
    pub open spec fn consistent(self) -> bool {
        if self.calls.len() == 0 {
            self.answered == 0 && complete(self.messages)
        } else {
            open_turn(self.messages, self.calls, self.answered)
        }
    }

    /// What the chat asks the model.
    pub open spec fn request(self) -> RequestView {
        RequestView {
            model: self.model_id,
            messages: self.messages,
            tools: if self.tools.len() == 0 {
                None
            } else {
                Some(self.tools)
            },
            tool_choice: if self.tools.len() == 0 {
                None
            } else {
                Some("auto"@)
            },
            max_tokens: Some(self.max_tokens),
            temperature: Some(self.temperature),
            stream: false,
        }
    }
}

/// The names of tools.
pub open spec fn names_of(tools: Seq<ToolView>) -> Seq<Seq<char>> {
    Seq::new(tools.len(), |i: int| tools[i].name)
}

/// The log entry on the tools of a chat.
pub open spec fn tools_entry(tools: Seq<ToolView>) -> EntryView {
    EntryView {
        kind: "tools_registered"@,
        data: JsonView::Object(
            json::no_members().push(
                ("count"@, JsonView::Uint(tools.len() as u64)),
            ).push(
                ("names"@, json::str_array_view(names_of(tools))),
            ),
        ),
    }
}

/// The log entry on a request.
pub open spec fn request_entry(iteration: u32, model_id: Seq<char>, messages: nat) -> EntryView {
    EntryView {
        kind: "llm_request"@,
        data: JsonView::Object(
            json::no_members().push(
                ("iteration"@, JsonView::Uint(iteration as u64)),
            ).push(
                ("model"@, JsonView::Str(model_id)),
            ).push(
                ("message_count"@, JsonView::Uint(messages as u64)),
            ),
        ),
    }
}

/// A log entry on a text of an iteration.
pub open spec fn content_entry(kind: Seq<char>, iteration: u32, content: Seq<char>) -> EntryView {
    EntryView {
        kind,
        data: JsonView::Object(
            json::no_members().push(
                ("iteration"@, JsonView::Uint(iteration as u64)),
            ).push(
                ("content"@, JsonView::Str(content)),
            ),
        ),
    }
}

/// The log entry on a call.
pub open spec fn call_entry(iteration: u32, call: CallView) -> EntryView {
    EntryView {
        kind: "tool_call"@,
        data: JsonView::Object(
            json::no_members().push(
                ("iteration"@, JsonView::Uint(iteration as u64)),
            ).push(
                ("id"@, JsonView::Str(call.id)),
            ).push(
                ("name"@, JsonView::Str(call.name)),
            ).push(
                ("arguments"@, JsonView::Str(call.arguments)),
            ),
        ),
    }
}

/// The log entry on a call's answer.
pub open spec fn answer_entry(iteration: u32, id: Seq<char>, ok: bool, content: Seq<char>) -> EntryView {
    EntryView {
        kind: "tool_result"@,
        data: JsonView::Object(
            json::no_members().push(
                ("iteration"@, JsonView::Uint(iteration as u64)),
            ).push(
                ("id"@, JsonView::Str(id)),
            ).push(
                ("ok"@, JsonView::Bool(ok)),
            ).push(
                ("content"@, JsonView::Str(content)),
            ),
        ),
    }
}

/// The tokens taken so far and by one more answer.
pub open spec fn usage_sum(a: Usage, b: Option<Usage>) -> Usage {
    match b {
        Some(u) => Usage {
            prompt_tokens: (a.prompt_tokens + u.prompt_tokens) as u64,
            completion_tokens: (a.completion_tokens + u.completion_tokens) as u64,
            total_tokens: (a.total_tokens + u.total_tokens) as u64,
        },
        None => a,
    }
}

/// Whether the tokens taken so far and by one more answer can be counted.
pub open spec fn usage_fits(a: Usage, b: Option<Usage>) -> bool {
    match b {
        Some(u) => {
            &&& a.prompt_tokens + u.prompt_tokens <= u64::MAX
            &&& a.completion_tokens + u.completion_tokens <= u64::MAX
            &&& a.total_tokens + u.total_tokens <= u64::MAX
        },
        None => true,
    }
}

/// The reasoning of an answer.
pub open spec fn reasoning_of(m: ResponseMessageView) -> Option<Seq<char>> {
    if m.reasoning_content is Some {
        m.reasoning_content
    } else {
        m.reasoning
    }
}

/// The calls of an answer.
pub open spec fn calls_of(m: ResponseMessageView) -> Seq<CallView> {
    match m.tool_calls {
        Some(calls) => calls,
        None => Seq::empty(),
    }
}

/// The final text of an answer.
pub open spec fn final_text(m: ResponseMessageView, strip_tags: bool) -> Seq<char> {
    match m.content {
        Some(t) => if strip_tags {
            without_thinking(t)
        } else {
            t
        },
        None => Seq::empty(),
    }
}

/// What comes after an answer of the model.
pub enum Turn {
    /// The answer offers no choice: the loop fails with this message.
    Failed(String),
    /// The answer calls no tools: its text is the final answer.
    Final(String),
    /// The answer calls tools: the calls wait for their answers.
    Tools,
}

/// What comes after an answer of the model, over texts.
pub enum TurnView {
    Failed(Seq<char>),
    Final(Seq<char>),
    Tools,
}

impl Turn {
    pub open spec fn view(&self) -> TurnView {
        match *self {
            Turn::Failed(e) => TurnView::Failed(e@),
            Turn::Final(t) => TurnView::Final(t@),
            Turn::Tools => TurnView::Tools,
        }
    }
}

/// What comes after an answer of the model.
pub open spec fn turn_after(s: AgentView, response: ResponseView) -> TurnView {
    if response.choices.len() == 0 {
        TurnView::Failed("no choices in LLM response"@)
    } else if calls_of(response.choices[0]).len() == 0 {
        TurnView::Final(final_text(response.choices[0], s.strip_tags))
    } else {
        TurnView::Tools
    }
}

/// What is logged of an answer of the model.
pub open spec fn entries_after(s: AgentView, response: ResponseView) -> Seq<EntryView> {
    if response.choices.len() == 0 {
        Seq::empty()
    } else {
        let m = response.choices[0];
        let thought = match reasoning_of(m) {
            Some(r) => seq![content_entry("reasoning"@, s.iterations, r)],
            None => Seq::empty(),
        };
        if calls_of(m).len() == 0 {
            thought.push(content_entry("final_answer"@, s.iterations, final_text(m, s.strip_tags)))
        } else {
            thought
        }
    }
}

/// The chat after an answer of the model: the tokens are counted, and an answer that calls
/// tools is put behind the messages, without its reasoning.
pub open spec fn state_after(s: AgentView, response: ResponseView) -> AgentView {
    let counted = AgentView { usage: usage_sum(s.usage, response.usage), ..s };
    if response.choices.len() == 0 || calls_of(response.choices[0]).len() == 0 {
        counted
    } else {
        let m = response.choices[0];
        AgentView {
            messages: s.messages.push(
                MessageView {
                    role: "assistant"@,
                    content: m.content,
                    tool_calls: Some(calls_of(m)),
                    tool_call_id: None,
                },
            ),
            calls: calls_of(m),
            answered: 0,
            ..counted
        }
    }
}

/// What a call's answer says.
pub open spec fn answer_text(result: Result<ToolCallResult, String>) -> Seq<char> {
    match result {
        Ok(r) => r@.text_content(),
        Err(e) => "Error: "@ + e@,
    }
}

/// The chat in its next iteration.
pub open spec fn begun(s: AgentView) -> AgentView {
    AgentView { iterations: (s.iterations + 1) as u32, ..s }
}

/// The chat after an answer to the call that waits for it.
pub open spec fn after_answer(s: AgentView, content: Seq<char>) -> AgentView {
    AgentView {
        messages: s.messages.push(
            MessageView {
                role: "tool"@,
                content: Some(content),
                tool_calls: None,
                tool_call_id: Some(s.calls[s.answered as int].id),
            },
        ),
        answered: s.answered + 1,
        ..s
    }
}

/// Whether a call went well.
pub open spec fn answer_ok(result: Result<ToolCallResult, String>) -> bool {
    match result {
        Ok(r) => !r.is_error,
        Err(_) => false,
    }
}

/// The arguments of a call: the value that their text is; no arguments, where it is none.
pub open spec fn arguments_of(parsed: Result<JsonView, Seq<char>>) -> JsonView {
    match parsed {
        Ok(v) => v,
        Err(_) => JsonView::Object(Seq::empty()),
    }
}

/// The arguments of a call whose text was read as `parsed`.
pub fn arguments_or_none(parsed: Result<Json, String>) -> (r: Json)
    ensures
        r@ == arguments_of(json::parse_view(parsed)),
{
    match parsed {
        Ok(v) => v,
        Err(_) => Members::new().object(),
    }
}

impl AgentLoop {
    pub closed spec fn view(&self) -> AgentView {
        AgentView {
            model_id: self.model_id@,
            strip_tags: self.strip_tags,
            max_tokens: self.max_tokens,
            temperature: self.temperature@,
            max_iterations: self.max_iterations,
            tools: openai::tools_view(self.tools@),
            messages: openai::messages_view(self.messages@),
            usage: self.usage,
            iterations: self.iterations,
            calls: openai::calls_view(self.calls@),
            answered: self.answered as nat,
        }
    }

    /// A chat that is about to begin.
    pub fn new(
        user_prompt: &str,
        system_prompt: &str,
        max_iterations: u32,
        model: &ModelConfig,
        tools: Vec<OpenAITool>,
    ) -> (r: AgentLoop)
        ensures
            r@ == (AgentView {
                model_id: model.model_id@,
                strip_tags: model.strip_thinking_tags,
                max_tokens: model.max_tokens,
                temperature: model.temperature@,
                max_iterations,
                tools: openai::tools_view(tools@),
                messages: opening(model.system_prompt_strategy@, system_prompt@, user_prompt@),
                usage: Usage { prompt_tokens: 0, completion_tokens: 0, total_tokens: 0 },
                iterations: 0,
                calls: Seq::empty(),
                answered: 0,
            }),
            r@.consistent(),
            !r@.waiting(),
    {
        let mut messages: Vec<Message> = Vec::new();
        if text::str_eq(model.system_prompt_strategy.as_str(), "first_user_turn") {
            let both = text::cat3(system_prompt, "\n\n", user_prompt);
            messages.push(openai::plain("user", both.as_str()));
        } else {
            messages.push(openai::plain("system", system_prompt));
            messages.push(openai::plain("user", user_prompt));
        }
        proof {
            assert(openai::messages_view(messages@) =~= opening(
                model.system_prompt_strategy@,
                system_prompt@,
                user_prompt@,
            ));
            assert(is_opening(openai::messages_view(messages@)));
        }
        let r = AgentLoop {
            model_id: model.model_id.clone(),
            strip_tags: model.strip_thinking_tags,
            max_tokens: model.max_tokens,
            temperature: model.temperature.copy(),
            max_iterations,
            tools,
            messages,
            usage: Usage { prompt_tokens: 0, completion_tokens: 0, total_tokens: 0 },
            iterations: 0,
            calls: Vec::new(),
            answered: 0,
        };
        proof {
            assert(r@.calls =~= Seq::empty());
        }
        r
    }

    /// The log entry on the tools of the chat.
    pub fn tools_registered(&self) -> (r: Entry)
        ensures
            r@ == tools_entry(self@.tools),
    {
        let mut names: Vec<String> = Vec::new();
        let mut i: usize = 0;
        while i < self.tools.len()
            invariant
                i <= self.tools@.len(),
                names@.len() == i,
                forall|j: int| 0 <= j < i ==> (#[trigger] names@[j])@ == self@.tools[j].name,
            decreases self.tools@.len() - i,
        {
            names.push(self.tools[i].function.name.clone());
            i += 1;
        }
        proof {
            assert(text::texts(names@) =~= names_of(self@.tools));
        }
        let data = Members::new().with("count", json::size(names.len())).with(
            "names",
            json::string_array(&names),
        ).object();
        events::entry("tools_registered", data)
    }

    /// One iteration more: what is logged of it, and what the model is asked. Once the
    /// iterations are used up, the loop fails.
    pub fn begin_iteration(&mut self) -> (r: Result<(Entry, ChatCompletionRequest), String>)
        requires
            old(self)@.consistent(),
            !old(self)@.waiting(),
            old(self)@.iterations < u32::MAX,
        ensures
            final(self)@ == begun(old(self)@),
            match r {
                Ok((entry, request)) => {
                    &&& old(self)@.iterations < old(self)@.max_iterations
                    &&& entry@ == request_entry(
                        final(self)@.iterations,
                        old(self)@.model_id,
                        old(self)@.messages.len(),
                    )
                    &&& request@ == old(self)@.request()
                    &&& complete(request@.messages)
                },
                Err(e) => {
                    &&& old(self)@.iterations >= old(self)@.max_iterations
                    &&& e@ == "max iterations ("@ + text::decimal(old(self)@.max_iterations as nat)
                        + ") exceeded"@
                },
            },
    {
        proof {
            let s = old(self)@;
            if s.calls.len() > 0 {
                lemma_turn_completes(s.messages, s.calls);
            }
        }
        self.iterations = self.iterations + 1;
        proof {
            assert(self@ == (AgentView {
                iterations: (old(self)@.iterations + 1) as u32,
                ..old(self)@
            }));
        }
        if self.iterations > self.max_iterations {
            return Err(
                text::cat3(
                    "max iterations (",
                    text::number(self.max_iterations as u64).as_str(),
                    ") exceeded",
                ),
            );
        }
        let data = Members::new().with("iteration", Json::Uint(self.iterations as u64)).with(
            "model",
            json::string(self.model_id.as_str()),
        ).with("message_count", json::size(self.messages.len())).object();
        let (tools, tool_choice) = if self.tools.len() == 0 {
            (None, None)
        } else {
            (Some(openai::copy_tools(&self.tools)), Some(text::copy("auto")))
        };
        let request = ChatCompletionRequest {
            model: self.model_id.clone(),
            messages: openai::copy_messages(&self.messages),
            tools,
            tool_choice,
            max_tokens: Some(self.max_tokens),
            temperature: Some(self.temperature.copy()),
            stream: false,
        };
        Ok((events::entry("llm_request", data), request))
    }

    /// Whether the tokens of an answer can be counted.
    pub fn can_count(&self, response: &ChatCompletionResponse) -> (r: bool)
        ensures
            r == usage_fits(self@.usage, response@.usage),
    {
        match &response.usage {
            Some(u) => self.usage.prompt_tokens.checked_add(u.prompt_tokens).is_some()
                && self.usage.completion_tokens.checked_add(u.completion_tokens).is_some()
                && self.usage.total_tokens.checked_add(u.total_tokens).is_some(),
            None => true,
        }
    }

    /// Takes an answer of the model: what is logged of it, and what comes after it.
    pub fn on_response(&mut self, response: &ChatCompletionResponse) -> (r: (Vec<Entry>, Turn))
        requires
            old(self)@.consistent(),
            !old(self)@.waiting(),
            usage_fits(old(self)@.usage, response@.usage),
        ensures
            final(self)@ == state_after(old(self)@, response@),
            final(self)@.consistent(),
            final(self)@.waiting() == (r.1 is Tools),
            events::entries_view(r.0@) == entries_after(old(self)@, response@),
            r.1@ == turn_after(old(self)@, response@),
    {
        let ghost before = self@;
        match &response.usage {
            Some(u) => {
                self.usage = Usage {
                    prompt_tokens: self.usage.prompt_tokens + u.prompt_tokens,
                    completion_tokens: self.usage.completion_tokens + u.completion_tokens,
                    total_tokens: self.usage.total_tokens + u.total_tokens,
                };
            },
            None => {},
        }
        let ghost counted = AgentView { usage: usage_sum(before.usage, response@.usage), ..before };
        proof {
            assert(self@ == counted);
        }
        let mut entries: Vec<Entry> = Vec::new();
        if response.choices.len() == 0 {
            proof {
                assert(events::entries_view(entries@) =~= Seq::empty());
            }
            return (entries, Turn::Failed(text::copy("no choices in LLM response")));
        }
        let choice = &response.choices[0];
        proof {
            assert(response@.choices[0] == choice@);
        }
        let reasoning: &Option<String> = if choice.reasoning_content.is_some() {
            &choice.reasoning_content
        } else {
            &choice.reasoning
        };
        if let Some(t) = reasoning {
            let data = Members::new().with("iteration", Json::Uint(self.iterations as u64)).with(
                "content",
                json::string(t.as_str()),
            ).object();
            entries.push(events::entry("reasoning", data));
        }
        let ghost thought = match reasoning_of(choice@) {
            Some(t) => seq![content_entry("reasoning"@, before.iterations, t)],
            None => Seq::empty(),
        };
        proof {
            assert(events::entries_view(entries@) =~= thought);
        }
        let calls: Vec<ToolCall> = match &choice.tool_calls {
            Some(calls) => openai::copy_calls(calls),
            None => Vec::new(),
        };
        proof {
            assert(openai::calls_view(calls@) =~= calls_of(choice@));
        }
        if calls.len() == 0 {
            let answer = match &choice.content {
                Some(t) => if self.strip_tags {
                    strip_thinking_tags(t.as_str())
                } else {
                    t.clone()
                },
                None => String::new(),
            };
            let data = Members::new().with("iteration", Json::Uint(self.iterations as u64)).with(
                "content",
                json::string(answer.as_str()),
            ).object();
            let ghost listed = entries@;
            let last = events::entry("final_answer", data);
            entries.push(last);
            proof {
                assert(events::entries_view(entries@) =~= events::entries_view(listed).push(last@));
            }
            return (entries, Turn::Final(answer));
        }
        let message = Message {
            role: text::copy("assistant"),
            content: openai::copy_opt(&choice.content),
            tool_calls: Some(openai::copy_calls(&calls)),
            tool_call_id: None,
        };
        let ghost said = self.messages@;
        self.messages.push(message);
        self.calls = calls;
        self.answered = 0;
        proof {
            openai::lemma_messages_push(said, message);
            assert(self@ == state_after(before, response@));
            let m = self@.messages;
            assert(m.take(m.len() - 1) =~= before.messages);
            if before.calls.len() > 0 {
                lemma_turn_completes(before.messages, before.calls);
            }
            assert(open_turn(m, self@.calls, 0));
        }
        (entries, Turn::Tools)
    }

    /// The call that waits for its answer: what is logged of it, the tool and the arguments
    /// that the tool is called with.
    pub fn next_call(&self) -> (r: Option<(Entry, String, Json)>)
        ensures
            match r {
                Some((entry, name, arguments)) => {
                    &&& self@.waiting()
                    &&& entry@ == call_entry(
                        self@.iterations,
                        self@.calls[self@.answered as int],
                    )
                    &&& name@ == self@.calls[self@.answered as int].name
                    &&& arguments@ == arguments_of(
                        json::json_parse(self@.calls[self@.answered as int].arguments),
                    )
                },
                None => !self@.waiting(),
            },
    {
        if self.answered >= self.calls.len() {
            return None;
        }
        let call = &self.calls[self.answered];
        let data = Members::new().with("iteration", Json::Uint(self.iterations as u64)).with(
            "id",
            json::string(call.id.as_str()),
        ).with("name", json::string(call.function.name.as_str())).with(
            "arguments",
            json::string(call.function.arguments.as_str()),
        ).object();
        let arguments = arguments_or_none(json::parse(call.function.arguments.as_str()));
        Some((events::entry("tool_call", data), call.function.name.clone(), arguments))
    }

    /// Takes the answer to the call that waits for it: what is logged of it.
    pub fn on_tool_result(&mut self, result: &Result<ToolCallResult, String>) -> (r: Entry)
        requires
            old(self)@.consistent(),
            old(self)@.waiting(),
        ensures
            final(self)@ == after_answer(old(self)@, answer_text(*result)),
            final(self)@.consistent(),
            final(self)@.messages.drop_last() == old(self)@.messages,
            final(self)@.messages.last().content == Some(
                match *result {
                    Ok(r) => r@.text_content(),
                    Err(e) => "Error: "@ + e@,
                },
            ),
            final(self)@.messages.last().tool_call_id == Some(
                old(self)@.calls[old(self)@.answered as int].id,
            ),
            r@ == answer_entry(
                old(self)@.iterations,
                old(self)@.calls[old(self)@.answered as int].id,
                answer_ok(*result),
                answer_text(*result),
            ),
    {
        let ghost before = self@;
        let (ok, content) = match result {
            Ok(res) => (!res.is_error, res.text_content()),
            Err(e) => (false, text::cat2("Error: ", e.as_str())),
        };
        proof {
            assert(self.answered < self.calls.len());
        }
        let id = self.calls[self.answered].id.clone();
        let data = Members::new().with("iteration", Json::Uint(self.iterations as u64)).with(
            "id",
            json::string(id.as_str()),
        ).with("ok", Json::Bool(ok)).with("content", json::string(content.as_str())).object();
        let message = Message {
            role: text::copy("tool"),
            content: Some(content),
            tool_calls: None,
            tool_call_id: Some(id),
        };
        let ghost said = self.messages@;
        self.messages.push(message);
        self.answered = self.answered + 1;
        proof {
            openai::lemma_messages_push(said, message);
            let m = self@.messages;
            let start = before.messages.len() - 1 - before.answered;
            assert(m.len() - 1 - self@.answered == start);
            assert(m.take(start) =~= before.messages.take(start));
            assert forall|i: int| 0 <= i < self@.answered implies answers(
                #[trigger] m[start + 1 + i],
                self@.calls[i],
            ) by {
                if i < before.answered {
                    assert(m[start + 1 + i] == before.messages[start + 1 + i]);
                }
            }
        }
        events::entry("tool_result", data)
    }

    /// What the chat came to.
    pub fn finish(&self, final_answer: String, duration_ms: u64) -> (r: AgentResult)
        ensures
            r.final_answer@ == final_answer@,
            r.iterations == self@.iterations,
            r.duration_ms == duration_ms,
            r.total_usage == self@.usage,
    {
        AgentResult {
            final_answer,
            iterations: self.iterations,
            duration_ms,
            total_usage: self.usage,
        }
    }
}

/// An answer's reasoning is logged and not kept: it makes no difference to the chat, nor to
/// what comes next.
pub proof fn law_reasoning_is_not_kept(
    s: AgentView,
    response: ResponseView,
    other: ResponseView,
)
    requires
        response.usage == other.usage,
        response.choices.len() == other.choices.len(),
        response.choices.len() > 0 ==> response.choices[0].content == other.choices[0].content
            && response.choices[0].tool_calls == other.choices[0].tool_calls,
    ensures
        state_after(s, response) == state_after(s, other),
        turn_after(s, response) == turn_after(s, other),
{
}

/// Whether an entry of a kind is one that a chat logs.
pub open spec fn is_chat_kind(kind: Seq<char>) -> bool {
    ||| kind == "tools_registered"@
    ||| kind == "llm_request"@
    ||| kind == "reasoning"@
    ||| kind == "final_answer"@
    ||| kind == "tool_call"@
    ||| kind == "tool_result"@
}

/// A chat logs no start and no end of a run.
pub proof fn lemma_chat_kinds_are_others(kind: Seq<char>)
    requires
        is_chat_kind(kind),
    ensures
        kind != "run_start"@,
        kind != "run_end"@,
{
    reveal_strlit("tools_registered");
    reveal_strlit("llm_request");
    reveal_strlit("reasoning");
    reveal_strlit("final_answer");
    reveal_strlit("tool_call");
    reveal_strlit("tool_result");
    reveal_strlit("run_start");
    reveal_strlit("run_end");
    assert("run_start"@.len() == 9 && "run_start"@[1] == 'u');
    assert("run_end"@.len() == 7);
    assert("reasoning"@[1] == 'e' && "tool_call"@[0] == 't');
}

/// Whatever a chat logs is of one of its kinds.
pub proof fn law_chat_logs_its_kinds(
    s: AgentView,
    response: ResponseView,
    call: CallView,
    ok: bool,
    content: Seq<char>,
)
    ensures
        is_chat_kind(tools_entry(s.tools).kind),
        is_chat_kind(request_entry(s.iterations, s.model_id, s.messages.len()).kind),
        forall|i: int|
            0 <= i < entries_after(s, response).len() ==> is_chat_kind(
                (#[trigger] entries_after(s, response)[i]).kind,
            ),
        is_chat_kind(call_entry(s.iterations, call).kind),
        is_chat_kind(answer_entry(s.iterations, call.id, ok, content).kind),
{
}

/// One iteration of a chat: what the model answered, and what its calls were answered with.
pub struct Round {
    pub response: ResponseView,
    pub answers: Seq<Seq<char>>,
}

/// The chat after answers to its calls, in order.
pub open spec fn after_answers(s: AgentView, answers: Seq<Seq<char>>) -> AgentView
    decreases answers.len(),
{
    if answers.len() == 0 {
        s
    } else {
        after_answer(after_answers(s, answers.drop_last()), answers.last())
    }
}

/// The chat after one more iteration.
pub open spec fn after_round(s: AgentView, round: Round) -> AgentView {
    after_answers(state_after(begun(s), round.response), round.answers)
}

/// The chat after iterations, in order.
pub open spec fn after_rounds(s: AgentView, rounds: Seq<Round>) -> AgentView
    decreases rounds.len(),
{
    if rounds.len() == 0 {
        s
    } else {
        after_round(after_rounds(s, rounds.drop_last()), rounds.last())
    }
}

/// Whether each iteration is one that the chat may begin.
pub open spec fn all_begin(s: AgentView, rounds: Seq<Round>) -> bool {
    forall|k: int|
        0 <= k < rounds.len() ==> (#[trigger] after_rounds(s, rounds.take(k))).iterations
            < s.max_iterations
}

/// The tokens of one sort that the model's answers took together.
pub open spec fn tokens_of(rounds: Seq<Round>, sort: spec_fn(Usage) -> u64) -> nat
    decreases rounds.len(),
{
    if rounds.len() == 0 {
        0
    } else {
        tokens_of(rounds.drop_last(), sort) + (match rounds.last().response.usage {
            Some(u) => sort(u) as nat,
            None => 0,
        })
    }
}

proof fn lemma_answers_change_messages_only(s: AgentView, answers: Seq<Seq<char>>)
    ensures
        after_answers(s, answers).iterations == s.iterations,
        after_answers(s, answers).max_iterations == s.max_iterations,
        after_answers(s, answers).usage == s.usage,
    decreases answers.len(),
{
    if answers.len() > 0 {
        lemma_answers_change_messages_only(s, answers.drop_last());
    }
}

/// Over a whole chat the model is asked at most as often as the chat may ask it, and the tokens
/// of all its answers are counted, each sort by itself.
pub proof fn law_whole_chat_is_counted(s: AgentView, rounds: Seq<Round>)
    requires
        s.iterations == 0,
        s.usage == (Usage { prompt_tokens: 0, completion_tokens: 0, total_tokens: 0 }),
        all_begin(s, rounds),
        tokens_of(rounds, |u: Usage| u.prompt_tokens) <= u64::MAX,
        tokens_of(rounds, |u: Usage| u.completion_tokens) <= u64::MAX,
        tokens_of(rounds, |u: Usage| u.total_tokens) <= u64::MAX,
    ensures
        rounds.len() <= s.max_iterations,
        ({
            let end = after_rounds(s, rounds);
            &&& end.iterations == rounds.len()
            &&& end.max_iterations == s.max_iterations
            &&& end.usage.prompt_tokens == tokens_of(rounds, |u: Usage| u.prompt_tokens)
            &&& end.usage.completion_tokens == tokens_of(rounds, |u: Usage| u.completion_tokens)
            &&& end.usage.total_tokens == tokens_of(rounds, |u: Usage| u.total_tokens)
        }),
    decreases rounds.len(),
{
    if rounds.len() > 0 {
        let front = rounds.drop_last();
        assert forall|k: int| 0 <= k < front.len() implies (#[trigger] after_rounds(
            s,
            front.take(k),
        )).iterations < s.max_iterations by {
            assert(front.take(k) =~= rounds.take(k));
        }
        law_whole_chat_is_counted(s, front);
        assert(rounds.take(rounds.len() - 1) =~= front);
        assert(after_rounds(s, rounds.take(rounds.len() - 1)).iterations < s.max_iterations);
        let before = after_rounds(s, front);
        lemma_answers_change_messages_only(
            state_after(begun(before), rounds.last().response),
            rounds.last().answers,
        );
    }
}

proof fn lemma_words()
    ensures
        text::shape("tools_registered"@) == 101103100105116016,
        text::shape("llm_request"@) == 101101116113108011,
        text::shape("reasoning"@) == 105111103110114009,
        text::shape("final_answer"@) == 119097114097102012,
        text::shape("tool_call"@) == 97095108099116009,
        text::shape("tool_result"@) == 117114116101116011,
        text::shape("iteration"@) == 105097110116105009,
        text::shape("content"@) == 110116116101099007,
        text::shape("id"@) == 100100100100105002,
        text::shape("name"@) == 101109101109110004,
        text::shape("arguments"@) == 110109115101097009,
        text::shape("ok"@) == 107107107107111002,
        text::shape("model"@) == 101100108100109005,
        text::shape("message_count"@) == 111101116095109013,
        text::shape("count"@) == 110117116117099005,
        text::shape("names"@) == 101109115109110005,
{
    reveal_strlit("tools_registered");
    assert(text::shape("tools_registered"@) == 101103100105116016);
    reveal_strlit("llm_request");
    assert(text::shape("llm_request"@) == 101101116113108011);
    reveal_strlit("reasoning");
    assert(text::shape("reasoning"@) == 105111103110114009);
    reveal_strlit("final_answer");
    assert(text::shape("final_answer"@) == 119097114097102012);
    reveal_strlit("tool_call");
    assert(text::shape("tool_call"@) == 97095108099116009);
    reveal_strlit("tool_result");
    assert(text::shape("tool_result"@) == 117114116101116011);
    reveal_strlit("iteration");
    assert(text::shape("iteration"@) == 105097110116105009);
    reveal_strlit("content");
    assert(text::shape("content"@) == 110116116101099007);
    reveal_strlit("id");
    assert(text::shape("id"@) == 100100100100105002);
    reveal_strlit("name");
    assert(text::shape("name"@) == 101109101109110004);
    reveal_strlit("arguments");
    assert(text::shape("arguments"@) == 110109115101097009);
    reveal_strlit("ok");
    assert(text::shape("ok"@) == 107107107107111002);
    reveal_strlit("model");
    assert(text::shape("model"@) == 101100108100109005);
    reveal_strlit("message_count");
    assert(text::shape("message_count"@) == 111101116095109013);
    reveal_strlit("count");
    assert(text::shape("count"@) == 110117116117099005);
    reveal_strlit("names");
    assert(text::shape("names"@) == 101109115109110005);
}


/// After a tool's answer is taken, the chat is what it was with one message more. That message
/// belongs to the call that waited, and says exactly what the tool said, or that it failed and
/// why; and the next request to the model carries it.
pub proof fn law_tool_answer_reaches_the_model(s: AgentView, result: Result<ToolCallResult, String>)
    requires
        s.waiting(),
        s.iterations < u32::MAX,
    ensures
        ({
            let after = after_answer(s, answer_text(result));
            let asked = begun(after).request();
            let last = asked.messages[asked.messages.len() - 1];
            &&& asked.messages.len() == s.messages.len() + 1
            &&& forall|i: int| 0 <= i < s.messages.len() ==> asked.messages[i] == s.messages[i]
            &&& last.role == "tool"@
            &&& last.tool_call_id == Some(s.calls[s.answered as int].id)
            &&& last.tool_calls is None
            &&& result matches Ok(r) ==> last.content == Some(
                text::joined(mcp::part_texts(r@.content), "\n"@),
            )
            &&& result matches Err(e) ==> last.content == Some("Error: "@ + e@)
            &&& after.answered == s.answered + 1
            &&& after.calls == s.calls
            &&& after.usage == s.usage
            &&& after.iterations == s.iterations
            &&& after.max_iterations == s.max_iterations
            &&& after.tools == s.tools
            &&& after.model_id == s.model_id
            &&& after.strip_tags == s.strip_tags
            &&& after.max_tokens == s.max_tokens
            &&& after.temperature == s.temperature
        }),
{
}

/// What is logged of a tool's answer is what the model is given, under the call's identifier, and
/// whether it went well: it did where the tool answered and its answer is no error.
pub proof fn law_tool_answer_is_logged(
    s: AgentView,
    result: Result<ToolCallResult, String>,
    call: CallView,
)
    ensures
        ({
            let entry = answer_entry(s.iterations, call.id, answer_ok(result), answer_text(result));
            &&& entry.kind == "tool_result"@
            &&& entry.data.u64_at("iteration"@) == Some(s.iterations as u64)
            &&& entry.data.str_at("id"@) == Some(call.id)
            &&& entry.data.bool_at("ok"@) == Some(result is Ok && !(result->Ok_0.is_error))
            &&& entry.data.str_at("content"@)
                == after_answer(s, answer_text(result)).messages.last().content
        }),
        ({
            let entry = call_entry(s.iterations, call);
            &&& entry.kind == "tool_call"@
            &&& entry.data.u64_at("iteration"@) == Some(s.iterations as u64)
            &&& entry.data.str_at("id"@) == Some(call.id)
            &&& entry.data.str_at("name"@) == Some(call.name)
            &&& entry.data.str_at("arguments"@) == Some(call.arguments)
        }),
{
    lemma_words();
    broadcast use json::lemma_member_push;
}

/// What is logged of a request and of the tools is what they are.
pub proof fn law_requests_are_logged(
    iteration: u32,
    model_id: Seq<char>,
    messages: nat,
    tools: Seq<ToolView>,
    content: Seq<char>,
    kind: Seq<char>,
)
    requires
        messages <= u64::MAX,
        tools.len() <= u64::MAX,
    ensures
        ({
            let entry = request_entry(iteration, model_id, messages);
            &&& entry.kind == "llm_request"@
            &&& entry.data.u64_at("iteration"@) == Some(iteration as u64)
            &&& entry.data.str_at("model"@) == Some(model_id)
            &&& entry.data.u64_at("message_count"@) == Some(messages as u64)
        }),
        ({
            let entry = content_entry(kind, iteration, content);
            &&& entry.kind == kind
            &&& entry.data.u64_at("iteration"@) == Some(iteration as u64)
            &&& entry.data.str_at("content"@) == Some(content)
        }),
        ({
            let entry = tools_entry(tools);
            &&& entry.kind == "tools_registered"@
            &&& entry.data.u64_at("count"@) == Some(tools.len() as u64)
            &&& entry.data.get("names"@) == Some(
                json::str_array_view(Seq::new(tools.len(), |i: int| tools[i].name)),
            )
        }),
{
    lemma_words();
    broadcast use json::lemma_member_push;
    assert(names_of(tools) =~= Seq::new(tools.len(), |i: int| tools[i].name));
}

/// A request asks the configured model and carries all messages; it offers the tools, and leaves
/// the choice to the model, if and only if there are any.
pub proof fn law_request_carries_the_chat(s: AgentView)
    ensures
        s.request().model == s.model_id,
        s.request().messages == s.messages,
        s.request().max_tokens == Some(s.max_tokens),
        s.request().temperature == Some(s.temperature),
        !s.request().stream,
        s.tools.len() > 0 ==> s.request().tools == Some(s.tools) && s.request().tool_choice == Some(
            "auto"@,
        ),
        s.tools.len() == 0 ==> s.request().tools is None && s.request().tool_choice is None,
{
}

/// An answer of the model without tool calls ends the chat: its text is the final answer, and
/// that is what is logged; the messages stay as they are.
pub proof fn law_answer_without_calls_is_final(s: AgentView, response: ResponseView)
    requires
        response.choices.len() > 0,
        response.choices[0].tool_calls is None || response.choices[0].tool_calls->0.len() == 0,
    ensures
        turn_after(s, response) is Final,
        response.choices[0].content is None ==> turn_after(s, response)->Final_0 == Seq::<
            char,
        >::empty(),
        response.choices[0].content matches Some(t) ==> turn_after(s, response)->Final_0 == (
        if s.strip_tags {
            without_thinking(t)
        } else {
            t
        }),
        entries_after(s, response).len() > 0,
        entries_after(s, response).last() == content_entry(
            "final_answer"@,
            s.iterations,
            turn_after(s, response)->Final_0,
        ),
        state_after(s, response).messages == s.messages,
        state_after(s, response).calls == s.calls,
        state_after(s, response).answered == s.answered,
{
}

/// An answer of the model with tool calls is kept with its text and its calls behind the
/// messages, and all its calls wait, in the order in which the model made them.
pub proof fn law_answer_with_calls_is_kept(s: AgentView, response: ResponseView)
    requires
        response.choices.len() > 0,
        response.choices[0].tool_calls is Some,
        response.choices[0].tool_calls->0.len() > 0,
    ensures
        turn_after(s, response) is Tools,
        ({
            let after = state_after(s, response);
            &&& after.waiting()
            &&& after.calls == response.choices[0].tool_calls->0
            &&& after.answered == 0
            &&& after.messages.len() == s.messages.len() + 1
            &&& forall|i: int| 0 <= i < s.messages.len() ==> after.messages[i] == s.messages[i]
            &&& after.messages.last().role == "assistant"@
            &&& after.messages.last().content == response.choices[0].content
            &&& after.messages.last().tool_calls == response.choices[0].tool_calls
            &&& after.messages.last().tool_call_id is None
        }),
        forall|i: int|
            0 <= i < entries_after(s, response).len() ==> (#[trigger] entries_after(
                s,
                response,
            )[i]).kind == "reasoning"@,
{
}

/// The reasoning of an answer is logged first: the one field for it, or else the other. An answer
/// without choices fails, and nothing is logged of it.
pub proof fn law_reasoning_is_logged(s: AgentView, response: ResponseView)
    ensures
        response.choices.len() == 0 ==> turn_after(s, response) == TurnView::Failed(
            "no choices in LLM response"@,
        ) && entries_after(s, response).len() == 0 && state_after(s, response).messages
            == s.messages,
        response.choices.len() > 0 ==> ({
            let m = response.choices[0];
            let thought = if m.reasoning_content is Some {
                m.reasoning_content
            } else {
                m.reasoning
            };
            thought matches Some(t) ==> entries_after(s, response).len() > 0 && entries_after(
                s,
                response,
            )[0] == content_entry("reasoning"@, s.iterations, t)
        }),
        response.choices.len() > 0 && response.choices[0].reasoning_content is None
            && response.choices[0].reasoning is None ==> forall|i: int|
            0 <= i < entries_after(s, response).len() ==> (#[trigger] entries_after(
                s,
                response,
            )[i]).kind == "final_answer"@,
{
}

/// The tokens that an answer took are counted, each sort by itself, and an iteration more is one
/// more; neither changes anything else.
pub proof fn law_tokens_and_iterations_are_counted(s: AgentView, response: ResponseView)
    requires
        usage_fits(s.usage, response.usage),
        s.iterations < u32::MAX,
    ensures
        response.usage matches Some(u) ==> {
            &&& state_after(s, response).usage.prompt_tokens == s.usage.prompt_tokens
                + u.prompt_tokens
            &&& state_after(s, response).usage.completion_tokens == s.usage.completion_tokens
                + u.completion_tokens
            &&& state_after(s, response).usage.total_tokens == s.usage.total_tokens
                + u.total_tokens
        },
        response.usage is None ==> state_after(s, response).usage == s.usage,
        begun(s).iterations == s.iterations + 1,
        begun(s) == (AgentView { iterations: begun(s).iterations, ..s }),
        state_after(s, response).iterations == s.iterations,
        state_after(s, response).max_iterations == s.max_iterations,
        state_after(s, response).tools == s.tools,
        state_after(s, response).model_id == s.model_id,
        state_after(s, response).strip_tags == s.strip_tags,
        state_after(s, response).temperature == s.temperature,
        state_after(s, response).max_tokens == s.max_tokens,
{
}

/// A thinking block in front of an answer is taken away, up to its first end, and what is left is
/// trimmed; an answer that does not begin with one, or in which it does not end, stays as it is.
pub proof fn law_thinking_block_is_taken_away(inside: Seq<char>, rest: Seq<char>, other: Seq<char>)
    ensures
        ({
            let block = "<|channel|>"@ + inside;
            let whole = block + "<|end|>"@ + rest;
            (forall|i: int|
                0 <= i < block.len() ==> !#[trigger] text::occurs_at(whole, "<|end|>"@, i))
                ==> without_thinking(whole) == text::trimmed(rest)
        }),
        !text::has_prefix(other, "<|channel|>"@) ==> without_thinking(other) == other,
        !text::contains_text(other, "<|end|>"@) ==> without_thinking(other) == other,
{
    reveal_strlit("<|channel|>");
    reveal_strlit("<|end|>");
    let end = "<|end|>"@;
    let block = "<|channel|>"@ + inside;
    let whole = block + end + rest;
    if forall|i: int| 0 <= i < block.len() ==> !#[trigger] text::occurs_at(whole, end, i) {
        let at = block.len() as int;
        assert(whole.subrange(0, "<|channel|>"@.len() as int) =~= "<|channel|>"@);
        assert(whole.subrange(at, at + end.len()) =~= end);
        assert(text::occurs_at(whole, end, at));
        assert(text::first_at(whole, end, 0, at));
        let first = first_position(whole, end);
        assert(text::first_at(whole, end, 0, first));
        assert(first == at);
        assert(whole.skip(at + end.len()) =~= rest);
    }
}

/// A chat opens with the system prompt and the user's, in this order: in one message of the user,
/// where the strategy says so, and else in a message each.
pub proof fn law_chat_opens_with_both_prompts(
    strategy: Seq<char>,
    system: Seq<char>,
    user: Seq<char>,
)
    ensures
        strategy == "first_user_turn"@ ==> ({
            let m = opening(strategy, system, user);
            &&& m.len() == 1
            &&& m[0].role == "user"@
            &&& m[0].content == Some(system + "\n\n"@ + user)
            &&& m[0].tool_calls is None && m[0].tool_call_id is None
        }),
        strategy != "first_user_turn"@ ==> ({
            let m = opening(strategy, system, user);
            &&& m.len() == 2
            &&& m[0].role == "system"@
            &&& m[0].content == Some(system)
            &&& m[0].tool_calls is None && m[0].tool_call_id is None
            &&& m[1].role == "user"@
            &&& m[1].content == Some(user)
            &&& m[1].tool_calls is None && m[1].tool_call_id is None
        }),
{
}

/// The arguments of a call are the value that their text is; a text that is none stands for no
/// arguments.
pub proof fn law_bad_arguments_are_none(parsed: Result<JsonView, Seq<char>>)
    ensures
        parsed matches Ok(v) ==> arguments_of(parsed) == v,
        parsed is Err ==> arguments_of(parsed) == JsonView::Object(json::no_members()),
{
}

} // verus!
