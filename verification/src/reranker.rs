//! Making a tool's long answer short: the request to the model that does it, and what is taken
//! from that model's answer.

use vstd::prelude::*;

use crate::config::RerankerConfig;
use crate::json::{Json, JsonView};
use crate::openai;
use crate::openai::{ChatCompletionRequest, ChatCompletionResponse, Message, RequestView, ResponseView};
use crate::text;

verus! {

/// What the model is told to do.
pub const SYSTEM_MESSAGE: &'static str =
    "You compress tool results for an AI agent. Keep ONLY the information relevant to the user's goal. Drop boilerplate, navigation, ads, repeated whitespace. Preserve numbers, prices, dates, names, URLs, and structured data exactly. Return at most 800 tokens of compressed content. No commentary \u{2014} just the relevant content.";

/// What the model is given.
pub open spec fn user_message(
    user_prompt: Seq<char>,
    tool_name: Seq<char>,
    tool_args: Seq<char>,
    raw_result: Seq<char>,
) -> Seq<char> {
    "## User goal\n"@ + user_prompt + "\n\n## Tool just called\n"@ + tool_name + "("@ + tool_args
        + ")\n\n## Raw tool result ("@ + text::decimal(text::byte_len(raw_result)) + " bytes)\n"@
        + raw_result
        + "\n\n## Output\nReturn the relevant subset. Preserve exact numbers and quoted strings."@
}

/// Whether an answer is to be made short.
pub open spec fn is_wanted(cfg: RerankerConfig, raw_result: Seq<char>) -> bool {
    cfg.enabled && text::byte_len(raw_result) >= cfg.min_tool_result_bytes
}

/// The request for a short answer.
pub open spec fn short_request(
    cfg: RerankerConfig,
    user: Seq<char>,
    temperature: JsonView,
) -> RequestView {
    RequestView {
        model: cfg.model_id@,
        messages: seq![
            openai::plain_message("system"@, SYSTEM_MESSAGE@),
            openai::plain_message("user"@, user),
        ],
        tools: None,
        tool_choice: None,
        max_tokens: Some(cfg.max_summary_tokens),
        temperature: Some(temperature),
        stream: false,
    }
}

/// The request for a short answer; none where the answer is left as it is. The temperature is a
/// JSON number.
pub fn rerank_request(
    user_prompt: &str,
    tool_name: &str,
    tool_args: &str,
    raw_result: &str,
    cfg: &RerankerConfig,
    temperature: Json,
) -> (r: Option<ChatCompletionRequest>)
    ensures
        match r {
            Some(request) => is_wanted(*cfg, raw_result@) && request@ == short_request(
                *cfg,
                user_message(user_prompt@, tool_name@, tool_args@, raw_result@),
                temperature@,
            ),
            None => !is_wanted(*cfg, raw_result@),
        },
{
    let len: usize = text::bytes(raw_result);
    if !cfg.enabled || len < cfg.min_tool_result_bytes {
        return None;
    }
    let asked = text::cat7(
        "## User goal\n",
        user_prompt,
        "\n\n## Tool just called\n",
        tool_name,
        "(",
        tool_args,
        ")\n\n## Raw tool result (",
    );
    let user = text::cat5(
        asked.as_str(),
        text::number(len as u64).as_str(),
        " bytes)\n",
        raw_result,
        "\n\n## Output\nReturn the relevant subset. Preserve exact numbers and quoted strings.",
    );
    let mut messages: Vec<Message> = Vec::new();
    messages.push(openai::plain("system", SYSTEM_MESSAGE));
    messages.push(openai::plain("user", user.as_str()));
    let r = ChatCompletionRequest {
        model: text::copy(cfg.model_id.as_str()),
        messages,
        tools: None,
        tool_choice: None,
        max_tokens: Some(cfg.max_summary_tokens),
        temperature: Some(temperature),
        stream: false,
    };
    proof {
        assert(r@.messages =~= short_request(*cfg, user@, temperature@).messages);
    }
    Some(r)
}

/// The short answer that is taken from the model's answer: the text of its first choice, unless
/// there is nothing but white space in it.
pub open spec fn short_answer(response: ResponseView) -> Option<Seq<char>> {
    if response.choices.len() == 0 {
        None
    } else {
        match response.choices[0].content {
            Some(t) => if text::trimmed(t).len() == 0 {
                None
            } else {
                Some(t)
            },
            None => None,
        }
    }
}

/// The short answer that is taken from the model's answer; none where the model gave none.
pub fn accept(response: &Option<ChatCompletionResponse>) -> (r: Option<String>)
    ensures
        text::opt_text(r) == (match *response {
            Some(resp) => short_answer(resp@),
            None => None,
        }),
{
    match response {
        None => None,
        Some(resp) => {
            if resp.choices.len() == 0 {
                return None;
            }
            match &resp.choices[0].content {
                Some(t) => if text::trim(t.as_str()).as_str().is_empty() {
                    None
                } else {
                    Some(text::copy(t.as_str()))
                },
                None => None,
            }
        },
    }
}

/// A result is made shorter if and only if that is switched on and the result has at least the
/// number of bytes that is set for it.
pub proof fn law_long_results_are_made_shorter(
    cfg: RerankerConfig,
    raw: Seq<char>,
)
    ensures
        !cfg.enabled ==> !is_wanted(cfg, raw),
        cfg.enabled ==> (is_wanted(cfg, raw) <==> text::byte_len(raw) >= cfg.min_tool_result_bytes),
{
}

/// The request to make a result shorter is for the model that is set for it, with its limit; it
/// holds the instruction and then the goal, the call and the whole result, and offers no tools.
pub proof fn law_request_holds_the_goal_and_the_result(
    cfg: RerankerConfig,
    goal: Seq<char>,
    tool: Seq<char>,
    args: Seq<char>,
    raw: Seq<char>,
    temperature: JsonView,
)
    ensures
        ({
            let r = short_request(cfg, user_message(goal, tool, args, raw), temperature);
            &&& r.model == cfg.model_id@
            &&& r.max_tokens == Some(cfg.max_summary_tokens)
            &&& r.temperature == Some(temperature)
            &&& r.tools is None && r.tool_choice is None && !r.stream
            &&& r.messages.len() == 2
            &&& r.messages[0].role == "system"@ && r.messages[0].content == Some(SYSTEM_MESSAGE@)
            &&& r.messages[1].role == "user"@
            &&& r.messages[1].content == Some(
                "## User goal\n"@ + goal + "\n\n## Tool just called\n"@ + tool + "("@ + args
                    + ")\n\n## Raw tool result ("@ + text::decimal(text::byte_len(raw))
                    + " bytes)\n"@ + raw
                    + "\n\n## Output\nReturn the relevant subset. Preserve exact numbers and quoted strings."@,
            )
            &&& r.messages[0].tool_calls is None && r.messages[0].tool_call_id is None
            &&& r.messages[1].tool_calls is None && r.messages[1].tool_call_id is None
        }),
{
}

/// A shorter text is taken over whole where the first choice gives one that is more than white
/// space, and not otherwise.
pub proof fn law_first_choice_is_taken(
    response: ResponseView,
    t: Seq<char>,
)
    ensures
        response.choices.len() == 0 ==> short_answer(response) is None,
        response.choices.len() > 0 && response.choices[0].content is None ==> short_answer(response)
            is None,
        response.choices.len() > 0 && response.choices[0].content == Some(t)
            && text::trimmed(t).len()
            > 0 ==> short_answer(response) == Some(t),
        response.choices.len() > 0 && response.choices[0].content == Some(t)
            && text::trimmed(t).len()
            == 0 ==> short_answer(response) is None,
{
}

} // verus!
