use driver::agent;
use driver::agent::{AgentLoop, Turn};
use driver::config::ModelConfig;
use driver::json;
use driver::json::{Json, Members};
use driver::mcp::{error_result, text_result};
use driver::openai::{
    ChatCompletionResponse, FunctionCall, OpenAIFunction, OpenAITool, ResponseMessage, ToolCall, Usage,
};

fn model(strategy: &str, strip: bool) -> ModelConfig {
    ModelConfig {
        name: "m".to_string(),
        base_url: "http://m".to_string(),
        model_id: "id".to_string(),
        api_key_env: None,
        strip_thinking_tags: strip,
        system_prompt_strategy: strategy.to_string(),
        max_tokens: 10,
        temperature: Json::Uint(0),
        mcp_servers: vec![],
        tool_filter: vec![],
        tool_call_parser: None,
        reasoning_parser: None,
        auto_tool_choice: true,
        system_prompt_files: vec![],
    }
}

fn response(content: Option<&str>, calls: Vec<(&str, &str, &str)>) -> ChatCompletionResponse {
    ChatCompletionResponse {
        choices: vec![ResponseMessage {
            content: content.map(String::from),
            reasoning_content: None,
            reasoning: Some("because".to_string()),
            tool_calls: Some(
                calls
                    .iter()
                    .map(|c| ToolCall {
                        id: c.0.to_string(),
                        call_type: "function".to_string(),
                        function: FunctionCall { name: c.1.to_string(), arguments: c.2.to_string() },
                    })
                    .collect(),
            ),
        }],
        usage: Some(Usage { prompt_tokens: 3, completion_tokens: 4, total_tokens: 7 }),
    }
}

#[test]
fn a_chat_opens_by_its_strategy() {
    let mut chat = AgentLoop::new("u", "s", 5, &model("first_user_turn", false), vec![]);
    let (_, one) = chat.begin_iteration().unwrap();
    assert_eq!(one.messages.len(), 1);
    assert_eq!(one.messages[0].role, "user");
    assert_eq!(one.messages[0].content, Some("s\n\nu".to_string()));
    let mut chat = AgentLoop::new("u", "s", 5, &model("system_role", false), vec![]);
    let (_, two) = chat.begin_iteration().unwrap();
    assert_eq!(two.messages.len(), 2);
    assert_eq!(two.messages[0].role, "system");
    assert_eq!(two.messages[1].content, Some("u".to_string()));
}

#[test]
fn a_chat_runs_to_its_answer() {
    let tool = OpenAITool {
        tool_type: "function".to_string(),
        function: OpenAIFunction {
            name: "t".to_string(),
            description: "".to_string(),
            parameters: Json::Null,
        },
    };
    let mut chat = AgentLoop::new("u", "s", 2, &model("system_role", false), vec![tool]);
    let registered = chat.tools_registered();
    assert_eq!(registered.kind, "tools_registered");
    assert_eq!(registered.data.u64_at("count"), Some(1));

    let (entry, request) = chat.begin_iteration().unwrap();
    assert_eq!(entry.kind, "llm_request");
    assert_eq!(entry.data.u64_at("message_count"), Some(2));
    assert_eq!(request.tool_choice, Some("auto".to_string()));
    assert_eq!(request.max_tokens, Some(10));
    assert_eq!(request.model, "id");

    let (entries, turn) = chat.on_response(&response(None, vec![("1", "t", "{\"a\":1}"), ("2", "x", "bad")]));
    assert!(matches!(turn, Turn::Tools));
    assert_eq!(entries.len(), 1);
    assert_eq!(entries[0].kind, "reasoning");
    assert_eq!(entries[0].data.str_at("content"), Some("because"));

    let (entry, name, arguments) = chat.next_call().unwrap();
    assert_eq!(entry.data.str_at("id"), Some("1"));
    assert_eq!(name, "t");
    assert_eq!(arguments, Members::new().with("a", Json::Uint(1)).object());
    let entry = chat.on_tool_result(&Ok(text_result("fine")));
    assert_eq!(entry.data.bool_at("ok"), Some(true));

    let (_, name, arguments) = chat.next_call().unwrap();
    assert_eq!(name, "x");
    assert_eq!(arguments, Members::new().object());
    let entry = chat.on_tool_result(&Err("lost".to_string()));
    assert_eq!(entry.data.str_at("content"), Some("Error: lost"));
    assert_eq!(entry.data.bool_at("ok"), Some(false));
    assert!(chat.next_call().is_none());

    let (_, request) = chat.begin_iteration().unwrap();
    assert_eq!(request.messages.len(), 5);
    assert_eq!(request.messages[2].role, "assistant");
    assert_eq!(request.messages[4].tool_call_id, Some("2".to_string()));
    let (entries, turn) = chat.on_response(&response(Some("done"), vec![]));
    assert_eq!(entries[1].kind, "final_answer");
    match turn {
        Turn::Final(t) => assert_eq!(t, "done"),
        _ => panic!("no calls are left"),
    }
    let result = chat.finish("done".to_string(), 12);
    assert_eq!(result.iterations, 2);
    assert_eq!(result.total_usage.total_tokens, 14);
    assert_eq!(
        chat.begin_iteration().err(),
        Some("max iterations (2) exceeded".to_string())
    );
}

#[test]
fn an_error_of_a_tool_is_an_answer() {
    let mut chat = AgentLoop::new("u", "s", 2, &model("system_role", false), vec![]);
    let (_, request) = chat.begin_iteration().unwrap();
    assert!(request.tools.is_none());
    assert_eq!(request.tool_choice, None);
    chat.on_response(&response(None, vec![("1", "t", "{}")]));
    let entry = chat.on_tool_result(&Ok(error_result("no")));
    assert_eq!(entry.data.bool_at("ok"), Some(false));
    assert_eq!(entry.data.str_at("content"), Some("no"));
}

#[test]
fn an_answer_without_choices_fails() {
    let mut chat = AgentLoop::new("u", "s", 2, &model("system_role", false), vec![]);
    chat.begin_iteration().unwrap();
    let (entries, turn) = chat.on_response(&ChatCompletionResponse { choices: vec![], usage: None });
    assert!(entries.is_empty());
    match turn {
        Turn::Failed(e) => assert_eq!(e, "no choices in LLM response"),
        _ => panic!("there is no choice"),
    }
}

#[test]
fn thinking_is_stripped() {
    assert_eq!(agent::strip_thinking_tags("<|channel|>hm<|end|>  so  "), "so");
    assert_eq!(agent::strip_thinking_tags(" <|channel|>hm<|end|>so"), " <|channel|>hm<|end|>so");
    assert_eq!(agent::strip_thinking_tags("<|channel|>hm"), "<|channel|>hm");
    assert_eq!(agent::lazy_static_regex("a <|end|> b"), "a <|end|> b");
    let mut chat = AgentLoop::new("u", "s", 2, &model("system_role", true), vec![]);
    chat.begin_iteration().unwrap();
    match chat.on_response(&response(Some("<|channel|>x<|end|>y"), vec![])).1 {
        Turn::Final(t) => assert_eq!(t, "y"),
        _ => panic!("no calls are made"),
    }
}

#[test]
fn bad_arguments_are_none() {
    assert_eq!(agent::arguments_or_none(Err("e".to_string())), Members::new().object());
    assert_eq!(agent::arguments_or_none(Ok(json::string("x"))), json::string("x"));
}
