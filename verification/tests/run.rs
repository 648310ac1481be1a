use driver::agent::AgentResult;
use driver::config;
use driver::config::{DriverConfig, McpServerConfig, ModelConfig, RerankerConfig, RunRequest, ServerConfig};
use driver::events::{Entry, Event};
use driver::json;
use driver::json::{Json, Members};
use driver::mcp;
use driver::mcp::{ContentPart, ToolCallResult};
use driver::openai::{ChatCompletionResponse, ResponseMessage, Usage};
use driver::reranker;
use driver::run;
use driver::run::{RunEvent, RunPlan, RunStep};

fn model(name: &str) -> ModelConfig {
    ModelConfig {
        name: name.to_string(),
        base_url: "http://m".to_string(),
        model_id: "id".to_string(),
        api_key_env: None,
        strip_thinking_tags: false,
        system_prompt_strategy: config::default_system_prompt_strategy(),
        max_tokens: config::default_max_tokens(),
        temperature: Json::Uint(0),
        mcp_servers: vec!["web".to_string(), "lost".to_string()],
        tool_filter: vec!["get_*".to_string()],
        tool_call_parser: None,
        reasoning_parser: None,
        auto_tool_choice: config::default_auto_tool_choice(),
        system_prompt_files: vec![],
    }
}

fn driver_config() -> DriverConfig {
    DriverConfig {
        server: ServerConfig::default(),
        mcp_servers: vec![McpServerConfig {
            name: "web".to_string(),
            command: "web-server".to_string(),
            args: vec![],
            env: vec![],
        }],
        models: vec![model("small"), model("big")],
    }
}

fn request(model: &str) -> RunRequest {
    RunRequest {
        name: None,
        model: model.to_string(),
        mcp_servers: None,
        system_prompt: None,
        user_prompt: "go".to_string(),
        max_iterations: config::default_max_iterations(),
        tool_filter: None,
    }
}

#[test]
fn defaults_hold() {
    let c = driver_config();
    assert_eq!(c.server.http_port, 8009);
    assert_eq!(c.server.log_dir, "/opt/cpc/state");
    assert_eq!(config::default_max_tokens(), 4096);
    assert_eq!(config::default_max_iterations(), 30);
    assert_eq!(config::default_system_prompt_strategy(), "system_role");
    assert!(config::default_auto_tool_choice());
}

#[test]
fn models_and_servers_are_found() {
    let c = driver_config();
    assert_eq!(c.find_model("big").unwrap().name, "big");
    assert_eq!(c.find_model("x").err(), Some("model 'x' not found in config".to_string()));
    assert_eq!(c.find_server("web").unwrap().command, "web-server");
    assert_eq!(c.find_server("x").err(), Some("mcp_server 'x' not found in config".to_string()));
}

fn result() -> AgentResult {
    AgentResult {
        final_answer: "a".to_string(),
        iterations: 3,
        duration_ms: 12,
        total_usage: Usage { prompt_tokens: 1, completion_tokens: 2, total_tokens: 3 },
    }
}

fn logged(step: RunStep) -> Entry {
    match step {
        RunStep::Log(entry) => entry,
        other => panic!("{:?}", other),
    }
}

#[test]
fn a_run_takes_what_its_request_leaves_open_from_its_model() {
    let c = driver_config();
    let req = request("big");
    let mut plan = RunPlan::new(&c, &req, "r1").ok().unwrap();
    assert_eq!(plan.filter, &vec!["get_*".to_string()]);
    let start = logged(plan.advance(RunEvent::Done));
    assert_eq!(start.kind, "run_start");
    assert_eq!(start.data.str_at("run_id"), Some("r1"));
    assert_eq!(start.data.str_at("name"), Some("unnamed"));
    assert_eq!(start.data.str_at("model"), Some("big"));
    assert_eq!(start.data.u64_at("max_iterations"), Some(30));
    assert_eq!(start.data.strings_at("mcp_servers"), vec!["web".to_string(), "lost".to_string()]);
    match plan.advance(RunEvent::Done) {
        RunStep::Start(server) => assert_eq!(server.name, "web"),
        other => panic!("{:?}", other),
    }
    match plan.advance(RunEvent::Done) {
        RunStep::Fail(why) => assert_eq!(why, "mcp_server 'lost' not found in config"),
        other => panic!("{:?}", other),
    }
}

#[test]
fn a_run_takes_what_its_request_says() {
    let c = driver_config();
    let mut req = request("small");
    req.name = Some("job".to_string());
    req.mcp_servers = Some(vec![]);
    req.tool_filter = Some(vec!["x".to_string()]);
    let mut plan = RunPlan::new(&c, &req, "r1").ok().unwrap();
    assert_eq!(run::task_name(&req), "job");
    assert_eq!(plan.filter, &vec!["x".to_string()]);
    let start = logged(plan.advance(RunEvent::Done));
    assert!(start.data.strings_at("mcp_servers").is_empty());
    assert!(matches!(plan.advance(RunEvent::Done), RunStep::Chat));
    assert_eq!(
        RunPlan::new(&c, &request("none"), "r2").err(),
        Some("model 'none' not found in config".to_string())
    );
}

#[test]
fn a_run_logs_its_start_first_and_its_end_last() {
    let c = driver_config();
    let mut req = request("small");
    req.mcp_servers = Some(vec!["web".to_string()]);
    let mut plan = RunPlan::new(&c, &req, "r1").ok().unwrap();
    assert_eq!(logged(plan.advance(RunEvent::Done)).kind, "run_start");
    assert!(matches!(plan.advance(RunEvent::Done), RunStep::Start(_)));
    assert!(matches!(plan.advance(RunEvent::Done), RunStep::Chat));
    let end = logged(plan.advance(RunEvent::ChatEnded(Err("broken".to_string()))));
    assert_eq!(end.kind, "run_end");
    assert_eq!(end.data.bool_at("ok"), Some(false));
    assert_eq!(end.data.str_at("error"), Some("broken"));
    match plan.advance(RunEvent::Done) {
        RunStep::Finish(outcome) => assert_eq!(outcome, Err("broken".to_string())),
        other => panic!("{:?}", other),
    }
}

#[test]
fn a_run_that_cannot_start_or_end_fails() {
    let c = driver_config();
    let req = request("small");
    let mut plan = RunPlan::new(&c, &req, "r1").ok().unwrap();
    plan.advance(RunEvent::Done);
    assert!(matches!(plan.advance(RunEvent::Done), RunStep::Start(_)));
    match plan.advance(RunEvent::Failed("no answer".to_string())) {
        RunStep::Fail(why) => assert_eq!(why, "no answer"),
        other => panic!("{:?}", other),
    }
    let mut req = request("small");
    req.mcp_servers = Some(vec![]);
    let mut plan = RunPlan::new(&c, &req, "r1").ok().unwrap();
    plan.advance(RunEvent::Done);
    plan.advance(RunEvent::Done);
    assert_eq!(logged(plan.advance(RunEvent::ChatEnded(Ok(result())))).data.bool_at("ok"), Some(true));
    assert!(matches!(plan.advance(RunEvent::Failed("full".to_string())), RunStep::Fail(_)));
}

#[test]
fn prompts_are_chosen() {
    let mut req = request("small");
    let file = Some("from file".to_string());
    assert_eq!(run::system_prompt(&req, &file), "from file");
    assert!(run::system_prompt(&req, &None).starts_with("You are an agent with access to tools."));
    req.system_prompt = Some("mine".to_string());
    assert_eq!(run::system_prompt(&req, &file), "mine");
}

#[test]
fn ends_are_logged() {
    let end = run::run_ended(&Ok(result()));
    assert_eq!(end.kind, "run_end");
    assert_eq!(end.data.bool_at("ok"), Some(true));
    assert_eq!(end.data.u64_at("duration_ms"), Some(12));
    assert_eq!(end.data.u64_at("iterations"), Some(3));
    assert_eq!(end.data.u64_at("total_tokens"), Some(3));
    let failed = run::run_ended(&Err("broken".to_string()));
    assert_eq!(failed.data.bool_at("ok"), Some(false));
    assert_eq!(failed.data.str_at("error"), Some("broken"));
    assert_eq!(run::run_error("e").kind, "error");
    assert_eq!(run::handshake_failure("s"), "MCP initialize handshake with 's'");
    assert_eq!(run::listing_failure("s"), "tools/list from 's'");
    assert_eq!(run::spawn_failure("c"), "spawning MCP server: c");
}

#[test]
fn events_are_stamped() {
    let e = Event::now("k", Members::new().object());
    assert_eq!(e.kind, "k");
    assert!(e.ts.contains('T'));
    let e = Event::at("T0".to_string(), "k", json::string("d"));
    assert_eq!(e.ts, "T0");
    assert_eq!(e.data, json::string("d"));
    assert_eq!(e.line(), None);
}

#[test]
fn events_are_lines() {
    let data = Members::new().with("iteration", Json::Uint(1)).with("content", json::string("c")).object();
    let line = Event::at("T0".to_string(), "final_answer", data).line().unwrap();
    assert_eq!(
        line,
        "{\"ts\":\"T0\",\"kind\":\"final_answer\",\"content\":\"c\",\"iteration\":1}"
    );
    let said = driver::report::compose_report(&vec!["no event".to_string(), line.clone()]);
    assert!(said.contains("## Final Answer\n\nc\n\n---"));
    assert_eq!(said, driver::report::compose_report(&vec![line]));
    let bare = Event::at("T0".to_string(), "a\"b", Members::new().object()).line().unwrap();
    assert_eq!(bare, "{\"ts\":\"T0\",\"kind\":\"a\\\"b\"}");
    let null = Event::at("T0".to_string(), "k", Json::Null).line();
    assert_eq!(null, Some("{\"ts\":\"T0\",\"kind\":\"k\"}".to_string()));
    for data in [Json::Bool(true), Json::Uint(1), json::string("s"), json::array(vec![])] {
        assert_eq!(Event::at("T0".to_string(), "k", data).line(), None);
    }
    assert_eq!(driver::events::line_of("1", "2", "{\"a\":3}"), "{\"ts\":1,\"kind\":2,\"a\":3}");
}

fn short(min: usize, enabled: bool) -> RerankerConfig {
    RerankerConfig {
        enabled,
        base_url: "http://r".to_string(),
        model_id: "r".to_string(),
        min_tool_result_bytes: min,
        max_summary_tokens: 800,
    }
}

#[test]
fn long_answers_are_made_short() {
    assert!(reranker::rerank_request("g", "t", "{}", "abc", &short(4, true), Json::Null).is_none());
    assert!(reranker::rerank_request("g", "t", "{}", "abc", &short(3, false), Json::Null).is_none());
    let asked = reranker::rerank_request("g", "t", "{}", "aé", &short(3, true), Json::Uint(0)).unwrap();
    assert_eq!(asked.model, "r");
    assert_eq!(asked.max_tokens, Some(800));
    assert_eq!(asked.messages[0].role, "system");
    assert_eq!(
        asked.messages[1].content,
        Some(
            "## User goal\ng\n\n## Tool just called\nt({})\n\n## Raw tool result (3 bytes)\naé\n\n## Output\nReturn the relevant subset. Preserve exact numbers and quoted strings."
                .to_string()
        )
    );
}

fn answer(content: Option<&str>) -> Option<ChatCompletionResponse> {
    Some(ChatCompletionResponse {
        choices: vec![ResponseMessage {
            content: content.map(String::from),
            reasoning_content: None,
            reasoning: None,
            tool_calls: None,
        }],
        usage: None,
    })
}

#[test]
fn empty_short_answers_are_not_taken() {
    assert_eq!(reranker::accept(&answer(Some(" x "))), Some(" x ".to_string()));
    assert_eq!(reranker::accept(&answer(Some(" \n"))), None);
    assert_eq!(reranker::accept(&answer(None)), None);
    assert_eq!(reranker::accept(&None), None);
    assert_eq!(reranker::accept(&Some(ChatCompletionResponse { choices: vec![], usage: None })), None);
}

#[test]
fn results_are_read_as_text() {
    assert_eq!(mcp::text_result("t").text_content(), "t");
    assert!(!mcp::text_result("t").is_error);
    assert!(mcp::error_result("t").is_error);
    let part = |kind: &str, text: Option<&str>| ContentPart {
        part_type: kind.to_string(),
        text: text.map(String::from),
    };
    let mixed = ToolCallResult {
        content: vec![
            part("text", Some("a")),
            part("image", Some("b")),
            part("text", None),
            part("text", Some("c")),
        ],
        is_error: false,
    };
    assert_eq!(mixed.text_content(), "a\nc");
}
