use driver::config::{DriverConfig, McpServerConfig, ModelConfig, ServerConfig};
use driver::json;
use driver::json::{Json, Members};
use driver::serve;
use driver::serve::RunDir;

fn config() -> DriverConfig {
    DriverConfig {
        server: ServerConfig::default(),
        mcp_servers: vec![McpServerConfig {
            name: "web".to_string(),
            command: "cmd".to_string(),
            args: vec![],
            env: vec![],
        }],
        models: vec![ModelConfig {
            name: "m".to_string(),
            base_url: "http://m".to_string(),
            model_id: "id".to_string(),
            api_key_env: None,
            strip_thinking_tags: false,
            system_prompt_strategy: "system_role".to_string(),
            max_tokens: 7,
            temperature: Json::Other(serde_json::Number::from_f64(0.5).unwrap()),
            mcp_servers: vec![],
            tool_filter: vec![],
            tool_call_parser: None,
            reasoning_parser: None,
            auto_tool_choice: true,
            system_prompt_files: vec![],
        }],
    }
}

#[test]
fn the_driver_is_well() {
    let body = serve::health(&config(), 9);
    assert_eq!(body.str_at("status"), Some("ok"));
    assert_eq!(body.u64_at("uptime_secs"), Some(9));
    assert_eq!(body.u64_at("registered_models"), Some(1));
    assert_eq!(body.u64_at("registered_servers"), Some(1));
}

#[test]
fn the_registry_is_shown() {
    let body = serve::registry(&config());
    match body.get("models") {
        Some(Json::Array(models)) => {
            assert_eq!(models[0].str_at("name"), Some("m"));
            assert_eq!(models[0].u64_at("max_tokens"), Some(7));
            assert_eq!(
                models[0].get("temperature"),
                Some(&Json::Other(serde_json::Number::from_f64(0.5).unwrap()))
            );
        }
        other => panic!("{:?}", other),
    }
    match body.get("mcp_servers") {
        Some(Json::Array(servers)) => {
            assert_eq!(servers[0].str_at("tools"), Some("listed at spawn time"));
        }
        other => panic!("{:?}", other),
    }
    assert_eq!(body.strings_at("driver_tools").len(), 48);
}

#[test]
fn unknown_models_are_refused() {
    assert!(serve::refuse_run(&config(), "m").is_none());
    assert_eq!(
        serve::refuse_run(&config(), "x").unwrap().str_at("error"),
        Some("model 'x' not found")
    );
}

fn dir(name: &str, modified: Option<i128>) -> RunDir {
    RunDir { name: name.to_string(), modified }
}

fn names(dirs: Vec<RunDir>) -> Vec<String> {
    dirs.into_iter().map(|d| d.name).collect()
}

#[test]
fn runs_are_newest_first() {
    let all = || {
        vec![
            dir("a", Some(1)),
            dir("b", None),
            dir("c", Some(3)),
            dir("d", Some(1)),
            dir("e", None),
            dir("f", Some(-2)),
        ]
    };
    assert_eq!(names(serve::page(all(), 0, 20)), ["c", "a", "d", "f", "b", "e"]);
    assert_eq!(names(serve::page(all(), 1, 2)), ["a", "d"]);
    assert_eq!(names(serve::page(all(), 3, 2)), ["f", "b"]);
    assert!(serve::page(all(), 6, 2).is_empty());
    assert!(serve::page(all(), usize::MAX, usize::MAX).is_empty());
    assert!(serve::page(all(), 0, 0).is_empty());
    assert_eq!(serve::default_limit(), 20);
}

#[test]
fn pages_follow() {
    let all = || vec![dir("a", Some(1)), dir("b", Some(2)), dir("c", Some(3))];
    let mut both = serve::page(all(), 0, 2);
    both.extend(serve::page(all(), 2, 2));
    assert_eq!(both, serve::page(all(), 0, 4));
}

#[test]
fn runs_are_told_of() {
    let log = "{\"kind\":\"run_start\",\"task\":\"job\",\"model\":\"m\",\"ts\":\"T\"}\nxx\n{\"ok\":true,\"duration_ms\":4}\n";
    let info = serve::run_info("r", &Some(log.to_string()));
    assert_eq!(
        info,
        Members::new()
            .with("id", json::string("r"))
            .with("name", json::string("job"))
            .with("model", json::string("m"))
            .with("started_at", json::string("T"))
            .with("ok", Json::Bool(true))
            .with("duration_ms", Json::Uint(4))
            .object()
    );
    let bare = Members::new().with("id", json::string("r")).object();
    assert_eq!(serve::run_info("r", &None), bare);
    assert_eq!(serve::run_info("r", &Some("".to_string())), bare);
    assert_eq!(serve::run_info("r", &Some("not json".to_string())), bare);
    let named = Members::new().with("name", json::string("n")).with("task", json::string("t")).object();
    assert_eq!(serve::run_info_of("r", &Some(named), &None).str_at("name"), Some("n"));
    assert_eq!(serve::list_runs(vec![bare]).u64_at("total"), Some(1));
}

#[test]
fn a_run_is_shown() {
    let body = serve::get_run("r", &Some("{\"a\":1}\nbad\n2\n".to_string()), &None);
    assert_eq!(body.str_at("id"), Some("r"));
    assert_eq!(body.str_at("report"), Some(""));
    match body.get("events") {
        Some(Json::Array(events)) => assert_eq!(events.len(), 2),
        other => panic!("{:?}", other),
    }
    let empty = serve::get_run("r", &None, &Some("rep".to_string()));
    assert_eq!(empty.str_at("report"), Some("rep"));
    assert_eq!(empty.get("events"), Some(&json::array(vec![])));
    assert_eq!(serve::run_not_found("x").str_at("error"), Some("run 'x' not found"));
}

#[test]
fn places_are_named() {
    assert_eq!(serve::run_dir("/s", "id"), "/s/runs/id");
    assert_eq!(serve::runs_dir("/s"), "/s/runs");
    assert_eq!(serve::log_file("/s/runs/id"), "/s/runs/id/run.jsonl");
    assert_eq!(serve::report_file("/s/runs/id"), "/s/runs/id/shared_state.md");
    assert_eq!(
        serve::state_dirs("/s"),
        ["/s/runs", "/s/breadcrumbs/active", "/s/breadcrumbs/completed", "/s/loaves"]
    );
    assert_eq!(serve::address("0.0.0.0", 8009), "0.0.0.0:8009");
}
