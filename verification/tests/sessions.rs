use driver::actions::ToolAction;
use driver::driver_tools::DriverTools;
use driver::json;
use driver::json::{Json, Members};
use driver::mcp::{error_result, text_result};
use driver::policy::Tier;
use driver::sessions::{Collector, ReadEvent};

fn args(pairs: &[(&str, &str)]) -> Json {
    let mut m = Members::new();
    for (k, v) in pairs {
        m = m.with(k, json::string(v));
    }
    m.object()
}

fn with_session(name: &str) -> DriverTools {
    let mut tools = DriverTools::new("/state");
    let reply = tools.session_created_at(name, "/tmp", "now");
    assert_eq!(reply, text_result(&format!("session '{}' created in /tmp", name)));
    tools
}

#[test]
fn sessions_are_named_by_their_number() {
    let tools = DriverTools::new("/state");
    assert_eq!(
        tools.session_create(&args(&[])),
        ToolAction::CreateSession { name: "s0".to_string(), cwd: "/root".to_string() }
    );
    let tools = with_session("x");
    assert_eq!(
        tools.session_create(&args(&[("cwd", "/tmp")])),
        ToolAction::CreateSession { name: "s1".to_string(), cwd: "/tmp".to_string() }
    );
    assert_eq!(
        tools.session_create(&args(&[("name", "x")])),
        ToolAction::Reply(error_result("session 'x' already exists"))
    );
}

#[test]
fn a_session_made_now_has_a_moment() {
    let mut tools = DriverTools::new("/state");
    tools.session_created("a", "/");
    assert_eq!(tools.sessions.len(), 1);
    assert!(tools.sessions[0].created_at.contains('T'));
}

#[test]
fn a_session_made_twice_is_one() {
    let mut tools = with_session("a");
    tools.session_created_at("a", "/other", "later");
    assert_eq!(tools.sessions.len(), 1);
    assert_eq!(tools.sessions[0].cwd, "/other");
}

#[test]
fn a_made_session_can_be_ended() {
    let mut tools = with_session("a");
    assert_eq!(
        tools.session_destroy(&args(&[("session", "a")])),
        ToolAction::DestroySession {
            name: "a".to_string(),
            reply: text_result("session 'a' destroyed"),
        }
    );
    assert!(tools.sessions.is_empty());
    assert_eq!(
        tools.session_destroy(&args(&[("session", "a")])),
        ToolAction::Reply(error_result("session 'a' not found"))
    );
}

#[test]
fn a_command_is_framed_by_its_sentinel() {
    let tools = with_session("a");
    assert_eq!(
        tools.session_run_with(&args(&[("session", "a"), ("command", "ls")]), "T"),
        ToolAction::RunInSession {
            session: "a".to_string(),
            command: "ls".to_string(),
            input: "ls 2>&1; echo \"__DRIVER_SENTINEL_T__\"\n".to_string(),
            sentinel: "__DRIVER_SENTINEL_T__".to_string(),
            moves: false,
        }
    );
    let first = tools.session_run(&args(&[("session", "a"), ("command", "ls")]));
    let second = tools.session_run(&args(&[("session", "a"), ("command", "ls")]));
    assert_ne!(first, second);
}

#[test]
fn commands_in_sessions_are_checked() {
    let tools = with_session("a");
    assert_eq!(
        tools.session_run_with(&args(&[("session", "a")]), "T"),
        ToolAction::Reply(error_result("session and command are required"))
    );
    assert_eq!(
        tools.session_run_with(&args(&[("session", "b"), ("command", "ls")]), "T"),
        ToolAction::Reply(error_result("session 'b' not found"))
    );
    assert_eq!(
        tools.session_run_with(&args(&[("session", "a"), ("command", "MKFS")]), "T"),
        ToolAction::Reply(error_result(
            "Command requires allow_destructive=true (Tier 3 safety): MKFS"
        ))
    );
    assert_eq!(
        tools.run_tiered("b", "x", Tier::Rejected, true, true, "T", false),
        ToolAction::Reply(error_result(
            "Command unconditionally rejected (catastrophic pattern detected): x"
        ))
    );
}

#[test]
fn a_session_moves() {
    let mut tools = with_session("a");
    match tools.session_cd_with(&args(&[("session", "a"), ("path", "/x y")]), "T") {
        ToolAction::RunInSession { command, moves, .. } => {
            assert_eq!(command, "cd '/x y' && pwd");
            assert!(moves);
        }
        other => panic!("{:?}", other),
    }
    assert_eq!(
        tools.session_cd_with(&args(&[("session", "a")]), "T"),
        ToolAction::Reply(error_result("session and path are required"))
    );
    assert!(matches!(
        tools.session_cd(&args(&[("session", "a"), ("path", "/x")])),
        ToolAction::RunInSession { moves: true, .. }
    ));
    assert_eq!(tools.session_finished("a", "cd '/x y' && pwd", "/x y\n", true), text_result("/x y\n"));
    assert_eq!(tools.sessions[0].cwd, "/x y");
}

#[test]
fn variables_are_set_and_read() {
    let tools = with_session("a");
    match tools.session_set_env_with(&args(&[("session", "a"), ("key", "K"), ("value", "v w")]), "T") {
        ToolAction::RunInSession { command, moves, .. } => {
            assert_eq!(command, "export K='v w'");
            assert!(!moves);
        }
        other => panic!("{:?}", other),
    }
    match tools.session_get_env_with(&args(&[("session", "a"), ("key", "K")]), "T") {
        ToolAction::RunInSession { command, .. } => assert_eq!(command, "echo $K"),
        other => panic!("{:?}", other),
    }
    match tools.session_get_env_with(&args(&[("session", "a")]), "T") {
        ToolAction::RunInSession { command, .. } => assert_eq!(command, "env"),
        other => panic!("{:?}", other),
    }
    assert_eq!(
        tools.session_set_env_with(&args(&[("key", "K")]), "T"),
        ToolAction::Reply(error_result("session and command are required"))
    );
    assert!(matches!(
        tools.session_set_env(&args(&[("session", "a"), ("key", "K")])),
        ToolAction::RunInSession { .. }
    ));
    assert!(matches!(
        tools.session_get_env(&args(&[("session", "a")])),
        ToolAction::RunInSession { .. }
    ));
}

#[test]
fn what_was_run_is_remembered() {
    let mut tools = with_session("a");
    tools.session_created_at("b", "/b", "now");
    tools.session_finished("a", "one", "1\n", false);
    tools.session_finished("a", "two", "2\n", false);
    tools.session_finished("none", "three", "3\n", false);
    assert_eq!(
        tools.sessions[0].history,
        vec![
            ("one".to_string(), "1\n".to_string()),
            ("two".to_string(), "2\n".to_string()),
        ]
    );
    assert!(tools.sessions[1].history.is_empty());
    assert_eq!(tools.sessions[0].cwd, "/tmp");
    let limited = Members::new().with("session", json::string("a")).with("limit", Json::Uint(1)).object();
    assert_eq!(
        tools.session_history(&limited),
        text_result(
            "[\n  {\n    \"command\": \"two\",\n    \"index\": 0,\n    \"output_preview\": \"2\\n\"\n  }\n]"
        )
    );
    assert_eq!(
        tools.session_history(&args(&[("session", "z")])),
        error_result("session 'z' not found")
    );
}

#[test]
fn long_outputs_are_shown_in_part() {
    let mut tools = with_session("a");
    tools.session_finished("a", "x", &"o".repeat(201), false);
    assert!(tools.is_history_cuttable(&args(&[("session", "a")])));
    let shown = tools.session_history_value(0, &args(&[]));
    match shown {
        Json::Array(items) => assert_eq!(items[0].str_at("output_preview"), Some("o".repeat(200).as_str())),
        other => panic!("{:?}", other),
    }
    tools.session_finished("a", "y", &format!("{}é", "o".repeat(199)), false);
    assert!(!tools.is_history_cuttable(&args(&[("session", "a")])));
    assert!(tools.is_history_cuttable(&args(&[("session", "z")])));
}

#[test]
fn sessions_are_listed() {
    let mut tools = with_session("a");
    tools.session_finished("a", "x", "", false);
    assert_eq!(
        tools.session_list(),
        text_result(
            "[\n  {\n    \"created_at\": \"now\",\n    \"cwd\": \"/tmp\",\n    \"history_count\": 1,\n    \"name\": \"a\"\n  }\n]"
        )
    );
    assert_eq!(DriverTools::new("/s").session_list(), text_result("[]"));
}

fn collected(events: &[ReadEvent]) -> (String, bool) {
    let mut c = Collector::new("END");
    for e in events {
        c.take_in(e);
    }
    (c.output, c.done)
}

fn line(s: &str) -> ReadEvent {
    ReadEvent::Line(s.to_string())
}

#[test]
fn output_is_what_precedes_the_sentinel() {
    assert_eq!(
        collected(&[line("a\n"), line("b\n"), line("END\n"), line("c\n")]),
        ("a\nb\n".to_string(), true)
    );
    assert_eq!(collected(&[line("xEND\n")]), ("xEND\n".to_string(), false));
}

#[test]
fn output_can_end_early() {
    assert_eq!(collected(&[line("a\n"), ReadEvent::End]), ("a\n".to_string(), true));
    assert_eq!(
        collected(&[line("a\n"), ReadEvent::Deadline]),
        ("a\n\n[timeout after 120s]".to_string(), true)
    );
    assert_eq!(collected(&[ReadEvent::TimedOut]), ("\n[timeout]".to_string(), true));
    assert_eq!(
        collected(&[ReadEvent::Failed("broken".to_string())]),
        ("\n[read error: broken]".to_string(), true)
    );
}
