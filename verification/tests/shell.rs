use driver::actions::ToolAction;
use driver::driver_tools::DriverTools;
use driver::json;
use driver::json::{Json, Members};
use driver::mcp::{error_result, text_result};
use driver::policy::Tier;
use driver::shell;
use driver::shell::BashOutcome;

fn tools() -> DriverTools {
    DriverTools::new("/state")
}

fn args(pairs: &[(&str, &str)]) -> Json {
    let mut m = Members::new();
    for (k, v) in pairs {
        m = m.with(k, json::string(v));
    }
    m.object()
}

fn flagged(pairs: &[(&str, &str)], flag: &str) -> Json {
    let mut m = Members::new();
    for (k, v) in pairs {
        m = m.with(k, json::string(v));
    }
    m.with(flag, Json::Bool(true)).object()
}

fn refused(message: &str) -> ToolAction {
    ToolAction::Reply(error_result(message))
}

fn command(command: &str, timeout_secs: u64) -> ToolAction {
    ToolAction::Bash { command: command.to_string(), working_dir: None, timeout_secs }
}

#[test]
fn archives() {
    let paths = json::string_array(&vec!["a".to_string(), "b c".to_string()]);
    let given = Members::new().with("output", json::string("o.tgz")).with("paths", paths).object();
    assert_eq!(tools().archive_create(&given), command("tar czf 'o.tgz' 'a' 'b c'", 60));
    assert_eq!(
        tools().archive_create(&args(&[("output", "o")])),
        refused("output and paths[] are required")
    );
    assert_eq!(
        tools().archive_extract(&args(&[("archive", "a.tgz")])),
        command("tar xzf 'a.tgz' -C '.'", 60)
    );
    assert_eq!(tools().archive_extract(&args(&[])), refused("archive is required"));
}

#[test]
fn commands_are_checked() {
    assert_eq!(tools().bash(&args(&[])), refused("command is required"));
    assert_eq!(
        tools().bash(&args(&[("command", "ls"), ("working_dir", "/w")])),
        ToolAction::Bash {
            command: "ls".to_string(),
            working_dir: Some("/w".to_string()),
            timeout_secs: 120,
        }
    );
    assert_eq!(
        tools().bash(&args(&[("command", "Kill 1")])),
        refused("Command requires confirm=true (Tier 2 safety): Kill 1")
    );
    assert_eq!(tools().bash(&flagged(&[("command", "kill 1")], "confirm")), command("kill 1", 120));
    assert_eq!(
        tools().bash_in(&flagged(&[("command", "x")], "confirm"), Tier::Rejected),
        refused("Command unconditionally rejected (catastrophic pattern detected): x")
    );
}

#[test]
fn plain_commands_are_not_checked() {
    assert_eq!(
        tools().run_cmd(&args(&[("command", "kill 1")])),
        ToolAction::BashStdout { command: "kill 1".to_string(), timeout_secs: 30 }
    );
    assert_eq!(tools().run_cmd(&args(&[])), refused("command is required"));
}

#[test]
fn transforms() {
    let both = [("path", "p"), ("pattern", "x")];
    assert_eq!(tools().transform_grep(&args(&both)), command("grep -n -E 'x' 'p'", 30));
    let given = Members::new()
        .with("path", json::string("p"))
        .with("pattern", json::string("x"))
        .with("context", Json::Uint(3))
        .with("recursive", Json::Bool(true))
        .object();
    assert_eq!(tools().transform_grep(&given), command("grep -n -C 3 -r -E 'x' 'p'", 30));
    assert_eq!(tools().transform_grep(&args(&[])), refused("path and pattern are required"));
    assert_eq!(
        tools().transform_diff_files(&args(&[("file_a", "a"), ("file_b", "b")])),
        command("diff -u 'a' 'b'", 15)
    );
    assert_eq!(tools().transform_diff_files(&args(&[])), refused("file_a and file_b are required"));
    assert_eq!(tools().transform_hash_file(&args(&[("path", "p")])), command("sha256sum 'p'", 15));
    assert_eq!(
        tools().transform_hash_file(&args(&[("path", "p"), ("algorithm", "md5")])),
        command("md5sum 'p'", 15)
    );
    assert_eq!(
        tools().transform_hash_file(&args(&[("path", "p"), ("algorithm", "sha1")])),
        command("sha1sum 'p'", 15)
    );
    assert_eq!(
        tools().transform_hash_file(&args(&[("path", "p"), ("algorithm", "crc")])),
        command("sha256sum 'p'", 15)
    );
    assert_eq!(tools().transform_file_stats(&args(&[("path", "p")])), command("stat 'p'", 15));
    assert_eq!(
        tools().transform_file_stats(&flagged(&[("path", "p")], "recursive")),
        command("find 'p' -type f | wc -l && du -sh 'p'", 15)
    );
}

#[test]
fn repositories() {
    assert_eq!(tools().git_status(&args(&[])), command("git -C '.' status", 15));
    assert_eq!(
        tools().git_diff(&args(&[("repo_path", "r"), ("file", "f")])),
        command("git -C 'r' diff -- 'f'", 15)
    );
    assert_eq!(tools().git_diff(&flagged(&[], "staged")), command("git -C '.' diff --cached", 15));
    assert_eq!(tools().git_log(&flagged(&[], "oneline")), command("git -C '.' log -n 10 --oneline", 15));
    assert_eq!(
        tools().git_stash(&args(&[("message", "m")])),
        command("git -C '.' stash push -m 'm'", 15)
    );
    assert_eq!(
        tools().git_stash(&args(&[("action", "pop"), ("message", "m")])),
        command("git -C '.' stash pop", 15)
    );
    assert_eq!(tools().git_branch(&args(&[])), command("git -C '.' branch -a", 15));
    assert_eq!(
        tools().git_branch(&args(&[("action", "create")])),
        command("git -C '.' branch 'new-branch'", 15)
    );
    assert_eq!(
        tools().git_branch(&args(&[("action", "delete"), ("name", "n")])),
        command("git -C '.' branch -d 'n'", 15)
    );
    assert_eq!(tools().git_branch(&args(&[("action", "zzz")])), command("git -C '.' branch -a", 15));
    assert_eq!(
        tools().git_checkout(&args(&[("target", "t")])),
        command("git -C '.' checkout  't'", 15)
    );
    assert_eq!(
        tools().git_checkout(&flagged(&[("target", "t")], "create")),
        command("git -C '.' checkout -b 't'", 15)
    );
    assert_eq!(tools().git_checkout(&args(&[])), refused("target is required"));
    assert_eq!(tools().git_reset(&args(&[])), command("git -C '.' reset --mixed 'HEAD'", 15));
}

#[test]
fn a_commit_message_is_one_word() {
    let files = json::array(vec![json::string("a"), Json::Null, json::string("b")]);
    let given = Members::new()
        .with("message", json::string("it's 'done'"))
        .with("files", files)
        .with("all", Json::Bool(true))
        .object();
    assert_eq!(
        tools().git_commit(&given),
        ToolAction::BashSeries {
            first: vec!["git -C '.' add 'a'".to_string(), "git -C '.' add 'b'".to_string()],
            first_timeout_secs: 10,
            command: "git -C '.' commit -a -m 'it'\\''s '\\''done'\\'''".to_string(),
            timeout_secs: 15,
        }
    );
    assert_eq!(tools().git_commit(&args(&[])), refused("message is required"));
}

#[test]
fn the_machine() {
    match tools().system_info() {
        ToolAction::Bash { command, timeout_secs, .. } => {
            assert!(command.starts_with("echo '=== OS ===' && uname -a && "));
            assert!(command.ends_with(" && echo '=== Uptime ===' && uptime"));
            assert_eq!(timeout_secs, 15);
        }
        other => panic!("{:?}", other),
    }
    let pid = Members::new().with("pid", Json::Uint(42)).object();
    assert_eq!(tools().kill_process(&pid), command("kill 42", 5));
    assert_eq!(tools().kill_process(&args(&[])), refused("pid is required"));
    assert_eq!(tools().list_process(&args(&[])), command("ps aux --sort=-%mem | head -30", 10));
    assert_eq!(
        tools().list_process(&args(&[("filter", "x")])),
        command("ps aux | head -1 && ps aux | grep -i 'x' | grep -v grep", 10)
    );
}

fn ended(stdout: &[u8], stderr: &[u8], success: bool, code: Option<i32>) -> BashOutcome {
    BashOutcome::Ended { stdout: stdout.to_vec(), stderr: stderr.to_vec(), success, code }
}

#[test]
fn outcomes_are_answered() {
    assert_eq!(shell::run_bash(&ended(b"out", b"", true, Some(0)), 5), text_result("out"));
    assert_eq!(
        shell::run_bash(&ended(b"out", b"err", true, Some(0)), 5),
        text_result("out\n[stderr] err")
    );
    assert_eq!(
        shell::run_bash(&ended(b"", b"err", false, Some(2)), 5),
        error_result("exit code 2\n[stderr] err")
    );
    assert_eq!(shell::run_bash(&ended(b"", b"", false, None), 5), error_result("exit code -1\n"));
    assert_eq!(
        shell::run_bash(&ended(b"a\xffb", b"", true, Some(0)), 5),
        text_result("a\u{fffd}b")
    );
    assert_eq!(
        shell::run_bash(&BashOutcome::NotStarted("gone".to_string()), 5),
        error_result("spawn error: gone")
    );
    assert_eq!(
        shell::run_bash(&BashOutcome::TimedOut, 5),
        error_result("command timed out after 5s")
    );
}

#[test]
fn long_output_is_cut() {
    let long = vec![b'x'; 100_001];
    assert_eq!(
        shell::run_bash(&ended(&long, b"", true, Some(0)), 5),
        text_result(&format!("{}\n... [truncated at 100KB]", "x".repeat(100_000)))
    );
    let mut split = vec![b'x'; 99_999];
    split.extend("é".as_bytes());
    assert_eq!(shell::try_run_bash(&ended(&split, b"", true, Some(0)), 5), None);
    assert_eq!(
        shell::try_run_bash(&ended(b"ok", b"", true, Some(0)), 5),
        Some(text_result("ok"))
    );
}

#[test]
fn complaints_are_left_out() {
    assert_eq!(shell::run_stdout(&ended(b"a\n", b"b\n", true, Some(0)), 30), text_result("a\n"));
    assert_eq!(
        shell::run_stdout(&ended(b"a\n", b"b\n", false, Some(3)), 30),
        error_result("exit code 3\na\n")
    );
    assert_eq!(
        shell::run_stdout(&BashOutcome::TimedOut, 30),
        error_result("command timed out after 30s")
    );
    let long = vec![b'x'; 100_001];
    assert_eq!(
        shell::try_run_stdout(&ended(&long, b"err", true, Some(0)), 30),
        Some(text_result(&format!("{}\n... [truncated at 100KB]", "x".repeat(100_000))))
    );
    let mut split = vec![b'x'; 99_999];
    split.extend("é".as_bytes());
    assert_eq!(shell::try_run_stdout(&ended(&split, b"", true, Some(0)), 30), None);
}
