use driver::actions::ToolAction;
use driver::driver_tools::DriverTools;
use driver::files;
use driver::files::{AppendOutcome, Replacement, WalkEntry};
use driver::json;
use driver::json::{Json, Members};
use driver::mcp::{error_result, text_result};

fn tools() -> DriverTools {
    DriverTools::new("/state")
}

fn args(pairs: &[(&str, &str)]) -> Json {
    let mut m = Members::new();
    for (k, v) in pairs {
        m = m.with(k, json::string(v));
    }
    m.object()
}

const CONTENT: &str = "one\ntwo\nthree\nfour\n";

#[test]
fn a_path_is_required() {
    let none = args(&[]);
    let refused = ToolAction::Reply(error_result("path is required"));
    assert_eq!(tools().read_file(&none), refused);
    assert_eq!(tools().write_file(&none), refused);
    assert_eq!(tools().append_file(&none), refused);
    assert_eq!(tools().transform_extract_lines(&none), refused);
    assert_eq!(
        tools().transform_find_replace(&args(&[("path", "x")])),
        ToolAction::Reply(error_result("path and find are required"))
    );
}

#[test]
fn files_are_asked_for() {
    assert_eq!(
        tools().read_file(&args(&[("path", "x")])),
        ToolAction::ReadFile { path: "x".to_string() }
    );
    assert_eq!(
        tools().write_file(&args(&[("path", "x"), ("content", "c")])),
        ToolAction::WriteFile { path: "x".to_string(), content: "c".to_string() }
    );
    assert_eq!(
        tools().append_file(&args(&[("path", "x")])),
        ToolAction::AppendFile { path: "x".to_string(), content: "".to_string() }
    );
    assert_eq!(tools().list_dir(&args(&[])), ToolAction::ListDir { path: ".".to_string(), depth: 2 });
    assert_eq!(
        tools().transform_find_replace(&args(&[("path", "x"), ("find", "f")])),
        ToolAction::FindReplace { path: "x".to_string() }
    );
    assert_eq!(
        tools().transform_extract_lines(&args(&[("path", "x")])),
        ToolAction::ExtractLines { path: "x".to_string() }
    );
}

fn small(max_kb: u64) -> Members {
    Members::new().with("path", json::string("x")).with("max_kb", Json::Uint(max_kb))
}

#[test]
fn long_files_are_shown_in_part() {
    let line = "é".repeat(400);
    let content = format!("{}\n{}\n", line, line);
    let whole = format!("    1\t{}\n    2\t{}", line, line);
    let shown = tools().show_file(&small(1).object(), &content);
    assert!(!shown.is_error);
    let text = shown.text_content();
    let part = text.strip_suffix("\n... [truncated at 1KB]").unwrap();
    assert!(whole.starts_with(part));
    assert_eq!(part.len(), 1023);
    assert_eq!(tools().show_file(&small(2).object(), &content), text_result(&whole));
    assert_eq!(
        tools().show_file(&small(0).object(), &content),
        text_result("\n... [truncated at 0KB]")
    );
    assert_eq!(tools().show_file(&small(u64::MAX).object(), &content), text_result(&whole));
}

#[test]
fn a_file_within_the_limit_is_shown_whole() {
    let content = "\n".repeat(1024);
    let shown = tools().show_file(&small(1).object(), &content).text_content();
    assert_eq!(shown.lines().count(), 1024);
    assert!(shown.ends_with(" 1024\t"));
}

#[test]
fn parts_of_long_files_are_found() {
    let content = format!("{}\nneedle\n", "x".repeat(5000));
    assert_eq!(
        tools().show_file(&small(1).with("lines", json::string("2-2")).object(), &content),
        text_result("    2\tneedle")
    );
    assert_eq!(
        tools().show_file(&small(1).with("search", json::string("needle")).object(), &content),
        text_result("    2\tneedle")
    );
}

#[test]
fn the_limit_has_a_default() {
    let content = "y".repeat(102_401);
    let shown = tools().show_file(&args(&[("path", "x")]), &content).text_content();
    assert_eq!(shown, format!("    1\t{}\n... [truncated at 100KB]", "y".repeat(102_394)));
    let fits = "y".repeat(102_400);
    assert_eq!(
        tools().show_file(&args(&[("path", "x")]), &fits),
        text_result(&format!("    1\t{}", fits))
    );
}

#[test]
fn a_file_is_shown_with_numbers() {
    assert_eq!(
        tools().show_file(&args(&[("path", "x")]), CONTENT),
        text_result("    1\tone\n    2\ttwo\n    3\tthree\n    4\tfour")
    );
    assert_eq!(tools().show_file(&args(&[("path", "x")]), ""), text_result(""));
}

#[test]
fn a_range_shows_its_lines() {
    assert_eq!(
        tools().show_file(&args(&[("path", "x"), ("lines", "2-3")]), CONTENT),
        text_result("    2\ttwo\n    3\tthree")
    );
    assert_eq!(
        tools().show_file(&args(&[("path", "x"), ("lines", "3-")]), CONTENT),
        text_result("    3\tthree\n    4\tfour")
    );
    assert_eq!(
        tools().show_file(&args(&[("path", "x"), ("lines", "-1")]), CONTENT),
        text_result("    1\tone")
    );
    assert_eq!(
        tools().show_file(&args(&[("path", "x"), ("lines", "9-12")]), CONTENT),
        text_result("")
    );
    let wanted = Members::new().with("start", Json::Uint(2)).with("end", Json::Uint(3)).object();
    assert_eq!(tools().show_lines(&wanted, CONTENT), text_result("    2\ttwo\n    3\tthree"));
    assert_eq!(
        tools().show_lines(&args(&[]), "a\nb"),
        text_result("    1\ta\n    2\tb")
    );
}

#[test]
fn what_is_no_range_is_passed_over() {
    assert_eq!(files::parse_line_range("5"), None);
    assert_eq!(files::parse_line_range("1-2-3"), None);
    assert_eq!(files::parse_line_range("x-y"), Some((1, usize::MAX)));
    assert_eq!(
        tools().show_file(&args(&[("path", "x"), ("lines", "2"), ("search", "o")]), CONTENT),
        text_result("    1\tone\n    2\ttwo\n    4\tfour")
    );
}

#[test]
fn a_search_shows_the_lines_found() {
    assert_eq!(
        tools().show_file(&args(&[("path", "x"), ("search", "t")]), CONTENT),
        text_result("    2\ttwo\n    3\tthree")
    );
    assert_eq!(
        tools().show_file(&args(&[("path", "x"), ("search", "zzz")]), CONTENT),
        text_result("no lines matching 'zzz' in x")
    );
}

#[test]
fn texts_are_replaced() {
    let plain = args(&[("path", "p"), ("find", "a.c"), ("replace", "X")]);
    assert_eq!(
        files::find_replace(&plain, "a.c abc"),
        Replacement::Write {
            content: "X abc".to_string(),
            reply: text_result("p: 1 replacement(s) applied"),
        }
    );
    assert_eq!(
        files::find_replace(&plain, "abc"),
        Replacement::Reply(text_result("p: 0 replacement(s) applied"))
    );
    let regex = Members::new()
        .with("path", json::string("p"))
        .with("find", json::string("a(.)c"))
        .with("replace", json::string("<$1>"))
        .with("regex", Json::Bool(true))
        .object();
    assert_eq!(
        files::find_replace(&regex, "a.c abc"),
        Replacement::Write {
            content: "<.> <b>".to_string(),
            reply: text_result("p: 1 replacement(s) applied"),
        }
    );
    let broken = Members::new()
        .with("path", json::string("p"))
        .with("find", json::string("("))
        .with("regex", Json::Bool(true))
        .object();
    match files::find_replace(&broken, "x") {
        Replacement::Reply(r) => {
            assert!(r.is_error);
            assert!(r.text_content().starts_with("invalid regex: regex parse error"));
        }
        _ => panic!("an unclosed group is no pattern"),
    }
}

#[test]
fn a_new_text_is_settled() {
    assert_eq!(
        files::settle_replacement("p", "a", Err("why".to_string())),
        Replacement::Reply(error_result("invalid regex: why"))
    );
    assert_eq!(
        files::settle_replacement("p", "a", Ok("a".to_string())),
        Replacement::Reply(text_result("p: 0 replacement(s) applied"))
    );
}

#[test]
fn json_is_written_anew() {
    assert_eq!(
        tools().transform_json_format(&args(&[("json_string", "{\"a\":[1,2.5]}")])),
        ToolAction::Reply(text_result("{\n  \"a\": [\n    1,\n    2.5\n  ]\n}"))
    );
    assert_eq!(
        tools().transform_json_format(&args(&[])),
        ToolAction::Reply(error_result("json_string is required"))
    );
    match tools().transform_json_format(&args(&[("json_string", "{")])) {
        ToolAction::Reply(r) => {
            assert!(r.is_error);
            assert!(r.text_content().starts_with("invalid JSON: EOF while parsing"));
        }
        _ => panic!("a bracket alone is no value"),
    }
    assert_eq!(tools().format_parsed(Err("e".to_string())), error_result("invalid JSON: e"));
    assert_eq!(tools().format_parsed(Ok(Json::Null)), text_result("null"));
}

#[test]
fn a_directory_is_listed() {
    let entries = vec![
        WalkEntry::Found { depth: 0, name: "root".to_string(), is_dir: true },
        WalkEntry::Found { depth: 1, name: "a.txt".to_string(), is_dir: false },
        WalkEntry::Failed("denied".to_string()),
        WalkEntry::Found { depth: 2, name: "sub".to_string(), is_dir: true },
    ];
    assert_eq!(files::list_dir_reply(&entries), text_result("root/\n  a.txt\n  error: denied\n    sub/"));
}

#[test]
fn writing_is_answered() {
    assert_eq!(files::write_reply("p", "é", &Ok(())), text_result("wrote 2 bytes to p"));
    assert_eq!(
        files::write_reply("p", "é", &Err("full".to_string())),
        error_result("write failed: full")
    );
    assert_eq!(
        files::append_reply("p", "abc", &AppendOutcome::Written),
        text_result("appended 3 bytes to p")
    );
    assert_eq!(
        files::append_reply("p", "abc", &AppendOutcome::NotOpened("denied".to_string())),
        error_result("open failed: denied")
    );
    assert_eq!(
        files::append_reply("p", "abc", &AppendOutcome::NotWritten("full".to_string())),
        error_result("append failed: full")
    );
}

#[test]
fn failures_to_read_are_answered() {
    let gone: Result<String, String> = Err("gone".to_string());
    let path = args(&[("path", "p"), ("find", "f")]);
    assert_eq!(
        files::after_stat("p", &Err("gone".to_string())),
        Some(error_result("cannot stat p: gone"))
    );
    assert_eq!(files::after_stat("p", &Ok(())), None);
    assert_eq!(tools().after_read(&path, &gone), error_result("cannot read p: gone"));
    assert_eq!(tools().after_read(&path, &Ok("x".to_string())), text_result("    1\tx"));
    assert_eq!(tools().after_read_lines(&path, &gone), error_result("read error: gone"));
    assert_eq!(
        tools().after_read_replace(&path, &gone),
        Replacement::Reply(error_result("read error: gone"))
    );
}
