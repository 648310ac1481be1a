use driver::actions::{BreadcrumbTool, LoafTool, ToolAction};
use driver::driver_tools::DriverTools;
use driver::json;
use driver::json::{Json, Members};
use driver::mcp::{error_result, text_result};
use std::collections::HashSet;

#[test]
fn the_tools_have_distinct_names() {
    let tools = DriverTools::tool_definitions();
    assert_eq!(tools.len(), 48);
    let names: HashSet<String> = tools.iter().map(|t| t.name.clone()).collect();
    assert_eq!(names.len(), 48);
    assert_eq!(tools[0].name, "read_file");
    assert_eq!(tools[47].name, "loaf_close");
}

#[test]
fn listed_tools_are_known() {
    for tool in DriverTools::tool_definitions() {
        let mut driver = DriverTools::new("/state");
        let unknown = ToolAction::Reply(error_result(&format!("unknown driver tool: {}", tool.name)));
        let none = Members::new().object();
        assert!(driver.is_takeable(&tool.name, &none));
        assert_ne!(driver.dispatch(&tool.name, &none), unknown, "{}", tool.name);
    }
    let mut driver = DriverTools::new("/state");
    assert_eq!(
        driver.dispatch("zzz", &Json::Null),
        ToolAction::Reply(error_result("unknown driver tool: zzz"))
    );
}

#[test]
fn calls_go_to_their_tools() {
    let mut driver = DriverTools::new("/state");
    let path = Members::new().with("path", json::string("p")).object();
    assert_eq!(
        driver.dispatch_with("read_file", &path, "T"),
        ToolAction::ReadFile { path: "p".to_string() }
    );
    assert_eq!(
        driver.dispatch_with("transform_hash_file", &path, "T"),
        ToolAction::Bash {
            command: "sha256sum 'p'".to_string(),
            working_dir: None,
            timeout_secs: 15,
        }
    );
    assert_eq!(
        driver.dispatch_with("breadcrumb_adopt", &path, "T"),
        ToolAction::Breadcrumb(BreadcrumbTool::Adopt)
    );
    assert_eq!(
        driver.dispatch_with("loaf_status", &path, "T"),
        ToolAction::Loaf(LoafTool::Status)
    );
    assert_eq!(
        driver.dispatch_with("session_list", &path, "T"),
        ToolAction::Reply(text_result("[]"))
    );
}

#[test]
fn ending_a_session_is_the_one_change() {
    let mut driver = DriverTools::new("/state");
    driver.session_created_at("a", "/", "now");
    driver.session_created_at("b", "/", "now");
    let a = Members::new().with("session", json::string("a")).object();
    driver.dispatch_with("session_history", &a, "T");
    assert_eq!(driver.sessions.len(), 2);
    driver.dispatch_with("session_destroy", &a, "T");
    assert_eq!(driver.sessions.len(), 1);
    assert_eq!(driver.sessions[0].name, "b");
}

#[test]
fn schemas_are_objects() {
    let tools = DriverTools::tool_definitions();
    for tool in &tools {
        assert_eq!(tool.input_schema.str_at("type"), Some("object"));
        assert!(tool.input_schema.get("properties").is_some());
        assert!(tool.description.is_some());
    }
    assert_eq!(tools[0].input_schema.strings_at("required"), vec!["path".to_string()]);
    let list = tools.iter().find(|t| t.name == "session_list").unwrap();
    assert!(list.input_schema.get("required").is_none());
    let update = tools.iter().find(|t| t.name == "loaf_update").unwrap();
    let task = update.input_schema.get("properties").unwrap().get("task_update").unwrap();
    assert_eq!(
        task.get("properties").unwrap().get("status").unwrap().str_at("type"),
        Some("string")
    );
}

#[test]
fn records_lie_below_the_log_directory() {
    let driver = DriverTools::new("/state");
    assert_eq!(driver.breadcrumbs.active_dir, "/state/breadcrumbs/active");
    assert_eq!(driver.breadcrumbs.completed_base, "/state/breadcrumbs/completed");
    assert_eq!(driver.loafs.loaves_dir, "/state/loaves");
    assert_eq!(driver.loafs.archive_dir, "/state/loaves/archive");
    assert!(driver.sessions.is_empty());
}
