use driver::actions::ToolAction;
use driver::json;
use driver::json::{Json, Members};
use driver::mcp::{error_result, McpTool};
use driver::registry::{Step, ToolRegistry};
use driver::tools;

fn tool(name: &str) -> McpTool {
    McpTool { name: name.to_string(), description: None, input_schema: Json::Null }
}

fn none() -> Json {
    Members::new().object()
}

fn call(server: &str, tool: &str) -> Result<Step, String> {
    Ok(Step::Call { server: server.to_string(), tool: tool.to_string() })
}

#[test]
fn the_driver_offers_its_tools() {
    let mut reg = ToolRegistry::new("/state");
    assert_eq!(reg.tool_count(), 0);
    reg.register_driver_tools();
    assert_eq!(reg.tool_count(), 48);
    assert_eq!(reg.driver_tool_names().len(), 48);
    assert!(reg.mcp_server_tools().is_empty());
    let names = reg.tool_names();
    assert_eq!(names[0], "append_file");
    assert_eq!(names[47], "write_file");
    let offered = reg.to_openai_tools();
    assert_eq!(offered.len(), 48);
    assert_eq!(offered[0].function.name, "read_file");
    assert_eq!(offered[0].tool_type, "function");
}

#[test]
fn a_free_name_is_kept() {
    let mut reg = ToolRegistry::new("/state");
    reg.add_server("web", vec![tool("fetch"), tool("search")], &vec![]);
    assert_eq!(reg.tool_names(), vec!["fetch".to_string(), "search".to_string()]);
    assert_eq!(reg.dispatch("fetch", &none()), call("web", "fetch"));
}

#[test]
fn a_taken_name_is_split() {
    let mut reg = ToolRegistry::new("/state");
    reg.add_server("a", vec![tool("t")], &vec![]);
    reg.add_server("b", vec![tool("t")], &vec![]);
    assert_eq!(reg.tool_names(), vec!["a__t".to_string(), "b__t".to_string()]);
    assert_eq!(reg.dispatch("a__t", &none()), call("a", "t"));
    assert_eq!(reg.dispatch("b__t", &none()), call("b", "t"));
    assert_eq!(reg.dispatch("t", &none()), Err("unknown tool: t".to_string()));
    reg.add_server("c", vec![tool("t")], &vec![]);
    assert_eq!(reg.dispatch("t", &none()), call("c", "t"));
}

#[test]
fn the_driver_keeps_its_tools_under_another_name() {
    let mut reg = ToolRegistry::new("/state");
    reg.register_driver_tools();
    reg.add_server("x", vec![tool("bash")], &vec![]);
    assert_eq!(reg.tool_count(), 49);
    assert_eq!(
        reg.dispatch("driver__bash", &none()),
        Ok(Step::Driver(ToolAction::Reply(error_result("command is required"))))
    );
    assert_eq!(reg.dispatch("x__bash", &none()), call("x", "bash"));
}

#[test]
fn a_name_with_underscores_can_lose_its_front() {
    let mut reg = ToolRegistry::new("/state");
    reg.add_server("s", vec![tool("s__t")], &vec![]);
    assert_eq!(reg.dispatch("s__t", &none()), call("s", "t"));
    reg.add_server("r", vec![tool("x__y")], &vec![]);
    assert_eq!(reg.dispatch("x__y", &none()), call("r", "x__y"));
}

#[test]
fn filters_are_patterns() {
    let all = || vec![tool("get_a"), tool("get_b"), tool("set_a"), tool("a/b")];
    let mut reg = ToolRegistry::new("/state");
    reg.add_server("s", all(), &vec!["get_*".to_string()]);
    assert_eq!(reg.tool_names(), vec!["get_a".to_string(), "get_b".to_string()]);
    let mut reg = ToolRegistry::new("/state");
    reg.add_server("s", all(), &vec!["[".to_string(), "{set_a,zzz}".to_string()]);
    assert_eq!(reg.tool_names(), vec!["set_a".to_string()]);
    let mut reg = ToolRegistry::new("/state");
    reg.add_server("s", all(), &vec!["a*".to_string()]);
    assert_eq!(reg.tool_names(), vec!["a/b".to_string()]);
    let mut reg = ToolRegistry::new("/state");
    reg.add_server("s", all(), &vec!["GET_?".to_string()]);
    assert_eq!(reg.tool_count(), 0);
    let deep = format!("{}a{}", "{".repeat(400), "}".repeat(400));
    reg.add_server("s", all(), &vec![deep]);
    assert_eq!(reg.tool_count(), 0);
}

#[test]
fn selected_tools_are_taken_in() {
    let mut reg = ToolRegistry::new("/state");
    reg.add_selected("s", vec![tool("a"), tool("b"), tool("c")], &vec![true, false, true]);
    assert_eq!(reg.tool_names(), vec!["a".to_string(), "c".to_string()]);
    assert_eq!(reg.servers, vec!["s".to_string()]);
}

#[test]
fn a_tool_needs_its_server() {
    let mut reg = ToolRegistry::new("/state");
    reg.register_tool("gone", tool("t"));
    assert!(reg.is_dispatchable("t", &none()));
    assert_eq!(reg.dispatch("t", &none()), Err("no client for server: gone".to_string()));
}

#[test]
fn servers_are_listed_with_their_tools() {
    let mut reg = ToolRegistry::new("/state");
    reg.register_driver_tools();
    reg.add_server("b", vec![tool("z"), tool("y")], &vec![]);
    reg.add_server("a", vec![tool("x")], &vec![]);
    assert_eq!(
        reg.mcp_server_tools(),
        vec![
            ("b".to_string(), vec!["y".to_string(), "z".to_string()]),
            ("a".to_string(), vec!["x".to_string()]),
        ]
    );
    let mut listed = reg.driver_tool_names();
    for (_, names) in reg.mcp_server_tools() {
        listed.extend(names);
    }
    listed.sort();
    assert_eq!(listed, reg.tool_names());
}

#[test]
fn tools_are_told_to_a_model() {
    let t = McpTool {
        name: "own".to_string(),
        description: Some("does".to_string()),
        input_schema: json::string("schema"),
    };
    let told = tools::mcp_tool_to_openai("shown", &t);
    assert_eq!(told.function.name, "shown");
    assert_eq!(told.function.description, "does");
    assert_eq!(told.function.parameters, json::string("schema"));
    assert_eq!(tools::mcp_tool_to_openai("x", &tool("x")).function.description, "");
}

#[test]
fn tools_are_printed() {
    assert_eq!(tools::list_line(&tool("t")), "  t - (no description)");
    let long = McpTool {
        name: "t".to_string(),
        description: Some("d".repeat(81)),
        input_schema: Json::Null,
    };
    assert!(tools::is_listable(&long));
    assert_eq!(tools::list_line(&long), format!("  t - {}...", "d".repeat(80)));
    let split = McpTool {
        name: "t".to_string(),
        description: Some(format!("{}é", "d".repeat(79))),
        input_schema: Json::Null,
    };
    assert!(!tools::is_listable(&split));
}
