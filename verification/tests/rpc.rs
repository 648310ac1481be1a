use driver::json;
use driver::json::{Json, Members};
use driver::rpc;
use driver::rpc::{JsonRpcError, JsonRpcResponse, McpClient, ReadStep, Reading};

#[test]
fn requests_are_numbered_lines() {
    let mut client = McpClient::new();
    assert_eq!(
        client.list_tools(),
        "{\"jsonrpc\":\"2.0\",\"id\":1,\"method\":\"tools/list\",\"params\":{}}\n"
    );
    assert_eq!(
        client.call_tool("t\"q", &Json::Uint(5)),
        "{\"jsonrpc\":\"2.0\",\"id\":2,\"method\":\"tools/call\",\"params\":{\"arguments\":5,\"name\":\"t\\\"q\"}}\n"
    );
    assert_eq!(
        client.initialize("0.1.0"),
        "{\"jsonrpc\":\"2.0\",\"id\":3,\"method\":\"initialize\",\"params\":{\"capabilities\":{},\"clientInfo\":{\"name\":\"driver\",\"version\":\"0.1.0\"},\"protocolVersion\":\"2024-11-05\"}}\n"
    );
    assert_eq!(
        client.initialized(),
        "{\"jsonrpc\":\"2.0\",\"method\":\"notifications/initialized\"}\n"
    );
    assert_eq!(client.request("m", &None), "{\"jsonrpc\":\"2.0\",\"id\":4,\"method\":\"m\"}\n");
    assert_eq!(client.next_id, 5);
}

#[test]
fn noise_is_passed_over() {
    let mut reading = Reading::Start;
    for line in ["\n", "   ", "starting up\n", "[]\n"] {
        assert_eq!(reading.on_line(Some(line)), ReadStep::Line);
        assert_eq!(reading, Reading::Start);
    }
    assert_eq!(
        reading.on_line(None),
        ReadStep::Fail("MCP server closed stdout unexpectedly".to_string())
    );
}

#[test]
fn answers_on_a_line_are_read() {
    let mut reading = Reading::Start;
    let answer = Members::new().with("id", Json::Uint(1)).with("result", Json::Bool(true)).object();
    assert_eq!(
        reading.on_line(Some("  {\"id\":1,\"result\":true}\n")),
        ReadStep::Answer(answer)
    );
    assert_eq!(reading.on_line(Some("{\"method\":\"x\"}")), ReadStep::Line);
    assert_eq!(reading.on_line(Some("{\"id\":null}")), ReadStep::Line);
    assert_eq!(
        reading.on_line(Some("{")),
        ReadStep::Fail("parsing bare JSON-RPC response".to_string())
    );
}

#[test]
fn answers_with_a_length_are_read() {
    let mut reading = Reading::Start;
    assert_eq!(reading.on_line(Some("Content-Length: 8\r\n")), ReadStep::Line);
    assert_eq!(reading, Reading::Headers { len: 8 });
    assert_eq!(reading.on_line(Some("Content-Type: x\r\n")), ReadStep::Line);
    assert_eq!(reading.on_line(Some("\r\n")), ReadStep::Exactly(8));
    assert_eq!(reading, Reading::Start);
    let answer = Members::new().with("id", Json::Uint(7)).object();
    assert_eq!(reading.on_bytes(&b"{\"id\":7}".to_vec()), ReadStep::Answer(answer));
    assert!(matches!(reading.on_bytes(&b"{\"id\":7".to_vec()), ReadStep::Fail(_)));
    assert_eq!(reading.on_bytes(&b"[1]".to_vec()), ReadStep::Line);
    assert_eq!(
        reading.on_line(Some("Content-Length: x")),
        ReadStep::Fail("bad Content-Length".to_string())
    );
}

#[test]
fn the_end_of_output_ends_the_headers() {
    let mut reading = Reading::Headers { len: 3 };
    assert_eq!(reading.on_line(None), ReadStep::Exactly(3));
}

#[test]
fn parsed_messages_are_sorted_out() {
    assert_eq!(
        rpc::on_bare(Err("e".to_string())),
        ReadStep::Fail("parsing bare JSON-RPC response".to_string())
    );
    assert_eq!(rpc::on_framed(Err("e".to_string())), ReadStep::Fail("e".to_string()));
    assert_eq!(rpc::on_framed(Ok(Json::Null)), ReadStep::Line);
}

#[test]
fn answers_come_to_something() {
    let ok = JsonRpcResponse { id: Some(1), result: Some(Json::Uint(3)), error: None };
    assert_eq!(rpc::outcome(ok), Ok(Json::Uint(3)));
    let error = JsonRpcError { code: -32601, message: "no such method".to_string() };
    let failed = JsonRpcResponse { id: Some(1), result: Some(Json::Null), error: Some(error) };
    assert_eq!(rpc::outcome(failed), Err("MCP error -32601: no such method".to_string()));
    let neither = JsonRpcResponse { id: Some(1), result: None, error: None };
    assert_eq!(
        rpc::outcome(neither),
        Err("MCP response missing both result and error".to_string())
    );
}

#[test]
fn tools_are_found_in_an_answer() {
    let tools = json::array(vec![json::string("t")]);
    let result = Members::new().with("tools", tools.copy()).object();
    assert_eq!(rpc::tools_of(&result), tools);
    assert_eq!(rpc::tools_of(&Json::Null), json::array(vec![]));
}
