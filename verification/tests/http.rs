use driver::actions::{Method, ToolAction};
use driver::driver_tools::DriverTools;
use driver::http;
use driver::http::PortOutcome;
use driver::json;
use driver::json::{Json, Members};
use driver::mcp::{error_result, text_result};

#[test]
fn requests_are_built() {
    let tools = DriverTools::new("/s");
    let headers = Members::new()
        .with("A", json::string("1"))
        .with("B", Json::Uint(2))
        .with("C", json::string("3"))
        .object();
    let args = Members::new()
        .with("url", json::string("http://x"))
        .with("method", json::string("post"))
        .with("headers", headers)
        .with("body", json::string("b"))
        .object();
    assert_eq!(
        tools.http_request(&args),
        ToolAction::Http {
            method: Method::Post,
            url: "http://x".to_string(),
            headers: vec![
                ("A".to_string(), "1".to_string()),
                ("C".to_string(), "3".to_string()),
            ],
            body: Some("b".to_string()),
            timeout_secs: 30,
        }
    );
    assert_eq!(
        tools.http_request(&Members::new().object()),
        ToolAction::Reply(error_result("url is required"))
    );
    assert_eq!(
        tools.http_fetch(&Members::new().object()),
        ToolAction::Reply(error_result("url is required"))
    );
    assert_eq!(
        tools.http_fetch(&Members::new().with("url", json::string("u")).object()),
        ToolAction::Http {
            method: Method::Get,
            url: "u".to_string(),
            headers: vec![],
            body: None,
            timeout_secs: 30,
        }
    );
}

#[test]
fn methods_have_names() {
    assert_eq!(http::method_named("PUT"), Method::Put);
    assert_eq!(http::method_named("PATCH"), Method::Patch);
    assert_eq!(http::method_named("DELETE"), Method::Delete);
    assert_eq!(http::method_named("HEAD"), Method::Head);
    assert_eq!(http::method_named("GET"), Method::Get);
    assert_eq!(http::method_named("post"), Method::Get);
}

#[test]
fn replies_are_shown() {
    assert_eq!(http::http_reply(200, "body"), text_result("HTTP 200 OK\n\nbody"));
    assert_eq!(http::http_reply(299, ""), text_result("HTTP 299 OK\n\n"));
    assert_eq!(http::http_reply(404, "no"), text_result("HTTP 404 ERROR\n\nno"));
    assert_eq!(http::http_reply(199, ""), text_result("HTTP 199 ERROR\n\n"));
    let long = "x".repeat(50001);
    assert_eq!(
        http::http_reply(200, &long),
        text_result(&format!("HTTP 200 OK\n\n{}... [truncated at 50KB]", "x".repeat(50000)))
    );
    assert_eq!(http::http_failed("down"), error_result("request failed: down"));
}

#[test]
fn ports_are_tried() {
    let tools = DriverTools::new("/s");
    let args = Members::new().with("port", Json::Uint(65536 + 80)).object();
    assert_eq!(
        tools.port_check(&args),
        ToolAction::PortCheck { host: "127.0.0.1".to_string(), port: 80, timeout_ms: 2000 }
    );
    assert_eq!(
        tools.port_check(&Members::new().with("port", Json::Uint(65536)).object()),
        ToolAction::Reply(error_result("port is required"))
    );
    assert_eq!(http::port_reply("h", 80, 5, &PortOutcome::Open), text_result("h:80 is OPEN"));
    assert_eq!(
        http::port_reply("h", 80, 5, &PortOutcome::Closed("refused".to_string())),
        text_result("h:80 is CLOSED (refused)")
    );
    assert_eq!(
        http::port_reply("h", 80, 5, &PortOutcome::TimedOut),
        text_result("h:80 TIMEOUT after 5ms")
    );
}
