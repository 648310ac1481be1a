//! Tools on the network: the request that a call asks for, and the answer that a reply becomes.

use vstd::prelude::*;

use crate::actions;
use crate::actions::{refuse, ActionView, Method, ToolAction};
use crate::driver_tools::DriverTools;
use crate::json::{Json, JsonView};
use crate::mcp;
use crate::mcp::{error_result, text_result, ResultView, ToolCallResult};
use crate::text;
use crate::unicode;

verus! {

/// The method with a name; a name that is none is taken for `GET`.
pub open spec fn method_of(name: Seq<char>) -> Method {
    if name == "POST"@ {
        Method::Post
    } else if name == "PUT"@ {
        Method::Put
    } else if name == "PATCH"@ {
        Method::Patch
    } else if name == "DELETE"@ {
        Method::Delete
    } else if name == "HEAD"@ {
        Method::Head
    } else {
        Method::Get
    }
}

/// The method with a name.
pub fn method_named(name: &str) -> (r: Method)
    ensures
        r == method_of(name@),
{
    if text::str_eq(name, "POST") {
        Method::Post
    } else if text::str_eq(name, "PUT") {
        Method::Put
    } else if text::str_eq(name, "PATCH") {
        Method::Patch
    } else if text::str_eq(name, "DELETE") {
        Method::Delete
    } else if text::str_eq(name, "HEAD") {
        Method::Head
    } else {
        Method::Get
    }
}

/// The members whose values are strings, in order.
pub open spec fn text_members(members: Seq<(Seq<char>, JsonView)>) -> Seq<(Seq<char>, Seq<char>)>
    decreases members.len(),
{
    if members.len() == 0 {
        Seq::empty()
    } else {
        match members.last().1.as_str() {
            Some(value) => text_members(members.drop_last()).push((members.last().0, value)),
            None => text_members(members.drop_last()),
        }
    }
}

/// The headers that a call gives.
pub open spec fn headers_of(args: JsonView) -> Seq<(Seq<char>, Seq<char>)> {
    match args.get("headers"@) {
        Some(JsonView::Object(members)) => text_members(members),
        _ => Seq::empty(),
    }
}

/// The headers that a call gives.
fn headers(args: &Json) -> (r: Vec<(String, String)>)
    ensures
        actions::pair_texts(r@) == headers_of(args@),
{
    let mut out: Vec<(String, String)> = Vec::new();
    proof {
        assert(actions::pair_texts(out@) =~= Seq::empty());
    }
    if let Some(Json::Object(members)) = args.get("headers") {
        let ghost all = crate::json::members_view(members@);
        proof {
            crate::json::lemma_object_view(*members);
            assert(all.take(0) =~= Seq::empty());
        }
        let mut i: usize = 0;
        while i < members.len()
            invariant
                i <= members@.len(),
                all == crate::json::members_view(members@),
                actions::pair_texts(out@) == text_members(all.take(i as int)),
            decreases members@.len() - i,
        {
            proof {
                assert(all.take(i + 1).drop_last() =~= all.take(i as int));
            }
            if let Some(value) = members[i].1.as_str() {
                let ghost before = actions::pair_texts(out@);
                out.push((text::copy(members[i].0.as_str()), text::copy(value)));
                proof {
                    assert(actions::pair_texts(out@) =~= before.push(
                        (members@[i as int].0@, value@),
                    ));
                }
            }
            i += 1;
        }
        proof {
            assert(all.take(i as int) =~= all);
        }
    }
    out
}

/// What a request becomes, once its method's name in capitals is known.
pub open spec fn http_request_action_as(args: JsonView, method: Seq<char>) -> ActionView {
    let url = args.str_or("url"@, ""@);
    if url.len() == 0 {
        actions::refused("url is required"@)
    } else {
        ActionView::Http {
            method: method_of(method),
            url,
            headers: headers_of(args),
            body: args.str_at("body"@),
            timeout_secs: args.u64_or("timeout_secs"@, 30),
        }
    }
}

/// What a request becomes.
pub open spec fn http_request_action(args: JsonView) -> ActionView {
    http_request_action_as(args, unicode::uppercase(args.str_or("method"@, "GET"@)))
}

/// What fetching a page becomes.
pub open spec fn http_fetch_action(args: JsonView) -> ActionView {
    let url = args.str_or("url"@, ""@);
    if url.len() == 0 {
        actions::refused("url is required"@)
    } else {
        ActionView::Http {
            method: Method::Get,
            url,
            headers: Seq::empty(),
            body: None,
            timeout_secs: 30,
        }
    }
}

/// The longest body that is shown, in bytes.
pub const MAX_BODY: usize = 50000;

/// The answer that a reply becomes.
pub open spec fn http_reply_text(status: u16, body: Seq<char>) -> Seq<char> {
    "HTTP "@ + text::decimal(status as nat) + " "@ + (if 200 <= status < 300 {
        "OK"@
    } else {
        "ERROR"@
    }) + "\n\n"@ + text::clipped(body, MAX_BODY as nat, "... [truncated at 50KB]"@)
}

/// The answer that a reply becomes.
pub fn http_reply(status: u16, body: &str) -> (r: ToolCallResult)
    requires
        text::can_cut(body@, MAX_BODY as nat),
    ensures
        r@ == mcp::text_view(http_reply_text(status, body@)),
{
    let head = text::cat5(
        "HTTP ",
        text::number(status as u64).as_str(),
        " ",
        if status >= 200 && status < 300 {
            "OK"
        } else {
            "ERROR"
        },
        "\n\n",
    );
    text_result(
        text::cat2(
            head.as_str(),
            text::clip(body, MAX_BODY, "... [truncated at 50KB]").as_str(),
        ).as_str(),
    )
}

/// The answer where a request could not be sent.
pub fn http_failed(why: &str) -> (r: ToolCallResult)
    ensures
        r@ == mcp::error_view("request failed: "@ + why@),
{
    error_result(text::cat2("request failed: ", why).as_str())
}

/// The port that a call gives: the lower sixteen bits of the number.
pub open spec fn port_of(args: JsonView) -> u16 {
    (args.u64_or("port"@, 0) % 0x1_0000) as u16
}

/// What trying a port becomes.
pub open spec fn port_check_action(args: JsonView) -> ActionView {
    if port_of(args) == 0 {
        actions::refused("port is required"@)
    } else {
        ActionView::PortCheck {
            host: args.str_or("host"@, "127.0.0.1"@),
            port: port_of(args),
            timeout_ms: args.u64_or("timeout_ms"@, 2000),
        }
    }
}

/// What came of trying a port.
#[derive(Debug, Clone, PartialEq, Eq)]
pub enum PortOutcome {
    Open,
    Closed(String),
    TimedOut,
}

/// What is said of a port that was tried.
pub open spec fn port_text(
    host: Seq<char>,
    port: u16,
    timeout_ms: u64,
    outcome: PortOutcome,
) -> Seq<char> {
    let at = host + ":"@ + text::decimal(port as nat);
    match outcome {
        PortOutcome::Open => at + " is OPEN"@,
        PortOutcome::Closed(e) => at + " is CLOSED ("@ + e@ + ")"@,
        PortOutcome::TimedOut => at + " TIMEOUT after "@ + text::decimal(timeout_ms as nat) + "ms"@,
    }
}

/// The answer once a port was tried.
pub fn port_reply(host: &str, port: u16, timeout_ms: u64, outcome: &PortOutcome) -> (r:
    ToolCallResult)
    ensures
        r@ == mcp::text_view(port_text(host@, port, timeout_ms, *outcome)),
{
    let at = text::cat3(host, ":", text::number(port as u64).as_str());
    let said: String = match outcome {
        PortOutcome::Open => text::cat2(at.as_str(), " is OPEN"),
        PortOutcome::Closed(e) => text::cat4(at.as_str(), " is CLOSED (", e.as_str(), ")"),
        PortOutcome::TimedOut => text::cat4(
            at.as_str(),
            " TIMEOUT after ",
            text::number(timeout_ms).as_str(),
            "ms",
        ),
    };
    text_result(said.as_str())
}

impl DriverTools {
    /// Sends a request whose method's name in capitals is `method`.
    pub fn http_request_as(&self, args: &Json, method: &str) -> (r: ToolAction)
        ensures
            r@ == http_request_action_as(args@, method@),
    {
        let url = args.str_or("url", "");
        if url.is_empty() {
            return refuse("url is required");
        }
        ToolAction::Http {
            method: method_named(method),
            url: text::copy(url),
            headers: headers(args),
            body: args.string_at("body"),
            timeout_secs: args.u64_or("timeout_secs", 30),
        }
    }

    /// Sends a request.
    pub fn http_request(&self, args: &Json) -> (r: ToolAction)
        ensures
            r@ == http_request_action(args@),
            unicode::all_ascii(args@.str_or("method"@, "GET"@)) ==> r@ == http_request_action_as(
                args@,
                unicode::ascii_upper(args@.str_or("method"@, "GET"@)),
            ),
    {
        let method = unicode::to_uppercase(args.str_or("method", "GET"));
        self.http_request_as(args, method.as_str())
    }

    /// Fetches a page.
    pub fn http_fetch(&self, args: &Json) -> (r: ToolAction)
        ensures
            r@ == http_fetch_action(args@),
    {
        let url = args.str_or("url", "");
        if url.is_empty() {
            return refuse("url is required");
        }
        let headers: Vec<(String, String)> = Vec::new();
        proof {
            assert(actions::pair_texts(headers@) =~= Seq::empty());
        }
        ToolAction::Http {
            method: Method::Get,
            url: text::copy(url),
            headers,
            body: None,
            timeout_secs: 30,
        }
    }

    /// Tries whether a port takes connections.
    pub fn port_check(&self, args: &Json) -> (r: ToolAction)
        ensures
            r@ == port_check_action(args@),
    {
        let port: u16 = (args.u64_or("port", 0) % 0x1_0000) as u16;
        if port == 0 {
            return refuse("port is required");
        }
        ToolAction::PortCheck {
            host: text::copy(args.str_or("host", "127.0.0.1")),
            port,
            timeout_ms: args.u64_or("timeout_ms", 2000),
        }
    }
}

proof fn lemma_words()
    ensures
        text::shape("POST"@) == 84083084083080004,
        text::shape("PUT"@) == 84085084085080003,
        text::shape("PATCH"@) == 67084072084080005,
        text::shape("DELETE"@) == 84069069069068006,
        text::shape("HEAD"@) == 68065068065072004,
{
    reveal_strlit("POST");
    assert(text::shape("POST"@) == 84083084083080004);
    reveal_strlit("PUT");
    assert(text::shape("PUT"@) == 84085084085080003);
    reveal_strlit("PATCH");
    assert(text::shape("PATCH"@) == 67084072084080005);
    reveal_strlit("DELETE");
    assert(text::shape("DELETE"@) == 84069069069068006);
    reveal_strlit("HEAD");
    assert(text::shape("HEAD"@) == 68065068065072004);
}

/// Each method is known by its own name; any other name is taken for a fetch.
pub proof fn law_methods_have_names(
    name: Seq<char>,
)
    ensures
        method_of("POST"@) == Method::Post,
        method_of("PUT"@) == Method::Put,
        method_of("PATCH"@) == Method::Patch,
        method_of("DELETE"@) == Method::Delete,
        method_of("HEAD"@) == Method::Head,
        name != "POST"@ && name != "PUT"@ && name != "PATCH"@ && name != "DELETE"@ && name
            != "HEAD"@ ==> method_of(name) == Method::Get,
{
    lemma_words();
}

/// The headers of a request are the members of the call's `headers` whose values are texts, in
/// their order.
pub proof fn law_headers_are_the_members_that_are_texts(
    args: JsonView,
    members: Seq<(Seq<char>, JsonView)>,
    one: (Seq<char>, JsonView),
)
    ensures
        args.get("headers"@) == Some(JsonView::Object(members))
            ==> headers_of(args) == text_members(
            members,
        ),
        !(args.get("headers"@) matches Some(JsonView::Object(_))) ==> headers_of(args).len() == 0,
        text_members(Seq::empty()).len() == 0,
        one.1 matches JsonView::Str(s) ==> text_members(members.push(one)) == text_members(
            members,
        ).push((one.0, s)),
        !(one.1 is Str) ==> text_members(members.push(one)) == text_members(members),
{
    assert(members.push(one).drop_last() =~= members);
}

/// A request goes where the call says, by the call's method, with its headers and its body and
/// for as long as it allows; a fetch has none of these. Without an address neither is made.
pub proof fn law_request_is_as_asked(
    args: JsonView,
    url: Seq<char>,
)
    requires
        url == args.str_or("url"@, ""@),
    ensures
        url.len() == 0 ==> http_request_action(args) == actions::refused("url is required"@),
        url.len() == 0 ==> http_fetch_action(args) == actions::refused("url is required"@),
        url.len() > 0 ==> http_request_action(args) == (ActionView::Http {
            method: method_of(unicode::uppercase(args.str_or("method"@, "GET"@))),
            url,
            headers: headers_of(args),
            body: args.str_at("body"@),
            timeout_secs: args.u64_or("timeout_secs"@, 30),
        }),
        url.len() > 0 ==> http_fetch_action(args) == (ActionView::Http {
            method: Method::Get,
            url,
            headers: Seq::empty(),
            body: None,
            timeout_secs: 30,
        }),
{
}

/// The answer on a reply gives its status, says whether that is a good one and then gives the first
/// fifty thousand bytes of the body.
pub proof fn law_reply_gives_status_and_body(
    status: u16,
    body: Seq<char>,
)
    ensures
        200 <= status <= 299 ==> http_reply_text(status, body) == "HTTP "@ + text::decimal(
            status as nat,
        ) + " OK\n\n"@ + text::clipped(body, 50_000, "... [truncated at 50KB]"@),
        !(200 <= status <= 299) ==> http_reply_text(status, body) == "HTTP "@ + text::decimal(
            status as nat,
        ) + " ERROR\n\n"@ + text::clipped(body, 50_000, "... [truncated at 50KB]"@),
{
    reveal_strlit(" ");
    reveal_strlit("OK");
    reveal_strlit("ERROR");
    reveal_strlit("\n\n");
    reveal_strlit(" OK\n\n");
    reveal_strlit(" ERROR\n\n");
    let shown = text::clipped(body, 50_000, "... [truncated at 50KB]"@);
    let head = "HTTP "@ + text::decimal(status as nat);
    assert(head + " "@ + "OK"@ + "\n\n"@ + shown =~= head + " OK\n\n"@ + shown);
    assert(head + " "@ + "ERROR"@ + "\n\n"@ + shown =~= head + " ERROR\n\n"@ + shown);
}

/// The port that is tried is the lower half of the number that the call gives, at the host that it
/// names; where that is zero the call is refused.
pub proof fn law_port_is_tried(
    args: JsonView,
    n: u64,
)
    requires
        args.u64_at("port"@) == Some(n) || args.u64_at("port"@) is None && n == 0,
    ensures
        n % 65536 == 0 ==> port_check_action(args) == actions::refused("port is required"@),
        n % 65536 != 0 ==> port_check_action(args) == (ActionView::PortCheck {
            host: args.str_or("host"@, "127.0.0.1"@),
            port: (n % 65536) as u16,
            timeout_ms: args.u64_or("timeout_ms"@, 2000),
        }),
{
}

/// The answer on a port says where it is and what came of it.
pub proof fn law_port_is_answered(
    host: Seq<char>,
    port: u16,
    timeout_ms: u64,
    reason: String,
)
    ensures
        port_text(host, port, timeout_ms, PortOutcome::Open) == host + ":"@ + text::decimal(
            port as nat,
        ) + " is OPEN"@,
        port_text(host, port, timeout_ms, PortOutcome::Closed(reason))
            == host + ":"@ + text::decimal(
            port as nat,
        ) + " is CLOSED ("@ + reason@ + ")"@,
        port_text(host, port, timeout_ms, PortOutcome::TimedOut) == host + ":"@ + text::decimal(
            port as nat,
        ) + " TIMEOUT after "@ + text::decimal(timeout_ms as nat) + "ms"@,
{
}

} // verus!
