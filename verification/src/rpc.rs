//! The protocol between the driver and a server of tools: the requests that are sent, one line
//! each, and how an answer is found in what the server writes.

use vstd::prelude::*;

use crate::json;
use crate::json::{Json, JsonView, Members};
use crate::text;

verus! {

/// The version of the protocol that the driver speaks.
pub const PROTOCOL_VERSION: &'static str = "2024-11-05";

/// An error that a server answers with.
#[derive(Debug, Clone, PartialEq, Eq)]
pub struct JsonRpcError {
    pub code: i64,
    pub message: String,
}

/// An answer of a server.
#[derive(Debug, PartialEq)]
pub struct JsonRpcResponse {
    pub id: Option<u64>,
    pub result: Option<Json>,
    pub error: Option<JsonRpcError>,
}

/// The end of a message: its parameters, where it has any, the bracket and the line break.
pub open spec fn message_end(params: Option<JsonView>) -> Seq<char> {
    match params {
        Some(p) => ",\"params\":"@ + json::json_compact(p) + "}\n"@,
        None => "}\n"@,
    }
}

/// The line of a request.
pub open spec fn request_line(id: u64, method: Seq<char>, params: Option<JsonView>) -> Seq<char> {
    "{\"jsonrpc\":\"2.0\",\"id\":"@ + text::decimal(id as nat) + ",\"method\":"@
        + json::json_compact(JsonView::Str(method)) + message_end(params)
}

/// The line of a message that asks for no answer.
pub open spec fn notification_line(method: Seq<char>, params: Option<JsonView>) -> Seq<char> {
    "{\"jsonrpc\":\"2.0\",\"method\":"@ + json::json_compact(JsonView::Str(method)) + message_end(
        params,
    )
}

/// What is asked for, over texts.
pub open spec fn opt_view(params: Option<Json>) -> Option<JsonView> {
    match params {
        Some(p) => Some(p@),
        None => None,
    }
}

fn end_of_message(params: &Option<Json>) -> (r: String)
    ensures
        r@ == message_end(opt_view(*params)),
{
    match params {
        Some(p) => text::cat3(",\"params\":", json::compact(p).as_str(), "}\n"),
        None => text::copy("}\n"),
    }
}

/// What the driver says of itself at the start.
pub open spec fn initialize_params(version: Seq<char>) -> JsonView {
    JsonView::Object(
        json::no_members().push(("protocolVersion"@, JsonView::Str(PROTOCOL_VERSION@))).push(
            ("capabilities"@, JsonView::Object(json::no_members())),
        ).push(
            (
                "clientInfo"@,
                JsonView::Object(
                    json::no_members().push(("name"@, JsonView::Str("driver"@))).push(
                        ("version"@, JsonView::Str(version)),
                    ),
                ),
            ),
        ),
    )
}

/// What goes with a call of a tool.
pub open spec fn call_params(name: Seq<char>, arguments: JsonView) -> JsonView {
    JsonView::Object(
        json::no_members().push(("name"@, JsonView::Str(name))).push(("arguments"@, arguments)),
    )
}

/// The driver's side of a conversation with a server.
#[derive(Debug, Clone, PartialEq, Eq)]
pub struct McpClient {
    /// The number of the next request.
    pub next_id: u64,
}

impl McpClient {
    /// A conversation that has not begun.
    pub fn new() -> (r: McpClient)
        ensures
            r.next_id == 1,
    {
        McpClient { next_id: 1 }
    }

    /// The line of a request with the next number.
    pub fn request(&mut self, method: &str, params: &Option<Json>) -> (r: String)
        requires
            old(self).next_id < u64::MAX,
        ensures
            r@ == request_line(old(self).next_id, method@, opt_view(*params)),
            final(self).next_id == old(self).next_id + 1,
    {
        let id: u64 = self.next_id;
        self.next_id = id + 1;
        text::cat5(
            "{\"jsonrpc\":\"2.0\",\"id\":",
            text::number(id).as_str(),
            ",\"method\":",
            json::compact(&json::string(method)).as_str(),
            end_of_message(params).as_str(),
        )
    }

    /// The line of a message that asks for no answer.
    pub fn notify(&self, method: &str, params: &Option<Json>) -> (r: String)
        ensures
            r@ == notification_line(method@, opt_view(*params)),
    {
        text::cat3(
            "{\"jsonrpc\":\"2.0\",\"method\":",
            json::compact(&json::string(method)).as_str(),
            end_of_message(params).as_str(),
        )
    }

    /// The line that begins a conversation.
    pub fn initialize(&mut self, version: &str) -> (r: String)
        requires
            old(self).next_id < u64::MAX,
        ensures
            r@ == request_line(
                old(self).next_id,
                "initialize"@,
                Some(initialize_params(version@)),
            ),
            final(self).next_id == old(self).next_id + 1,
    {
        let info = Members::new().with("name", json::string("driver")).with(
            "version",
            json::string(version),
        ).object();
        let params = Members::new().with("protocolVersion", json::string(PROTOCOL_VERSION)).with(
            "capabilities",
            Members::new().object(),
        ).with("clientInfo", info).object();
        self.request("initialize", &Some(params))
    }

    /// The line that says that the conversation has begun.
    pub fn initialized(&self) -> (r: String)
        ensures
            r@ == notification_line("notifications/initialized"@, None),
    {
        self.notify("notifications/initialized", &None)
    }

    /// The line that asks for a server's tools.
    pub fn list_tools(&mut self) -> (r: String)
        requires
            old(self).next_id < u64::MAX,
        ensures
            r@ == request_line(
                old(self).next_id,
                "tools/list"@,
                Some(JsonView::Object(json::no_members())),
            ),
            final(self).next_id == old(self).next_id + 1,
    {
        self.request("tools/list", &Some(Members::new().object()))
    }

    /// The line that calls a tool.
    pub fn call_tool(&mut self, name: &str, arguments: &Json) -> (r: String)
        requires
            old(self).next_id < u64::MAX,
        ensures
            r@ == request_line(
                old(self).next_id,
                "tools/call"@,
                Some(call_params(name@, arguments@)),
            ),
            final(self).next_id == old(self).next_id + 1,
    {
        let params = Members::new().with("name", json::string(name)).with(
            "arguments",
            arguments.copy(),
        ).object();
        self.request("tools/call", &Some(params))
    }
}

/// The part of an answer that lists a server's tools; an empty list, where there is none.
pub open spec fn tools_part(result: JsonView) -> JsonView {
    match result.get("tools"@) {
        Some(tools) => tools,
        None => JsonView::Array(Seq::empty()),
    }
}

/// The part of an answer that lists a server's tools.
pub fn tools_of(result: &Json) -> (r: Json)
    ensures
        r@ == tools_part(result@),
{
    match result.get("tools") {
        Some(tools) => tools.copy(),
        None => {
            let none: Vec<Json> = Vec::new();
            proof {
                assert(json::items_view(none@) =~= Seq::empty());
            }
            json::array(none)
        },
    }
}

/// What an answer comes to: its result, or what went wrong.
pub open spec fn outcome_of(response: JsonRpcResponse) -> Result<JsonView, Seq<char>> {
    match response.error {
        Some(e) => Err("MCP error "@ + text::signed_decimal(e.code as int) + ": "@ + e.message@),
        None => match response.result {
            Some(result) => Ok(result@),
            None => Err("MCP response missing both result and error"@),
        },
    }
}

/// What an answer comes to.
pub fn outcome(response: JsonRpcResponse) -> (r: Result<Json, String>)
    ensures
        json::parse_view(r) == outcome_of(response),
{
    match response.error {
        Some(e) => Err(
            text::cat4(
                "MCP error ",
                text::signed_number(e.code).as_str(),
                ": ",
                e.message.as_str(),
            ),
        ),
        None => match response.result {
            Some(result) => Ok(result),
            None => Err(text::copy("MCP response missing both result and error")),
        },
    }
}

/// How far the reading of an answer has come.
#[derive(Debug, Clone, Copy, PartialEq, Eq, Structural)]
pub enum Reading {
    /// An answer may begin at the next line.
    Start,
    /// An answer of `len` bytes comes behind the next empty line.
    Headers { len: usize },
}

/// What is to be done for an answer.
#[derive(Debug, PartialEq)]
pub enum ReadStep {
    /// One more line is read.
    Line,
    /// So many bytes are read.
    Exactly(usize),
    /// The answer is here.
    Answer(Json),
    /// There is no answer, for this reason.
    Fail(String),
}

/// What is to be done for an answer, over texts.
pub enum StepView {
    Line,
    Exactly(usize),
    Answer(JsonView),
    Fail(Seq<char>),
}

impl ReadStep {
    pub open spec fn view(&self) -> StepView {
        match *self {
            ReadStep::Line => StepView::Line,
            ReadStep::Exactly(n) => StepView::Exactly(n),
            ReadStep::Answer(v) => StepView::Answer(v@),
            ReadStep::Fail(e) => StepView::Fail(e@),
        }
    }
}

/// What a message is to the one who waits for an answer: what has no number is none.
pub open spec fn body_step(body: JsonView) -> StepView {
    match body.get("id"@) {
        None => StepView::Line,
        Some(JsonView::Null) => StepView::Line,
        Some(_) => StepView::Answer(body),
    }
}

/// What a message is to the one who waits for an answer.
pub fn on_body(body: Json) -> (r: ReadStep)
    ensures
        r@ == body_step(body@),
{
    let answers: bool = match body.get("id") {
        None => false,
        Some(Json::Null) => false,
        Some(_) => true,
    };
    if answers {
        ReadStep::Answer(body)
    } else {
        ReadStep::Line
    }
}

/// What a line that should be a message is, once it was parsed.
pub open spec fn bare_step(parsed: Result<JsonView, Seq<char>>) -> StepView {
    match parsed {
        Ok(body) => body_step(body),
        Err(_) => StepView::Fail("parsing bare JSON-RPC response"@),
    }
}

/// What a line that should be a message is, once it was parsed.
pub fn on_bare(parsed: Result<Json, String>) -> (r: ReadStep)
    ensures
        r@ == bare_step(json::parse_view(parsed)),
{
    match parsed {
        Ok(body) => on_body(body),
        Err(_) => ReadStep::Fail(text::copy("parsing bare JSON-RPC response")),
    }
}

/// What bytes that should be a message are, once they were parsed.
pub open spec fn framed_step(parsed: Result<JsonView, Seq<char>>) -> StepView {
    match parsed {
        Ok(body) => body_step(body),
        Err(e) => StepView::Fail(e),
    }
}

/// What bytes that should be a message are, once they were parsed.
pub fn on_framed(parsed: Result<Json, String>) -> (r: ReadStep)
    ensures
        r@ == framed_step(json::parse_view(parsed)),
{
    match parsed {
        Ok(body) => on_body(body),
        Err(e) => ReadStep::Fail(e),
    }
}

/// How far the reading has come after a line, and what is to be done. `None` is the end of what
/// the server writes.
pub open spec fn line_step(reading: Reading, line: Option<Seq<char>>) -> (Reading, StepView) {
    match reading {
        Reading::Headers { len } => {
            let over = match line {
                None => true,
                Some(l) => text::trimmed(l).len() == 0,
            };
            if over {
                (Reading::Start, StepView::Exactly(len))
            } else {
                (reading, StepView::Line)
            }
        },
        Reading::Start => match line {
            None => (reading, StepView::Fail("MCP server closed stdout unexpectedly"@)),
            Some(l) => {
                let t = text::trimmed(l);
                if t.len() == 0 {
                    (reading, StepView::Line)
                } else if text::has_prefix(t, "{"@) {
                    (reading, bare_step(json::json_parse(t)))
                } else if text::has_prefix(t, "Content-Length:"@) {
                    match text::parsed_number(
                        text::trimmed(t.skip("Content-Length:"@.len() as int)),
                        usize::MAX as nat,
                    ) {
                        Some(len) => (Reading::Headers { len: len as usize }, StepView::Line),
                        None => (reading, StepView::Fail("bad Content-Length"@)),
                    }
                } else {
                    (reading, StepView::Line)
                }
            },
        },
    }
}

impl Reading {
    /// Takes in a line. `None` is the end of what the server writes.
    pub fn on_line(&mut self, line: Option<&str>) -> (r: ReadStep)
        ensures
            (*final(self), r@) == line_step(
                *old(self),
                match line {
                    Some(l) => Some(l@),
                    None => None,
                },
            ),
    {
        match *self {
            Reading::Headers { len } => {
                let over: bool = match line {
                    None => true,
                    Some(l) => text::trim(l).as_str().is_empty(),
                };
                if over {
                    *self = Reading::Start;
                    ReadStep::Exactly(len)
                } else {
                    ReadStep::Line
                }
            },
            Reading::Start => match line {
                None => ReadStep::Fail(text::copy("MCP server closed stdout unexpectedly")),
                Some(l) => {
                    let t = text::trim(l);
                    if t.as_str().is_empty() {
                        ReadStep::Line
                    } else if text::starts_with(t.as_str(), "{") {
                        on_bare(json::parse(t.as_str()))
                    } else {
                        match text::strip_prefix(t.as_str(), "Content-Length:") {
                            Some(rest) => match text::parse_usize(
                                text::trim(rest.as_str()).as_str(),
                            ) {
                                Some(len) => {
                                    *self = Reading::Headers { len };
                                    ReadStep::Line
                                },
                                None => ReadStep::Fail(text::copy("bad Content-Length")),
                            },
                            None => ReadStep::Line,
                        }
                    }
                },
            },
        }
    }

    /// Takes in the bytes that were asked for.
    pub fn on_bytes(&self, bytes: &Vec<u8>) -> (r: ReadStep)
        ensures
            r@ == framed_step(json::json_parse_bytes(bytes@)),
    {
        on_framed(json::parse_bytes(bytes))
    }
}

/// Whether a line says nothing to the one who waits for an answer: it is empty, or begins
/// neither a message nor a header.
pub open spec fn is_noise(line: Seq<char>) -> bool {
    let t = text::trimmed(line);
    t.len() == 0 || (!text::has_prefix(t, "{"@) && !text::has_prefix(t, "Content-Length:"@))
}

/// A line that says nothing is passed over: the reading stands where it stood, and the next line
/// is read.
pub proof fn law_noise_is_passed_over(line: Seq<char>)
    requires
        is_noise(line),
    ensures
        line_step(Reading::Start, Some(line)) == (Reading::Start, StepView::Line),
{
}

/// What has no number is never taken for an answer.
pub proof fn law_answers_are_numbered(body: JsonView)
    ensures
        body_step(body) is Answer <==> body.get("id"@) is Some && !(body.get("id"@)->0 is Null),
        body_step(body) is Answer ==> body_step(body) == StepView::Answer(body),
{
}

/// A header that gives a length is read: with the empty line behind it, so many bytes are asked
/// for, and then an answer may begin at the next line again.
pub proof fn law_length_is_read(len: usize)
    ensures
        line_step(
            Reading::Start,
            Some("Content-Length: "@ + text::decimal(len as nat) + "\r\n"@),
        ) == (Reading::Headers { len }, StepView::Line),
        line_step(Reading::Headers { len }, Some("\r\n"@)) == (
            Reading::Start,
            StepView::Exactly(len),
        ),
{
    reveal_strlit("Content-Length: ");
    reveal_strlit("Content-Length:");
    reveal_strlit("\r\n");
    reveal_strlit("{");
    let digits = text::decimal(len as nat);
    text::lemma_decimal(len as nat);
    text::law_decimal_is_read_back(len as nat, usize::MAX as nat);
    let t = "Content-Length: "@ + digits;
    let line = t + "\r\n"@;
    assert(text::is_digit(digits.last()));
    assert(text::is_digit(digits[0]));
    assert(t.last() == digits.last());
    assert(text::trim_start(line) == line);
    assert(line.drop_last() =~= t.push('\r'));
    assert(t.push('\r').drop_last() =~= t);
    assert(text::trim_end(t) == t);
    assert(text::trim_end(t.push('\r')) == t);
    assert(text::trim_end(line) == t);
    assert(text::trimmed(line) == t);
    assert(!text::has_prefix(t, "{"@)) by {
        assert(t.subrange(0, 1)[0] == 'C');
    }
    assert(t.subrange(0, 15) =~= "Content-Length:"@);
    let rest = t.skip(15);
    assert(rest =~= seq![' '] + digits);
    assert(rest.drop_first() =~= digits);
    assert(text::trim_start(digits) == digits);
    assert(text::trim_start(rest) == digits);
    assert(text::trim_end(digits) == digits);
    let blank = "\r\n"@;
    assert(blank.drop_first().drop_first().len() == 0);
    assert(text::trim_start(blank.drop_first().drop_first()).len() == 0);
    assert(text::trim_start(blank.drop_first()).len() == 0);
    assert(text::trim_start(blank).len() == 0);
}

proof fn lemma_words()
    ensures
        text::shape("protocolVersion"@) == 115108110086112015,
        text::shape("capabilities"@) == 105108115108099012,
        text::shape("clientInfo"@) == 110116111116099010,
        text::shape("name"@) == 101109101109110004,
        text::shape("version"@) == 111115110105118007,
        text::shape("arguments"@) == 110109115101097009,
{
    reveal_strlit("protocolVersion");
    assert(text::shape("protocolVersion"@) == 115108110086112015);
    reveal_strlit("capabilities");
    assert(text::shape("capabilities"@) == 105108115108099012);
    reveal_strlit("clientInfo");
    assert(text::shape("clientInfo"@) == 110116111116099010);
    reveal_strlit("name");
    assert(text::shape("name"@) == 101109101109110004);
    reveal_strlit("version");
    assert(text::shape("version"@) == 111115110105118007);
    reveal_strlit("arguments");
    assert(text::shape("arguments"@) == 110109115101097009);
}

/// A request says its number, its method and what goes with it, in one line; a notification says
/// the same without a number.
pub proof fn law_messages_say_what_they_are(
    id: u64,
    method: Seq<char>,
    params: JsonView,
)
    ensures
        request_line(id, method, Some(params)) == "{\"jsonrpc\":\"2.0\",\"id\":"@ + text::decimal(
            id as nat,
        ) + ",\"method\":"@ + json::json_compact(JsonView::Str(method)) + ",\"params\":"@
            + json::json_compact(params) + "}\n"@,
        request_line(id, method, None) == "{\"jsonrpc\":\"2.0\",\"id\":"@ + text::decimal(id as nat)
            + ",\"method\":"@ + json::json_compact(JsonView::Str(method)) + "}\n"@,
        notification_line(method, Some(params)) == "{\"jsonrpc\":\"2.0\",\"method\":"@
            + json::json_compact(JsonView::Str(method)) + ",\"params\":"@ + json::json_compact(
            params,
        ) + "}\n"@,
        notification_line(method, None) == "{\"jsonrpc\":\"2.0\",\"method\":"@ + json::json_compact(
            JsonView::Str(method),
        ) + "}\n"@,
{
    let a = "{\"jsonrpc\":\"2.0\",\"id\":"@ + text::decimal(id as nat) + ",\"method\":"@
        + json::json_compact(JsonView::Str(method));
    let b = "{\"jsonrpc\":\"2.0\",\"method\":"@ + json::json_compact(JsonView::Str(method));
    let p = ",\"params\":"@ + json::json_compact(params) + "}\n"@;
    assert(a + p =~= a + ",\"params\":"@ + json::json_compact(params) + "}\n"@);
    assert(b + p =~= b + ",\"params\":"@ + json::json_compact(params) + "}\n"@);
}

/// What goes with the first request says which protocol is spoken and by whom, in which version;
/// what goes with a call says which tool is called and with what.
pub proof fn law_parameters_say_what_they_are_for(
    version: Seq<char>,
    name: Seq<char>,
    arguments: JsonView,
)
    ensures
        initialize_params(version).get("protocolVersion"@) == Some(JsonView::Str("2024-11-05"@)),
        initialize_params(version).get("capabilities"@) == Some(
            JsonView::Object(json::no_members()),
        ),
        initialize_params(version).get("clientInfo"@) is Some,
        initialize_params(version).get("clientInfo"@)->0.get("name"@) == Some(
            JsonView::Str("driver"@),
        ),
        initialize_params(version).get("clientInfo"@)->0.get("version"@) == Some(
            JsonView::Str(version),
        ),
        initialize_params(version)->Object_0.len() == 3,
        call_params(name, arguments).get("name"@) == Some(JsonView::Str(name)),
        call_params(name, arguments).get("arguments"@) == Some(arguments),
        call_params(name, arguments)->Object_0.len() == 2,
{
    broadcast use json::lemma_member_push;

    lemma_words();
}

/// An answer with an error fails with the error's number and words, whatever else it holds; one
/// without comes to its result, and fails where it has neither. The tools of a result are its
/// list of them, or none.
pub proof fn law_answer_comes_to_its_result(
    id: Option<u64>,
    result: Json,
    error: JsonRpcError,
    other: Option<Json>,
    v: JsonView,
    tools: JsonView,
)
    ensures
        outcome_of(JsonRpcResponse { id, result: other, error: Some(error) }) == Err::<
            JsonView,
            Seq<char>,
        >("MCP error "@ + text::signed_decimal(error.code as int) + ": "@ + error.message@),
        outcome_of(JsonRpcResponse { id, result: Some(result), error: None }) == Ok::<
            JsonView,
            Seq<char>,
        >(result@),
        outcome_of(JsonRpcResponse { id, result: None, error: None }) == Err::<JsonView, Seq<char>>(
            "MCP response missing both result and error"@,
        ),
        v.get("tools"@) == Some(tools) ==> tools_part(v) == tools,
        v.get("tools"@) is None ==> tools_part(v) == JsonView::Array(Seq::empty()),
{
}

/// A line with a brace in front is an answer by itself: it is the answer where it is JSON with a
/// number of its own, it is passed over where it has none, and reading fails where it is no JSON.
/// The end of all lines ends the reading.
pub proof fn law_line_with_a_brace_is_read(
    line: Seq<char>,
    rest: Seq<char>,
    v: JsonView,
    reason: Seq<char>,
)
    requires
        text::trimmed(line) == "{"@ + rest,
    ensures
        json::json_parse("{"@ + rest) == Ok::<JsonView, Seq<char>>(v) && v.get("id"@) is Some
            && !(v.get(
            "id"@,
        )->0 is Null) ==> line_step(Reading::Start, Some(line)) == (
            Reading::Start,
            StepView::Answer(v),
        ),
        json::json_parse("{"@ + rest) == Ok::<JsonView, Seq<char>>(v)
            && (v.get("id"@) is None || v.get(
            "id"@,
        )->0 is Null) ==> line_step(Reading::Start, Some(line)) == (Reading::Start, StepView::Line),
        json::json_parse("{"@ + rest) is Err ==> line_step(Reading::Start, Some(line)) == (
            Reading::Start,
            StepView::Fail("parsing bare JSON-RPC response"@),
        ),
        line_step(Reading::Start, None) == (
            Reading::Start,
            StepView::Fail("MCP server closed stdout unexpectedly"@),
        ),
        framed_step(Err(reason)) == StepView::Fail(reason),
        v.get("id"@) is Some
            && !(v.get("id"@)->0 is Null) ==> framed_step(Ok(v)) == StepView::Answer(v),
{
    reveal_strlit("{");
    let t = "{"@ + rest;
    assert(t.subrange(0, 1) =~= "{"@);
    assert(t.take(1) =~= "{"@);
}

/// Behind a length any line but an empty one is passed over; a length that is no number is a
/// failure.
pub proof fn law_headers_are_passed_over(
    len: usize,
    line: Seq<char>,
    rest: Seq<char>,
)
    ensures
        text::trimmed(line).len() > 0 ==> line_step(Reading::Headers { len }, Some(line)) == (
            Reading::Headers { len },
            StepView::Line,
        ),
        text::trimmed(line).len() == 0 ==> line_step(Reading::Headers { len }, Some(line)) == (
            Reading::Start,
            StepView::Exactly(len),
        ),
        line_step(Reading::Headers { len }, None) == (Reading::Start, StepView::Exactly(len)),
        text::trimmed(line) == "Content-Length:"@ + rest && text::parsed_number(
            text::trimmed(rest),
            usize::MAX as nat,
        ) is None ==> line_step(Reading::Start, Some(line)) == (
            Reading::Start,
            StepView::Fail("bad Content-Length"@),
        ),
{
    reveal_strlit("{");
    reveal_strlit("Content-Length:");
    if text::trimmed(line) == "Content-Length:"@ + rest {
        let t = "Content-Length:"@ + rest;
        let n = "Content-Length:"@.len() as int;
        assert(t.subrange(0, n) =~= "Content-Length:"@);
        assert(t.take(n) =~= "Content-Length:"@);
        assert(t.skip(n) =~= rest);
        assert(t[0] == 'C');
        assert(!text::has_prefix(t, "{"@)) by {
            assert(t.subrange(0, 1)[0] == 'C');
            assert(t.take(1)[0] == 'C');
            assert("{"@[0] == '{');
        }
    }
}

} // verus!
