//! What a tool call asks to be done.

use vstd::prelude::*;

use crate::mcp;
use crate::mcp::{error_result, ResultView, ToolCallResult};
use crate::text;

verus! {

/// The method of an HTTP request.
#[derive(Debug, Clone, Copy, PartialEq, Eq, Structural)]
pub enum Method {
    Get,
    Post,
    Put,
    Patch,
    Delete,
    Head,
}

/// A call on the records of operations.
#[derive(Debug, Clone, Copy, PartialEq, Eq, Structural)]
pub enum BreadcrumbTool {
    Start,
    Step,
    Complete,
    Abort,
    Status,
    List,
    Adopt,
}

/// A call on the records of projects.
#[derive(Debug, Clone, Copy, PartialEq, Eq, Structural)]
pub enum LoafTool {
    Create,
    Update,
    Status,
    Close,
}

/// What a tool call asks to be done.
#[derive(Debug, Clone, PartialEq, Eq)]
pub enum ToolAction {
    /// Nothing: the call is answered.
    Reply(ToolCallResult),
    /// A shell command is run, and its outcome is the answer.
    Bash { command: String, working_dir: Option<String>, timeout_secs: u64 },
    /// A shell command is run, and what it writes to its standard output is the answer: what it
    /// complains of is left out.
    BashStdout { command: String, timeout_secs: u64 },
    /// Shell commands are run whatever becomes of them, each with its own time; then one more,
    /// whose outcome is the answer.
    BashSeries { first: Vec<String>, first_timeout_secs: u64, command: String, timeout_secs: u64 },
    /// A file is looked at and read.
    ReadFile { path: String },
    /// A file is written, with the directories that it needs.
    WriteFile { path: String, content: String },
    /// A file is written to at its end.
    AppendFile { path: String, content: String },
    /// A directory is walked.
    ListDir { path: String, depth: usize },
    /// A file is read to have texts replaced in it.
    FindReplace { path: String },
    /// A file is read for some of its lines.
    ExtractLines { path: String },
    /// A shell is started for a session.
    CreateSession { name: String, cwd: String },
    /// A session's shell is given `input`, and its output is read up to the line `sentinel`.
    /// Where `moves` holds, the output is the session's new directory.
    RunInSession {
        session: String,
        command: String,
        input: String,
        sentinel: String,
        moves: bool,
    },
    /// A session's shell is ended; then `reply` is the answer.
    DestroySession { name: String, reply: ToolCallResult },
    /// A request is sent.
    Http {
        method: Method,
        url: String,
        headers: Vec<(String, String)>,
        body: Option<String>,
        timeout_secs: u64,
    },
    /// A connection is tried.
    PortCheck { host: String, port: u16, timeout_ms: u64 },
    /// A record of an operation is looked at or changed.
    Breadcrumb(BreadcrumbTool),
    /// A record of a project is looked at or changed.
    Loaf(LoafTool),
}

/// What a tool call asks to be done, over texts.
pub enum ActionView {
    Reply(ResultView),
    Bash { command: Seq<char>, working_dir: Option<Seq<char>>, timeout_secs: u64 },
    BashStdout { command: Seq<char>, timeout_secs: u64 },
    BashSeries {
        first: Seq<Seq<char>>,
        first_timeout_secs: u64,
        command: Seq<char>,
        timeout_secs: u64,
    },
    ReadFile { path: Seq<char> },
    WriteFile { path: Seq<char>, content: Seq<char> },
    AppendFile { path: Seq<char>, content: Seq<char> },
    ListDir { path: Seq<char>, depth: usize },
    FindReplace { path: Seq<char> },
    ExtractLines { path: Seq<char> },
    CreateSession { name: Seq<char>, cwd: Seq<char> },
    RunInSession {
        session: Seq<char>,
        command: Seq<char>,
        input: Seq<char>,
        sentinel: Seq<char>,
        moves: bool,
    },
    DestroySession { name: Seq<char>, reply: ResultView },
    Http {
        method: Method,
        url: Seq<char>,
        headers: Seq<(Seq<char>, Seq<char>)>,
        body: Option<Seq<char>>,
        timeout_secs: u64,
    },
    PortCheck { host: Seq<char>, port: u16, timeout_ms: u64 },
    Breadcrumb(BreadcrumbTool),
    Loaf(LoafTool),
}

/// What pairs of strings are, over texts.
pub open spec fn pair_texts(pairs: Seq<(String, String)>) -> Seq<(Seq<char>, Seq<char>)> {
    Seq::new(pairs.len(), |i: int| (pairs[i].0@, pairs[i].1@))
}

impl ToolAction {
    pub open spec fn view(&self) -> ActionView {
        match *self {
            ToolAction::Reply(r) => ActionView::Reply(r@),
            ToolAction::Bash { command, working_dir, timeout_secs } => ActionView::Bash {
                command: command@,
                working_dir: text::opt_text(working_dir),
                timeout_secs,
            },
            ToolAction::BashStdout { command, timeout_secs } => ActionView::BashStdout {
                command: command@,
                timeout_secs,
            },
            ToolAction::BashSeries { first, first_timeout_secs, command, timeout_secs } => {
                ActionView::BashSeries {
                    first: text::texts(first@),
                    first_timeout_secs,
                    command: command@,
                    timeout_secs,
                }
            },
            ToolAction::ReadFile { path } => ActionView::ReadFile { path: path@ },
            ToolAction::WriteFile { path, content } => ActionView::WriteFile {
                path: path@,
                content: content@,
            },
            ToolAction::AppendFile { path, content } => ActionView::AppendFile {
                path: path@,
                content: content@,
            },
            ToolAction::ListDir { path, depth } => ActionView::ListDir { path: path@, depth },
            ToolAction::FindReplace { path } => ActionView::FindReplace { path: path@ },
            ToolAction::ExtractLines { path } => ActionView::ExtractLines { path: path@ },
            ToolAction::CreateSession { name, cwd } => ActionView::CreateSession {
                name: name@,
                cwd: cwd@,
            },
            ToolAction::RunInSession { session, command, input, sentinel, moves } => {
                ActionView::RunInSession {
                    session: session@,
                    command: command@,
                    input: input@,
                    sentinel: sentinel@,
                    moves,
                }
            },
            ToolAction::DestroySession { name, reply } => ActionView::DestroySession {
                name: name@,
                reply: reply@,
            },
            ToolAction::Http { method, url, headers, body, timeout_secs } => ActionView::Http {
                method,
                url: url@,
                headers: pair_texts(headers@),
                body: text::opt_text(body),
                timeout_secs,
            },
            ToolAction::PortCheck { host, port, timeout_ms } => ActionView::PortCheck {
                host: host@,
                port,
                timeout_ms,
            },
            ToolAction::Breadcrumb(tool) => ActionView::Breadcrumb(tool),
            ToolAction::Loaf(tool) => ActionView::Loaf(tool),
        }
    }
}

/// An error as the answer.
pub open spec fn refused(message: Seq<char>) -> ActionView {
    ActionView::Reply(mcp::error_view(message))
}

/// An error as the answer.
pub fn refuse(message: &str) -> (r: ToolAction)
    ensures
        r@ == refused(message@),
{
    ToolAction::Reply(error_result(message))
}

/// A shell command in no particular directory.
pub open spec fn shell_view(command: Seq<char>, timeout_secs: u64) -> ActionView {
    ActionView::Bash { command, working_dir: None, timeout_secs }
}

/// A shell command in no particular directory.
pub fn shell(command: String, timeout_secs: u64) -> (r: ToolAction)
    ensures
        r@ == shell_view(command@, timeout_secs),
{
    ToolAction::Bash { command, working_dir: None, timeout_secs }
}

/// A refused call is answered with its reason, as an error; a command that is run as it is has no
/// directory of its own.
pub proof fn law_refused_calls_are_answered_with_the_reason(
    message: Seq<char>,
    command: Seq<char>,
    timeout_secs: u64,
)
    ensures
        refused(message) is Reply,
        refused(message)->Reply_0.is_error,
        refused(message)->Reply_0.text_content() == message,
        shell_view(command, timeout_secs) == (ActionView::Bash {
            command,
            working_dir: None,
            timeout_secs,
        }),
{
    mcp::law_text_content_of_one_text(message, true);
}

} // verus!
