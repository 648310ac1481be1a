//! The driver's own tools as a model is told of them.

use vstd::prelude::*;

use crate::json;
use crate::json::{Json, JsonView, Members};
use crate::mcp;
use crate::mcp::{McpTool, McpToolView};
use crate::text;

verus! {

/// A tool with a description.
pub open spec fn tool_view(name: Seq<char>, desc: Seq<char>, schema: JsonView) -> McpToolView {
    McpToolView { name, description: Some(desc), input_schema: schema }
}

/// A tool with a description.
pub fn tool(name: &str, desc: &str, schema: Json) -> (r: McpTool)
    ensures
        r@ == tool_view(name@, desc@, schema@),
{
    McpTool {
        name: text::copy(name),
        description: Some(text::copy(desc)),
        input_schema: schema,
    }
}

/// The schema of a value of a type.
pub open spec fn typed_view(kind: Seq<char>) -> JsonView {
    JsonView::Object(json::no_members().push(("type"@, JsonView::Str(kind))))
}

fn typed(kind: &str) -> (r: Json)
    ensures
        r@ == typed_view(kind@),
{
    Members::new().with("type", json::string(kind)).object()
}

/// The schema of a value of a type, with a description.
pub open spec fn described_view(kind: Seq<char>, desc: Seq<char>) -> JsonView {
    JsonView::Object(
        json::no_members().push(("type"@, JsonView::Str(kind))).push(
            ("description"@, JsonView::Str(desc)),
        ),
    )
}

fn described(kind: &str, desc: &str) -> (r: Json)
    ensures
        r@ == described_view(kind@, desc@),
{
    Members::new().with("type", json::string(kind)).with("description", json::string(desc)).object()
}

/// The schema of a list of strings.
pub open spec fn text_list_view() -> JsonView {
    JsonView::Object(
        json::no_members().push(("type"@, JsonView::Str("array"@))).push(
            ("items"@, typed_view("string"@)),
        ),
    )
}

fn text_list() -> (r: Json)
    ensures
        r@ == text_list_view(),
{
    Members::new().with("type", json::string("array")).with("items", typed("string")).object()
}

/// The schema of a list of strings, with a description.
pub open spec fn described_list_view(desc: Seq<char>) -> JsonView {
    JsonView::Object(
        json::no_members().push(("type"@, JsonView::Str("array"@))).push(
            ("items"@, typed_view("string"@)),
        ).push(("description"@, JsonView::Str(desc))),
    )
}

fn described_list(desc: &str) -> (r: Json)
    ensures
        r@ == described_list_view(desc@),
{
    Members::new().with("type", json::string("array")).with("items", typed("string")).with(
        "description",
        json::string(desc),
    ).object()
}

/// The schema of an object with any members that are strings.
pub open spec fn text_map_view() -> JsonView {
    JsonView::Object(
        json::no_members().push(("type"@, JsonView::Str("object"@))).push(
            ("additionalProperties"@, typed_view("string"@)),
        ),
    )
}

fn text_map() -> (r: Json)
    ensures
        r@ == text_map_view(),
{
    Members::new().with("type", json::string("object")).with(
        "additionalProperties",
        typed("string"),
    ).object()
}

/// The schema of an object, over texts: its members, and those that it must have.
pub struct SchemaView {
    pub props: Seq<(Seq<char>, JsonView)>,
    pub required: Seq<Seq<char>>,
}

impl SchemaView {
    /// The schema with no members.
    pub open spec fn empty() -> SchemaView {
        SchemaView { props: json::no_members(), required: Seq::empty() }
    }

    /// The schema with one member more.
    pub open spec fn prop(self, name: Seq<char>, value: JsonView) -> SchemaView {
        SchemaView { props: self.props.push((name, value)), ..self }
    }

    /// The schema with one more member that must be there.
    pub open spec fn need(self, name: Seq<char>) -> SchemaView {
        SchemaView { required: self.required.push(name), ..self }
    }

    /// The schema in JSON.
    pub open spec fn json(self) -> JsonView {
        let open = json::no_members().push(("type"@, JsonView::Str("object"@))).push(
            ("properties"@, JsonView::Object(self.props)),
        );
        if self.required.len() == 0 {
            JsonView::Object(open)
        } else {
            JsonView::Object(open.push(("required"@, json::str_array_view(self.required))))
        }
    }
}

/// The schema of an object.
struct Schema {
    props: Members,
    required: Vec<String>,
}

impl Schema {
    spec fn view(&self) -> SchemaView {
        SchemaView { props: self.props@, required: text::texts(self.required@) }
    }

    fn new() -> (r: Schema)
        ensures
            r@ == SchemaView::empty(),
    {
        let r = Schema { props: Members::new(), required: Vec::new() };
        proof {
            assert(text::texts(r.required@) =~= Seq::empty());
        }
        r
    }

    fn prop(self, name: &str, value: Json) -> (r: Schema)
        ensures
            r@ == self@.prop(name@, value@),
    {
        Schema { props: self.props.with(name, value), required: self.required }
    }

    fn need(self, name: &str) -> (r: Schema)
        ensures
            r@ == self@.need(name@),
    {
        let mut required = self.required;
        let name = text::copy(name);
        let ghost before = required@;
        required.push(name);
        proof {
            text::lemma_texts_push(before, name);
        }
        Schema { props: self.props, required }
    }

    fn json(self) -> (r: Json)
        ensures
            r@ == self@.json(),
    {
        let open = Members::new().with("type", json::string("object")).with(
            "properties",
            self.props.object(),
        );
        if self.required.len() == 0 {
            open.object()
        } else {
            open.with("required", json::string_array(&self.required)).object()
        }
    }
}

/// No tools.
pub open spec fn no_tools() -> Seq<McpToolView> {
    Seq::empty()
}

/// A list of tools in the making.
struct ToolList {
    tools: Vec<McpTool>,
}

impl ToolList {
    spec fn view(&self) -> Seq<McpToolView> {
        mcp::tool_views(self.tools@)
    }

    fn new() -> (r: ToolList)
        ensures
            r@ == no_tools(),
    {
        let r = ToolList { tools: Vec::new() };
        proof {
            assert(r@ =~= Seq::empty());
        }
        r
    }

    fn with(self, tool: McpTool) -> (r: ToolList)
        ensures
            r@ == self@.push(tool@),
    {
        let mut tools = self.tools;
        tools.push(tool);
        let r = ToolList { tools };
        proof {
            assert(r@ =~= self@.push(tool@));
        }
        r
    }
}

/// The tools on files and directories.
pub open spec fn filesystem_tool_views() -> Seq<McpToolView> {
    no_tools().push(
        tool_view(
            "read_file"@,
            "Read a file with optional line ranges, in-file search, and auto-truncation"@,
            SchemaView::empty()
                .prop("path"@, described_view("string"@, "File path to read"@))
                .prop("lines"@, described_view("string"@, "Line range e.g. '10-50'"@))
                .prop("search"@, described_view("string"@, "Search term to filter lines"@))
                .prop("max_kb"@, described_view("integer"@, "Max file size in KB (default 100)"@))
                .need("path"@)
                .json(),
        ),
    ).push(
        tool_view(
            "write_file"@,
            "Write content to a file (creates parent dirs)"@,
            SchemaView::empty()
                .prop("path"@, described_view("string"@, "File path"@))
                .prop("content"@, described_view("string"@, "Content to write"@))
                .need("path"@)
                .need("content"@)
                .json(),
        ),
    ).push(
        tool_view(
            "append_file"@,
            "Append content to a file"@,
            SchemaView::empty()
                .prop("path"@, described_view("string"@, "File path"@))
                .prop("content"@, described_view("string"@, "Content to append"@))
                .need("path"@)
                .need("content"@)
                .json(),
        ),
    ).push(
        tool_view(
            "list_dir"@,
            "List directory contents as a tree"@,
            SchemaView::empty()
                .prop("path"@, described_view("string"@, "Directory path (default '.')"@))
                .prop("depth"@, described_view("integer"@, "Max depth (default 2)"@))
                .need("path"@)
                .json(),
        ),
    ).push(
        tool_view(
            "archive_create"@,
            "Create a .tar.gz archive"@,
            SchemaView::empty()
                .prop("output"@, described_view("string"@, "Output archive path"@))
                .prop("paths"@, described_list_view("Paths to include"@))
                .need("output"@)
                .need("paths"@)
                .json(),
        ),
    ).push(
        tool_view(
            "archive_extract"@,
            "Extract a .tar.gz archive"@,
            SchemaView::empty()
                .prop("archive"@, described_view("string"@, "Archive path"@))
                .prop(
                    "destination"@,
                    described_view("string"@, "Extraction destination (default '.')"@),
                )
                .need("archive"@)
                .json(),
        ),
    )
}

/// The tools on files and directories.
pub fn filesystem_tools() -> (r: Vec<McpTool>)
    ensures
        mcp::tool_views(r@) == filesystem_tool_views(),
{
    ToolList::new().with(
        tool(
            "read_file",
            "Read a file with optional line ranges, in-file search, and auto-truncation",
            Schema::new()
                .prop("path", described("string", "File path to read"))
                .prop("lines", described("string", "Line range e.g. '10-50'"))
                .prop("search", described("string", "Search term to filter lines"))
                .prop("max_kb", described("integer", "Max file size in KB (default 100)"))
                .need("path")
                .json(),
        ),
    ).with(
        tool(
            "write_file",
            "Write content to a file (creates parent dirs)",
            Schema::new()
                .prop("path", described("string", "File path"))
                .prop("content", described("string", "Content to write"))
                .need("path")
                .need("content")
                .json(),
        ),
    ).with(
        tool(
            "append_file",
            "Append content to a file",
            Schema::new()
                .prop("path", described("string", "File path"))
                .prop("content", described("string", "Content to append"))
                .need("path")
                .need("content")
                .json(),
        ),
    ).with(
        tool(
            "list_dir",
            "List directory contents as a tree",
            Schema::new()
                .prop("path", described("string", "Directory path (default '.')"))
                .prop("depth", described("integer", "Max depth (default 2)"))
                .need("path")
                .json(),
        ),
    ).with(
        tool(
            "archive_create",
            "Create a .tar.gz archive",
            Schema::new()
                .prop("output", described("string", "Output archive path"))
                .prop("paths", described_list("Paths to include"))
                .need("output")
                .need("paths")
                .json(),
        ),
    ).with(
        tool(
            "archive_extract",
            "Extract a .tar.gz archive",
            Schema::new()
                .prop("archive", described("string", "Archive path"))
                .prop("destination", described("string", "Extraction destination (default '.')"))
                .need("archive")
                .json(),
        ),
    ).tools
}

/// The tools that run a command.
pub open spec fn shell_tool_views() -> Seq<McpToolView> {
    no_tools().push(
        tool_view(
            "bash"@,
            "Execute a bash command with three-tier safety: Tier-1 free, Tier-2 needs confirm:true, Tier-3 needs allow_destructive:true. Catastrophic patterns blocked unconditionally."@,
            SchemaView::empty()
                .prop("command"@, described_view("string"@, "Bash command to execute"@))
                .prop("working_dir"@, described_view("string"@, "Working directory"@))
                .prop(
                    "timeout_secs"@,
                    described_view("integer"@, "Timeout in seconds (default 120)"@),
                )
                .prop("confirm"@, described_view("boolean"@, "Confirm Tier-2 operations"@))
                .prop(
                    "allow_destructive"@,
                    described_view("boolean"@, "Allow Tier-3 destructive operations"@),
                )
                .need("command"@)
                .json(),
        ),
    ).push(
        tool_view(
            "run"@,
            "Simple bash command wrapper, stdout-only, no tier checks"@,
            SchemaView::empty()
                .prop("command"@, described_view("string"@, "Command to run"@))
                .need("command"@)
                .json(),
        ),
    )
}

/// The tools that run a command.
pub fn shell_tools() -> (r: Vec<McpTool>)
    ensures
        mcp::tool_views(r@) == shell_tool_views(),
{
    ToolList::new().with(
        tool(
            "bash",
            "Execute a bash command with three-tier safety: Tier-1 free, Tier-2 needs confirm:true, Tier-3 needs allow_destructive:true. Catastrophic patterns blocked unconditionally.",
            Schema::new()
                .prop("command", described("string", "Bash command to execute"))
                .prop("working_dir", described("string", "Working directory"))
                .prop("timeout_secs", described("integer", "Timeout in seconds (default 120)"))
                .prop("confirm", described("boolean", "Confirm Tier-2 operations"))
                .prop(
                    "allow_destructive",
                    described("boolean", "Allow Tier-3 destructive operations"),
                )
                .need("command")
                .json(),
        ),
    ).with(
        tool(
            "run",
            "Simple bash command wrapper, stdout-only, no tier checks",
            Schema::new()
                .prop("command", described("string", "Command to run"))
                .need("command")
                .json(),
        ),
    ).tools
}

/// The tools on shell sessions.
pub open spec fn session_tool_views() -> Seq<McpToolView> {
    no_tools().push(
        tool_view(
            "session_create"@,
            "Create a persistent bash session"@,
            SchemaView::empty()
                .prop("name"@, described_view("string"@, "Session name"@))
                .prop("cwd"@, described_view("string"@, "Working directory (default /root)"@))
                .json(),
        ),
    ).push(
        tool_view(
            "session_run"@,
            "Run a command in a persistent session"@,
            SchemaView::empty()
                .prop("session"@, described_view("string"@, "Session name"@))
                .prop("command"@, described_view("string"@, "Command to run"@))
                .prop("confirm"@, typed_view("boolean"@))
                .prop("allow_destructive"@, typed_view("boolean"@))
                .need("session"@)
                .need("command"@)
                .json(),
        ),
    ).push(
        tool_view(
            "session_destroy"@,
            "Destroy a persistent session"@,
            SchemaView::empty().prop("session"@, typed_view("string"@)).need("session"@).json(),
        ),
    ).push(
        tool_view(
            "session_cd"@,
            "Change directory in a session"@,
            SchemaView::empty()
                .prop("session"@, typed_view("string"@))
                .prop("path"@, typed_view("string"@))
                .need("session"@)
                .need("path"@)
                .json(),
        ),
    ).push(
        tool_view(
            "session_set_env"@,
            "Set environment variable in a session"@,
            SchemaView::empty()
                .prop("session"@, typed_view("string"@))
                .prop("key"@, typed_view("string"@))
                .prop("value"@, typed_view("string"@))
                .need("session"@)
                .need("key"@)
                .need("value"@)
                .json(),
        ),
    ).push(
        tool_view(
            "session_get_env"@,
            "Get environment variable(s) from a session"@,
            SchemaView::empty()
                .prop("session"@, typed_view("string"@))
                .prop("key"@, described_view("string"@, "Specific var (omit for all)"@))
                .need("session"@)
                .json(),
        ),
    ).push(
        tool_view("session_list"@, "List all active sessions"@, SchemaView::empty().json()),
    ).push(
        tool_view(
            "session_history"@,
            "Get command history for a session"@,
            SchemaView::empty()
                .prop("session"@, typed_view("string"@))
                .prop("limit"@, described_view("integer"@, "Max entries (default 20)"@))
                .need("session"@)
                .json(),
        ),
    )
}

/// The tools on shell sessions.
pub fn session_tools() -> (r: Vec<McpTool>)
    ensures
        mcp::tool_views(r@) == session_tool_views(),
{
    ToolList::new().with(
        tool(
            "session_create",
            "Create a persistent bash session",
            Schema::new()
                .prop("name", described("string", "Session name"))
                .prop("cwd", described("string", "Working directory (default /root)"))
                .json(),
        ),
    ).with(
        tool(
            "session_run",
            "Run a command in a persistent session",
            Schema::new()
                .prop("session", described("string", "Session name"))
                .prop("command", described("string", "Command to run"))
                .prop("confirm", typed("boolean"))
                .prop("allow_destructive", typed("boolean"))
                .need("session")
                .need("command")
                .json(),
        ),
    ).with(
        tool(
            "session_destroy",
            "Destroy a persistent session",
            Schema::new().prop("session", typed("string")).need("session").json(),
        ),
    ).with(
        tool(
            "session_cd",
            "Change directory in a session",
            Schema::new()
                .prop("session", typed("string"))
                .prop("path", typed("string"))
                .need("session")
                .need("path")
                .json(),
        ),
    ).with(
        tool(
            "session_set_env",
            "Set environment variable in a session",
            Schema::new()
                .prop("session", typed("string"))
                .prop("key", typed("string"))
                .prop("value", typed("string"))
                .need("session")
                .need("key")
                .need("value")
                .json(),
        ),
    ).with(
        tool(
            "session_get_env",
            "Get environment variable(s) from a session",
            Schema::new()
                .prop("session", typed("string"))
                .prop("key", described("string", "Specific var (omit for all)"))
                .need("session")
                .json(),
        ),
    ).with(
        tool("session_list", "List all active sessions", Schema::new().json()),
    ).with(
        tool(
            "session_history",
            "Get command history for a session",
            Schema::new()
                .prop("session", typed("string"))
                .prop("limit", described("integer", "Max entries (default 20)"))
                .need("session")
                .json(),
        ),
    ).tools
}

/// The tools that look at texts or change them.
pub open spec fn transform_tool_views() -> Seq<McpToolView> {
    no_tools().push(
        tool_view(
            "transform_grep"@,
            "Search file contents with regex"@,
            SchemaView::empty()
                .prop("path"@, typed_view("string"@))
                .prop("pattern"@, typed_view("string"@))
                .prop("context"@, described_view("integer"@, "Context lines around matches"@))
                .prop("recursive"@, typed_view("boolean"@))
                .need("path"@)
                .need("pattern"@)
                .json(),
        ),
    ).push(
        tool_view(
            "transform_find_replace"@,
            "Find and replace in a file"@,
            SchemaView::empty()
                .prop("path"@, typed_view("string"@))
                .prop("find"@, typed_view("string"@))
                .prop("replace"@, typed_view("string"@))
                .prop("regex"@, described_view("boolean"@, "Treat find as regex"@))
                .need("path"@)
                .need("find"@)
                .need("replace"@)
                .json(),
        ),
    ).push(
        tool_view(
            "transform_diff_files"@,
            "Diff two files"@,
            SchemaView::empty()
                .prop("file_a"@, typed_view("string"@))
                .prop("file_b"@, typed_view("string"@))
                .need("file_a"@)
                .need("file_b"@)
                .json(),
        ),
    ).push(
        tool_view(
            "transform_extract_lines"@,
            "Extract a range of lines from a file"@,
            SchemaView::empty()
                .prop("path"@, typed_view("string"@))
                .prop("start"@, typed_view("integer"@))
                .prop("end"@, typed_view("integer"@))
                .need("path"@)
                .need("start"@)
                .need("end"@)
                .json(),
        ),
    ).push(
        tool_view(
            "transform_json_format"@,
            "Pretty-print a JSON string"@,
            SchemaView::empty()
                .prop("json_string"@, typed_view("string"@))
                .need("json_string"@)
                .json(),
        ),
    ).push(
        tool_view(
            "transform_hash_file"@,
            "Compute hash of a file"@,
            SchemaView::empty()
                .prop("path"@, typed_view("string"@))
                .prop("algorithm"@, described_view("string"@, "sha256 (default), sha1, or md5"@))
                .need("path"@)
                .json(),
        ),
    ).push(
        tool_view(
            "transform_file_stats"@,
            "Get file/directory statistics"@,
            SchemaView::empty()
                .prop("path"@, typed_view("string"@))
                .prop("recursive"@, typed_view("boolean"@))
                .need("path"@)
                .json(),
        ),
    )
}

/// The tools that look at texts or change them.
pub fn transform_tools() -> (r: Vec<McpTool>)
    ensures
        mcp::tool_views(r@) == transform_tool_views(),
{
    ToolList::new().with(
        tool(
            "transform_grep",
            "Search file contents with regex",
            Schema::new()
                .prop("path", typed("string"))
                .prop("pattern", typed("string"))
                .prop("context", described("integer", "Context lines around matches"))
                .prop("recursive", typed("boolean"))
                .need("path")
                .need("pattern")
                .json(),
        ),
    ).with(
        tool(
            "transform_find_replace",
            "Find and replace in a file",
            Schema::new()
                .prop("path", typed("string"))
                .prop("find", typed("string"))
                .prop("replace", typed("string"))
                .prop("regex", described("boolean", "Treat find as regex"))
                .need("path")
                .need("find")
                .need("replace")
                .json(),
        ),
    ).with(
        tool(
            "transform_diff_files",
            "Diff two files",
            Schema::new()
                .prop("file_a", typed("string"))
                .prop("file_b", typed("string"))
                .need("file_a")
                .need("file_b")
                .json(),
        ),
    ).with(
        tool(
            "transform_extract_lines",
            "Extract a range of lines from a file",
            Schema::new()
                .prop("path", typed("string"))
                .prop("start", typed("integer"))
                .prop("end", typed("integer"))
                .need("path")
                .need("start")
                .need("end")
                .json(),
        ),
    ).with(
        tool(
            "transform_json_format",
            "Pretty-print a JSON string",
            Schema::new().prop("json_string", typed("string")).need("json_string").json(),
        ),
    ).with(
        tool(
            "transform_hash_file",
            "Compute hash of a file",
            Schema::new()
                .prop("path", typed("string"))
                .prop("algorithm", described("string", "sha256 (default), sha1, or md5"))
                .need("path")
                .json(),
        ),
    ).with(
        tool(
            "transform_file_stats",
            "Get file/directory statistics",
            Schema::new()
                .prop("path", typed("string"))
                .prop("recursive", typed("boolean"))
                .need("path")
                .json(),
        ),
    ).tools
}

/// The tools on repositories.
pub open spec fn git_tool_views() -> Seq<McpToolView> {
    no_tools().push(
        tool_view(
            "git_status"@,
            "Show git status"@,
            SchemaView::empty()
                .prop("repo_path"@, typed_view("string"@))
                .need("repo_path"@)
                .json(),
        ),
    ).push(
        tool_view(
            "git_diff"@,
            "Show git diff"@,
            SchemaView::empty()
                .prop("repo_path"@, typed_view("string"@))
                .prop("file"@, typed_view("string"@))
                .prop("staged"@, typed_view("boolean"@))
                .need("repo_path"@)
                .json(),
        ),
    ).push(
        tool_view(
            "git_commit"@,
            "Create a git commit"@,
            SchemaView::empty()
                .prop("repo_path"@, typed_view("string"@))
                .prop("message"@, typed_view("string"@))
                .prop("files"@, text_list_view())
                .prop("all"@, typed_view("boolean"@))
                .need("repo_path"@)
                .need("message"@)
                .json(),
        ),
    ).push(
        tool_view(
            "git_log"@,
            "Show git log"@,
            SchemaView::empty()
                .prop("repo_path"@, typed_view("string"@))
                .prop("limit"@, typed_view("integer"@))
                .prop("oneline"@, typed_view("boolean"@))
                .need("repo_path"@)
                .json(),
        ),
    ).push(
        tool_view(
            "git_stash"@,
            "Git stash operations"@,
            SchemaView::empty()
                .prop("repo_path"@, typed_view("string"@))
                .prop("action"@, described_view("string"@, "push, pop, list, drop"@))
                .prop("message"@, typed_view("string"@))
                .need("repo_path"@)
                .need("action"@)
                .json(),
        ),
    ).push(
        tool_view(
            "git_branch"@,
            "Git branch operations"@,
            SchemaView::empty()
                .prop("repo_path"@, typed_view("string"@))
                .prop("action"@, described_view("string"@, "list, create, delete"@))
                .prop("name"@, typed_view("string"@))
                .need("repo_path"@)
                .json(),
        ),
    ).push(
        tool_view(
            "git_checkout"@,
            "Git checkout"@,
            SchemaView::empty()
                .prop("repo_path"@, typed_view("string"@))
                .prop("target"@, typed_view("string"@))
                .prop("create"@, typed_view("boolean"@))
                .need("repo_path"@)
                .need("target"@)
                .json(),
        ),
    ).push(
        tool_view(
            "git_reset"@,
            "Git reset"@,
            SchemaView::empty()
                .prop("repo_path"@, typed_view("string"@))
                .prop("target"@, typed_view("string"@))
                .prop("mode"@, described_view("string"@, "soft, mixed, hard"@))
                .need("repo_path"@)
                .json(),
        ),
    )
}

/// The tools on repositories.
pub fn git_tools() -> (r: Vec<McpTool>)
    ensures
        mcp::tool_views(r@) == git_tool_views(),
{
    ToolList::new().with(
        tool(
            "git_status",
            "Show git status",
            Schema::new().prop("repo_path", typed("string")).need("repo_path").json(),
        ),
    ).with(
        tool(
            "git_diff",
            "Show git diff",
            Schema::new()
                .prop("repo_path", typed("string"))
                .prop("file", typed("string"))
                .prop("staged", typed("boolean"))
                .need("repo_path")
                .json(),
        ),
    ).with(
        tool(
            "git_commit",
            "Create a git commit",
            Schema::new()
                .prop("repo_path", typed("string"))
                .prop("message", typed("string"))
                .prop("files", text_list())
                .prop("all", typed("boolean"))
                .need("repo_path")
                .need("message")
                .json(),
        ),
    ).with(
        tool(
            "git_log",
            "Show git log",
            Schema::new()
                .prop("repo_path", typed("string"))
                .prop("limit", typed("integer"))
                .prop("oneline", typed("boolean"))
                .need("repo_path")
                .json(),
        ),
    ).with(
        tool(
            "git_stash",
            "Git stash operations",
            Schema::new()
                .prop("repo_path", typed("string"))
                .prop("action", described("string", "push, pop, list, drop"))
                .prop("message", typed("string"))
                .need("repo_path")
                .need("action")
                .json(),
        ),
    ).with(
        tool(
            "git_branch",
            "Git branch operations",
            Schema::new()
                .prop("repo_path", typed("string"))
                .prop("action", described("string", "list, create, delete"))
                .prop("name", typed("string"))
                .need("repo_path")
                .json(),
        ),
    ).with(
        tool(
            "git_checkout",
            "Git checkout",
            Schema::new()
                .prop("repo_path", typed("string"))
                .prop("target", typed("string"))
                .prop("create", typed("boolean"))
                .need("repo_path")
                .need("target")
                .json(),
        ),
    ).with(
        tool(
            "git_reset",
            "Git reset",
            Schema::new()
                .prop("repo_path", typed("string"))
                .prop("target", typed("string"))
                .prop("mode", described("string", "soft, mixed, hard"))
                .need("repo_path")
                .json(),
        ),
    ).tools
}

/// The tools on the network.
pub open spec fn http_tool_views() -> Seq<McpToolView> {
    no_tools().push(
        tool_view(
            "http_request"@,
            "Make an HTTP request"@,
            SchemaView::empty()
                .prop("url"@, typed_view("string"@))
                .prop(
                    "method"@,
                    described_view("string"@, "GET, POST, PUT, PATCH, DELETE, HEAD"@),
                )
                .prop("headers"@, text_map_view())
                .prop("body"@, typed_view("string"@))
                .prop("timeout_secs"@, typed_view("integer"@))
                .need("url"@)
                .json(),
        ),
    ).push(
        tool_view(
            "http_fetch"@,
            "Simple HTTP GET"@,
            SchemaView::empty().prop("url"@, typed_view("string"@)).need("url"@).json(),
        ),
    ).push(
        tool_view(
            "port_check"@,
            "Check if a port is open"@,
            SchemaView::empty()
                .prop("host"@, described_view("string"@, "Host (default 127.0.0.1)"@))
                .prop("port"@, typed_view("integer"@))
                .prop("timeout_ms"@, described_view("integer"@, "Timeout in ms (default 2000)"@))
                .need("port"@)
                .json(),
        ),
    )
}

/// The tools on the network.
pub fn http_tools() -> (r: Vec<McpTool>)
    ensures
        mcp::tool_views(r@) == http_tool_views(),
{
    ToolList::new().with(
        tool(
            "http_request",
            "Make an HTTP request",
            Schema::new()
                .prop("url", typed("string"))
                .prop("method", described("string", "GET, POST, PUT, PATCH, DELETE, HEAD"))
                .prop("headers", text_map())
                .prop("body", typed("string"))
                .prop("timeout_secs", typed("integer"))
                .need("url")
                .json(),
        ),
    ).with(
        tool(
            "http_fetch",
            "Simple HTTP GET",
            Schema::new().prop("url", typed("string")).need("url").json(),
        ),
    ).with(
        tool(
            "port_check",
            "Check if a port is open",
            Schema::new()
                .prop("host", described("string", "Host (default 127.0.0.1)"))
                .prop("port", typed("integer"))
                .prop("timeout_ms", described("integer", "Timeout in ms (default 2000)"))
                .need("port")
                .json(),
        ),
    ).tools
}

/// The tools on the machine.
pub open spec fn system_tool_views() -> Seq<McpToolView> {
    no_tools().push(
        tool_view(
            "system_info"@,
            "Get system information (OS, memory, disk, CPU, uptime)"@,
            SchemaView::empty().json(),
        ),
    ).push(
        tool_view(
            "kill_process"@,
            "Kill a process by PID"@,
            SchemaView::empty().prop("pid"@, typed_view("integer"@)).need("pid"@).json(),
        ),
    ).push(
        tool_view(
            "list_process"@,
            "List running processes"@,
            SchemaView::empty()
                .prop("filter"@, described_view("string"@, "Filter by name"@))
                .json(),
        ),
    )
}

/// The tools on the machine.
pub fn system_tools() -> (r: Vec<McpTool>)
    ensures
        mcp::tool_views(r@) == system_tool_views(),
{
    ToolList::new().with(
        tool(
            "system_info",
            "Get system information (OS, memory, disk, CPU, uptime)",
            Schema::new().json(),
        ),
    ).with(
        tool(
            "kill_process",
            "Kill a process by PID",
            Schema::new().prop("pid", typed("integer")).need("pid").json(),
        ),
    ).with(
        tool(
            "list_process",
            "List running processes",
            Schema::new().prop("filter", described("string", "Filter by name")).json(),
        ),
    ).tools
}

/// The tools that track an operation.
pub open spec fn breadcrumb_tool_views() -> Seq<McpToolView> {
    no_tools().push(
        tool_view(
            "breadcrumb_start"@,
            "Start a tracked multi-step operation"@,
            SchemaView::empty()
                .prop("name"@, described_view("string"@, "Operation name"@))
                .prop("steps"@, described_list_view("Planned step names"@))
                .prop("project_id"@, described_view("string"@, "Optional project grouping"@))
                .need("name"@)
                .need("steps"@)
                .json(),
        ),
    ).push(
        tool_view(
            "breadcrumb_step"@,
            "Log progress on current step"@,
            SchemaView::empty()
                .prop("result"@, described_view("string"@, "Step result/summary"@))
                .prop("files_changed"@, text_list_view())
                .prop("breadcrumb_id"@, typed_view("string"@))
                .need("result"@)
                .json(),
        ),
    ).push(
        tool_view(
            "breadcrumb_complete"@,
            "Complete a breadcrumb operation"@,
            SchemaView::empty()
                .prop("summary"@, typed_view("string"@))
                .prop("breadcrumb_id"@, typed_view("string"@))
                .json(),
        ),
    ).push(
        tool_view(
            "breadcrumb_abort"@,
            "Abort a breadcrumb operation"@,
            SchemaView::empty()
                .prop("reason"@, typed_view("string"@))
                .prop("breadcrumb_id"@, typed_view("string"@))
                .need("reason"@)
                .json(),
        ),
    ).push(
        tool_view("breadcrumb_status"@, "Get breadcrumb status"@, SchemaView::empty().json()),
    ).push(
        tool_view(
            "breadcrumb_list"@,
            "List breadcrumbs"@,
            SchemaView::empty()
                .prop(
                    "scope"@,
                    described_view("string"@, "active, today, week, all (default active)"@),
                )
                .json(),
        ),
    ).push(
        tool_view(
            "breadcrumb_adopt"@,
            "Adopt/reassign a breadcrumb"@,
            SchemaView::empty()
                .prop("breadcrumb_id"@, typed_view("string"@))
                .need("breadcrumb_id"@)
                .json(),
        ),
    )
}

/// The tools that track an operation.
pub fn breadcrumb_tools() -> (r: Vec<McpTool>)
    ensures
        mcp::tool_views(r@) == breadcrumb_tool_views(),
{
    ToolList::new().with(
        tool(
            "breadcrumb_start",
            "Start a tracked multi-step operation",
            Schema::new()
                .prop("name", described("string", "Operation name"))
                .prop("steps", described_list("Planned step names"))
                .prop("project_id", described("string", "Optional project grouping"))
                .need("name")
                .need("steps")
                .json(),
        ),
    ).with(
        tool(
            "breadcrumb_step",
            "Log progress on current step",
            Schema::new()
                .prop("result", described("string", "Step result/summary"))
                .prop("files_changed", text_list())
                .prop("breadcrumb_id", typed("string"))
                .need("result")
                .json(),
        ),
    ).with(
        tool(
            "breadcrumb_complete",
            "Complete a breadcrumb operation",
            Schema::new()
                .prop("summary", typed("string"))
                .prop("breadcrumb_id", typed("string"))
                .json(),
        ),
    ).with(
        tool(
            "breadcrumb_abort",
            "Abort a breadcrumb operation",
            Schema::new()
                .prop("reason", typed("string"))
                .prop("breadcrumb_id", typed("string"))
                .need("reason")
                .json(),
        ),
    ).with(
        tool("breadcrumb_status", "Get breadcrumb status", Schema::new().json()),
    ).with(
        tool(
            "breadcrumb_list",
            "List breadcrumbs",
            Schema::new()
                .prop("scope", described("string", "active, today, week, all (default active)"))
                .json(),
        ),
    ).with(
        tool(
            "breadcrumb_adopt",
            "Adopt/reassign a breadcrumb",
            Schema::new().prop("breadcrumb_id", typed("string")).need("breadcrumb_id").json(),
        ),
    ).tools
}

/// The tools that track a project.
pub open spec fn loaf_tool_views() -> Seq<McpToolView> {
    no_tools().push(
        tool_view(
            "loaf_create"@,
            "Create a new project loaf for multi-task tracking"@,
            SchemaView::empty()
                .prop("project_name"@, typed_view("string"@))
                .prop("goal"@, typed_view("string"@))
                .prop("phases"@, text_list_view())
                .need("project_name"@)
                .need("goal"@)
                .json(),
        ),
    ).push(
        tool_view(
            "loaf_update"@,
            "Update a loaf with task progress, decisions, or discoveries"@,
            SchemaView::empty()
                .prop("loaf_id"@, typed_view("string"@))
                .prop(
                    "task_update"@,
                    SchemaView::empty()
                        .prop("task_id"@, typed_view("string"@))
                        .prop("status"@, typed_view("string"@))
                        .prop("output_summary"@, typed_view("string"@))
                        .prop("files_changed"@, text_list_view())
                        .prop("decisions_made"@, text_list_view())
                        .prop("discoveries"@, text_list_view())
                        .json(),
                )
                .prop(
                    "decision"@,
                    SchemaView::empty()
                        .prop("what"@, typed_view("string"@))
                        .prop("why"@, typed_view("string"@))
                        .prop("who"@, typed_view("string"@))
                        .json(),
                )
                .prop(
                    "discovery"@,
                    SchemaView::empty()
                        .prop("what"@, typed_view("string"@))
                        .prop("impact"@, typed_view("string"@))
                        .json(),
                )
                .prop("next_actions"@, text_list_view())
                .prop("phase_status"@, typed_view("string"@))
                .need("loaf_id"@)
                .json(),
        ),
    ).push(
        tool_view(
            "loaf_status"@,
            "Get loaf status"@,
            SchemaView::empty().prop("loaf_id"@, typed_view("string"@)).json(),
        ),
    ).push(
        tool_view(
            "loaf_close"@,
            "Close/archive a loaf"@,
            SchemaView::empty().prop("loaf_id"@, typed_view("string"@)).need("loaf_id"@).json(),
        ),
    )
}

/// The tools that track a project.
pub fn loaf_tools() -> (r: Vec<McpTool>)
    ensures
        mcp::tool_views(r@) == loaf_tool_views(),
{
    ToolList::new().with(
        tool(
            "loaf_create",
            "Create a new project loaf for multi-task tracking",
            Schema::new()
                .prop("project_name", typed("string"))
                .prop("goal", typed("string"))
                .prop("phases", text_list())
                .need("project_name")
                .need("goal")
                .json(),
        ),
    ).with(
        tool(
            "loaf_update",
            "Update a loaf with task progress, decisions, or discoveries",
            Schema::new()
                .prop("loaf_id", typed("string"))
                .prop(
                    "task_update",
                    Schema::new()
                        .prop("task_id", typed("string"))
                        .prop("status", typed("string"))
                        .prop("output_summary", typed("string"))
                        .prop("files_changed", text_list())
                        .prop("decisions_made", text_list())
                        .prop("discoveries", text_list())
                        .json(),
                )
                .prop(
                    "decision",
                    Schema::new()
                        .prop("what", typed("string"))
                        .prop("why", typed("string"))
                        .prop("who", typed("string"))
                        .json(),
                )
                .prop(
                    "discovery",
                    Schema::new()
                        .prop("what", typed("string"))
                        .prop("impact", typed("string"))
                        .json(),
                )
                .prop("next_actions", text_list())
                .prop("phase_status", typed("string"))
                .need("loaf_id")
                .json(),
        ),
    ).with(
        tool(
            "loaf_status",
            "Get loaf status",
            Schema::new().prop("loaf_id", typed("string")).json(),
        ),
    ).with(
        tool(
            "loaf_close",
            "Close/archive a loaf",
            Schema::new().prop("loaf_id", typed("string")).need("loaf_id").json(),
        ),
    ).tools
}

/// All of the driver's own tools.
pub open spec fn all_tool_views() -> Seq<McpToolView> {
    filesystem_tool_views() + shell_tool_views() + session_tool_views() + transform_tool_views()
        + git_tool_views() + http_tool_views() + system_tool_views() + breadcrumb_tool_views()
        + loaf_tool_views()
}

/// All of the driver's own tools.
pub fn all_tools() -> (r: Vec<McpTool>)
    ensures
        mcp::tool_views(r@) == all_tool_views(),
{
    let mut tools = filesystem_tools();
    append(&mut tools, shell_tools());
    append(&mut tools, session_tools());
    append(&mut tools, transform_tools());
    append(&mut tools, git_tools());
    append(&mut tools, http_tools());
    append(&mut tools, system_tools());
    append(&mut tools, breadcrumb_tools());
    append(&mut tools, loaf_tools());
    tools
}

/// Puts tools behind others.
fn append(tools: &mut Vec<McpTool>, more: Vec<McpTool>)
    ensures
        mcp::tool_views(final(tools)@) == mcp::tool_views(old(tools)@) + mcp::tool_views(more@),
{
    let ghost given = more@;
    let mut more = more;
    tools.append(&mut more);
    proof {
        assert(mcp::tool_views(tools@) =~= mcp::tool_views(old(tools)@) + mcp::tool_views(given));
    }
}

/// What a tool takes, over names: each argument with the name of its type.
pub open spec fn takes(
    tool: McpToolView,
    name: Seq<char>,
    kinds: Seq<(Seq<char>, Seq<char>)>,
    required: Seq<Seq<char>>,
) -> bool {
    let members = tool.input_schema.get("properties"@)->0->Object_0;
    &&& tool.name == name
    &&& tool.description is Some
    &&& tool.input_schema.get("type"@) == Some(JsonView::Str("object"@))
    &&& tool.input_schema.get("properties"@) is Some
    &&& tool.input_schema.get("properties"@)->0 is Object
    &&& members.len() == kinds.len()
    &&& forall|k: int|
        0 <= k < kinds.len() ==> (#[trigger] members[k]).0 == kinds[k].0 && members[k].1.get(
            "type"@,
        ) == Some(JsonView::Str(kinds[k].1))
    &&& required.len() == 0 ==> tool.input_schema.get("required"@) is None
    &&& required.len() > 0 ==> tool.input_schema.get("required"@) == Some(
        JsonView::Array(Seq::new(required.len(), |i: int| JsonView::Str(required[i]))),
    )
}

/// No arguments.
pub open spec fn nothing() -> Seq<(Seq<char>, Seq<char>)> {
    Seq::empty()
}

/// No names.
pub open spec fn no_names() -> Seq<Seq<char>> {
    Seq::empty()
}

spec fn declares(
    s: SchemaView,
    kinds: Seq<(Seq<char>, Seq<char>)>,
    required: Seq<Seq<char>>,
) -> bool {
    &&& s.props.len() == kinds.len()
    &&& forall|k: int|
        0 <= k < kinds.len() ==> (#[trigger] s.props[k]).0 == kinds[k].0 && s.props[k].1.get(
            "type"@,
        ) == Some(JsonView::Str(kinds[k].1))
    &&& s.required == required
}

proof fn lemma_words()
    ensures
        text::shape("type"@) == 101112101112116004,
        text::shape("properties"@) == 105114115114112010,
        text::shape("required"@) == 101105100105114008,
        text::shape("description"@) == 105105110112100011,
        text::shape("items"@) == 109101115101105005,
        text::shape("additionalProperties"@) == 114080115114097020,
{
    reveal_strlit("type");
    assert(text::shape("type"@) == 101112101112116004);
    reveal_strlit("properties");
    assert(text::shape("properties"@) == 105114115114112010);
    reveal_strlit("required");
    assert(text::shape("required"@) == 101105100105114008);
    reveal_strlit("description");
    assert(text::shape("description"@) == 105105110112100011);
    reveal_strlit("items");
    assert(text::shape("items"@) == 109101115101105005);
    reveal_strlit("additionalProperties");
    assert(text::shape("additionalProperties"@) == 114080115114097020);
}

broadcast proof fn lemma_declares_empty()
    ensures
        #[trigger] declares(SchemaView::empty(), nothing(), no_names()),
{
}

broadcast proof fn lemma_declares_prop(
    s: SchemaView,
    kinds: Seq<(Seq<char>, Seq<char>)>,
    required: Seq<Seq<char>>,
    name: Seq<char>,
    value: JsonView,
    kind: Seq<char>,
)
    requires
        declares(s, kinds, required),
        value.get("type"@) == Some(JsonView::Str(kind)),
    ensures
        #[trigger] declares(s.prop(name, value), kinds.push((name, kind)), required),
{
    let t = s.prop(name, value);
    let more = kinds.push((name, kind));
    assert forall|k: int| 0 <= k < more.len() implies (#[trigger] t.props[k]).0 == more[k].0
        && t.props[k].1.get("type"@) == Some(JsonView::Str(more[k].1)) by {
        if k < kinds.len() {
            assert(t.props[k] == s.props[k]);
        }
    }
}

broadcast proof fn lemma_declares_need(
    s: SchemaView,
    kinds: Seq<(Seq<char>, Seq<char>)>,
    required: Seq<Seq<char>>,
    name: Seq<char>,
)
    requires
        declares(s, kinds, required),
    ensures
        #[trigger] declares(s.need(name), kinds, required.push(name)),
{
    assert forall|k: int| 0 <= k < kinds.len() implies (#[trigger] s.need(name).props[k]).0
        == kinds[k].0 && s.need(name).props[k].1.get("type"@) == Some(
        JsonView::Str(kinds[k].1),
    ) by {
        assert(s.props[k] == s.need(name).props[k]);
    }
}

broadcast proof fn lemma_takes(
    s: SchemaView,
    name: Seq<char>,
    desc: Seq<char>,
    kinds: Seq<(Seq<char>, Seq<char>)>,
    required: Seq<Seq<char>>,
)
    requires
        declares(s, kinds, required),
    ensures
        #[trigger] takes(tool_view(name, desc, s.json()), name, kinds, required),
{
    broadcast use json::lemma_member_push;

    lemma_words();
    assert(json::str_array_view(required)->Array_0 =~= Seq::new(
        required.len(),
        |i: int| JsonView::Str(required[i]),
    ));
}

broadcast proof fn lemma_typed(kind: Seq<char>)
    ensures
        (#[trigger] typed_view(kind)).get("type"@) == Some(JsonView::Str(kind)),
{
    broadcast use json::lemma_member_push;

    lemma_words();
}

broadcast proof fn lemma_described(kind: Seq<char>, desc: Seq<char>)
    ensures
        (#[trigger] described_view(kind, desc)).get("type"@) == Some(JsonView::Str(kind)),
{
    broadcast use json::lemma_member_push;

    lemma_words();
}

broadcast proof fn lemma_described_list(desc: Seq<char>)
    ensures
        (#[trigger] described_list_view(desc)).get("type"@) == Some(JsonView::Str("array"@)),
{
    broadcast use json::lemma_member_push;

    lemma_words();
}

broadcast proof fn lemma_inner(s: SchemaView)
    ensures
        (#[trigger] s.json()).get("type"@) == Some(JsonView::Str("object"@)),
{
    broadcast use json::lemma_member_push;

    lemma_words();
}

proof fn lemma_plain_views()
    ensures
        text_list_view().get("type"@) == Some(JsonView::Str("array"@)),
        text_map_view().get("type"@) == Some(JsonView::Str("object"@)),
{
    broadcast use json::lemma_member_push;

    lemma_words();
}

broadcast group group_declares {
    lemma_declares_empty,
    lemma_declares_prop,
    lemma_declares_need,
    lemma_takes,
    lemma_typed,
    lemma_described,
    lemma_described_list,
    lemma_inner,
}

/// What each of the tools on files and directories takes, and what it must be given.
pub proof fn law_filesystem_tools_take_their_arguments()
    ensures
        filesystem_tool_views().len() == 6,
        takes(
            filesystem_tool_views()[0],
            "read_file"@,
            nothing().push(("path"@, "string"@)).push(("lines"@, "string"@))
                .push(("search"@, "string"@)).push(("max_kb"@, "integer"@)),
            no_names().push("path"@),
        ),
        takes(
            filesystem_tool_views()[1],
            "write_file"@,
            nothing().push(("path"@, "string"@)).push(("content"@, "string"@)),
            no_names().push("path"@).push("content"@),
        ),
        takes(
            filesystem_tool_views()[2],
            "append_file"@,
            nothing().push(("path"@, "string"@)).push(("content"@, "string"@)),
            no_names().push("path"@).push("content"@),
        ),
        takes(
            filesystem_tool_views()[3],
            "list_dir"@,
            nothing().push(("path"@, "string"@)).push(("depth"@, "integer"@)),
            no_names().push("path"@),
        ),
        takes(
            filesystem_tool_views()[4],
            "archive_create"@,
            nothing().push(("output"@, "string"@)).push(("paths"@, "array"@)),
            no_names().push("output"@).push("paths"@),
        ),
        takes(
            filesystem_tool_views()[5],
            "archive_extract"@,
            nothing().push(("archive"@, "string"@)).push(("destination"@, "string"@)),
            no_names().push("archive"@),
        ),
{
    broadcast use group_declares;

    lemma_plain_views();
    let tools = filesystem_tool_views();
}

/// What each of the tools on commands takes, and what it must be given.
pub proof fn law_shell_tools_take_their_arguments()
    ensures
        shell_tool_views().len() == 2,
        takes(
            shell_tool_views()[0],
            "bash"@,
            nothing().push(("command"@, "string"@)).push(("working_dir"@, "string"@))
                .push(("timeout_secs"@, "integer"@)).push(("confirm"@, "boolean"@))
                .push(("allow_destructive"@, "boolean"@)),
            no_names().push("command"@),
        ),
        takes(
            shell_tool_views()[1],
            "run"@,
            nothing().push(("command"@, "string"@)),
            no_names().push("command"@),
        ),
{
    broadcast use group_declares;

    lemma_plain_views();
    let tools = shell_tool_views();
}

/// What each of the tools on sessions takes, and what it must be given.
pub proof fn law_session_tools_take_their_arguments()
    ensures
        session_tool_views().len() == 8,
        takes(
            session_tool_views()[0],
            "session_create"@,
            nothing().push(("name"@, "string"@)).push(("cwd"@, "string"@)),
            no_names(),
        ),
        takes(
            session_tool_views()[1],
            "session_run"@,
            nothing().push(("session"@, "string"@)).push(("command"@, "string"@))
                .push(("confirm"@, "boolean"@)).push(("allow_destructive"@, "boolean"@)),
            no_names().push("session"@).push("command"@),
        ),
        takes(
            session_tool_views()[2],
            "session_destroy"@,
            nothing().push(("session"@, "string"@)),
            no_names().push("session"@),
        ),
        takes(
            session_tool_views()[3],
            "session_cd"@,
            nothing().push(("session"@, "string"@)).push(("path"@, "string"@)),
            no_names().push("session"@).push("path"@),
        ),
        takes(
            session_tool_views()[4],
            "session_set_env"@,
            nothing().push(("session"@, "string"@)).push(("key"@, "string"@))
                .push(("value"@, "string"@)),
            no_names().push("session"@).push("key"@).push("value"@),
        ),
        takes(
            session_tool_views()[5],
            "session_get_env"@,
            nothing().push(("session"@, "string"@)).push(("key"@, "string"@)),
            no_names().push("session"@),
        ),
        takes(
            session_tool_views()[6],
            "session_list"@,
            nothing(),
            no_names(),
        ),
        takes(
            session_tool_views()[7],
            "session_history"@,
            nothing().push(("session"@, "string"@)).push(("limit"@, "integer"@)),
            no_names().push("session"@),
        ),
{
    broadcast use group_declares;

    lemma_plain_views();
    let tools = session_tool_views();
}

/// What each of the tools on texts takes, and what it must be given.
pub proof fn law_transform_tools_take_their_arguments()
    ensures
        transform_tool_views().len() == 7,
        takes(
            transform_tool_views()[0],
            "transform_grep"@,
            nothing().push(("path"@, "string"@)).push(("pattern"@, "string"@))
                .push(("context"@, "integer"@)).push(("recursive"@, "boolean"@)),
            no_names().push("path"@).push("pattern"@),
        ),
        takes(
            transform_tool_views()[1],
            "transform_find_replace"@,
            nothing().push(("path"@, "string"@)).push(("find"@, "string"@))
                .push(("replace"@, "string"@)).push(("regex"@, "boolean"@)),
            no_names().push("path"@).push("find"@).push("replace"@),
        ),
        takes(
            transform_tool_views()[2],
            "transform_diff_files"@,
            nothing().push(("file_a"@, "string"@)).push(("file_b"@, "string"@)),
            no_names().push("file_a"@).push("file_b"@),
        ),
        takes(
            transform_tool_views()[3],
            "transform_extract_lines"@,
            nothing().push(("path"@, "string"@)).push(("start"@, "integer"@))
                .push(("end"@, "integer"@)),
            no_names().push("path"@).push("start"@).push("end"@),
        ),
        takes(
            transform_tool_views()[4],
            "transform_json_format"@,
            nothing().push(("json_string"@, "string"@)),
            no_names().push("json_string"@),
        ),
        takes(
            transform_tool_views()[5],
            "transform_hash_file"@,
            nothing().push(("path"@, "string"@)).push(("algorithm"@, "string"@)),
            no_names().push("path"@),
        ),
        takes(
            transform_tool_views()[6],
            "transform_file_stats"@,
            nothing().push(("path"@, "string"@)).push(("recursive"@, "boolean"@)),
            no_names().push("path"@),
        ),
{
    broadcast use group_declares;

    lemma_plain_views();
    let tools = transform_tool_views();
}

/// What each of the tools on a repository takes, and what it must be given.
pub proof fn law_git_tools_take_their_arguments()
    ensures
        git_tool_views().len() == 8,
        takes(
            git_tool_views()[0],
            "git_status"@,
            nothing().push(("repo_path"@, "string"@)),
            no_names().push("repo_path"@),
        ),
        takes(
            git_tool_views()[1],
            "git_diff"@,
            nothing().push(("repo_path"@, "string"@)).push(("file"@, "string"@))
                .push(("staged"@, "boolean"@)),
            no_names().push("repo_path"@),
        ),
        takes(
            git_tool_views()[2],
            "git_commit"@,
            nothing().push(("repo_path"@, "string"@)).push(("message"@, "string"@))
                .push(("files"@, "array"@)).push(("all"@, "boolean"@)),
            no_names().push("repo_path"@).push("message"@),
        ),
        takes(
            git_tool_views()[3],
            "git_log"@,
            nothing().push(("repo_path"@, "string"@)).push(("limit"@, "integer"@))
                .push(("oneline"@, "boolean"@)),
            no_names().push("repo_path"@),
        ),
        takes(
            git_tool_views()[4],
            "git_stash"@,
            nothing().push(("repo_path"@, "string"@)).push(("action"@, "string"@))
                .push(("message"@, "string"@)),
            no_names().push("repo_path"@).push("action"@),
        ),
        takes(
            git_tool_views()[5],
            "git_branch"@,
            nothing().push(("repo_path"@, "string"@)).push(("action"@, "string"@))
                .push(("name"@, "string"@)),
            no_names().push("repo_path"@),
        ),
        takes(
            git_tool_views()[6],
            "git_checkout"@,
            nothing().push(("repo_path"@, "string"@)).push(("target"@, "string"@))
                .push(("create"@, "boolean"@)),
            no_names().push("repo_path"@).push("target"@),
        ),
        takes(
            git_tool_views()[7],
            "git_reset"@,
            nothing().push(("repo_path"@, "string"@)).push(("target"@, "string"@))
                .push(("mode"@, "string"@)),
            no_names().push("repo_path"@),
        ),
{
    broadcast use group_declares;

    lemma_plain_views();
    let tools = git_tool_views();
}

/// What each of the tools on the network takes, and what it must be given.
pub proof fn law_http_tools_take_their_arguments()
    ensures
        http_tool_views().len() == 3,
        takes(
            http_tool_views()[0],
            "http_request"@,
            nothing().push(("url"@, "string"@)).push(("method"@, "string"@))
                .push(("headers"@, "object"@)).push(("body"@, "string"@))
                .push(("timeout_secs"@, "integer"@)),
            no_names().push("url"@),
        ),
        takes(
            http_tool_views()[1],
            "http_fetch"@,
            nothing().push(("url"@, "string"@)),
            no_names().push("url"@),
        ),
        takes(
            http_tool_views()[2],
            "port_check"@,
            nothing().push(("host"@, "string"@)).push(("port"@, "integer"@))
                .push(("timeout_ms"@, "integer"@)),
            no_names().push("port"@),
        ),
{
    broadcast use group_declares;

    lemma_plain_views();
    let tools = http_tool_views();
}

/// What each of the tools on the machine takes, and what it must be given.
pub proof fn law_system_tools_take_their_arguments()
    ensures
        system_tool_views().len() == 3,
        takes(
            system_tool_views()[0],
            "system_info"@,
            nothing(),
            no_names(),
        ),
        takes(
            system_tool_views()[1],
            "kill_process"@,
            nothing().push(("pid"@, "integer"@)),
            no_names().push("pid"@),
        ),
        takes(
            system_tool_views()[2],
            "list_process"@,
            nothing().push(("filter"@, "string"@)),
            no_names(),
        ),
{
    broadcast use group_declares;

    lemma_plain_views();
    let tools = system_tool_views();
}

/// What each of the tools on operations takes, and what it must be given.
pub proof fn law_breadcrumb_tools_take_their_arguments()
    ensures
        breadcrumb_tool_views().len() == 7,
        takes(
            breadcrumb_tool_views()[0],
            "breadcrumb_start"@,
            nothing().push(("name"@, "string"@)).push(("steps"@, "array"@))
                .push(("project_id"@, "string"@)),
            no_names().push("name"@).push("steps"@),
        ),
        takes(
            breadcrumb_tool_views()[1],
            "breadcrumb_step"@,
            nothing().push(("result"@, "string"@)).push(("files_changed"@, "array"@))
                .push(("breadcrumb_id"@, "string"@)),
            no_names().push("result"@),
        ),
        takes(
            breadcrumb_tool_views()[2],
            "breadcrumb_complete"@,
            nothing().push(("summary"@, "string"@)).push(("breadcrumb_id"@, "string"@)),
            no_names(),
        ),
        takes(
            breadcrumb_tool_views()[3],
            "breadcrumb_abort"@,
            nothing().push(("reason"@, "string"@)).push(("breadcrumb_id"@, "string"@)),
            no_names().push("reason"@),
        ),
        takes(
            breadcrumb_tool_views()[4],
            "breadcrumb_status"@,
            nothing(),
            no_names(),
        ),
        takes(
            breadcrumb_tool_views()[5],
            "breadcrumb_list"@,
            nothing().push(("scope"@, "string"@)),
            no_names(),
        ),
        takes(
            breadcrumb_tool_views()[6],
            "breadcrumb_adopt"@,
            nothing().push(("breadcrumb_id"@, "string"@)),
            no_names().push("breadcrumb_id"@),
        ),
{
    broadcast use group_declares;

    lemma_plain_views();
    let tools = breadcrumb_tool_views();
}

/// What each of the tools on projects takes, and what it must be given.
pub proof fn law_loaf_tools_take_their_arguments()
    ensures
        loaf_tool_views().len() == 4,
        takes(
            loaf_tool_views()[0],
            "loaf_create"@,
            nothing().push(("project_name"@, "string"@)).push(("goal"@, "string"@))
                .push(("phases"@, "array"@)),
            no_names().push("project_name"@).push("goal"@),
        ),
        takes(
            loaf_tool_views()[1],
            "loaf_update"@,
            nothing().push(("loaf_id"@, "string"@)).push(("task_update"@, "object"@))
                .push(("decision"@, "object"@)).push(("discovery"@, "object"@))
                .push(("next_actions"@, "array"@)).push(("phase_status"@, "string"@)),
            no_names().push("loaf_id"@),
        ),
        takes(
            loaf_tool_views()[2],
            "loaf_status"@,
            nothing().push(("loaf_id"@, "string"@)),
            no_names(),
        ),
        takes(
            loaf_tool_views()[3],
            "loaf_close"@,
            nothing().push(("loaf_id"@, "string"@)),
            no_names().push("loaf_id"@),
        ),
{
    broadcast use group_declares;

    lemma_plain_views();
    let tools = loaf_tool_views();
}

/// All tools are those of all groups, one group behind the other.
pub proof fn law_all_tools_are_those_of_the_groups()
    ensures
        all_tool_views().len() == 48,
        forall|i: int|
            0 <= i < filesystem_tool_views().len() ==> all_tool_views().contains(
                #[trigger] filesystem_tool_views()[i],
            ),
        forall|i: int|
            0 <= i < shell_tool_views().len() ==> all_tool_views().contains(
                #[trigger] shell_tool_views()[i],
            ),
        forall|i: int|
            0 <= i < session_tool_views().len() ==> all_tool_views().contains(
                #[trigger] session_tool_views()[i],
            ),
        forall|i: int|
            0 <= i < transform_tool_views().len() ==> all_tool_views().contains(
                #[trigger] transform_tool_views()[i],
            ),
        forall|i: int|
            0 <= i < git_tool_views().len() ==> all_tool_views().contains(
                #[trigger] git_tool_views()[i],
            ),
        forall|i: int|
            0 <= i < http_tool_views().len() ==> all_tool_views().contains(
                #[trigger] http_tool_views()[i],
            ),
        forall|i: int|
            0 <= i < system_tool_views().len() ==> all_tool_views().contains(
                #[trigger] system_tool_views()[i],
            ),
        forall|i: int|
            0 <= i < breadcrumb_tool_views().len() ==> all_tool_views().contains(
                #[trigger] breadcrumb_tool_views()[i],
            ),
        forall|i: int|
            0 <= i < loaf_tool_views().len() ==> all_tool_views().contains(
                #[trigger] loaf_tool_views()[i],
            ),
{
    assert(filesystem_tool_views().len() == 6);
    assert(shell_tool_views().len() == 2);
    assert(session_tool_views().len() == 8);
    assert(transform_tool_views().len() == 7);
    assert(git_tool_views().len() == 8);
    assert(http_tool_views().len() == 3);
    assert(system_tool_views().len() == 3);
    assert(breadcrumb_tool_views().len() == 7);
    assert(loaf_tool_views().len() == 4);
    let all = all_tool_views();
    assert forall|i: int| 0 <= i < filesystem_tool_views().len() implies all.contains(
        #[trigger] filesystem_tool_views()[i],
    ) by {
        assert(all[0 + i] == filesystem_tool_views()[i]);
    }
    assert forall|i: int| 0 <= i < shell_tool_views().len() implies all.contains(
        #[trigger] shell_tool_views()[i],
    ) by {
        assert(all[6 + i] == shell_tool_views()[i]);
    }
    assert forall|i: int| 0 <= i < session_tool_views().len() implies all.contains(
        #[trigger] session_tool_views()[i],
    ) by {
        assert(all[8 + i] == session_tool_views()[i]);
    }
    assert forall|i: int| 0 <= i < transform_tool_views().len() implies all.contains(
        #[trigger] transform_tool_views()[i],
    ) by {
        assert(all[16 + i] == transform_tool_views()[i]);
    }
    assert forall|i: int| 0 <= i < git_tool_views().len() implies all.contains(
        #[trigger] git_tool_views()[i],
    ) by {
        assert(all[23 + i] == git_tool_views()[i]);
    }
    assert forall|i: int| 0 <= i < http_tool_views().len() implies all.contains(
        #[trigger] http_tool_views()[i],
    ) by {
        assert(all[31 + i] == http_tool_views()[i]);
    }
    assert forall|i: int| 0 <= i < system_tool_views().len() implies all.contains(
        #[trigger] system_tool_views()[i],
    ) by {
        assert(all[34 + i] == system_tool_views()[i]);
    }
    assert forall|i: int| 0 <= i < breadcrumb_tool_views().len() implies all.contains(
        #[trigger] breadcrumb_tool_views()[i],
    ) by {
        assert(all[37 + i] == breadcrumb_tool_views()[i]);
    }
    assert forall|i: int| 0 <= i < loaf_tool_views().len() implies all.contains(
        #[trigger] loaf_tool_views()[i],
    ) by {
        assert(all[44 + i] == loaf_tool_views()[i]);
    }
}

} // verus!
