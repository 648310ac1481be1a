//! The driver's own tools: which one a call is for, and what it asks to be done.

use vstd::prelude::*;

use crate::actions;
use crate::actions::{refuse, ActionView, BreadcrumbTool, LoafTool, ToolAction};
use crate::breadcrumbs::Breadcrumbs;
use crate::clock;
use crate::files;
use crate::http;
use crate::json;
use crate::json::{Json, JsonView};
use crate::loafs::Loafs;
use crate::mcp;
use crate::mcp::{McpTool, McpToolView};
use crate::paths;
use crate::policy;
use crate::sessions;
use crate::sessions::{Session, SessionView};
use crate::shell;
use crate::text;
use crate::tool_defs;
use crate::unicode;

verus! {

/// The driver's own tools.
pub struct DriverTools {
    pub sessions: Vec<Session>,
    pub breadcrumbs: Breadcrumbs,
    pub loafs: Loafs,
}

/// The driver's own tools, over texts.
pub struct DriverToolsView {
    pub sessions: Seq<SessionView>,
    pub breadcrumbs: Breadcrumbs,
    pub loafs: Loafs,
}

impl DriverTools {
    pub open spec fn view(&self) -> DriverToolsView {
        DriverToolsView {
            sessions: sessions::sessions_view(self.sessions@),
            breadcrumbs: self.breadcrumbs,
            loafs: self.loafs,
        }
    }
}

/// What a call of a tool on files and directories becomes.
pub open spec fn filesystem_action(name: Seq<char>, args: JsonView) -> Option<ActionView> {
    if name == "read_file"@ {
        Some(files::read_file_action(args))
    } else if name == "write_file"@ {
        Some(files::write_file_action(args))
    } else if name == "append_file"@ {
        Some(files::append_file_action(args))
    } else if name == "list_dir"@ {
        Some(files::list_dir_action(args))
    } else if name == "archive_create"@ {
        Some(shell::archive_create_action(args))
    } else if name == "archive_extract"@ {
        Some(shell::archive_extract_action(args))
    } else {
        None
    }
}

/// What a call of a tool that runs a command becomes.
pub open spec fn shell_action(name: Seq<char>, args: JsonView) -> Option<ActionView> {
    if name == "bash"@ {
        Some(shell::bash_action(args))
    } else if name == "run"@ {
        Some(shell::run_action(args))
    } else {
        None
    }
}

/// What a call of a tool on shell sessions becomes.
pub open spec fn session_action(
    list: Seq<SessionView>,
    name: Seq<char>,
    args: JsonView,
    token: Seq<char>,
) -> Option<ActionView> {
    if name == "session_destroy"@ {
        Some(sessions::session_destroy_action(list, args))
    } else if name == "session_create"@ {
        Some(sessions::session_create_action(list, args))
    } else if name == "session_run"@ {
        Some(sessions::session_run_action(list, args, token))
    } else if name == "session_cd"@ {
        Some(sessions::session_cd_action(list, args, token))
    } else if name == "session_set_env"@ {
        Some(sessions::session_set_env_action(list, args, token))
    } else if name == "session_get_env"@ {
        Some(sessions::session_get_env_action(list, args, token))
    } else if name == "session_list"@ {
        Some(ActionView::Reply(
                mcp::text_view(json::json_pretty(sessions::session_list_json(list))),
            ))
    } else if name == "session_history"@ {
        Some(ActionView::Reply(sessions::session_history_reply(list, args)))
    } else {
        None
    }
}

/// What a call of a tool that looks at texts or changes them becomes.
pub open spec fn transform_action(name: Seq<char>, args: JsonView) -> Option<ActionView> {
    if name == "transform_grep"@ {
        Some(shell::grep_action(args))
    } else if name == "transform_find_replace"@ {
        Some(files::find_replace_action(args))
    } else if name == "transform_diff_files"@ {
        Some(shell::diff_files_action(args))
    } else if name == "transform_extract_lines"@ {
        Some(files::extract_lines_action(args))
    } else if name == "transform_json_format"@ {
        Some(files::json_format_action(args))
    } else if name == "transform_hash_file"@ {
        Some(shell::hash_file_action(args))
    } else if name == "transform_file_stats"@ {
        Some(shell::file_stats_action(args))
    } else {
        None
    }
}

/// What a call of a tool on a repository becomes.
pub open spec fn git_action(name: Seq<char>, args: JsonView) -> Option<ActionView> {
    if name == "git_status"@ {
        Some(shell::git_status_action(args))
    } else if name == "git_diff"@ {
        Some(shell::git_diff_action(args))
    } else if name == "git_commit"@ {
        Some(shell::git_commit_action(args))
    } else if name == "git_log"@ {
        Some(shell::git_log_action(args))
    } else if name == "git_stash"@ {
        Some(shell::git_stash_action(args))
    } else if name == "git_branch"@ {
        Some(shell::git_branch_action(args))
    } else if name == "git_checkout"@ {
        Some(shell::git_checkout_action(args))
    } else if name == "git_reset"@ {
        Some(shell::git_reset_action(args))
    } else {
        None
    }
}

/// What a call of a tool on the network becomes.
pub open spec fn http_action(name: Seq<char>, args: JsonView) -> Option<ActionView> {
    if name == "http_request"@ {
        Some(http::http_request_action(args))
    } else if name == "http_fetch"@ {
        Some(http::http_fetch_action(args))
    } else if name == "port_check"@ {
        Some(http::port_check_action(args))
    } else {
        None
    }
}

/// What a call of a tool on the machine becomes.
pub open spec fn system_action(name: Seq<char>, args: JsonView) -> Option<ActionView> {
    if name == "system_info"@ {
        Some(shell::system_info_action())
    } else if name == "kill_process"@ {
        Some(shell::kill_process_action(args))
    } else if name == "list_process"@ {
        Some(shell::list_process_action(args))
    } else {
        None
    }
}

/// What a call of a tool that tracks an operation becomes.
pub open spec fn breadcrumb_action(name: Seq<char>) -> Option<ActionView> {
    if name == "breadcrumb_start"@ {
        Some(ActionView::Breadcrumb(BreadcrumbTool::Start))
    } else if name == "breadcrumb_step"@ {
        Some(ActionView::Breadcrumb(BreadcrumbTool::Step))
    } else if name == "breadcrumb_complete"@ {
        Some(ActionView::Breadcrumb(BreadcrumbTool::Complete))
    } else if name == "breadcrumb_abort"@ {
        Some(ActionView::Breadcrumb(BreadcrumbTool::Abort))
    } else if name == "breadcrumb_status"@ {
        Some(ActionView::Breadcrumb(BreadcrumbTool::Status))
    } else if name == "breadcrumb_list"@ {
        Some(ActionView::Breadcrumb(BreadcrumbTool::List))
    } else if name == "breadcrumb_adopt"@ {
        Some(ActionView::Breadcrumb(BreadcrumbTool::Adopt))
    } else {
        None
    }
}

/// What a call of a tool that tracks a project becomes.
pub open spec fn loaf_action(name: Seq<char>) -> Option<ActionView> {
    if name == "loaf_create"@ {
        Some(ActionView::Loaf(LoafTool::Create))
    } else if name == "loaf_update"@ {
        Some(ActionView::Loaf(LoafTool::Update))
    } else if name == "loaf_status"@ {
        Some(ActionView::Loaf(LoafTool::Status))
    } else if name == "loaf_close"@ {
        Some(ActionView::Loaf(LoafTool::Close))
    } else {
        None
    }
}

/// What a call of a tool becomes. The line that ends a session's output holds `token`.
pub open spec fn driver_action(
    tools: DriverToolsView,
    name: Seq<char>,
    args: JsonView,
    token: Seq<char>,
) -> ActionView {
    match session_action(tools.sessions, name, args, token) {
        Some(action) => action,
        None => match filesystem_action(name, args) {
            Some(action) => action,
            None => match shell_action(name, args) {
                Some(action) => action,
                None => match transform_action(name, args) {
                    Some(action) => action,
                    None => match git_action(name, args) {
                        Some(action) => action,
                        None => match http_action(name, args) {
                            Some(action) => action,
                            None => match system_action(name, args) {
                                Some(action) => action,
                                None => match breadcrumb_action(name) {
                                    Some(action) => action,
                                    None => match loaf_action(name) {
                                        Some(action) => action,
                                        None => unknown(name),
                                    },
                                },
                            },
                        },
                    },
                },
            },
        },
    }
}

/// The tools after a call: a session that is ended is no longer there.
pub open spec fn after_call(
    tools: DriverToolsView,
    name: Seq<char>,
    args: JsonView,
) -> DriverToolsView {
    if name == "session_destroy"@ {
        DriverToolsView {
            sessions: sessions::without_session(tools.sessions, args.str_or("session"@, ""@)),
            ..tools
        }
    } else {
        tools
    }
}

/// Whether a call can be taken: the history of a session has to be one that can be shown.
pub open spec fn can_take(tools: DriverToolsView, name: Seq<char>, args: JsonView) -> bool {
    name == "session_history"@ ==> sessions::can_show_history(tools.sessions, args)
}

/// What is to be done, if anything.
pub open spec fn action_view(a: Option<ToolAction>) -> Option<ActionView> {
    match a {
        Some(a) => Some(a@),
        None => None,
    }
}

impl DriverTools {
    /// No sessions; records below `log_dir`.
    pub fn new(log_dir: &str) -> (r: DriverTools)
        ensures
            r@.sessions == Seq::<SessionView>::empty(),
            r@.breadcrumbs.active_dir@ == paths::path_join(
                paths::path_join(log_dir@, "breadcrumbs"@),
                "active"@,
            ),
            r@.breadcrumbs.completed_base@ == paths::path_join(
                paths::path_join(log_dir@, "breadcrumbs"@),
                "completed"@,
            ),
            r@.loafs.loaves_dir@ == paths::path_join(log_dir@, "loaves"@),
            r@.loafs.archive_dir@ == paths::path_join(
                paths::path_join(log_dir@, "loaves"@),
                "archive"@,
            ),
    {
        let r = DriverTools {
            sessions: Vec::new(),
            breadcrumbs: Breadcrumbs::new(log_dir),
            loafs: Loafs::new(log_dir),
        };
        proof {
            assert(r@.sessions =~= Seq::empty());
        }
        r
    }

    /// All of the driver's own tools.
    pub fn tool_definitions() -> (r: Vec<McpTool>)
        ensures
            mcp::tool_views(r@) == tool_defs::all_tool_views(),
    {
        tool_defs::all_tools()
    }

    fn filesystem_call(&self, name: &str, args: &Json) -> (r: Option<ToolAction>)
        ensures
            action_view(r) == filesystem_action(name@, args@),
    {
        if text::str_eq(name, "read_file") {
            Some(self.read_file(args))
        } else if text::str_eq(name, "write_file") {
            Some(self.write_file(args))
        } else if text::str_eq(name, "append_file") {
            Some(self.append_file(args))
        } else if text::str_eq(name, "list_dir") {
            Some(self.list_dir(args))
        } else if text::str_eq(name, "archive_create") {
            Some(self.archive_create(args))
        } else if text::str_eq(name, "archive_extract") {
            Some(self.archive_extract(args))
        } else {
            None
        }
    }

    fn shell_call(&self, name: &str, args: &Json) -> (r: Option<ToolAction>)
        ensures
            action_view(r) == shell_action(name@, args@),
    {
        if text::str_eq(name, "bash") {
            Some(self.bash(args))
        } else if text::str_eq(name, "run") {
            Some(self.run_cmd(args))
        } else {
            None
        }
    }

    fn session_call(&mut self, name: &str, args: &Json, token: &str) -> (r: Option<ToolAction>)
        requires
            name@ == "session_history"@ ==> sessions::can_show_history(old(self)@.sessions, args@),
        ensures
            action_view(r) == session_action(old(self)@.sessions, name@, args@, token@),
            final(self)@ == after_call(old(self)@, name@, args@),
    {
        if text::str_eq(name, "session_destroy") {
            Some(self.session_destroy(args))
        } else if text::str_eq(name, "session_create") {
            Some(self.session_create(args))
        } else if text::str_eq(name, "session_run") {
            Some(self.session_run_with(args, token))
        } else if text::str_eq(name, "session_cd") {
            Some(self.session_cd_with(args, token))
        } else if text::str_eq(name, "session_set_env") {
            Some(self.session_set_env_with(args, token))
        } else if text::str_eq(name, "session_get_env") {
            Some(self.session_get_env_with(args, token))
        } else if text::str_eq(name, "session_list") {
            Some(ToolAction::Reply(self.session_list()))
        } else if text::str_eq(name, "session_history") {
            Some(ToolAction::Reply(self.session_history(args)))
        } else {
            None
        }
    }

    fn transform_call(&self, name: &str, args: &Json) -> (r: Option<ToolAction>)
        ensures
            action_view(r) == transform_action(name@, args@),
    {
        if text::str_eq(name, "transform_grep") {
            Some(self.transform_grep(args))
        } else if text::str_eq(name, "transform_find_replace") {
            Some(self.transform_find_replace(args))
        } else if text::str_eq(name, "transform_diff_files") {
            Some(self.transform_diff_files(args))
        } else if text::str_eq(name, "transform_extract_lines") {
            Some(self.transform_extract_lines(args))
        } else if text::str_eq(name, "transform_json_format") {
            Some(self.transform_json_format(args))
        } else if text::str_eq(name, "transform_hash_file") {
            Some(self.transform_hash_file(args))
        } else if text::str_eq(name, "transform_file_stats") {
            Some(self.transform_file_stats(args))
        } else {
            None
        }
    }

    fn git_call(&self, name: &str, args: &Json) -> (r: Option<ToolAction>)
        ensures
            action_view(r) == git_action(name@, args@),
    {
        if text::str_eq(name, "git_status") {
            Some(self.git_status(args))
        } else if text::str_eq(name, "git_diff") {
            Some(self.git_diff(args))
        } else if text::str_eq(name, "git_commit") {
            Some(self.git_commit(args))
        } else if text::str_eq(name, "git_log") {
            Some(self.git_log(args))
        } else if text::str_eq(name, "git_stash") {
            Some(self.git_stash(args))
        } else if text::str_eq(name, "git_branch") {
            Some(self.git_branch(args))
        } else if text::str_eq(name, "git_checkout") {
            Some(self.git_checkout(args))
        } else if text::str_eq(name, "git_reset") {
            Some(self.git_reset(args))
        } else {
            None
        }
    }

    fn http_call(&self, name: &str, args: &Json) -> (r: Option<ToolAction>)
        ensures
            action_view(r) == http_action(name@, args@),
    {
        if text::str_eq(name, "http_request") {
            Some(self.http_request(args))
        } else if text::str_eq(name, "http_fetch") {
            Some(self.http_fetch(args))
        } else if text::str_eq(name, "port_check") {
            Some(self.port_check(args))
        } else {
            None
        }
    }

    fn system_call(&self, name: &str, args: &Json) -> (r: Option<ToolAction>)
        ensures
            action_view(r) == system_action(name@, args@),
    {
        if text::str_eq(name, "system_info") {
            Some(self.system_info())
        } else if text::str_eq(name, "kill_process") {
            Some(self.kill_process(args))
        } else if text::str_eq(name, "list_process") {
            Some(self.list_process(args))
        } else {
            None
        }
    }

    fn breadcrumb_call(&self, name: &str) -> (r: Option<ToolAction>)
        ensures
            action_view(r) == breadcrumb_action(name@),
    {
        if text::str_eq(name, "breadcrumb_start") {
            Some(ToolAction::Breadcrumb(BreadcrumbTool::Start))
        } else if text::str_eq(name, "breadcrumb_step") {
            Some(ToolAction::Breadcrumb(BreadcrumbTool::Step))
        } else if text::str_eq(name, "breadcrumb_complete") {
            Some(ToolAction::Breadcrumb(BreadcrumbTool::Complete))
        } else if text::str_eq(name, "breadcrumb_abort") {
            Some(ToolAction::Breadcrumb(BreadcrumbTool::Abort))
        } else if text::str_eq(name, "breadcrumb_status") {
            Some(ToolAction::Breadcrumb(BreadcrumbTool::Status))
        } else if text::str_eq(name, "breadcrumb_list") {
            Some(ToolAction::Breadcrumb(BreadcrumbTool::List))
        } else if text::str_eq(name, "breadcrumb_adopt") {
            Some(ToolAction::Breadcrumb(BreadcrumbTool::Adopt))
        } else {
            None
        }
    }

    fn loaf_call(&self, name: &str) -> (r: Option<ToolAction>)
        ensures
            action_view(r) == loaf_action(name@),
    {
        if text::str_eq(name, "loaf_create") {
            Some(ToolAction::Loaf(LoafTool::Create))
        } else if text::str_eq(name, "loaf_update") {
            Some(ToolAction::Loaf(LoafTool::Update))
        } else if text::str_eq(name, "loaf_status") {
            Some(ToolAction::Loaf(LoafTool::Status))
        } else if text::str_eq(name, "loaf_close") {
            Some(ToolAction::Loaf(LoafTool::Close))
        } else {
            None
        }
    }

    /// Whether a call can be taken.
    pub fn is_takeable(&self, name: &str, args: &Json) -> (r: bool)
        ensures
            r == can_take(self@, name@, args@),
    {
        !text::str_eq(name, "session_history") || self.is_history_cuttable(args)
    }

    /// Takes a call of a tool. The line that ends a session's output holds `token`.
    pub fn dispatch_with(&mut self, name: &str, args: &Json, token: &str) -> (r: ToolAction)
        requires
            can_take(old(self)@, name@, args@),
        ensures
            r@ == driver_action(old(self)@, name@, args@, token@),
            final(self)@ == after_call(old(self)@, name@, args@),
    {
        if let Some(action) = self.session_call(name, args, token) {
            return action;
        }
        if let Some(action) = self.filesystem_call(name, args) {
            return action;
        }
        if let Some(action) = self.shell_call(name, args) {
            return action;
        }
        if let Some(action) = self.transform_call(name, args) {
            return action;
        }
        if let Some(action) = self.git_call(name, args) {
            return action;
        }
        if let Some(action) = self.http_call(name, args) {
            return action;
        }
        if let Some(action) = self.system_call(name, args) {
            return action;
        }
        if let Some(action) = self.breadcrumb_call(name) {
            return action;
        }
        if let Some(action) = self.loaf_call(name) {
            return action;
        }
        refuse(text::cat2("unknown driver tool: ", name).as_str())
    }

    /// Takes a call of a tool.
    pub fn dispatch(&mut self, name: &str, args: &Json) -> (r: ToolAction)
        requires
            can_take(old(self)@, name@, args@),
        ensures
            exists|token: Seq<char>|
                r@ == #[trigger] driver_action(old(self)@, name@, args@, token),
            final(self)@ == after_call(old(self)@, name@, args@),
    {
        let token = clock::new_uuid();
        self.dispatch_with(name, args, token.as_str())
    }
}

/// Whether a tool with a name is among tools.
pub open spec fn listed(tools: Seq<McpToolView>, name: Seq<char>) -> bool {
    exists|i: int| 0 <= i < tools.len() && (#[trigger] tools[i]).name == name
}

proof fn lemma_filesystem_tools(name: Seq<char>, args: JsonView)
    ensures
        listed(tool_defs::filesystem_tool_views(), name) == (filesystem_action(name, args) is Some),
{
    let tools = tool_defs::filesystem_tool_views();
    assert(tools[0].name == "read_file"@);
    assert(tools[1].name == "write_file"@);
    assert(tools[2].name == "append_file"@);
    assert(tools[3].name == "list_dir"@);
    assert(tools[4].name == "archive_create"@);
    assert(tools[5].name == "archive_extract"@);
}

proof fn lemma_shell_tools(name: Seq<char>, args: JsonView)
    ensures
        listed(tool_defs::shell_tool_views(), name) == (shell_action(name, args) is Some),
{
    let tools = tool_defs::shell_tool_views();
    assert(tools[0].name == "bash"@);
    assert(tools[1].name == "run"@);
}

proof fn lemma_session_tools(
    list: Seq<SessionView>,
    name: Seq<char>,
    args: JsonView,
    token: Seq<char>,
)
    ensures
        listed(tool_defs::session_tool_views(), name) == (session_action(list, name, args, token) is Some),
{
    let tools = tool_defs::session_tool_views();
    assert(tools[0].name == "session_create"@);
    assert(tools[1].name == "session_run"@);
    assert(tools[2].name == "session_destroy"@);
    assert(tools[3].name == "session_cd"@);
    assert(tools[4].name == "session_set_env"@);
    assert(tools[5].name == "session_get_env"@);
    assert(tools[6].name == "session_list"@);
    assert(tools[7].name == "session_history"@);
}

proof fn lemma_transform_tools(name: Seq<char>, args: JsonView)
    ensures
        listed(tool_defs::transform_tool_views(), name) == (transform_action(name, args) is Some),
{
    let tools = tool_defs::transform_tool_views();
    assert(tools[0].name == "transform_grep"@);
    assert(tools[1].name == "transform_find_replace"@);
    assert(tools[2].name == "transform_diff_files"@);
    assert(tools[3].name == "transform_extract_lines"@);
    assert(tools[4].name == "transform_json_format"@);
    assert(tools[5].name == "transform_hash_file"@);
    assert(tools[6].name == "transform_file_stats"@);
}

proof fn lemma_git_tools(name: Seq<char>, args: JsonView)
    ensures
        listed(tool_defs::git_tool_views(), name) == (git_action(name, args) is Some),
{
    let tools = tool_defs::git_tool_views();
    assert(tools[0].name == "git_status"@);
    assert(tools[1].name == "git_diff"@);
    assert(tools[2].name == "git_commit"@);
    assert(tools[3].name == "git_log"@);
    assert(tools[4].name == "git_stash"@);
    assert(tools[5].name == "git_branch"@);
    assert(tools[6].name == "git_checkout"@);
    assert(tools[7].name == "git_reset"@);
}

proof fn lemma_http_tools(name: Seq<char>, args: JsonView)
    ensures
        listed(tool_defs::http_tool_views(), name) == (http_action(name, args) is Some),
{
    let tools = tool_defs::http_tool_views();
    assert(tools[0].name == "http_request"@);
    assert(tools[1].name == "http_fetch"@);
    assert(tools[2].name == "port_check"@);
}

proof fn lemma_system_tools(name: Seq<char>, args: JsonView)
    ensures
        listed(tool_defs::system_tool_views(), name) == (system_action(name, args) is Some),
{
    let tools = tool_defs::system_tool_views();
    assert(tools[0].name == "system_info"@);
    assert(tools[1].name == "kill_process"@);
    assert(tools[2].name == "list_process"@);
}

proof fn lemma_breadcrumb_tools(name: Seq<char>)
    ensures
        listed(tool_defs::breadcrumb_tool_views(), name) == (breadcrumb_action(name) is Some),
{
    let tools = tool_defs::breadcrumb_tool_views();
    assert(tools[0].name == "breadcrumb_start"@);
    assert(tools[1].name == "breadcrumb_step"@);
    assert(tools[2].name == "breadcrumb_complete"@);
    assert(tools[3].name == "breadcrumb_abort"@);
    assert(tools[4].name == "breadcrumb_status"@);
    assert(tools[5].name == "breadcrumb_list"@);
    assert(tools[6].name == "breadcrumb_adopt"@);
}

proof fn lemma_loaf_tools(name: Seq<char>)
    ensures
        listed(tool_defs::loaf_tool_views(), name) == (loaf_action(name) is Some),
{
    let tools = tool_defs::loaf_tool_views();
    assert(tools[0].name == "loaf_create"@);
    assert(tools[1].name == "loaf_update"@);
    assert(tools[2].name == "loaf_status"@);
    assert(tools[3].name == "loaf_close"@);
}

proof fn lemma_listed_in_two(a: Seq<McpToolView>, b: Seq<McpToolView>, name: Seq<char>)
    ensures
        listed(a + b, name) == (listed(a, name) || listed(b, name)),
{
    let both = a + b;
    if listed(a, name) {
        let i = choose|i: int| 0 <= i < a.len() && (#[trigger] a[i]).name == name;
        assert(both[i].name == name);
    }
    if listed(b, name) {
        let i = choose|i: int| 0 <= i < b.len() && (#[trigger] b[i]).name == name;
        assert(both[a.len() + i].name == name);
    }
    if listed(both, name) {
        let i = choose|i: int| 0 <= i < both.len() && (#[trigger] both[i]).name == name;
        if i < a.len() {
            assert(a[i].name == name);
        } else {
            assert(b[i - a.len()].name == name);
        }
    }
}

/// Whether a call is for one of the driver's own tools.
pub open spec fn knows(
    tools: DriverToolsView,
    name: Seq<char>,
    args: JsonView,
    token: Seq<char>,
) -> bool {
    ||| session_action(tools.sessions, name, args, token) is Some
    ||| filesystem_action(name, args) is Some
    ||| shell_action(name, args) is Some
    ||| transform_action(name, args) is Some
    ||| git_action(name, args) is Some
    ||| http_action(name, args) is Some
    ||| system_action(name, args) is Some
    ||| breadcrumb_action(name) is Some
    ||| loaf_action(name) is Some
}

/// What is answered where there is no tool of a name.
pub open spec fn unknown(name: Seq<char>) -> ActionView {
    actions::refused("unknown driver tool: "@ + name)
}

proof fn lemma_other_answer(message: Seq<char>, name: Seq<char>)
    requires
        message.len() > 1,
        message[0] != 'u' || message[1] != 'n',
    ensures
        actions::refused(message) != unknown(name),
{
    reveal_strlit("unknown driver tool: ");
    let other = "unknown driver tool: "@ + name;
    assert(other[0] == 'u' && other[1] == 'n');
    if actions::refused(message) == unknown(name) {
        assert(mcp::error_view(message).content[0] == mcp::error_view(other).content[0]);
    }
}

proof fn lemma_filesystem_answers(name: Seq<char>, args: JsonView)
    ensures
        filesystem_action(name, args) != Some(unknown(name)),
{
    reveal_strlit("path is required");
    reveal_strlit("output and paths[] are required");
    reveal_strlit("archive is required");
    lemma_other_answer("path is required"@, name);
    lemma_other_answer("output and paths[] are required"@, name);
    lemma_other_answer("archive is required"@, name);
}

proof fn lemma_shell_answers(name: Seq<char>, args: JsonView)
    ensures
        shell_action(name, args) != Some(unknown(name)),
{
    reveal_strlit("command is required");
    lemma_other_answer("command is required"@, name);
    lemma_refusals_are_others(
        policy::tier_of(unicode::lowercase(args.str_or("command"@, ""@))),
        args.str_or("command"@, ""@),
        name,
    );
}

proof fn lemma_transform_answers(name: Seq<char>, args: JsonView)
    ensures
        transform_action(name, args) != Some(unknown(name)),
{
    reveal_strlit("path and pattern are required");
    reveal_strlit("path and find are required");
    reveal_strlit("file_a and file_b are required");
    reveal_strlit("path is required");
    reveal_strlit("json_string is required");
    lemma_other_answer("path and pattern are required"@, name);
    lemma_other_answer("path and find are required"@, name);
    lemma_other_answer("file_a and file_b are required"@, name);
    lemma_other_answer("path is required"@, name);
    lemma_other_answer("json_string is required"@, name);
    reveal_strlit("invalid JSON: ");
    let parsed = json::json_parse(args.str_or("json_string"@, ""@));
    if parsed is Err {
        lemma_other_answer("invalid JSON: "@ + parsed->Err_0, name);
    }
}

proof fn lemma_git_answers(name: Seq<char>, args: JsonView)
    ensures
        git_action(name, args) != Some(unknown(name)),
{
    reveal_strlit("message is required");
    reveal_strlit("target is required");
    lemma_other_answer("message is required"@, name);
    lemma_other_answer("target is required"@, name);
}

proof fn lemma_http_answers(name: Seq<char>, args: JsonView)
    ensures
        http_action(name, args) != Some(unknown(name)),
{
    reveal_strlit("url is required");
    reveal_strlit("port is required");
    lemma_other_answer("url is required"@, name);
    lemma_other_answer("port is required"@, name);
}

proof fn lemma_system_answers(name: Seq<char>, args: JsonView)
    ensures
        system_action(name, args) != Some(unknown(name)),
{
    reveal_strlit("pid is required");
    lemma_other_answer("pid is required"@, name);
}

proof fn lemma_refusals_are_others(tier: policy::Tier, command: Seq<char>, name: Seq<char>)
    ensures
        tier != policy::Tier::Open ==> actions::refused(policy::refusal(tier, command)) != unknown(
            name,
        ),
{
    reveal_strlit("Command requires confirm=true (Tier 2 safety): ");
    reveal_strlit("Command requires allow_destructive=true (Tier 3 safety): ");
    reveal_strlit("Command unconditionally rejected (catastrophic pattern detected): ");
    if tier != policy::Tier::Open {
        lemma_other_answer(policy::refusal(tier, command), name);
    }
}

proof fn lemma_run_answers(
    list: Seq<SessionView>,
    session: Seq<char>,
    command: Seq<char>,
    tier: policy::Tier,
    confirm: bool,
    allow_destructive: bool,
    token: Seq<char>,
    moves: bool,
    name: Seq<char>,
)
    ensures
        sessions::run_in_session(
            list,
            session,
            command,
            tier,
            confirm,
            allow_destructive,
            token,
            moves,
        ) != unknown(name),
{
    reveal_strlit("session and command are required");
    reveal_strlit("session '");
    lemma_other_answer("session and command are required"@, name);
    lemma_other_answer("session '"@ + session + "' not found"@, name);
    lemma_refusals_are_others(tier, command, name);
}

proof fn lemma_session_answers(
    list: Seq<SessionView>,
    name: Seq<char>,
    args: JsonView,
    token: Seq<char>,
)
    ensures
        session_action(list, name, args, token) != Some(unknown(name)),
{
    reveal_strlit("session '");
    reveal_strlit("session and path are required");
    let session = args.str_or("session"@, ""@);
    lemma_other_answer("session and path are required"@, name);
    lemma_other_answer("session '"@ + session + "' not found"@, name);
    lemma_other_answer(
        "session '"@ + sessions::new_session_name(list, args) + "' already exists"@,
        name,
    );
    let command = args.str_or("command"@, ""@);
    lemma_run_answers(
        list,
        session,
        command,
        policy::tier_of(unicode::lowercase(command)),
        args.flag("confirm"@),
        args.flag("allow_destructive"@),
        token,
        false,
        name,
    );
    let cd = "cd '"@ + args.str_or("path"@, ""@) + "' && pwd"@;
    let cd_tier = policy::tier_of(unicode::lowercase(cd));
    lemma_run_answers(list, session, cd, cd_tier, false, false, token, true, name);
    let set = "export "@ + args.str_or("key"@, ""@) + "='"@ + args.str_or("value"@, ""@) + "'"@;
    let set_tier = policy::tier_of(unicode::lowercase(set));
    lemma_run_answers(list, session, set, set_tier, false, false, token, false, name);
    let get = match args.str_at("key"@) {
        Some(key) => "echo $"@ + key,
        None => "env"@,
    };
    let get_tier = policy::tier_of(unicode::lowercase(get));
    lemma_run_answers(list, session, get, get_tier, false, false, token, false, name);
}

/// The tools that a model is told of are the ones that are known: a call of any other name is
/// answered with an error that gives the name, and no call of a listed name is.
pub proof fn law_listed_tools_are_known(
    tools: DriverToolsView,
    name: Seq<char>,
    args: JsonView,
    token: Seq<char>,
)
    ensures
        listed(tool_defs::all_tool_views(), name) <==> knows(tools, name, args, token),
        listed(tool_defs::all_tool_views(), name) <==> driver_action(tools, name, args, token)
            != unknown(name),
{
    lemma_session_answers(tools.sessions, name, args, token);
    lemma_filesystem_answers(name, args);
    lemma_shell_answers(name, args);
    lemma_transform_answers(name, args);
    lemma_git_answers(name, args);
    lemma_http_answers(name, args);
    lemma_system_answers(name, args);
    lemma_filesystem_tools(name, args);
    let t1 = tool_defs::filesystem_tool_views();
    lemma_shell_tools(name, args);
    let t2 = t1 + tool_defs::shell_tool_views();
    lemma_listed_in_two(t1, tool_defs::shell_tool_views(), name);
    lemma_session_tools(tools.sessions, name, args, token);
    let t3 = t2 + tool_defs::session_tool_views();
    lemma_listed_in_two(t2, tool_defs::session_tool_views(), name);
    lemma_transform_tools(name, args);
    let t4 = t3 + tool_defs::transform_tool_views();
    lemma_listed_in_two(t3, tool_defs::transform_tool_views(), name);
    lemma_git_tools(name, args);
    let t5 = t4 + tool_defs::git_tool_views();
    lemma_listed_in_two(t4, tool_defs::git_tool_views(), name);
    lemma_http_tools(name, args);
    let t6 = t5 + tool_defs::http_tool_views();
    lemma_listed_in_two(t5, tool_defs::http_tool_views(), name);
    lemma_system_tools(name, args);
    let t7 = t6 + tool_defs::system_tool_views();
    lemma_listed_in_two(t6, tool_defs::system_tool_views(), name);
    lemma_breadcrumb_tools(name);
    let t8 = t7 + tool_defs::breadcrumb_tool_views();
    lemma_listed_in_two(t7, tool_defs::breadcrumb_tool_views(), name);
    lemma_loaf_tools(name);
    let t9 = t8 + tool_defs::loaf_tool_views();
    lemma_listed_in_two(t8, tool_defs::loaf_tool_views(), name);
}

proof fn lemma_tool_names()
    ensures
        text::shape("read_file"@) == 105095101102114009,
        text::shape("write_file"@) == 105095101095119010,
        text::shape("append_file"@) == 105100101095097011,
        text::shape("list_dir"@) == 105095114095108008,
        text::shape("archive_create"@) == 101095101099097014,
        text::shape("archive_extract"@) == 114095116101097015,
        text::shape("bash"@) == 104115104115098004,
        text::shape("run"@) == 110117110117114003,
        text::shape("session_create"@) == 101095101099115014,
        text::shape("session_run"@) == 114111110110115011,
        text::shape("session_destroy"@) == 116095121100115015,
        text::shape("session_cd"@) == 95111100111115010,
        text::shape("session_set_env"@) == 95095118115115015,
        text::shape("session_get_env"@) == 95095118103115015,
        text::shape("session_list"@) == 105110116110115012,
        text::shape("session_history"@) == 116095121104115015,
        text::shape("transform_grep"@) == 103114112109116014,
        text::shape("transform_find_replace"@) == 101105101110116022,
        text::shape("transform_diff_files"@) == 102100115105116020,
        text::shape("transform_extract_lines"@) == 95120115114116023,
        text::shape("transform_json_format"@) == 102106116111116021,
        text::shape("transform_hash_file"@) == 95095101104116019,
        text::shape("transform_file_stats"@) == 115102115105116020,
        text::shape("git_status"@) == 116116115116103010,
        text::shape("git_diff"@) == 102100102100103008,
        text::shape("git_commit"@) == 109111116111103010,
        text::shape("git_log"@) == 111095103108103007,
        text::shape("git_stash"@) == 97115104116103009,
        text::shape("git_branch"@) == 110114104114103010,
        text::shape("git_checkout"@) == 111101116101103012,
        text::shape("git_reset"@) == 115114116101103009,
        text::shape("http_request"@) == 101101116101104012,
        text::shape("http_fetch"@) == 116102104102104010,
        text::shape("port_check"@) == 101099107099112010,
        text::shape("system_info"@) == 110109111095115011,
        text::shape("kill_process"@) == 101114115114107012,
        text::shape("list_process"@) == 101114115114108012,
        text::shape("breadcrumb_start"@) == 116109116098098016,
        text::shape("breadcrumb_step"@) == 115117112109098015,
        text::shape("breadcrumb_complete"@) == 112098101095098019,
        text::shape("breadcrumb_abort"@) == 98109116098098016,
        text::shape("breadcrumb_status"@) == 116109115098098017,
        text::shape("breadcrumb_list"@) == 108117116109098015,
        text::shape("breadcrumb_adopt"@) == 100109116098098016,
        text::shape("loaf_create"@) == 97099101114108011,
        text::shape("loaf_update"@) == 97117101112108011,
        text::shape("loaf_status"@) == 116115115116108011,
        text::shape("loaf_close"@) == 111099101099108010,
{
    reveal_strlit("read_file");
    assert(text::shape("read_file"@) == 105095101102114009);
    reveal_strlit("write_file");
    assert(text::shape("write_file"@) == 105095101095119010);
    reveal_strlit("append_file");
    assert(text::shape("append_file"@) == 105100101095097011);
    reveal_strlit("list_dir");
    assert(text::shape("list_dir"@) == 105095114095108008);
    reveal_strlit("archive_create");
    assert(text::shape("archive_create"@) == 101095101099097014);
    reveal_strlit("archive_extract");
    assert(text::shape("archive_extract"@) == 114095116101097015);
    reveal_strlit("bash");
    assert(text::shape("bash"@) == 104115104115098004);
    reveal_strlit("run");
    assert(text::shape("run"@) == 110117110117114003);
    reveal_strlit("session_create");
    assert(text::shape("session_create"@) == 101095101099115014);
    reveal_strlit("session_run");
    assert(text::shape("session_run"@) == 114111110110115011);
    reveal_strlit("session_destroy");
    assert(text::shape("session_destroy"@) == 116095121100115015);
    reveal_strlit("session_cd");
    assert(text::shape("session_cd"@) == 95111100111115010);
    reveal_strlit("session_set_env");
    assert(text::shape("session_set_env"@) == 95095118115115015);
    reveal_strlit("session_get_env");
    assert(text::shape("session_get_env"@) == 95095118103115015);
    reveal_strlit("session_list");
    assert(text::shape("session_list"@) == 105110116110115012);
    reveal_strlit("session_history");
    assert(text::shape("session_history"@) == 116095121104115015);
    reveal_strlit("transform_grep");
    assert(text::shape("transform_grep"@) == 103114112109116014);
    reveal_strlit("transform_find_replace");
    assert(text::shape("transform_find_replace"@) == 101105101110116022);
    reveal_strlit("transform_diff_files");
    assert(text::shape("transform_diff_files"@) == 102100115105116020);
    reveal_strlit("transform_extract_lines");
    assert(text::shape("transform_extract_lines"@) == 95120115114116023);
    reveal_strlit("transform_json_format");
    assert(text::shape("transform_json_format"@) == 102106116111116021);
    reveal_strlit("transform_hash_file");
    assert(text::shape("transform_hash_file"@) == 95095101104116019);
    reveal_strlit("transform_file_stats");
    assert(text::shape("transform_file_stats"@) == 115102115105116020);
    reveal_strlit("git_status");
    assert(text::shape("git_status"@) == 116116115116103010);
    reveal_strlit("git_diff");
    assert(text::shape("git_diff"@) == 102100102100103008);
    reveal_strlit("git_commit");
    assert(text::shape("git_commit"@) == 109111116111103010);
    reveal_strlit("git_log");
    assert(text::shape("git_log"@) == 111095103108103007);
    reveal_strlit("git_stash");
    assert(text::shape("git_stash"@) == 97115104116103009);
    reveal_strlit("git_branch");
    assert(text::shape("git_branch"@) == 110114104114103010);
    reveal_strlit("git_checkout");
    assert(text::shape("git_checkout"@) == 111101116101103012);
    reveal_strlit("git_reset");
    assert(text::shape("git_reset"@) == 115114116101103009);
    reveal_strlit("http_request");
    assert(text::shape("http_request"@) == 101101116101104012);
    reveal_strlit("http_fetch");
    assert(text::shape("http_fetch"@) == 116102104102104010);
    reveal_strlit("port_check");
    assert(text::shape("port_check"@) == 101099107099112010);
    reveal_strlit("system_info");
    assert(text::shape("system_info"@) == 110109111095115011);
    reveal_strlit("kill_process");
    assert(text::shape("kill_process"@) == 101114115114107012);
    reveal_strlit("list_process");
    assert(text::shape("list_process"@) == 101114115114108012);
    reveal_strlit("breadcrumb_start");
    assert(text::shape("breadcrumb_start"@) == 116109116098098016);
    reveal_strlit("breadcrumb_step");
    assert(text::shape("breadcrumb_step"@) == 115117112109098015);
    reveal_strlit("breadcrumb_complete");
    assert(text::shape("breadcrumb_complete"@) == 112098101095098019);
    reveal_strlit("breadcrumb_abort");
    assert(text::shape("breadcrumb_abort"@) == 98109116098098016);
    reveal_strlit("breadcrumb_status");
    assert(text::shape("breadcrumb_status"@) == 116109115098098017);
    reveal_strlit("breadcrumb_list");
    assert(text::shape("breadcrumb_list"@) == 108117116109098015);
    reveal_strlit("breadcrumb_adopt");
    assert(text::shape("breadcrumb_adopt"@) == 100109116098098016);
    reveal_strlit("loaf_create");
    assert(text::shape("loaf_create"@) == 97099101114108011);
    reveal_strlit("loaf_update");
    assert(text::shape("loaf_update"@) == 97117101112108011);
    reveal_strlit("loaf_status");
    assert(text::shape("loaf_status"@) == 116115115116108011);
    reveal_strlit("loaf_close");
    assert(text::shape("loaf_close"@) == 111099101099108010);
}

proof fn lemma_route(
    tools: DriverToolsView,
    name: Seq<char>,
    args: JsonView,
    token: Seq<char>,
)
    ensures
        session_action(tools.sessions, name, args, token) is Some
            ==> driver_action(tools, name, args, token)
            == session_action(tools.sessions, name, args, token)->0,
        filesystem_action(name, args) is Some
            ==> driver_action(tools, name, args, token) == filesystem_action(name, args)->0,
        shell_action(name, args) is Some
            ==> driver_action(tools, name, args, token) == shell_action(name, args)->0,
        transform_action(name, args) is Some
            ==> driver_action(tools, name, args, token) == transform_action(name, args)->0,
        git_action(name, args) is Some
            ==> driver_action(tools, name, args, token) == git_action(name, args)->0,
        http_action(name, args) is Some
            ==> driver_action(tools, name, args, token) == http_action(name, args)->0,
        system_action(name, args) is Some
            ==> driver_action(tools, name, args, token) == system_action(name, args)->0,
        breadcrumb_action(name) is Some
            ==> driver_action(tools, name, args, token) == breadcrumb_action(name)->0,
        loaf_action(name) is Some
            ==> driver_action(tools, name, args, token) == loaf_action(name)->0,
{
    lemma_tool_names();
}

/// A file tool that is given a path does with that file what it is named for: reading reads it,
/// writing replaces it, appending puts the content behind what it holds, and the others read it for
/// what they are to do. No two of these calls ask for the same.
pub proof fn law_file_tools_do_what_they_are_named_for(
    tools: DriverToolsView,
    args: JsonView,
    token: Seq<char>,
    path: Seq<char>,
)
    requires
        args.get("path"@) == Some(JsonView::Str(path)),
        path.len() > 0,
    ensures
        driver_action(tools, "read_file"@, args, token) == (ActionView::ReadFile { path }),
        driver_action(tools, "write_file"@, args, token) == (ActionView::WriteFile {
            path,
            content: args.str_or("content"@, ""@),
        }),
        driver_action(tools, "append_file"@, args, token) == (ActionView::AppendFile {
            path,
            content: args.str_or("content"@, ""@),
        }),
        driver_action(tools, "transform_extract_lines"@, args, token)
            == (ActionView::ExtractLines { path }),
        args.str_or("find"@, ""@).len() > 0
            ==> driver_action(tools, "transform_find_replace"@, args, token) == (
        ActionView::FindReplace { path }),
        driver_action(tools, "list_dir"@, args, token) == (ActionView::ListDir {
            path,
            depth: args.u64_or("depth"@, 2) as usize,
        }),
        !(driver_action(tools, "append_file"@, args, token) is WriteFile),
        !(driver_action(tools, "write_file"@, args, token) is AppendFile),
        driver_action(tools, "append_file"@, args, token) != driver_action(
            tools, "write_file"@, args, token),
{
    lemma_tool_names();
    lemma_route(tools, "read_file"@, args, token);
    lemma_route(tools, "write_file"@, args, token);
    lemma_route(tools, "append_file"@, args, token);
    lemma_route(tools, "transform_extract_lines"@, args, token);
    lemma_route(tools, "transform_find_replace"@, args, token);
    lemma_route(tools, "list_dir"@, args, token);
}

/// A file tool that needs a path and is given none, or an empty one, is refused; a listing without
/// a path is of the directory itself.
pub proof fn law_file_tools_need_a_path(
    tools: DriverToolsView,
    args: JsonView,
    token: Seq<char>,
)
    requires
        args.str_or("path"@, ""@).len() == 0,
    ensures
        driver_action(tools, "read_file"@, args, token) == actions::refused("path is required"@),
        driver_action(tools, "write_file"@, args, token) == actions::refused("path is required"@),
        driver_action(tools, "append_file"@, args, token) == actions::refused("path is required"@),
        driver_action(tools, "transform_extract_lines"@, args, token)
            == actions::refused("path is required"@),
        driver_action(tools, "transform_hash_file"@, args, token)
            == actions::refused("path is required"@),
        driver_action(tools, "transform_file_stats"@, args, token)
            == actions::refused("path is required"@),
        driver_action(tools, "transform_find_replace"@, args, token)
            == actions::refused("path and find are required"@),
        driver_action(tools, "transform_grep"@, args, token)
            == actions::refused("path and pattern are required"@),
        args.get("path"@) is None
            ==> driver_action(tools, "list_dir"@, args, token) == (ActionView::ListDir {
            path: "."@,
            depth: args.u64_or("depth"@, 2) as usize,
        }),
{
    lemma_tool_names();
    lemma_route(tools, "read_file"@, args, token);
    lemma_route(tools, "write_file"@, args, token);
    lemma_route(tools, "append_file"@, args, token);
    lemma_route(tools, "transform_extract_lines"@, args, token);
    lemma_route(tools, "transform_hash_file"@, args, token);
    lemma_route(tools, "transform_file_stats"@, args, token);
    lemma_route(tools, "transform_find_replace"@, args, token);
    lemma_route(tools, "transform_grep"@, args, token);
    lemma_route(tools, "list_dir"@, args, token);
}

/// Where there is nothing to look for, a replacement and a search are refused.
pub proof fn law_searches_need_something_to_find(
    tools: DriverToolsView,
    args: JsonView,
    token: Seq<char>,
)
    ensures
        args.str_or("find"@, ""@).len() == 0
            ==> driver_action(tools, "transform_find_replace"@, args, token)
            == actions::refused("path and find are required"@),
        args.str_or("pattern"@, ""@).len() == 0
            ==> driver_action(tools, "transform_grep"@, args, token)
            == actions::refused("path and pattern are required"@),
{
    lemma_tool_names();
    lemma_route(tools, "transform_find_replace"@, args, token);
    lemma_route(tools, "transform_grep"@, args, token);
}

/// Looking at a repository runs `git` in the repository that the call names: for its status, its
/// changes (those put to a commit, where the call says so, and of one file, where it names one) and
/// its past commits, as many as it asks for.
pub proof fn law_repository_is_looked_at(
    tools: DriverToolsView,
    args: JsonView,
    token: Seq<char>,
    repo: Seq<char>,
)
    requires
        repo == args.str_or("repo_path"@, "."@),
    ensures
        driver_action(tools, "git_status"@, args, token) == (ActionView::Bash {
            command: "git -C '"@ + repo + "' status"@,
            working_dir: None,
            timeout_secs: 15,
        }),
        !args.flag("staged"@)
            && args.str_at("file"@) is None
            ==> driver_action(tools, "git_diff"@, args, token) == (ActionView::Bash {
            command: "git -C '"@ + repo + "' diff"@,
            working_dir: None,
            timeout_secs: 15,
        }),
        args.flag("staged"@)
            && args.str_at("file"@) is None
            ==> driver_action(tools, "git_diff"@, args, token) == (ActionView::Bash {
            command: "git -C '"@ + repo + "' diff --cached"@,
            working_dir: None,
            timeout_secs: 15,
        }),
        !args.flag("staged"@)
            && args.str_at("file"@) is Some
            ==> driver_action(tools, "git_diff"@, args, token) == (ActionView::Bash {
            command: "git -C '"@ + repo + "' diff -- '"@ + args.str_at("file"@)->0 + "'"@,
            working_dir: None,
            timeout_secs: 15,
        }),
        args.flag("staged"@)
            && args.str_at("file"@) is Some
            ==> driver_action(tools, "git_diff"@, args, token) == (ActionView::Bash {
            command: "git -C '"@ + repo + "' diff --cached -- '"@ + args.str_at("file"@)->0 + "'"@,
            working_dir: None,
            timeout_secs: 15,
        }),
        !args.flag("oneline"@)
            ==> driver_action(tools, "git_log"@, args, token) == (ActionView::Bash {
            command: "git -C '"@ + repo + "' log -n "@ + text::decimal(
                args.u64_or("limit"@, 10) as nat,
            ),
            working_dir: None,
            timeout_secs: 15,
        }),
        args.flag("oneline"@)
            ==> driver_action(tools, "git_log"@, args, token) == (ActionView::Bash {
            command: "git -C '"@ + repo + "' log -n "@ + text::decimal(
                args.u64_or("limit"@, 10) as nat,
            ) + " --oneline"@,
            working_dir: None,
            timeout_secs: 15,
        }),
{
    lemma_tool_names();
    lemma_route(tools, "git_status"@, args, token);
    lemma_route(tools, "git_diff"@, args, token);
    lemma_route(tools, "git_log"@, args, token);
    reveal_strlit("'");
    reveal_strlit("git -C ");
    reveal_strlit("git -C '");
    reveal_strlit(" status");
    reveal_strlit("' status");
    reveal_strlit(" diff");
    reveal_strlit("' diff");
    reveal_strlit(" diff --cached");
    reveal_strlit("' diff --cached");
    reveal_strlit(" -- ");
    reveal_strlit("' diff -- '");
    reveal_strlit("' diff --cached -- '");
    reveal_strlit(" log -n ");
    reveal_strlit("' log -n ");
    reveal_strlit(" stash ");
    reveal_strlit("' stash ");
    reveal_strlit("push");
    reveal_strlit(" -m ");
    reveal_strlit("' stash push -m '");
    reveal_strlit(" branch ");
    reveal_strlit("' branch '");
    reveal_strlit(" branch -d ");
    reveal_strlit("' branch -d '");
    reveal_strlit(" branch -a");
    reveal_strlit("' branch -a");
    reveal_strlit(" checkout ");
    reveal_strlit("-b");
    reveal_strlit("");
    reveal_strlit(" ");
    reveal_strlit("' checkout -b '");
    reveal_strlit("' checkout  '");
    reveal_strlit(" reset --");
    reveal_strlit("' reset --");
    reveal_strlit(" '");
    reveal_strlit(" add ");
    reveal_strlit("' add '");
    reveal_strlit(" commit");
    reveal_strlit(" -a");
    reveal_strlit("' commit -a -m ");
    reveal_strlit("' commit -m ");
    let at = "git -C '"@ + repo;
    assert(shell::git(args) =~= at + "'"@);
    assert(shell::git(args) + " status"@ =~= at + "' status"@);
    assert(shell::git(args) + " diff"@ =~= at + "' diff"@);
    assert(shell::git(args) + " diff --cached"@ =~= at + "' diff --cached"@);
    if args.str_at("file"@) is Some {
        let f = args.str_at("file"@)->0;
        assert(at + "' diff"@ + " -- "@ + shell::quoted(f) =~= at + "' diff -- '"@ + f + "'"@);
        assert(at + "' diff --cached"@ + " -- "@ + shell::quoted(f) =~= at
            + "' diff --cached -- '"@ + f + "'"@);
    }
    assert(shell::git(args) + " log -n "@ =~= at + "' log -n "@);
}

/// Putting changes aside runs `git stash` in the repository that the call names, with the action
/// that it names, and with its message where changes are put aside.
pub proof fn law_changes_are_put_aside(
    tools: DriverToolsView,
    args: JsonView,
    token: Seq<char>,
    repo: Seq<char>,
)
    requires
        repo == args.str_or("repo_path"@, "."@),
    ensures
        args.str_or("action"@, "push"@) == "push"@
            && args.str_at("message"@) is Some
            ==> driver_action(tools, "git_stash"@, args, token) == (ActionView::Bash {
            command: "git -C '"@ + repo + "' stash push -m '"@ + args.str_at("message"@)->0 + "'"@,
            working_dir: None,
            timeout_secs: 15,
        }),
        (args.str_or("action"@, "push"@) != "push"@ || args.str_at("message"@) is None)
            ==> driver_action(tools, "git_stash"@, args, token) == (ActionView::Bash {
            command: "git -C '"@ + repo + "' stash "@ + args.str_or("action"@, "push"@),
            working_dir: None,
            timeout_secs: 15,
        }),
{
    lemma_tool_names();
    lemma_route(tools, "git_stash"@, args, token);
    reveal_strlit("'");
    reveal_strlit("git -C ");
    reveal_strlit("git -C '");
    reveal_strlit(" stash ");
    reveal_strlit("' stash ");
    reveal_strlit("push");
    reveal_strlit(" -m ");
    reveal_strlit("' stash push -m '");
    let at = "git -C '"@ + repo;
    assert(shell::git(args) =~= at + "'"@);
    assert(shell::git(args) + " stash "@ =~= at + "' stash "@);
    if args.str_at("message"@) is Some {
        let m = args.str_at("message"@)->0;
        assert(at + "' stash "@ + "push"@ + " -m "@ + shell::quoted(m) =~= at
            + "' stash push -m '"@ + m + "'"@);
    }
}

/// Branches of the repository that the call names are made, deleted or listed, as the call asks.
pub proof fn law_branches_are_made_deleted_or_listed(
    tools: DriverToolsView,
    args: JsonView,
    token: Seq<char>,
    repo: Seq<char>,
)
    requires
        repo == args.str_or("repo_path"@, "."@),
    ensures
        args.str_at("action"@) == Some("create"@)
            ==> driver_action(tools, "git_branch"@, args, token) == (ActionView::Bash {
            command: "git -C '"@ + repo + "' branch '"@ + args.str_or("name"@, "new-branch"@)
                + "'"@,
            working_dir: None,
            timeout_secs: 15,
        }),
        args.str_at("action"@) == Some("delete"@)
            ==> driver_action(tools, "git_branch"@, args, token) == (ActionView::Bash {
            command: "git -C '"@ + repo + "' branch -d '"@ + args.str_or("name"@, ""@) + "'"@,
            working_dir: None,
            timeout_secs: 15,
        }),
        args.str_at("action"@) != Some("create"@)
            && args.str_at("action"@) != Some("delete"@)
            ==> driver_action(tools, "git_branch"@, args, token) == (ActionView::Bash {
            command: "git -C '"@ + repo + "' branch -a"@,
            working_dir: None,
            timeout_secs: 15,
        }),
{
    lemma_tool_names();
    lemma_route(tools, "git_branch"@, args, token);
    reveal_strlit("'");
    reveal_strlit("git -C ");
    reveal_strlit("git -C '");
    reveal_strlit(" branch ");
    reveal_strlit("' branch '");
    reveal_strlit(" branch -d ");
    reveal_strlit("' branch -d '");
    reveal_strlit(" branch -a");
    reveal_strlit("' branch -a");
    reveal_strlit("create");
    reveal_strlit("delete");
    reveal_strlit("list");
    let at = "git -C '"@ + repo;
    let name = args.str_or("name"@, "new-branch"@);
    let gone = args.str_or("name"@, ""@);
    assert(shell::git(args) =~= at + "'"@);
    assert(shell::git(args) + " branch "@ + shell::quoted(name) =~= at + "' branch '"@ + name
        + "'"@);
    assert(shell::git(args) + " branch -d "@ + shell::quoted(gone) =~= at + "' branch -d '"@ + gone
        + "'"@);
    assert(shell::git(args) + " branch -a"@ =~= at + "' branch -a"@);
    assert("create"@[0] == 'c' && "delete"@[0] == 'd' && "list"@[0] == 'l');
}

/// A checkout is of the target that the call names, as a new branch where the call says so.
pub proof fn law_target_is_checked_out(
    tools: DriverToolsView,
    args: JsonView,
    token: Seq<char>,
    repo: Seq<char>,
)
    requires
        repo == args.str_or("repo_path"@, "."@),
    ensures
        args.str_or("target"@, ""@).len() == 0
            ==> driver_action(tools, "git_checkout"@, args, token)
            == actions::refused("target is required"@),
        args.str_or("target"@, ""@).len() > 0
            && args.flag("create"@)
            ==> driver_action(tools, "git_checkout"@, args, token) == (ActionView::Bash {
            command: "git -C '"@ + repo + "' checkout -b '"@ + args.str_or("target"@, ""@) + "'"@,
            working_dir: None,
            timeout_secs: 15,
        }),
        args.str_or("target"@, ""@).len() > 0
            && !args.flag("create"@)
            ==> driver_action(tools, "git_checkout"@, args, token) == (ActionView::Bash {
            command: "git -C '"@ + repo + "' checkout  '"@ + args.str_or("target"@, ""@) + "'"@,
            working_dir: None,
            timeout_secs: 15,
        }),
{
    lemma_tool_names();
    lemma_route(tools, "git_checkout"@, args, token);
    reveal_strlit("'");
    reveal_strlit("git -C ");
    reveal_strlit("git -C '");
    reveal_strlit(" checkout ");
    reveal_strlit("-b");
    reveal_strlit("");
    reveal_strlit(" ");
    reveal_strlit("' checkout -b '");
    reveal_strlit("' checkout  '");
    let at = "git -C '"@ + repo;
    let target = args.str_or("target"@, ""@);
    assert(shell::git(args) =~= at + "'"@);
    assert(shell::git(args) + " checkout "@ + "-b"@ + " "@ + shell::quoted(target) =~= at
        + "' checkout -b '"@ + target + "'"@);
    assert(shell::git(args) + " checkout "@ + ""@ + " "@ + shell::quoted(target) =~= at
        + "' checkout  '"@ + target + "'"@);
}

/// A reset is to the target that the call names and in its mode.
pub proof fn law_repository_is_reset(
    tools: DriverToolsView,
    args: JsonView,
    token: Seq<char>,
    repo: Seq<char>,
)
    requires
        repo == args.str_or("repo_path"@, "."@),
    ensures
        driver_action(tools, "git_reset"@, args, token) == (ActionView::Bash {
            command: "git -C '"@ + repo + "' reset --"@ + args.str_or("mode"@, "mixed"@) + " '"@
                + args.str_or("target"@, "HEAD"@) + "'"@,
            working_dir: None,
            timeout_secs: 15,
        }),
{
    lemma_tool_names();
    lemma_route(tools, "git_reset"@, args, token);
    reveal_strlit("'");
    reveal_strlit("git -C ");
    reveal_strlit("git -C '");
    reveal_strlit(" reset --");
    reveal_strlit("' reset --");
    reveal_strlit(" '");
    reveal_strlit(" ");
    let at = "git -C '"@ + repo;
    let mode = args.str_or("mode"@, "mixed"@);
    let to = args.str_or("target"@, "HEAD"@);
    assert(shell::git(args) =~= at + "'"@);
    assert(shell::git(args) + " reset --"@ + mode + " "@ + shell::quoted(to) =~= at
        + "' reset --"@ + mode + " '"@ + to + "'"@);
}

/// A commit puts every file that the call names to the commit, in order, and then commits, of all
/// files where the call says so, with the message as one word for the shell.
pub proof fn law_commit_takes_its_files_and_its_message(
    tools: DriverToolsView,
    args: JsonView,
    token: Seq<char>,
    repo: Seq<char>,
    message: Seq<char>,
)
    requires
        repo == args.str_or("repo_path"@, "."@),
        args.get("message"@) == Some(JsonView::Str(message)),
        message.len() > 0,
    ensures
        ({
            let files = args.strings_at("files"@);
            let action = driver_action(tools, "git_commit"@, args, token);
            &&& action is BashSeries
            &&& action->BashSeries_first.len() == files.len()
            &&& forall|i: int|
                0 <= i < files.len() ==> (#[trigger] action->BashSeries_first[i]) == "git -C '"@
                    + repo + "' add '"@ + files[i] + "'"@
            &&& action->first_timeout_secs == 10
            &&& action->BashSeries_timeout_secs == 15
            &&& exists|word: Seq<char>|
                #[trigger] shell::shell_word(word, false) == Some(message)
                    && action->BashSeries_command == (
                if args.flag("all"@) {
                    "git -C '"@ + repo + "' commit -a -m "@
                } else {
                    "git -C '"@ + repo + "' commit -m "@
                }) + word
        }),
{
    lemma_tool_names();
    lemma_route(tools, "git_commit"@, args, token);
    reveal_strlit("'");
    reveal_strlit("git -C ");
    reveal_strlit("git -C '");
    reveal_strlit(" status");
    reveal_strlit("' status");
    reveal_strlit(" diff");
    reveal_strlit("' diff");
    reveal_strlit(" diff --cached");
    reveal_strlit("' diff --cached");
    reveal_strlit(" -- ");
    reveal_strlit("' diff -- '");
    reveal_strlit("' diff --cached -- '");
    reveal_strlit(" log -n ");
    reveal_strlit("' log -n ");
    reveal_strlit(" stash ");
    reveal_strlit("' stash ");
    reveal_strlit("push");
    reveal_strlit(" -m ");
    reveal_strlit("' stash push -m '");
    reveal_strlit(" branch ");
    reveal_strlit("' branch '");
    reveal_strlit(" branch -d ");
    reveal_strlit("' branch -d '");
    reveal_strlit(" branch -a");
    reveal_strlit("' branch -a");
    reveal_strlit(" checkout ");
    reveal_strlit("-b");
    reveal_strlit("");
    reveal_strlit(" ");
    reveal_strlit("' checkout -b '");
    reveal_strlit("' checkout  '");
    reveal_strlit(" reset --");
    reveal_strlit("' reset --");
    reveal_strlit(" '");
    reveal_strlit(" add ");
    reveal_strlit("' add '");
    reveal_strlit(" commit");
    reveal_strlit(" -a");
    reveal_strlit("' commit -a -m ");
    reveal_strlit("' commit -m ");
    let at = "git -C '"@ + repo;
    let files = args.strings_at("files"@);
    let action = driver_action(tools, "git_commit"@, args, token);
    assert(shell::git(args) =~= at + "'"@);
    assert forall|i: int| 0 <= i < files.len() implies (#[trigger] action->BashSeries_first[i])
        == "git -C '"@ + repo + "' add '"@ + files[i] + "'"@ by {
        assert(shell::git(args) + " add "@ + shell::quoted(files[i]) =~= at + "' add '"@ + files[i]
            + "'"@);
    }
    let word = shell::quoted(shell::escaped(message));
    shell::law_message_is_one_word(message);
    assert(shell::git(args) + " commit"@ + " -a"@ + " -m "@ =~= at + "' commit -a -m "@);
    assert(shell::git(args) + " commit"@ + " -m "@ =~= at + "' commit -m "@);
}

/// Archives are made of exactly the paths that the call lists and unpacked where the call says;
/// without what they need, the calls are refused.
pub proof fn law_archives_are_made_and_unpacked(
    tools: DriverToolsView,
    args: JsonView,
    token: Seq<char>,
)
    ensures
        (args.str_or("output"@, ""@).len() == 0 || args.strings_at("paths"@).len() == 0)
            ==> driver_action(tools, "archive_create"@, args, token)
            == actions::refused("output and paths[] are required"@),
        args.str_or("output"@, ""@).len() > 0
            && args.strings_at("paths"@).len() > 0
            ==> driver_action(tools, "archive_create"@, args, token) == (ActionView::Bash {
            command: "tar czf '"@ + args.str_or("output"@, ""@) + "' "@ + text::joined(
                Seq::new(
                    args.strings_at("paths"@).len(),
                    |i: int| "'"@ + args.strings_at("paths"@)[i] + "'"@,
                ),
                " "@,
            ),
            working_dir: None,
            timeout_secs: 60,
        }),
        args.str_or("archive"@, ""@).len() == 0
            ==> driver_action(tools, "archive_extract"@, args, token)
            == actions::refused("archive is required"@),
        args.str_or("archive"@, ""@).len() > 0
            ==> driver_action(tools, "archive_extract"@, args, token) == (ActionView::Bash {
            command: "tar xzf '"@ + args.str_or("archive"@, ""@) + "' -C '"@ + args.str_or(
                "destination"@,
                "."@,
            ) + "'"@,
            working_dir: None,
            timeout_secs: 60,
        }),
{
    lemma_tool_names();
    lemma_route(tools, "archive_create"@, args, token);
    lemma_route(tools, "archive_extract"@, args, token);
    reveal_strlit("'");
    reveal_strlit("tar czf ");
    reveal_strlit("tar czf '");
    reveal_strlit(" ");
    reveal_strlit("' ");
    reveal_strlit("tar xzf ");
    reveal_strlit("tar xzf '");
    reveal_strlit(" -C ");
    reveal_strlit("' -C '");
    let out = args.str_or("output"@, ""@);
    let archive = args.str_or("archive"@, ""@);
    let dest = args.str_or("destination"@, "."@);
    let paths = args.strings_at("paths"@);
    assert(shell::all_quoted(paths) =~= Seq::new(paths.len(), |i: int| "'"@ + paths[i] + "'"@));
    assert("tar czf "@ + shell::quoted(out) + " "@ =~= "tar czf '"@ + out + "' "@);
    assert("tar xzf "@ + shell::quoted(archive) + " -C "@ + shell::quoted(dest) =~= "tar xzf '"@
        + archive + "' -C '"@ + dest + "'"@);
}

/// A search runs over the file that the call names for its pattern, with as many lines around and
/// as deep as it asks for.
pub proof fn law_search_runs_as_asked(
    tools: DriverToolsView,
    args: JsonView,
    token: Seq<char>,
)
    requires
        args.str_or("path"@, ""@).len() > 0,
        args.str_or("pattern"@, ""@).len() > 0,
    ensures
        driver_action(tools, "transform_grep"@, args, token) == (ActionView::Bash {
            command: (if args.u64_or("context"@, 0) > 0 {
                "grep -n -C "@ + text::decimal(args.u64_or("context"@, 0) as nat)
            } else {
                "grep -n"@
            }) + (if args.flag("recursive"@) {
                " -r"@
            } else {
                ""@
            }) + " -E '"@ + args.str_or("pattern"@, ""@) + "' '"@ + args.str_or("path"@, ""@)
                + "'"@,
            working_dir: None,
            timeout_secs: 30,
        }),
{
    lemma_tool_names();
    lemma_route(tools, "transform_grep"@, args, token);
    reveal_strlit("'");
    reveal_strlit("grep -n");
    reveal_strlit(" -C ");
    reveal_strlit("grep -n -C ");
    reveal_strlit(" -r");
    reveal_strlit("");
    reveal_strlit(" -E ");
    reveal_strlit(" -E '");
    reveal_strlit(" ");
    reveal_strlit("' '");
    let context = args.u64_or("context"@, 0);
    let pattern = args.str_or("pattern"@, ""@);
    let path = args.str_or("path"@, ""@);
    let around = if context > 0 {
        "grep -n -C "@ + text::decimal(context as nat)
    } else {
        "grep -n"@
    };
    assert("grep -n"@ + " -C "@ =~= "grep -n -C "@);
    assert(around + ""@ =~= around);
    let deep = around + (if args.flag("recursive"@) {
        " -r"@
    } else {
        ""@
    });
    assert(deep + " -E "@ + shell::quoted(pattern) + " "@ + shell::quoted(path) =~= deep + " -E '"@
        + pattern + "' '"@ + path + "'"@);
}

/// Two files are compared in the order in which the call names them.
pub proof fn law_files_are_compared(
    tools: DriverToolsView,
    args: JsonView,
    token: Seq<char>,
)
    ensures
        (args.str_or("file_a"@, ""@).len() == 0 || args.str_or("file_b"@, ""@).len() == 0)
            ==> driver_action(tools, "transform_diff_files"@, args, token)
            == actions::refused("file_a and file_b are required"@),
        args.str_or("file_a"@, ""@).len() > 0
            && args.str_or("file_b"@, ""@).len() > 0
            ==> driver_action(tools, "transform_diff_files"@, args, token) == (ActionView::Bash {
            command: "diff -u '"@ + args.str_or("file_a"@, ""@) + "' '"@
                + args.str_or("file_b"@, ""@)
                + "'"@,
            working_dir: None,
            timeout_secs: 15,
        }),
{
    lemma_tool_names();
    lemma_route(tools, "transform_diff_files"@, args, token);
    reveal_strlit("'");
    reveal_strlit(" ");
    reveal_strlit("diff -u ");
    reveal_strlit("diff -u '");
    reveal_strlit("' '");
    let a = args.str_or("file_a"@, ""@);
    let b = args.str_or("file_b"@, ""@);
    assert("diff -u "@ + shell::quoted(a) + " "@ + shell::quoted(b) =~= "diff -u '"@ + a + "' '"@
        + b + "'"@);
}

/// A file is hashed by the algorithm that the call names, SHA-256 unless it is another known one.
pub proof fn law_files_are_hashed(
    tools: DriverToolsView,
    args: JsonView,
    token: Seq<char>,
)
    ensures
        args.str_or("path"@, ""@).len() > 0
            ==> driver_action(tools, "transform_hash_file"@, args, token) == (ActionView::Bash {
            command: (if args.str_at("algorithm"@) == Some("sha1"@) {
                "sha1sum '"@
            } else if args.str_at("algorithm"@) == Some("md5"@) {
                "md5sum '"@
            } else {
                "sha256sum '"@
            }) + args.str_or("path"@, ""@) + "'"@,
            working_dir: None,
            timeout_secs: 15,
        }),
{
    lemma_tool_names();
    lemma_route(tools, "transform_hash_file"@, args, token);
    reveal_strlit("'");
    reveal_strlit("sha1");
    reveal_strlit("md5");
    reveal_strlit("sha256");
    reveal_strlit("sha1sum ");
    reveal_strlit("sha1sum '");
    reveal_strlit("md5sum ");
    reveal_strlit("md5sum '");
    reveal_strlit("sha256sum ");
    reveal_strlit("sha256sum '");
    let path = args.str_or("path"@, ""@);
    assert("sha256"@.len() == 6 && "sha1"@.len() == 4 && "md5"@.len() == 3);
    assert("sha1sum "@ + shell::quoted(path) =~= "sha1sum '"@ + path + "'"@);
    assert("md5sum "@ + shell::quoted(path) =~= "md5sum '"@ + path + "'"@);
    assert("sha256sum "@ + shell::quoted(path) =~= "sha256sum '"@ + path + "'"@);
}

/// A file is measured alone, or all that is below it is counted and summed up where the call asks
/// for that.
pub proof fn law_files_are_measured(
    tools: DriverToolsView,
    args: JsonView,
    token: Seq<char>,
)
    ensures
        args.str_or("path"@, ""@).len() > 0
            && !args.flag("recursive"@)
            ==> driver_action(tools, "transform_file_stats"@, args, token) == (ActionView::Bash {
            command: "stat '"@ + args.str_or("path"@, ""@) + "'"@,
            working_dir: None,
            timeout_secs: 15,
        }),
        args.str_or("path"@, ""@).len() > 0
            && args.flag("recursive"@)
            ==> driver_action(tools, "transform_file_stats"@, args, token) == (ActionView::Bash {
            command: "find '"@ + args.str_or("path"@, ""@)
                + "' -type f | wc -l && du -sh '"@ + args.str_or("path"@, ""@) + "'"@,
            working_dir: None,
            timeout_secs: 15,
        }),
{
    lemma_tool_names();
    lemma_route(tools, "transform_file_stats"@, args, token);
    reveal_strlit("'");
    reveal_strlit("stat ");
    reveal_strlit("stat '");
    reveal_strlit("find ");
    reveal_strlit("find '");
    reveal_strlit(" -type f | wc -l && du -sh ");
    reveal_strlit("' -type f | wc -l && du -sh '");
    let path = args.str_or("path"@, ""@);
    assert("stat "@ + shell::quoted(path) =~= "stat '"@ + path + "'"@);
    assert("find "@ + shell::quoted(path) + " -type f | wc -l && du -sh "@ + shell::quoted(path)
        =~= "find '"@ + path + "' -type f | wc -l && du -sh '"@ + path + "'"@);
}

/// Processes are ended by their number and listed, all or those of a name; the machine is asked
/// for its system, its memory, its disk, its processors and how long it has run.
pub proof fn law_machine_is_asked(
    tools: DriverToolsView,
    args: JsonView,
    token: Seq<char>,
)
    ensures
        args.u64_or("pid"@, 0) == 0
            ==> driver_action(tools, "kill_process"@, args, token)
            == actions::refused("pid is required"@),
        args.u64_or("pid"@, 0) > 0
            ==> driver_action(tools, "kill_process"@, args, token) == (ActionView::Bash {
            command: "kill "@ + text::decimal(args.u64_or("pid"@, 0) as nat),
            working_dir: None,
            timeout_secs: 5,
        }),
        args.str_at("filter"@) is None
            ==> driver_action(tools, "list_process"@, args, token) == (ActionView::Bash {
            command: "ps aux --sort=-%mem | head -30"@,
            working_dir: None,
            timeout_secs: 10,
        }),
        args.str_at("filter"@) is Some
            ==> driver_action(tools, "list_process"@, args, token) == (ActionView::Bash {
            command: "ps aux | head -1 && ps aux | grep -i '"@ + args.str_at("filter"@)->0
                + "' | grep -v grep"@,
            working_dir: None,
            timeout_secs: 10,
        }),
        driver_action(tools, "system_info"@, args, token) == (ActionView::Bash {
            command: "echo '=== OS ===' && uname -a && echo '=== Memory ===' && free -h && echo '=== Disk ===' && df -h / && echo '=== CPU ===' && nproc && echo '=== Uptime ===' && uptime"@,
            working_dir: None,
            timeout_secs: 15,
        }),
{
    lemma_tool_names();
    lemma_route(tools, "kill_process"@, args, token);
    lemma_route(tools, "list_process"@, args, token);
    lemma_route(tools, "system_info"@, args, token);
    reveal_strlit("'");
    reveal_strlit("ps aux | head -1 && ps aux | grep -i ");
    reveal_strlit("ps aux | head -1 && ps aux | grep -i '");
    reveal_strlit(" | grep -v grep");
    reveal_strlit("' | grep -v grep");
    if args.str_at("filter"@) is Some {
        let f = args.str_at("filter"@)->0;
        assert("ps aux | head -1 && ps aux | grep -i "@ + shell::quoted(f) + " | grep -v grep"@
            =~= "ps aux | head -1 && ps aux | grep -i '"@ + f + "' | grep -v grep"@);
    }
}

/// A command that the tool for it is given becomes a run of exactly that command, in the directory
/// and for the time that the call gives, if and only if the call grants what the command's tier
/// needs: its own `confirm` for one that is to be confirmed, its own `allow_destructive` for a
/// destructive one, nothing for an open one. A rejected one never runs.
pub proof fn law_commands_run_if_granted(
    tools: DriverToolsView,
    args: JsonView,
    token: Seq<char>,
    command: Seq<char>,
    tier: policy::Tier,
)
    requires
        args.get("command"@) == Some(JsonView::Str(command)),
        command.len() > 0,
    ensures
        shell::bash_action_in(args, tier) is Bash <==> ({
            ||| tier == policy::Tier::Open
            ||| tier == policy::Tier::Confirm && args.get("confirm"@) == Some(JsonView::Bool(true))
            ||| tier == policy::Tier::Destructive && args.get("allow_destructive"@) == Some(
                JsonView::Bool(true),
            )
        }),
        shell::bash_action_in(args, tier) is Bash ==> shell::bash_action_in(args, tier) == (
        ActionView::Bash {
            command,
            working_dir: args.str_at("working_dir"@),
            timeout_secs: args.u64_or("timeout_secs"@, 120),
        }),
        !(shell::bash_action_in(args, tier) is Bash) ==> shell::bash_action_in(args, tier)
            == actions::refused(policy::refusal(tier, command)),
        driver_action(tools, "bash"@, args, token) == shell::bash_action_in(
            args,
            policy::tier_of(unicode::lowercase(command)),
        ),
        driver_action(tools, "run"@, args, token)
            == (ActionView::BashStdout { command, timeout_secs: 30 }),
{
    lemma_tool_names();
    lemma_route(tools, "bash"@, args, token);
    lemma_route(tools, "run"@, args, token);
}

/// A call that gives no command, or an empty one, is refused.
pub proof fn law_commands_are_required(
    tools: DriverToolsView,
    args: JsonView,
    token: Seq<char>,
)
    requires
        args.str_or("command"@, ""@).len() == 0,
    ensures
        driver_action(tools, "bash"@, args, token) == actions::refused("command is required"@),
        driver_action(tools, "run"@, args, token) == actions::refused("command is required"@),
{
    lemma_tool_names();
    lemma_route(tools, "bash"@, args, token);
    lemma_route(tools, "run"@, args, token);
}

/// JSON that a call gives is read and written anew, and what is none is answered with why; the call
/// needs something to read.
pub proof fn law_json_is_written_anew(
    tools: DriverToolsView,
    args: JsonView,
    token: Seq<char>,
    input: Seq<char>,
)
    requires
        input == args.str_or("json_string"@, ""@),
    ensures
        input.len() == 0
            ==> driver_action(tools, "transform_json_format"@, args, token)
            == actions::refused("json_string is required"@),
        input.len() > 0
            ==> (json::json_parse(input) matches Ok(v)
            ==> driver_action(tools, "transform_json_format"@, args, token) == ActionView::Reply(
            mcp::text_view(json::json_pretty(v)),
        )),
        input.len() > 0
            ==> (json::json_parse(input) matches Err(e)
            ==> driver_action(tools, "transform_json_format"@, args, token) == ActionView::Reply(
            mcp::error_view("invalid JSON: "@ + e),
        )),
{
    lemma_tool_names();
    lemma_route(tools, "transform_json_format"@, args, token);
}

/// A call on the records of operations or of projects is the one that its name says.
pub proof fn law_record_tools_do_what_they_are_named_for(
    tools: DriverToolsView,
    args: JsonView,
    token: Seq<char>,
)
    ensures
        driver_action(tools, "breadcrumb_start"@, args, token) == ActionView::Breadcrumb(
            BreadcrumbTool::Start,
        ),
        driver_action(tools, "breadcrumb_step"@, args, token) == ActionView::Breadcrumb(
            BreadcrumbTool::Step,
        ),
        driver_action(tools, "breadcrumb_complete"@, args, token) == ActionView::Breadcrumb(
            BreadcrumbTool::Complete,
        ),
        driver_action(tools, "breadcrumb_abort"@, args, token) == ActionView::Breadcrumb(
            BreadcrumbTool::Abort,
        ),
        driver_action(tools, "breadcrumb_status"@, args, token) == ActionView::Breadcrumb(
            BreadcrumbTool::Status,
        ),
        driver_action(tools, "breadcrumb_list"@, args, token) == ActionView::Breadcrumb(
            BreadcrumbTool::List,
        ),
        driver_action(tools, "breadcrumb_adopt"@, args, token) == ActionView::Breadcrumb(
            BreadcrumbTool::Adopt,
        ),
        driver_action(tools, "loaf_create"@, args, token) == ActionView::Loaf(LoafTool::Create),
        driver_action(tools, "loaf_update"@, args, token) == ActionView::Loaf(LoafTool::Update),
        driver_action(tools, "loaf_status"@, args, token) == ActionView::Loaf(LoafTool::Status),
        driver_action(tools, "loaf_close"@, args, token) == ActionView::Loaf(LoafTool::Close),
{
    lemma_tool_names();
    lemma_route(tools, "breadcrumb_start"@, args, token);
    lemma_route(tools, "breadcrumb_step"@, args, token);
    lemma_route(tools, "breadcrumb_complete"@, args, token);
    lemma_route(tools, "breadcrumb_abort"@, args, token);
    lemma_route(tools, "breadcrumb_status"@, args, token);
    lemma_route(tools, "breadcrumb_list"@, args, token);
    lemma_route(tools, "breadcrumb_adopt"@, args, token);
    lemma_route(tools, "loaf_create"@, args, token);
    lemma_route(tools, "loaf_update"@, args, token);
    lemma_route(tools, "loaf_status"@, args, token);
    lemma_route(tools, "loaf_close"@, args, token);
}

/// Each tool on the sessions and on the network is known by its own name.
pub proof fn law_session_and_network_tools_are_known_by_name(
    tools: DriverToolsView,
    args: JsonView,
    token: Seq<char>,
)
    ensures
        driver_action(tools, "session_create"@, args, token)
            == sessions::session_create_action(tools.sessions, args),
        driver_action(tools, "session_run"@, args, token)
            == sessions::session_run_action(tools.sessions, args, token),
        driver_action(tools, "session_destroy"@, args, token)
            == sessions::session_destroy_action(tools.sessions, args),
        driver_action(tools, "session_cd"@, args, token)
            == sessions::session_cd_action(tools.sessions, args, token),
        driver_action(tools, "session_set_env"@, args, token)
            == sessions::session_set_env_action(tools.sessions, args, token),
        driver_action(tools, "session_get_env"@, args, token)
            == sessions::session_get_env_action(tools.sessions, args, token),
        driver_action(tools, "session_list"@, args, token) == ActionView::Reply(
            mcp::text_view(json::json_pretty(sessions::session_list_json(tools.sessions))),
        ),
        driver_action(tools, "session_history"@, args, token) == ActionView::Reply(
            sessions::session_history_reply(tools.sessions, args),
        ),
        driver_action(tools, "http_request"@, args, token) == http::http_request_action(args),
        driver_action(tools, "http_fetch"@, args, token) == http::http_fetch_action(args),
        driver_action(tools, "port_check"@, args, token) == http::port_check_action(args),
{
    lemma_tool_names();
    lemma_route(tools, "session_create"@, args, token);
    lemma_route(tools, "session_run"@, args, token);
    lemma_route(tools, "session_destroy"@, args, token);
    lemma_route(tools, "session_cd"@, args, token);
    lemma_route(tools, "session_set_env"@, args, token);
    lemma_route(tools, "session_get_env"@, args, token);
    lemma_route(tools, "session_list"@, args, token);
    lemma_route(tools, "session_history"@, args, token);
    lemma_route(tools, "http_request"@, args, token);
    lemma_route(tools, "http_fetch"@, args, token);
    lemma_route(tools, "port_check"@, args, token);
}

/// A call ends the session that it names if it is one to end a session; no other call takes a
/// session away, and none changes where the records are.
pub proof fn law_calls_leave_the_sessions(
    tools: DriverToolsView,
    name: Seq<char>,
    args: JsonView,
)
    ensures
        name != "session_destroy"@ ==> after_call(tools, name, args) == tools,
        name == "session_destroy"@ ==> after_call(tools, name, args).sessions
            == sessions::without_session(tools.sessions, args.str_or("session"@, ""@)),
        after_call(tools, name, args).breadcrumbs == tools.breadcrumbs,
        after_call(tools, name, args).loafs == tools.loafs,
{
}

/// A call of a tool that is none of the driver's own is refused with its name; every call can be
/// taken, but that a history has to be one that can be shown.
pub proof fn law_unknown_names_are_refused(
    tools: DriverToolsView,
    name: Seq<char>,
    args: JsonView,
    token: Seq<char>,
)
    requires
        name != "read_file"@,
        name != "write_file"@,
        name != "append_file"@,
        name != "list_dir"@,
        name != "archive_create"@,
        name != "archive_extract"@,
        name != "bash"@,
        name != "run"@,
        name != "session_create"@,
        name != "session_run"@,
        name != "session_destroy"@,
        name != "session_cd"@,
        name != "session_set_env"@,
        name != "session_get_env"@,
        name != "session_list"@,
        name != "session_history"@,
        name != "transform_grep"@,
        name != "transform_find_replace"@,
        name != "transform_diff_files"@,
        name != "transform_extract_lines"@,
        name != "transform_json_format"@,
        name != "transform_hash_file"@,
        name != "transform_file_stats"@,
        name != "git_status"@,
        name != "git_diff"@,
        name != "git_commit"@,
        name != "git_log"@,
        name != "git_stash"@,
        name != "git_branch"@,
        name != "git_checkout"@,
        name != "git_reset"@,
        name != "http_request"@,
        name != "http_fetch"@,
        name != "port_check"@,
        name != "system_info"@,
        name != "kill_process"@,
        name != "list_process"@,
        name != "breadcrumb_start"@,
        name != "breadcrumb_step"@,
        name != "breadcrumb_complete"@,
        name != "breadcrumb_abort"@,
        name != "breadcrumb_status"@,
        name != "breadcrumb_list"@,
        name != "breadcrumb_adopt"@,
        name != "loaf_create"@,
        name != "loaf_update"@,
        name != "loaf_status"@,
        name != "loaf_close"@,
    ensures
        driver_action(tools, name, args, token)
            == actions::refused("unknown driver tool: "@ + name),
        can_take(tools, name, args),
{
}

} // verus!
