//! Tools that are shell commands: the command that each call becomes, and the answer that the
//! command's outcome becomes.

use vstd::prelude::*;

use crate::actions;
use crate::actions::{refuse, shell, ActionView, ToolAction};
use crate::driver_tools::DriverTools;
use crate::json;
use crate::json::{Json, JsonView};
use crate::mcp;
use crate::mcp::{error_result, text_result, ResultView, ToolCallResult};
use crate::policy;
use crate::text;
use crate::unicode;

verus! {

/// A text between single quotes.
pub open spec fn quoted(s: Seq<char>) -> Seq<char> {
    "'"@ + s + "'"@
}

/// A text between single quotes.
pub fn quote(s: &str) -> (r: String)
    ensures
        r@ == quoted(s@),
{
    text::cat3("'", s, "'")
}

/// Texts, each between single quotes.
pub open spec fn all_quoted(s: Seq<Seq<char>>) -> Seq<Seq<char>> {
    Seq::new(s.len(), |i: int| quoted(s[i]))
}

fn quote_all(s: &Vec<String>) -> (r: Vec<String>)
    ensures
        text::texts(r@) == all_quoted(text::texts(s@)),
{
    let mut out: Vec<String> = Vec::new();
    let mut i: usize = 0;
    while i < s.len()
        invariant
            i <= s@.len(),
            out@.len() == i,
            forall|j: int| 0 <= j < i ==> (#[trigger] out@[j])@ == quoted(s@[j]@),
        decreases s@.len() - i,
    {
        out.push(quote(s[i].as_str()));
        i += 1;
    }
    proof {
        assert(text::texts(out@) =~= all_quoted(text::texts(s@)));
    }
    out
}

/// What making an archive becomes.
pub open spec fn archive_create_action(args: JsonView) -> ActionView {
    let output = args.str_or("output"@, ""@);
    let paths = args.strings_at("paths"@);
    if output.len() == 0 || paths.len() == 0 {
        actions::refused("output and paths[] are required"@)
    } else {
        actions::shell_view(
            "tar czf "@ + quoted(output) + " "@ + text::joined(all_quoted(paths), " "@),
            60,
        )
    }
}

/// What unpacking an archive becomes.
pub open spec fn archive_extract_action(args: JsonView) -> ActionView {
    let archive = args.str_or("archive"@, ""@);
    if archive.len() == 0 {
        actions::refused("archive is required"@)
    } else {
        actions::shell_view(
            "tar xzf "@ + quoted(archive) + " -C "@ + quoted(args.str_or("destination"@, "."@)),
            60,
        )
    }
}

/// What a shell command becomes, once its tier is known: it runs, where the tier permits it.
pub open spec fn bash_action_in(args: JsonView, tier: policy::Tier) -> ActionView {
    let command = args.str_or("command"@, ""@);
    if command.len() == 0 {
        actions::refused("command is required"@)
    } else if !policy::permitted(tier, args.flag("confirm"@), args.flag("allow_destructive"@)) {
        actions::refused(policy::refusal(tier, command))
    } else {
        ActionView::Bash {
            command,
            working_dir: args.str_at("working_dir"@),
            timeout_secs: args.u64_or("timeout_secs"@, 120),
        }
    }
}

/// What a shell command becomes.
pub open spec fn bash_action(args: JsonView) -> ActionView {
    bash_action_in(args, policy::tier_of(unicode::lowercase(args.str_or("command"@, ""@))))
}

/// What an unchecked shell command becomes: it runs, and its standard output is the answer.
pub open spec fn run_action(args: JsonView) -> ActionView {
    let command = args.str_or("command"@, ""@);
    if command.len() == 0 {
        actions::refused("command is required"@)
    } else {
        ActionView::BashStdout { command, timeout_secs: 30 }
    }
}

/// What a search in files becomes.
pub open spec fn grep_action(args: JsonView) -> ActionView {
    let path = args.str_or("path"@, ""@);
    let pattern = args.str_or("pattern"@, ""@);
    let context = args.u64_or("context"@, 0);
    if path.len() == 0 || pattern.len() == 0 {
        actions::refused("path and pattern are required"@)
    } else {
        let around = if context > 0 {
            "grep -n"@ + " -C "@ + text::decimal(context as nat)
        } else {
            "grep -n"@
        };
        let deep = if args.flag("recursive"@) {
            around + " -r"@
        } else {
            around
        };
        actions::shell_view(deep + " -E "@ + quoted(pattern) + " "@ + quoted(path), 30)
    }
}

/// What a comparison of files becomes.
pub open spec fn diff_files_action(args: JsonView) -> ActionView {
    let a = args.str_or("file_a"@, ""@);
    let b = args.str_or("file_b"@, ""@);
    if a.len() == 0 || b.len() == 0 {
        actions::refused("file_a and file_b are required"@)
    } else {
        actions::shell_view("diff -u "@ + quoted(a) + " "@ + quoted(b), 15)
    }
}

/// The program for a hash.
pub open spec fn hash_program(algorithm: Seq<char>) -> Seq<char> {
    if algorithm == "sha1"@ {
        "sha1sum "@
    } else if algorithm == "md5"@ {
        "md5sum "@
    } else {
        "sha256sum "@
    }
}

/// What hashing a file becomes.
pub open spec fn hash_file_action(args: JsonView) -> ActionView {
    let path = args.str_or("path"@, ""@);
    if path.len() == 0 {
        actions::refused("path is required"@)
    } else {
        actions::shell_view(
            hash_program(args.str_or("algorithm"@, "sha256"@)) + quoted(path),
            15,
        )
    }
}

/// What a question on a file's size becomes.
pub open spec fn file_stats_action(args: JsonView) -> ActionView {
    let path = args.str_or("path"@, ""@);
    if path.len() == 0 {
        actions::refused("path is required"@)
    } else if args.flag("recursive"@) {
        actions::shell_view(
            "find "@ + quoted(path) + " -type f | wc -l && du -sh "@ + quoted(path),
            15,
        )
    } else {
        actions::shell_view("stat "@ + quoted(path), 15)
    }
}

/// The start of a command in the repository of a call.
pub open spec fn git(args: JsonView) -> Seq<char> {
    "git -C "@ + quoted(args.str_or("repo_path"@, "."@))
}

fn git_in(args: &Json) -> (r: String)
    ensures
        r@ == git(args@),
{
    text::cat2("git -C ", quote(args.str_or("repo_path", ".")).as_str())
}

/// What a question on changed files becomes.
pub open spec fn git_status_action(args: JsonView) -> ActionView {
    actions::shell_view(git(args) + " status"@, 15)
}

/// What a question on changes becomes.
pub open spec fn git_diff_action(args: JsonView) -> ActionView {
    let diff = if args.flag("staged"@) {
        git(args) + " diff --cached"@
    } else {
        git(args) + " diff"@
    };
    match args.str_at("file"@) {
        Some(f) => actions::shell_view(diff + " -- "@ + quoted(f), 15),
        None => actions::shell_view(diff, 15),
    }
}

/// A text as it stands inside single quotes: each single quote ends the quotes, stands by
/// itself and begins them again.
pub open spec fn escaped(s: Seq<char>) -> Seq<char> {
    text::replaced(s, "'"@, "'\\''"@)
}

/// The commands that put files to a commit.
pub open spec fn git_adds(args: JsonView) -> Seq<Seq<char>> {
    let files = args.strings_at("files"@);
    Seq::new(files.len(), |i: int| git(args) + " add "@ + quoted(files[i]))
}

/// What a commit becomes.
pub open spec fn git_commit_action(args: JsonView) -> ActionView {
    let message = args.str_or("message"@, ""@);
    if message.len() == 0 {
        actions::refused("message is required"@)
    } else {
        let commit = if args.flag("all"@) {
            git(args) + " commit"@ + " -a"@
        } else {
            git(args) + " commit"@
        };
        ActionView::BashSeries {
            first: git_adds(args),
            first_timeout_secs: 10,
            command: commit + " -m "@ + quoted(escaped(message)),
            timeout_secs: 15,
        }
    }
}

/// What a question on past commits becomes.
pub open spec fn git_log_action(args: JsonView) -> ActionView {
    let log = git(args) + " log -n "@ + text::decimal(args.u64_or("limit"@, 10) as nat);
    actions::shell_view(
        if args.flag("oneline"@) {
            log + " --oneline"@
        } else {
            log
        },
        15,
    )
}

/// What putting changes aside becomes.
pub open spec fn git_stash_action(args: JsonView) -> ActionView {
    let action = args.str_or("action"@, "push"@);
    let stash = git(args) + " stash "@ + action;
    actions::shell_view(
        if action == "push"@ && args.str_at("message"@) is Some {
            stash + " -m "@ + quoted(args.str_at("message"@)->0)
        } else {
            stash
        },
        15,
    )
}

/// What a call on branches becomes.
pub open spec fn git_branch_action(args: JsonView) -> ActionView {
    let action = args.str_or("action"@, "list"@);
    actions::shell_view(
        if action == "create"@ {
            git(args) + " branch "@ + quoted(args.str_or("name"@, "new-branch"@))
        } else if action == "delete"@ {
            git(args) + " branch -d "@ + quoted(args.str_or("name"@, ""@))
        } else {
            git(args) + " branch -a"@
        },
        15,
    )
}

/// What a checkout becomes.
pub open spec fn git_checkout_action(args: JsonView) -> ActionView {
    let target = args.str_or("target"@, ""@);
    if target.len() == 0 {
        actions::refused("target is required"@)
    } else {
        let flag = if args.flag("create"@) {
            "-b"@
        } else {
            ""@
        };
        actions::shell_view(git(args) + " checkout "@ + flag + " "@ + quoted(target), 15)
    }
}

/// What a reset becomes.
pub open spec fn git_reset_action(args: JsonView) -> ActionView {
    actions::shell_view(
        git(args) + " reset --"@ + args.str_or("mode"@, "mixed"@) + " "@ + quoted(
            args.str_or("target"@, "HEAD"@),
        ),
        15,
    )
}

/// What a question on the system becomes.
pub open spec fn system_info_action() -> ActionView {
    actions::shell_view(
        "echo '=== OS ===' && uname -a && echo '=== Memory ===' && free -h && echo '=== Disk ===' && df -h / && echo '=== CPU ===' && nproc && echo '=== Uptime ===' && uptime"@,
        15,
    )
}

/// What ending a process becomes.
pub open spec fn kill_process_action(args: JsonView) -> ActionView {
    let pid = args.u64_or("pid"@, 0);
    if pid == 0 {
        actions::refused("pid is required"@)
    } else {
        actions::shell_view("kill "@ + text::decimal(pid as nat), 5)
    }
}

/// What a question on processes becomes.
pub open spec fn list_process_action(args: JsonView) -> ActionView {
    match args.str_at("filter"@) {
        Some(f) => actions::shell_view(
            "ps aux | head -1 && ps aux | grep -i "@ + quoted(f) + " | grep -v grep"@,
            10,
        ),
        None => actions::shell_view("ps aux --sort=-%mem | head -30"@, 10),
    }
}

impl DriverTools {
    /// Makes an archive.
    pub fn archive_create(&self, args: &Json) -> (r: ToolAction)
        ensures
            r@ == archive_create_action(args@),
    {
        let output = args.str_or("output", "");
        let paths = args.strings_at("paths");
        proof {
            assert(args@.strings_at("paths"@).len() == paths@.len());
        }
        if output.is_empty() || paths.len() == 0 {
            return refuse("output and paths[] are required");
        }
        shell(
            text::cat4(
                "tar czf ",
                quote(output).as_str(),
                " ",
                text::join(&quote_all(&paths), " ").as_str(),
            ),
            60,
        )
    }

    /// Unpacks an archive.
    pub fn archive_extract(&self, args: &Json) -> (r: ToolAction)
        ensures
            r@ == archive_extract_action(args@),
    {
        let archive = args.str_or("archive", "");
        if archive.is_empty() {
            return refuse("archive is required");
        }
        shell(
            text::cat4(
                "tar xzf ",
                quote(archive).as_str(),
                " -C ",
                quote(args.str_or("destination", ".")).as_str(),
            ),
            60,
        )
    }

    /// Runs a shell command of a known tier, if the tier permits it.
    pub fn bash_in(&self, args: &Json, tier: policy::Tier) -> (r: ToolAction)
        ensures
            r@ == bash_action_in(args@, tier),
    {
        let command = args.str_or("command", "");
        if command.is_empty() {
            return refuse("command is required");
        }
        match policy::check_tier(
            tier,
            command,
            args.flag("confirm"),
            args.flag("allow_destructive"),
        ) {
            Err(message) => refuse(message.as_str()),
            Ok(_) => ToolAction::Bash {
                command: text::copy(command),
                working_dir: args.string_at("working_dir"),
                timeout_secs: args.u64_or("timeout_secs", 120),
            },
        }
    }

    /// Runs a shell command, if its tier permits it.
    pub fn bash(&self, args: &Json) -> (r: ToolAction)
        ensures
            r@ == bash_action(args@),
            policy::is_catastrophic(args@.str_or("command"@, ""@)) ==> !(r@ is Bash),
    {
        self.bash_in(args, policy::classify_command(args.str_or("command", "")))
    }

    /// Runs a shell command, whatever its tier, for its standard output.
    pub fn run_cmd(&self, args: &Json) -> (r: ToolAction)
        ensures
            r@ == run_action(args@),
    {
        let command = args.str_or("command", "");
        if command.is_empty() {
            return refuse("command is required");
        }
        ToolAction::BashStdout { command: text::copy(command), timeout_secs: 30 }
    }

    /// Searches in files.
    pub fn transform_grep(&self, args: &Json) -> (r: ToolAction)
        ensures
            r@ == grep_action(args@),
    {
        let path = args.str_or("path", "");
        let pattern = args.str_or("pattern", "");
        let context = args.u64_or("context", 0);
        if path.is_empty() || pattern.is_empty() {
            return refuse("path and pattern are required");
        }
        let mut command = text::copy("grep -n");
        if context > 0 {
            command.push_str(" -C ");
            command.push_str(text::number(context).as_str());
        }
        if args.flag("recursive") {
            command.push_str(" -r");
        }
        shell(
            text::cat5(
                command.as_str(),
                " -E ",
                quote(pattern).as_str(),
                " ",
                quote(path).as_str(),
            ),
            30,
        )
    }

    /// Compares files.
    pub fn transform_diff_files(&self, args: &Json) -> (r: ToolAction)
        ensures
            r@ == diff_files_action(args@),
    {
        let a = args.str_or("file_a", "");
        let b = args.str_or("file_b", "");
        if a.is_empty() || b.is_empty() {
            return refuse("file_a and file_b are required");
        }
        shell(text::cat4("diff -u ", quote(a).as_str(), " ", quote(b).as_str()), 15)
    }

    /// Hashes a file.
    pub fn transform_hash_file(&self, args: &Json) -> (r: ToolAction)
        ensures
            r@ == hash_file_action(args@),
    {
        let path = args.str_or("path", "");
        let algorithm = args.str_or("algorithm", "sha256");
        if path.is_empty() {
            return refuse("path is required");
        }
        let program: &str = if text::str_eq(algorithm, "sha1") {
            "sha1sum "
        } else if text::str_eq(algorithm, "md5") {
            "md5sum "
        } else {
            "sha256sum "
        };
        shell(text::cat2(program, quote(path).as_str()), 15)
    }

    /// Asks for a file's size.
    pub fn transform_file_stats(&self, args: &Json) -> (r: ToolAction)
        ensures
            r@ == file_stats_action(args@),
    {
        let path = args.str_or("path", "");
        if path.is_empty() {
            return refuse("path is required");
        }
        let place = quote(path);
        if args.flag("recursive") {
            shell(
                text::cat4(
                    "find ",
                    place.as_str(),
                    " -type f | wc -l && du -sh ",
                    place.as_str(),
                ),
                15,
            )
        } else {
            shell(text::cat2("stat ", place.as_str()), 15)
        }
    }

    /// Asks for changed files.
    pub fn git_status(&self, args: &Json) -> (r: ToolAction)
        ensures
            r@ == git_status_action(args@),
    {
        shell(text::cat2(git_in(args).as_str(), " status"), 15)
    }

    /// Asks for changes.
    pub fn git_diff(&self, args: &Json) -> (r: ToolAction)
        ensures
            r@ == git_diff_action(args@),
    {
        let mut command = git_in(args);
        if args.flag("staged") {
            command.push_str(" diff --cached");
        } else {
            command.push_str(" diff");
        }
        match args.str_at("file") {
            Some(f) => shell(text::cat3(command.as_str(), " -- ", quote(f).as_str()), 15),
            None => shell(command, 15),
        }
    }

    /// Commits.
    pub fn git_commit(&self, args: &Json) -> (r: ToolAction)
        ensures
            r@ == git_commit_action(args@),
    {
        let message = args.str_or("message", "");
        if message.is_empty() {
            return refuse("message is required");
        }
        let files = args.strings_at("files");
        let mut first: Vec<String> = Vec::new();
        let mut i: usize = 0;
        while i < files.len()
            invariant
                i <= files@.len(),
                text::texts(files@) == args@.strings_at("files"@),
                first@.len() == i,
                forall|j: int| 0 <= j < i ==> (#[trigger] first@[j])@ == git_adds(args@)[j],
            decreases files@.len() - i,
        {
            proof {
                assert(args@.strings_at("files"@)[i as int] == files@[i as int]@);
            }
            first.push(
                text::cat3(git_in(args).as_str(), " add ", quote(files[i].as_str()).as_str()),
            );
            i += 1;
        }
        proof {
            assert(args@.strings_at("files"@).len() == files@.len());
            assert(text::texts(first@) =~= git_adds(args@));
            reveal_strlit("'");
        }
        let mut command = git_in(args);
        command.push_str(" commit");
        if args.flag("all") {
            command.push_str(" -a");
        }
        command.push_str(" -m ");
        command.push_str(quote(text::replace(message, "'", "'\\''").as_str()).as_str());
        ToolAction::BashSeries { first, first_timeout_secs: 10, command, timeout_secs: 15 }
    }

    /// Asks for past commits.
    pub fn git_log(&self, args: &Json) -> (r: ToolAction)
        ensures
            r@ == git_log_action(args@),
    {
        let mut command = text::cat3(
            git_in(args).as_str(),
            " log -n ",
            text::number(args.u64_or("limit", 10)).as_str(),
        );
        if args.flag("oneline") {
            command.push_str(" --oneline");
        }
        shell(command, 15)
    }

    /// Puts changes aside, and back.
    pub fn git_stash(&self, args: &Json) -> (r: ToolAction)
        ensures
            r@ == git_stash_action(args@),
    {
        let action = args.str_or("action", "push");
        let mut command = text::cat3(git_in(args).as_str(), " stash ", action);
        if text::str_eq(action, "push") {
            if let Some(message) = args.str_at("message") {
                command.push_str(" -m ");
                command.push_str(quote(message).as_str());
            }
        }
        shell(command, 15)
    }

    /// Lists, makes and deletes branches.
    pub fn git_branch(&self, args: &Json) -> (r: ToolAction)
        ensures
            r@ == git_branch_action(args@),
    {
        let action = args.str_or("action", "list");
        let git = git_in(args);
        let command = if text::str_eq(action, "create") {
            text::cat3(
                git.as_str(),
                " branch ",
                quote(args.str_or("name", "new-branch")).as_str(),
            )
        } else if text::str_eq(action, "delete") {
            text::cat3(git.as_str(), " branch -d ", quote(args.str_or("name", "")).as_str())
        } else {
            text::cat2(git.as_str(), " branch -a")
        };
        shell(command, 15)
    }

    /// Checks out.
    pub fn git_checkout(&self, args: &Json) -> (r: ToolAction)
        ensures
            r@ == git_checkout_action(args@),
    {
        let target = args.str_or("target", "");
        if target.is_empty() {
            return refuse("target is required");
        }
        let flag: &str = if args.flag("create") {
            "-b"
        } else {
            ""
        };
        shell(
            text::cat5(git_in(args).as_str(), " checkout ", flag, " ", quote(target).as_str()),
            15,
        )
    }

    /// Resets.
    pub fn git_reset(&self, args: &Json) -> (r: ToolAction)
        ensures
            r@ == git_reset_action(args@),
    {
        shell(
            text::cat5(
                git_in(args).as_str(),
                " reset --",
                args.str_or("mode", "mixed"),
                " ",
                quote(args.str_or("target", "HEAD")).as_str(),
            ),
            15,
        )
    }

    /// Asks for the system.
    pub fn system_info(&self) -> (r: ToolAction)
        ensures
            r@ == system_info_action(),
    {
        shell(
            text::copy(
                "echo '=== OS ===' && uname -a && echo '=== Memory ===' && free -h && echo '=== Disk ===' && df -h / && echo '=== CPU ===' && nproc && echo '=== Uptime ===' && uptime",
            ),
            15,
        )
    }

    /// Ends a process.
    pub fn kill_process(&self, args: &Json) -> (r: ToolAction)
        ensures
            r@ == kill_process_action(args@),
    {
        let pid = args.u64_or("pid", 0);
        if pid == 0 {
            return refuse("pid is required");
        }
        shell(text::cat2("kill ", text::number(pid).as_str()), 5)
    }

    /// Lists processes.
    pub fn list_process(&self, args: &Json) -> (r: ToolAction)
        ensures
            r@ == list_process_action(args@),
    {
        match args.str_at("filter") {
            Some(f) => shell(
                text::cat3(
                    "ps aux | head -1 && ps aux | grep -i ",
                    quote(f).as_str(),
                    " | grep -v grep",
                ),
                10,
            ),
            None => shell(text::copy("ps aux --sort=-%mem | head -30"), 10),
        }
    }
}

/// What became of a shell command.
#[derive(Debug, Clone, PartialEq, Eq)]
pub enum BashOutcome {
    /// It ended, with this output and this exit code, if it has one.
    Ended { stdout: Vec<u8>, stderr: Vec<u8>, success: bool, code: Option<i32> },
    /// It could not be started.
    NotStarted(String),
    /// It took too long.
    TimedOut,
}

/// The output of a command: what it said, and behind it what it complained of.
pub open spec fn output_text(stdout: Seq<char>, stderr: Seq<char>) -> Seq<char> {
    if stderr.len() == 0 {
        stdout
    } else if stdout.len() == 0 {
        stdout + "[stderr] "@ + stderr
    } else {
        stdout.push('\n') + "[stderr] "@ + stderr
    }
}

/// The longest output that is answered with, in bytes.
pub const MAX_OUTPUT: usize = 100_000;

/// The answer that the output of a command that ended becomes.
pub open spec fn ended_reply(output: Seq<char>, success: bool, code: Option<i32>) -> ResultView {
    let shown = text::clipped(output, MAX_OUTPUT as nat, "\n... [truncated at 100KB]"@);
    if success {
        mcp::text_view(shown)
    } else {
        let number = match code {
            Some(c) => c as int,
            None => -1,
        };
        mcp::error_view("exit code "@ + text::signed_decimal(number) + "\n"@ + shown)
    }
}

/// The output of a command: what it said, and behind it what it complained of.
pub fn combine_output(stdout: &str, stderr: &str) -> (r: String)
    ensures
        r@ == output_text(stdout@, stderr@),
{
    let mut r = text::copy(stdout);
    if !stderr.is_empty() {
        if !stdout.is_empty() {
            r.push('\n');
        }
        r.push_str("[stderr] ");
        r.push_str(stderr);
    }
    r
}

/// The answer that the output of a command that ended becomes.
pub fn reply_to_output(output: &str, success: bool, code: Option<i32>) -> (r: ToolCallResult)
    requires
        text::can_cut(output@, MAX_OUTPUT as nat),
    ensures
        r@ == ended_reply(output@, success, code),
{
    let shown = text::clip(output, MAX_OUTPUT, "\n... [truncated at 100KB]");
    if success {
        text_result(shown.as_str())
    } else {
        let number: i64 = match code {
            Some(c) => c as i64,
            None => -1,
        };
        error_result(
            text::cat4(
                "exit code ",
                text::signed_number(number).as_str(),
                "\n",
                shown.as_str(),
            ).as_str(),
        )
    }
}

/// The output of a command that ended, as text.
pub open spec fn text_of_output(stdout: Seq<u8>, stderr: Seq<u8>) -> Seq<char> {
    output_text(unicode::utf8_lossy(stdout), unicode::utf8_lossy(stderr))
}

/// The answer that a command's outcome becomes, where `output` is its output, if it ended.
pub open spec fn outcome_reply(
    outcome: BashOutcome,
    output: Seq<char>,
    timeout_secs: u64,
) -> ResultView {
    match outcome {
        BashOutcome::Ended { success, code, .. } => ended_reply(output, success, code),
        BashOutcome::NotStarted(e) => mcp::error_view("spawn error: "@ + e@),
        BashOutcome::TimedOut => mcp::error_view(
            "command timed out after "@ + text::decimal(timeout_secs as nat) + "s"@,
        ),
    }
}

/// All output of a command, as text; nothing, where it did not end.
pub open spec fn whole_output(outcome: BashOutcome) -> Seq<char> {
    match outcome {
        BashOutcome::Ended { stdout, stderr, .. } => text_of_output(stdout@, stderr@),
        _ => ""@,
    }
}

/// The standard output of a command, as text; nothing, where it did not end.
pub open spec fn standard_output(outcome: BashOutcome) -> Seq<char> {
    match outcome {
        BashOutcome::Ended { stdout, .. } => unicode::utf8_lossy(stdout@),
        _ => ""@,
    }
}

/// The answer that a command's outcome becomes.
pub open spec fn bash_reply(outcome: BashOutcome, timeout_secs: u64) -> ResultView {
    outcome_reply(outcome, whole_output(outcome), timeout_secs)
}

/// The answer that a command's outcome becomes, where only its standard output counts.
pub open spec fn stdout_reply(outcome: BashOutcome, timeout_secs: u64) -> ResultView {
    outcome_reply(outcome, standard_output(outcome), timeout_secs)
}

/// Whether the output of a command can be cut where the answer cuts it.
pub open spec fn outcome_cuttable(outcome: BashOutcome) -> bool {
    text::can_cut(whole_output(outcome), MAX_OUTPUT as nat)
}

/// Whether the standard output of a command can be cut where the answer cuts it.
pub open spec fn stdout_cuttable(outcome: BashOutcome) -> bool {
    text::can_cut(standard_output(outcome), MAX_OUTPUT as nat)
}

fn all_output(outcome: &BashOutcome) -> (r: String)
    ensures
        r@ == whole_output(*outcome),
{
    match outcome {
        BashOutcome::Ended { stdout, stderr, .. } => combine_output(
            unicode::from_utf8_lossy(stdout.as_slice()).as_str(),
            unicode::from_utf8_lossy(stderr.as_slice()).as_str(),
        ),
        _ => text::copy(""),
    }
}

fn said_output(outcome: &BashOutcome) -> (r: String)
    ensures
        r@ == standard_output(*outcome),
{
    match outcome {
        BashOutcome::Ended { stdout, .. } => unicode::from_utf8_lossy(stdout.as_slice()),
        _ => text::copy(""),
    }
}

/// The answer that a command's outcome becomes, where `output` is its output, if it ended.
pub fn reply_to_outcome(outcome: &BashOutcome, output: &str, timeout_secs: u64) -> (r:
    ToolCallResult)
    requires
        text::can_cut(output@, MAX_OUTPUT as nat),
    ensures
        r@ == outcome_reply(*outcome, output@, timeout_secs),
{
    match outcome {
        BashOutcome::Ended { success, code, .. } => reply_to_output(output, *success, *code),
        BashOutcome::NotStarted(e) => error_result(
            text::cat2("spawn error: ", e.as_str()).as_str(),
        ),
        BashOutcome::TimedOut => error_result(
            text::cat3(
                "command timed out after ",
                text::number(timeout_secs).as_str(),
                "s",
            ).as_str(),
        ),
    }
}

/// The answer that a command's outcome becomes.
pub fn run_bash(outcome: &BashOutcome, timeout_secs: u64) -> (r: ToolCallResult)
    requires
        outcome_cuttable(*outcome),
    ensures
        r@ == bash_reply(*outcome, timeout_secs),
{
    reply_to_outcome(outcome, all_output(outcome).as_str(), timeout_secs)
}

/// The answer that a command's outcome becomes; none, where a character stands across the place
/// at which a long output is cut.
pub fn try_run_bash(outcome: &BashOutcome, timeout_secs: u64) -> (r: Option<ToolCallResult>)
    ensures
        match r {
            Some(reply) => outcome_cuttable(*outcome) && reply@ == bash_reply(
                *outcome,
                timeout_secs,
            ),
            None => !outcome_cuttable(*outcome),
        },
{
    if text::is_cuttable(all_output(outcome).as_str(), MAX_OUTPUT) {
        Some(run_bash(outcome, timeout_secs))
    } else {
        None
    }
}

/// The answer that a command's outcome becomes, where only its standard output counts.
pub fn run_stdout(outcome: &BashOutcome, timeout_secs: u64) -> (r: ToolCallResult)
    requires
        stdout_cuttable(*outcome),
    ensures
        r@ == stdout_reply(*outcome, timeout_secs),
        match *outcome {
            BashOutcome::Ended { stdout, success, .. } => success ==> r@ == mcp::text_view(
                text::clipped(
                    unicode::utf8_lossy(stdout@),
                    MAX_OUTPUT as nat,
                    "\n... [truncated at 100KB]"@,
                ),
            ),
            _ => true,
        },
{
    reply_to_outcome(outcome, said_output(outcome).as_str(), timeout_secs)
}

/// The answer that a command's outcome becomes, where only its standard output counts; none,
/// where a character stands across the place at which a long output is cut.
pub fn try_run_stdout(outcome: &BashOutcome, timeout_secs: u64) -> (r: Option<ToolCallResult>)
    ensures
        match r {
            Some(reply) => stdout_cuttable(*outcome) && reply@ == stdout_reply(
                *outcome,
                timeout_secs,
            ),
            None => !stdout_cuttable(*outcome),
        },
{
    if text::is_cuttable(said_output(outcome).as_str(), MAX_OUTPUT) {
        Some(run_stdout(outcome, timeout_secs))
    } else {
        None
    }
}

/// Where only the standard output counts, what a command complains of makes no difference.
pub proof fn law_complaints_are_left_out(
    stdout: Vec<u8>,
    stderr: Vec<u8>,
    other: Vec<u8>,
    success: bool,
    code: Option<i32>,
    timeout_secs: u64,
)
    ensures
        stdout_reply(BashOutcome::Ended { stdout, stderr, success, code }, timeout_secs)
            == stdout_reply(
            BashOutcome::Ended { stdout, stderr: other, success, code },
            timeout_secs,
        ),
{
}

/// What a shell takes a text for that is made of single quotes with anything between them and
/// of characters with a backslash in front: without the quotes and the backslashes. `quote` says
/// whether the text begins between quotes. A text that is not made so is taken for nothing.
pub open spec fn shell_word(s: Seq<char>, quote: bool) -> Option<Seq<char>>
    decreases s.len(),
{
    if s.len() == 0 {
        if quote {
            None
        } else {
            Some(Seq::empty())
        }
    } else if s[0] == '\'' {
        shell_word(s.skip(1), !quote)
    } else if quote {
        match shell_word(s.skip(1), quote) {
            Some(rest) => Some(seq![s[0]] + rest),
            None => None,
        }
    } else if s[0] == '\\' && s.len() > 1 {
        match shell_word(s.skip(2), quote) {
            Some(rest) => Some(seq![s[1]] + rest),
            None => None,
        }
    } else {
        None
    }
}

/// The message of a commit reaches the shell as one word that is the message itself, whatever
/// quotes stand in it.
pub proof fn law_message_is_one_word(message: Seq<char>)
    ensures
        shell_word(quoted(escaped(message)), false) == Some(message),
{
    reveal_strlit("'");
    let whole = quoted(escaped(message));
    assert(whole[0] == '\'');
    assert(whole.skip(1) =~= escaped(message) + "'"@);
    lemma_inside_quotes(message);
}

proof fn lemma_inside_quotes(s: Seq<char>)
    ensures
        shell_word(escaped(s) + "'"@, true) == Some(s),
    decreases s.len(),
{
    reveal_strlit("'");
    reveal_strlit("'\\''");
    let end = "'"@;
    let whole = escaped(s) + end;
    if s.len() == 0 {
        assert(whole =~= end);
        assert(whole.skip(1).len() == 0);
        assert(shell_word(whole.skip(1), false) == Some(Seq::<char>::empty()));
        assert(s =~= Seq::empty());
    } else {
        assert(text::has_prefix(s, "'"@) == (s[0] == '\'')) by {
            if s[0] == '\'' {
                assert(s.subrange(0, 1) =~= "'"@);
            } else {
                assert(s.subrange(0, 1)[0] == s[0]);
            }
        }
        assert(s.skip(1) =~= s.drop_first());
        lemma_inside_quotes(s.drop_first());
        let rest = escaped(s.drop_first()) + end;
        assert(s =~= seq![s[0]] + s.drop_first());
        if s[0] == '\'' {
            assert(whole =~= "'\\''"@ + rest);
            assert(whole[0] == '\'' && whole[1] == '\\' && whole[2] == '\'' && whole[3] == '\'');
            assert(whole.skip(1).skip(2).skip(1) =~= rest);
            assert(whole.skip(1)[0] == '\\' && whole.skip(1)[1] == '\'');
            assert(whole.skip(1).skip(2)[0] == '\'');
            assert(shell_word(whole.skip(1).skip(2), false) == shell_word(rest, true));
        } else {
            assert(whole =~= seq![s[0]] + rest);
            assert(whole.skip(1) =~= rest);
        }
    }
}

/// No command with catastrophic words in it is run by the checked tool, whatever is granted.
pub proof fn law_nothing_rejected_is_run(args: JsonView)
    requires
        policy::has_any(
            unicode::lowercase(args.str_or("command"@, ""@)),
            policy::rejected_patterns(),
        ),
    ensures
        !(bash_action(args) is Bash),
{
}

/// The output of a command is what it said; what it complained of stands behind it, marked, on a
/// line of its own.
pub proof fn law_complaints_follow_the_output(
    stdout: Seq<char>,
    stderr: Seq<char>,
)
    ensures
        output_text(stdout, ""@) == stdout,
        stderr.len() > 0 ==> output_text(""@, stderr) == "[stderr] "@ + stderr,
        stdout.len() > 0
            && stderr.len() > 0 ==> output_text(stdout, stderr) == stdout + "\n[stderr] "@
            + stderr,
{
    reveal_strlit("");
    reveal_strlit("[stderr] ");
    reveal_strlit("\n[stderr] ");
    assert(""@ + "[stderr] "@ + stderr =~= "[stderr] "@ + stderr);
    assert(stdout.push('\n') + "[stderr] "@ + stderr =~= stdout + "\n[stderr] "@ + stderr);
}

/// A command that ended well is answered with its output, one that did not with an error that gives
/// its exit code before the output; only the first hundred thousand bytes of the output are given.
/// One that did not start or took too long is answered with an error that says so.
pub proof fn law_outcome_is_answered(
    stdout: Vec<u8>,
    stderr: Vec<u8>,
    code: Option<i32>,
    reason: String,
    timeout_secs: u64,
    shown: Seq<char>,
    said: Seq<char>,
)
    requires
        shown == text::clipped(
            output_text(unicode::utf8_lossy(stdout@), unicode::utf8_lossy(stderr@)),
            100_000,
            "\n... [truncated at 100KB]"@,
        ),
        said == text::clipped(
            unicode::utf8_lossy(stdout@),
            100_000,
            "\n... [truncated at 100KB]"@,
        ),
    ensures
        bash_reply(BashOutcome::Ended { stdout, stderr, success: true, code }, timeout_secs)
            == mcp::text_view(shown),
        stdout_reply(BashOutcome::Ended { stdout, stderr, success: true, code }, timeout_secs)
            == mcp::text_view(said),
        code matches Some(c) ==> bash_reply(
            BashOutcome::Ended { stdout, stderr, success: false, code },
            timeout_secs,
        ) == mcp::error_view("exit code "@ + text::signed_decimal(c as int) + "\n"@ + shown),
        code matches Some(c) ==> stdout_reply(
            BashOutcome::Ended { stdout, stderr, success: false, code },
            timeout_secs,
        ) == mcp::error_view("exit code "@ + text::signed_decimal(c as int) + "\n"@ + said),
        code is None ==> bash_reply(
            BashOutcome::Ended { stdout, stderr, success: false, code },
            timeout_secs,
        ) == mcp::error_view("exit code -1\n"@ + shown),
        code is None ==> stdout_reply(
            BashOutcome::Ended { stdout, stderr, success: false, code },
            timeout_secs,
        ) == mcp::error_view("exit code -1\n"@ + said),
        bash_reply(BashOutcome::NotStarted(reason), timeout_secs) == mcp::error_view(
            "spawn error: "@ + reason@,
        ),
        stdout_reply(BashOutcome::NotStarted(reason), timeout_secs) == mcp::error_view(
            "spawn error: "@ + reason@,
        ),
        bash_reply(BashOutcome::TimedOut, timeout_secs) == mcp::error_view(
            "command timed out after "@ + text::decimal(timeout_secs as nat) + "s"@,
        ),
        stdout_reply(BashOutcome::TimedOut, timeout_secs) == mcp::error_view(
            "command timed out after "@ + text::decimal(timeout_secs as nat) + "s"@,
        ),
{
    reveal_strlit("exit code ");
    reveal_strlit("\n");
    reveal_strlit("exit code -1\n");
    assert(text::decimal(1) =~= seq!['1']);
    assert(text::signed_decimal(-1) =~= seq!['-', '1']);
    assert("exit code "@ + text::signed_decimal(-1) + "\n"@ =~= "exit code -1\n"@);
}

/// An output can be given in an answer where it is no longer than the answer's limit, and where the
/// command did not end.
pub proof fn law_short_outputs_can_be_given(
    outcome: BashOutcome,
    stdout: Vec<u8>,
    stderr: Vec<u8>,
    success: bool,
    code: Option<i32>,
)
    ensures
        !(outcome is Ended) ==> outcome_cuttable(outcome) && stdout_cuttable(outcome),
        outcome == (BashOutcome::Ended { stdout, stderr, success, code }) ==> {
            &&& text::byte_len(unicode::utf8_lossy(stdout@)) <= 100_000 ==> stdout_cuttable(outcome)
            &&& text::byte_len(
                output_text(unicode::utf8_lossy(stdout@), unicode::utf8_lossy(stderr@)),
            ) <= 100_000 ==> outcome_cuttable(outcome)
        },
{
    reveal_strlit("");
    assert(text::byte_len(""@) == 0) by {
        assert(""@ =~= Seq::<char>::empty());
    }
}

} // verus!
