//! Tools on files: what a call asks of the file system, and the answer that a file's text
//! becomes.

use vstd::prelude::*;

use crate::actions;
use crate::actions::{refuse, ActionView, ToolAction};
use crate::driver_tools::DriverTools;
use crate::json;
use crate::json::{Json, JsonView};
use crate::mcp;
use crate::mcp::{error_result, text_result, ResultView, ToolCallResult};
use crate::text;

verus! {

/// A line with its number in front, counted from one.
pub open spec fn numbered_line(i: int, line: Seq<char>) -> Seq<char> {
    text::right_aligned(text::decimal((i + 1) as nat), 5) + "\t"@ + line
}

/// The lines that are kept, each with its number in front.
pub open spec fn listing(lines: Seq<Seq<char>>, keep: spec_fn(int) -> bool) -> Seq<Seq<char>>
    decreases lines.len(),
{
    if lines.len() == 0 {
        Seq::empty()
    } else {
        let front = listing(lines.drop_last(), keep);
        if keep(lines.len() - 1) {
            front.push(numbered_line(lines.len() - 1, lines.last()))
        } else {
            front
        }
    }
}

/// The lines that are kept, each with its number in front, one below the other.
pub open spec fn listing_text(lines: Seq<Seq<char>>, keep: spec_fn(int) -> bool) -> Seq<char> {
    text::joined(listing(lines, keep), "\n"@)
}

/// The lines with a number from `start` to `end`.
pub open spec fn in_range(start: nat, end: nat) -> spec_fn(int) -> bool {
    |i: int| start <= i + 1 <= end
}

/// The lines in which `search` stands.
pub open spec fn with_text(lines: Seq<Seq<char>>, search: Seq<char>) -> spec_fn(int) -> bool {
    |i: int| text::contains_text(lines[i], search)
}

/// All lines.
pub open spec fn every_line() -> spec_fn(int) -> bool {
    |i: int| true
}

/// The lines of `content` from `start` to `end`, each with its number in front.
pub open spec fn extract(content: Seq<char>, start: nat, end: nat) -> Seq<char> {
    listing_text(text::lines_of(content), in_range(start, end))
}

/// The kept lines, numbered. `kept` says of each line whether it is kept.
fn number_lines(lines: &Vec<String>, kept: &Vec<bool>, Ghost(keep): Ghost<spec_fn(int) -> bool>) -> (r:
    String)
    requires
        kept@.len() == lines@.len(),
        forall|i: int| 0 <= i < kept@.len() ==> (#[trigger] kept@[i]) == keep(i),
    ensures
        r@ == listing_text(text::texts(lines@), keep),
{
    let ghost all = text::texts(lines@);
    let mut out: Vec<String> = Vec::new();
    let mut i: usize = 0;
    proof {
        assert(text::texts(out@) =~= listing(all.take(0), keep));
    }
    while i < lines.len()
        invariant
            i <= lines@.len(),
            all == text::texts(lines@),
            kept@.len() == lines@.len(),
            forall|i: int| 0 <= i < kept@.len() ==> (#[trigger] kept@[i]) == keep(i),
            text::texts(out@) == listing(all.take(i as int), keep),
        decreases lines@.len() - i,
    {
        proof {
            assert(all.take(i + 1).drop_last() =~= all.take(i as int));
        }
        if kept[i] {
            let line = text::cat3(
                text::aligned_number(i as u64 + 1, 5).as_str(),
                "\t",
                lines[i].as_str(),
            );
            let ghost before = out@;
            out.push(line);
            proof {
                text::lemma_texts_push(before, line);
            }
        }
        i += 1;
    }
    proof {
        assert(all.take(i as int) =~= all);
    }
    text::join(&out, "\n")
}

/// The lines of `content` from `start` to `end`, each with its number in front.
pub fn extract_lines(content: &str, start: usize, end: usize) -> (r: String)
    ensures
        r@ == extract(content@, start as nat, end as nat),
{
    let lines = text::lines(content);
    let mut kept: Vec<bool> = Vec::new();
    let ghost keep = in_range(start as nat, end as nat);
    let mut i: usize = 0;
    while i < lines.len()
        invariant
            i <= lines@.len(),
            keep == in_range(start as nat, end as nat),
            kept@.len() == i,
            forall|j: int| 0 <= j < i ==> (#[trigger] kept@[j]) == keep(j),
        decreases lines@.len() - i,
    {
        let n: u64 = i as u64 + 1;
        kept.push(n >= start as u64 && n <= end as u64);
        i += 1;
    }
    number_lines(&lines, &kept, Ghost(keep))
}

/// The lines of `content` in which `search` stands, each with its number in front.
fn search_lines(content: &str, search: &str) -> (r: String)
    ensures
        r@ == listing_text(
            text::lines_of(content@),
            with_text(text::lines_of(content@), search@),
        ),
{
    let lines = text::lines(content);
    let mut kept: Vec<bool> = Vec::new();
    let ghost keep = with_text(text::lines_of(content@), search@);
    let mut i: usize = 0;
    while i < lines.len()
        invariant
            i <= lines@.len(),
            text::texts(lines@) == text::lines_of(content@),
            keep == with_text(text::lines_of(content@), search@),
            kept@.len() == i,
            forall|j: int| 0 <= j < i ==> (#[trigger] kept@[j]) == keep(j),
        decreases lines@.len() - i,
    {
        proof {
            assert(text::lines_of(content@)[i as int] == lines@[i as int]@);
        }
        kept.push(text::contains(lines[i].as_str(), search));
        i += 1;
    }
    number_lines(&lines, &kept, Ghost(keep))
}

/// All lines of `content`, each with its number in front.
fn all_lines(content: &str) -> (r: String)
    ensures
        r@ == listing_text(text::lines_of(content@), every_line()),
{
    let lines = text::lines(content);
    let mut kept: Vec<bool> = Vec::new();
    let ghost keep = every_line();
    let mut i: usize = 0;
    while i < lines.len()
        invariant
            i <= lines@.len(),
            keep == every_line(),
            kept@.len() == i,
            forall|j: int| 0 <= j < i ==> (#[trigger] kept@[j]) == keep(j),
        decreases lines@.len() - i,
    {
        kept.push(true);
        i += 1;
    }
    number_lines(&lines, &kept, Ghost(keep))
}

/// The first and the last line of a range that is written as two numbers with a dash between
/// them. A first number that cannot be read is 1, a last one the highest there is; a text with
/// no dash or more than one is no range.
pub open spec fn line_range(s: Seq<char>) -> Option<(nat, nat)> {
    let dash = text::char_at(s, '-') as int;
    if dash >= s.len() {
        None
    } else {
        let rest = s.skip(dash + 1);
        if text::char_at(rest, '-') < rest.len() {
            None
        } else {
            let first = match text::parsed_number(s.take(dash), usize::MAX as nat) {
                Some(n) => n,
                None => 1,
            };
            let last = match text::parsed_number(rest, usize::MAX as nat) {
                Some(n) => n,
                None => usize::MAX as nat,
            };
            Some((first, last))
        }
    }
}

fn position_of(v: &Vec<char>, c: char, from: usize) -> (r: usize)
    requires
        from <= v@.len(),
    ensures
        from <= r <= v@.len(),
        text::char_at(v@.skip(from as int), c) == r - from,
{
    let mut i: usize = from;
    while i < v.len() && v[i] != c
        invariant
            from <= i <= v@.len(),
            forall|j: int| from <= j < i ==> v@[j] != c,
        decreases v@.len() - i,
    {
        i += 1;
    }
    proof {
        text::lemma_char_at(v@.skip(from as int), c, i - from);
    }
    i
}

/// The first and the last line of a range that is written as two numbers with a dash between
/// them.
pub fn parse_line_range(s: &str) -> (r: Option<(usize, usize)>)
    ensures
        match r {
            Some((first, last)) => line_range(s@) == Some((first as nat, last as nat)),
            None => line_range(s@) is None,
        },
{
    let v = text::to_chars(s);
    let dash = position_of(&v, '-', 0);
    proof {
        assert(v@.skip(0) =~= v@);
    }
    if dash >= v.len() {
        return None;
    }
    let next = position_of(&v, '-', dash + 1);
    if next < v.len() {
        return None;
    }
    let front = text::from_chars(&v, 0, dash);
    let back = text::from_chars(&v, dash + 1, v.len());
    proof {
        assert(front@ =~= s@.take(dash as int));
        assert(back@ =~= s@.skip(dash + 1));
    }
    let first: usize = match text::parse_usize(front.as_str()) {
        Some(n) => n,
        None => 1,
    };
    let last: usize = match text::parse_usize(back.as_str()) {
        Some(n) => n,
        None => usize::MAX,
    };
    Some((first, last))
}

/// What reading a file becomes.
pub open spec fn read_file_action(args: JsonView) -> ActionView {
    let path = args.str_or("path"@, ""@);
    if path.len() == 0 {
        actions::refused("path is required"@)
    } else {
        ActionView::ReadFile { path }
    }
}

/// The longest file that a call wants to see whole, in bytes.
pub open spec fn max_bytes(args: JsonView) -> nat {
    (args.u64_or("max_kb"@, 100) * 1024) as nat
}

/// The mark behind a listing that is cut.
pub open spec fn cut_mark(args: JsonView) -> Seq<char> {
    "\n... [truncated at "@ + text::decimal(args.u64_or("max_kb"@, 100) as nat) + "KB]"@
}

/// All lines of a file, each with its number in front. Of a file that is longer than the call
/// wants to see, this listing is cut to as many bytes.
pub open spec fn whole_listing(args: JsonView, content: Seq<char>) -> Seq<char> {
    let listed = listing_text(text::lines_of(content), every_line());
    if text::byte_len(content) > max_bytes(args) {
        text::cut(listed, max_bytes(args), cut_mark(args))
    } else {
        listed
    }
}

/// All lines of a file, each with its number in front, as far as the call wants to see them.
fn show_whole(args: &Json, content: &str) -> (r: String)
    ensures
        r@ == whole_listing(args@, content@),
{
    let listed = all_lines(content);
    let max_kb: u64 = args.u64_or("max_kb", 100);
    let limit: u128 = max_kb as u128 * 1024;
    if text::bytes(content) as u128 > limit {
        let mark = text::cat3("\n... [truncated at ", text::number(max_kb).as_str(), "KB]");
        text::cut_to(listed.as_str(), limit as usize, mark.as_str())
    } else {
        listed
    }
}

/// The answer that the text of a file becomes: the lines in the range that the call gives; else
/// those with the text that it gives; else all of them, as far as the call wants to see them.
pub open spec fn read_file_reply(args: JsonView, content: Seq<char>) -> ResultView {
    let range = match args.str_at("lines"@) {
        Some(s) => line_range(s),
        None => None,
    };
    match range {
        Some((first, last)) => mcp::text_view(extract(content, first, last)),
        None => match args.str_at("search"@) {
            Some(search) => {
                let lines = text::lines_of(content);
                let found = listing_text(lines, with_text(lines, search));
                if found.len() == 0 {
                    mcp::text_view(
                        "no lines matching '"@ + search + "' in "@ + args.str_or("path"@, ""@),
                    )
                } else {
                    mcp::text_view(found)
                }
            },
            None => mcp::text_view(whole_listing(args, content)),
        },
    }
}

/// What writing a file becomes.
pub open spec fn write_file_action(args: JsonView) -> ActionView {
    let path = args.str_or("path"@, ""@);
    if path.len() == 0 {
        actions::refused("path is required"@)
    } else {
        ActionView::WriteFile { path, content: args.str_or("content"@, ""@) }
    }
}

/// What writing at a file's end becomes.
pub open spec fn append_file_action(args: JsonView) -> ActionView {
    let path = args.str_or("path"@, ""@);
    if path.len() == 0 {
        actions::refused("path is required"@)
    } else {
        ActionView::AppendFile { path, content: args.str_or("content"@, ""@) }
    }
}

/// What listing a directory becomes.
pub open spec fn list_dir_action(args: JsonView) -> ActionView {
    ActionView::ListDir {
        path: args.str_or("path"@, "."@),
        depth: args.u64_or("depth"@, 2) as usize,
    }
}

/// What replacing texts in a file becomes.
pub open spec fn find_replace_action(args: JsonView) -> ActionView {
    let path = args.str_or("path"@, ""@);
    if path.len() == 0 || args.str_or("find"@, ""@).len() == 0 {
        actions::refused("path and find are required"@)
    } else {
        ActionView::FindReplace { path }
    }
}

/// What taking lines out of a file becomes.
pub open spec fn extract_lines_action(args: JsonView) -> ActionView {
    let path = args.str_or("path"@, ""@);
    if path.len() == 0 {
        actions::refused("path is required"@)
    } else {
        ActionView::ExtractLines { path }
    }
}

/// The lines of a file with the text `content` that a call asks for.
pub open spec fn extract_lines_reply(args: JsonView, content: Seq<char>) -> ResultView {
    mcp::text_view(
        extract(
            content,
            (args.u64_or("start"@, 1) as usize) as nat,
            (args.u64_or("end"@, u64::MAX) as usize) as nat,
        ),
    )
}

/// The answer that a value to be written anew becomes, once it was read.
pub open spec fn formatted(parsed: Result<JsonView, Seq<char>>) -> ResultView {
    match parsed {
        Ok(v) => mcp::text_view(json::json_pretty(v)),
        Err(e) => mcp::error_view("invalid JSON: "@ + e),
    }
}

/// What writing JSON anew becomes.
pub open spec fn json_format_action(args: JsonView) -> ActionView {
    let input = args.str_or("json_string"@, ""@);
    if input.len() == 0 {
        actions::refused("json_string is required"@)
    } else {
        ActionView::Reply(formatted(json::json_parse(input)))
    }
}

/// What `regex::Regex::replace_all` makes of a text with the pattern `find`, or the words of the
/// error, where `find` is no pattern.
pub uninterp spec fn regex_replaced(find: Seq<char>, content: Seq<char>, replace: Seq<char>) -> Result<
    Seq<char>,
    Seq<char>,
>;

/// A text or the words of an error.
pub open spec fn result_text(r: Result<String, String>) -> Result<Seq<char>, Seq<char>> {
    match r {
        Ok(s) => Ok(s@),
        Err(e) => Err(e@),
    }
}

/// `regex::Regex::new` and `Regex::replace_all`: the new text, or the words of the error, is a
/// function of the pattern, the text and the replacement alone.
#[verifier::external_body]
fn regex_replace(find: &str, content: &str, replace: &str) -> (r: Result<String, String>)
    ensures
        result_text(r) == regex_replaced(find@, content@, replace@),
{
    let pattern = regex::Regex::new(find).map_err(|e| e.to_string())?;
    Ok(pattern.replace_all(content, replace).to_string())
}

/// What is done about a file in which texts were replaced.
#[derive(Debug, Clone, PartialEq, Eq)]
pub enum Replacement {
    /// Nothing: the call is answered.
    Reply(ToolCallResult),
    /// The file is written anew; then `reply` is the answer. Where the writing fails, the call
    /// itself fails.
    Write { content: String, reply: ToolCallResult },
}

/// What is done about a file in which texts were replaced, over texts.
pub enum ReplacementView {
    Reply(ResultView),
    Write { content: Seq<char>, reply: ResultView },
}

impl Replacement {
    pub open spec fn view(&self) -> ReplacementView {
        match *self {
            Replacement::Reply(r) => ReplacementView::Reply(r@),
            Replacement::Write { content, reply } => ReplacementView::Write {
                content: content@,
                reply: reply@,
            },
        }
    }
}

/// What is done about the file at `path` with the text `content`, once its new text is known:
/// it is written only where it is another one.
pub open spec fn replacement(
    path: Seq<char>,
    content: Seq<char>,
    new_content: Result<Seq<char>, Seq<char>>,
) -> ReplacementView {
    match new_content {
        Err(e) => ReplacementView::Reply(mcp::error_view("invalid regex: "@ + e)),
        Ok(new) => if new == content {
            ReplacementView::Reply(mcp::text_view(path + ": 0 replacement(s) applied"@))
        } else {
            ReplacementView::Write {
                content: new,
                reply: mcp::text_view(path + ": 1 replacement(s) applied"@),
            }
        },
    }
}

/// The new text of a file.
pub open spec fn new_content(args: JsonView, content: Seq<char>) -> Result<Seq<char>, Seq<char>> {
    let find = args.str_or("find"@, ""@);
    let replace = args.str_or("replace"@, ""@);
    if args.flag("regex"@) {
        regex_replaced(find, content, replace)
    } else {
        Ok(text::replaced(content, find, replace))
    }
}

/// What is done about the file at `path` once its new text is known.
pub fn settle_replacement(path: &str, content: &str, new: Result<String, String>) -> (r: Replacement)
    ensures
        r@ == replacement(path@, content@, result_text(new)),
{
    match new {
        Err(e) => Replacement::Reply(
            error_result(text::cat2("invalid regex: ", e.as_str()).as_str()),
        ),
        Ok(new) => if text::str_eq(new.as_str(), content) {
            Replacement::Reply(
                text_result(text::cat2(path, ": 0 replacement(s) applied").as_str()),
            )
        } else {
            Replacement::Write {
                content: new,
                reply: text_result(text::cat2(path, ": 1 replacement(s) applied").as_str()),
            }
        },
    }
}

/// Replaces texts in a file with the text `content`.
pub fn find_replace(args: &Json, content: &str) -> (r: Replacement)
    requires
        args@.str_or("find"@, ""@).len() > 0,
    ensures
        r@ == replacement(
            args@.str_or("path"@, ""@),
            content@,
            new_content(args@, content@),
        ),
{
    let find = args.str_or("find", "");
    let replace = args.str_or("replace", "");
    let new: Result<String, String> = if args.flag("regex") {
        regex_replace(find, content, replace)
    } else {
        Ok(text::replace(content, find, replace))
    };
    settle_replacement(args.str_or("path", ""), content, new)
}

/// An entry of a directory that was walked.
#[derive(Debug, Clone, PartialEq, Eq)]
pub enum WalkEntry {
    /// A file or a directory, so many levels below the start.
    Found { depth: usize, name: String, is_dir: bool },
    /// What went wrong.
    Failed(String),
}

/// The line of an entry: a directory ends in `/`, and every level is two spaces in.
pub open spec fn walk_line(entry: WalkEntry) -> Seq<char> {
    match entry {
        WalkEntry::Found { depth, name, is_dir } => text::spaces(2 * depth as nat) + name@
            + (if is_dir {
            "/"@
        } else {
            ""@
        }),
        WalkEntry::Failed(e) => "  error: "@ + e@,
    }
}

/// The answer that the entries of a directory become.
pub fn list_dir_reply(entries: &Vec<WalkEntry>) -> (r: ToolCallResult)
    ensures
        r@ == mcp::text_view(
            text::joined(
                Seq::new(entries@.len(), |i: int| walk_line(entries@[i])),
                "\n"@,
            ),
        ),
{
    let mut lines: Vec<String> = Vec::new();
    let mut i: usize = 0;
    while i < entries.len()
        invariant
            i <= entries@.len(),
            lines@.len() == i,
            forall|j: int| 0 <= j < i ==> (#[trigger] lines@[j])@ == walk_line(entries@[j]),
        decreases entries@.len() - i,
    {
        let line = match &entries[i] {
            WalkEntry::Found { depth, name, is_dir } => {
                let mut indent = String::new();
                let mut level: usize = 0;
                while level < *depth
                    invariant
                        level <= *depth,
                        indent@ == text::spaces(2 * level as nat),
                    decreases *depth - level,
                {
                    indent.push(' ');
                    indent.push(' ');
                    level += 1;
                    proof {
                        assert(indent@ =~= text::spaces(2 * level as nat));
                    }
                }
                text::cat3(
                    indent.as_str(),
                    name.as_str(),
                    if *is_dir {
                        "/"
                    } else {
                        ""
                    },
                )
            },
            WalkEntry::Failed(e) => text::cat2("  error: ", e.as_str()),
        };
        lines.push(line);
        i += 1;
    }
    proof {
        assert(text::texts(lines@) =~= Seq::new(
            entries@.len(),
            |i: int| walk_line(entries@[i]),
        ));
    }
    text_result(text::join(&lines, "\n").as_str())
}

/// The answer once a file was to be written: how many bytes went where, or why not.
pub open spec fn write_reply_view(
    path: Seq<char>,
    content: Seq<char>,
    outcome: Result<(), String>,
) -> ResultView {
    match outcome {
        Ok(_) => mcp::text_view(
            "wrote "@ + text::decimal(text::byte_len(content)) + " bytes to "@ + path,
        ),
        Err(e) => mcp::error_view("write failed: "@ + e@),
    }
}

/// The answer once a file was to be written.
pub fn write_reply(path: &str, content: &str, outcome: &Result<(), String>) -> (r: ToolCallResult)
    ensures
        r@ == write_reply_view(path@, content@, *outcome),
{
    match outcome {
        Ok(_) => text_result(
            text::cat4(
                "wrote ",
                text::number(text::bytes(content) as u64).as_str(),
                " bytes to ",
                path,
            ).as_str(),
        ),
        Err(e) => error_result(text::cat2("write failed: ", e.as_str()).as_str()),
    }
}

/// What became of writing at a file's end.
#[derive(Debug, Clone, PartialEq, Eq)]
pub enum AppendOutcome {
    Written,
    NotOpened(String),
    NotWritten(String),
}

/// The answer once a file was to be written to at its end.
pub open spec fn append_reply_view(
    path: Seq<char>,
    content: Seq<char>,
    outcome: AppendOutcome,
) -> ResultView {
    match outcome {
        AppendOutcome::Written => mcp::text_view(
            "appended "@ + text::decimal(text::byte_len(content)) + " bytes to "@ + path,
        ),
        AppendOutcome::NotOpened(e) => mcp::error_view("open failed: "@ + e@),
        AppendOutcome::NotWritten(e) => mcp::error_view("append failed: "@ + e@),
    }
}

/// The answer once a file was to be written to at its end.
pub fn append_reply(path: &str, content: &str, outcome: &AppendOutcome) -> (r: ToolCallResult)
    ensures
        r@ == append_reply_view(path@, content@, *outcome),
{
    match outcome {
        AppendOutcome::Written => text_result(
            text::cat4(
                "appended ",
                text::number(text::bytes(content) as u64).as_str(),
                " bytes to ",
                path,
            ).as_str(),
        ),
        AppendOutcome::NotOpened(e) => error_result(
            text::cat2("open failed: ", e.as_str()).as_str(),
        ),
        AppendOutcome::NotWritten(e) => error_result(
            text::cat2("append failed: ", e.as_str()).as_str(),
        ),
    }
}

/// What a look at a file comes to: an answer, where it cannot be looked at; else the file is
/// read, however long it is.
pub open spec fn stat_reply(path: Seq<char>, stat: Result<(), String>) -> Option<ResultView> {
    match stat {
        Ok(_) => None,
        Err(e) => Some(mcp::error_view("cannot stat "@ + path + ": "@ + e@)),
    }
}

/// What a look at a file comes to.
pub fn after_stat(path: &str, stat: &Result<(), String>) -> (r: Option<ToolCallResult>)
    ensures
        match r {
            Some(reply) => stat_reply(path@, *stat) == Some(reply@),
            None => stat_reply(path@, *stat) is None,
        },
{
    match stat {
        Ok(_) => None,
        Err(e) => Some(
            error_result(text::cat4("cannot stat ", path, ": ", e.as_str()).as_str()),
        ),
    }
}

impl DriverTools {
    /// Reads a file.
    pub fn read_file(&self, args: &Json) -> (r: ToolAction)
        ensures
            r@ == read_file_action(args@),
    {
        let path = args.str_or("path", "");
        if path.is_empty() {
            return refuse("path is required");
        }
        ToolAction::ReadFile { path: text::copy(path) }
    }

    /// The answer that the text of a file becomes.
    pub fn show_file(&self, args: &Json, content: &str) -> (r: ToolCallResult)
        ensures
            r@ == read_file_reply(args@, content@),
    {
        let range: Option<(usize, usize)> = match args.str_at("lines") {
            Some(s) => parse_line_range(s),
            None => None,
        };
        match range {
            Some((first, last)) => text_result(extract_lines(content, first, last).as_str()),
            None => match args.str_at("search") {
                Some(search) => {
                    let found = search_lines(content, search);
                    if found.as_str().is_empty() {
                        text_result(
                            text::cat4(
                                "no lines matching '",
                                search,
                                "' in ",
                                args.str_or("path", ""),
                            ).as_str(),
                        )
                    } else {
                        text_result(found.as_str())
                    }
                },
                None => text_result(show_whole(args, content).as_str()),
            },
        }
    }

    /// The answer once a file was read.
    pub fn after_read(&self, args: &Json, content: &Result<String, String>) -> (r: ToolCallResult)
        ensures
            r@ == (match *content {
                Ok(c) => read_file_reply(args@, c@),
                Err(e) => mcp::error_view(
                    "cannot read "@ + args@.str_or("path"@, ""@) + ": "@ + e@,
                ),
            }),
    {
        match content {
            Ok(c) => self.show_file(args, c.as_str()),
            Err(e) => error_result(
                text::cat4("cannot read ", args.str_or("path", ""), ": ", e.as_str()).as_str(),
            ),
        }
    }

    /// Writes a file.
    pub fn write_file(&self, args: &Json) -> (r: ToolAction)
        ensures
            r@ == write_file_action(args@),
    {
        let path = args.str_or("path", "");
        if path.is_empty() {
            return refuse("path is required");
        }
        ToolAction::WriteFile {
            path: text::copy(path),
            content: text::copy(args.str_or("content", "")),
        }
    }

    /// Writes at a file's end.
    pub fn append_file(&self, args: &Json) -> (r: ToolAction)
        ensures
            r@ == append_file_action(args@),
    {
        let path = args.str_or("path", "");
        if path.is_empty() {
            return refuse("path is required");
        }
        ToolAction::AppendFile {
            path: text::copy(path),
            content: text::copy(args.str_or("content", "")),
        }
    }

    /// Lists a directory.
    pub fn list_dir(&self, args: &Json) -> (r: ToolAction)
        ensures
            r@ == list_dir_action(args@),
    {
        ToolAction::ListDir {
            path: text::copy(args.str_or("path", ".")),
            depth: args.u64_or("depth", 2) as usize,
        }
    }

    /// Replaces texts in a file.
    pub fn transform_find_replace(&self, args: &Json) -> (r: ToolAction)
        ensures
            r@ == find_replace_action(args@),
    {
        let path = args.str_or("path", "");
        if path.is_empty() || args.str_or("find", "").is_empty() {
            return refuse("path and find are required");
        }
        ToolAction::FindReplace { path: text::copy(path) }
    }

    /// Takes lines out of a file.
    pub fn transform_extract_lines(&self, args: &Json) -> (r: ToolAction)
        ensures
            r@ == extract_lines_action(args@),
    {
        let path = args.str_or("path", "");
        if path.is_empty() {
            return refuse("path is required");
        }
        ToolAction::ExtractLines { path: text::copy(path) }
    }

    /// The lines of a file with the text `content` that a call asks for.
    pub fn show_lines(&self, args: &Json, content: &str) -> (r: ToolCallResult)
        ensures
            r@ == extract_lines_reply(args@, content@),
    {
        let start: usize = args.u64_or("start", 1) as usize;
        let end: usize = args.u64_or("end", u64::MAX) as usize;
        text_result(extract_lines(content, start, end).as_str())
    }

    /// The answer once a file was read for some of its lines.
    pub fn after_read_lines(&self, args: &Json, content: &Result<String, String>) -> (r:
        ToolCallResult)
        ensures
            r@ == (match *content {
                Ok(c) => extract_lines_reply(args@, c@),
                Err(e) => mcp::error_view("read error: "@ + e@),
            }),
    {
        match content {
            Ok(c) => self.show_lines(args, c.as_str()),
            Err(e) => error_result(text::cat2("read error: ", e.as_str()).as_str()),
        }
    }

    /// What is done once a file was read to have texts replaced in it.
    pub fn after_read_replace(&self, args: &Json, content: &Result<String, String>) -> (r:
        Replacement)
        requires
            args@.str_or("find"@, ""@).len() > 0,
        ensures
            r@ == (match *content {
                Ok(c) => replacement(
                    args@.str_or("path"@, ""@),
                    c@,
                    new_content(args@, c@),
                ),
                Err(e) => ReplacementView::Reply(mcp::error_view("read error: "@ + e@)),
            }),
    {
        match content {
            Ok(c) => find_replace(args, c.as_str()),
            Err(e) => Replacement::Reply(
                error_result(text::cat2("read error: ", e.as_str()).as_str()),
            ),
        }
    }

    /// The answer that a value to be written anew becomes, once it was read.
    pub fn format_parsed(&self, parsed: Result<Json, String>) -> (r: ToolCallResult)
        ensures
            r@ == formatted(json::parse_view(parsed)),
    {
        match parsed {
            Ok(v) => text_result(json::pretty(&v).as_str()),
            Err(e) => error_result(text::cat2("invalid JSON: ", e.as_str()).as_str()),
        }
    }

    /// Writes JSON anew.
    pub fn transform_json_format(&self, args: &Json) -> (r: ToolAction)
        ensures
            r@ == json_format_action(args@),
    {
        let input = args.str_or("json_string", "");
        if input.is_empty() {
            return refuse("json_string is required");
        }
        ToolAction::Reply(self.format_parsed(json::parse(input)))
    }
}

/// A range that is written as two numbers with a dash between them is read as these numbers, so
/// that a file is shown from the one line to the other.
pub proof fn law_range_shows_its_lines(args: JsonView, content: Seq<char>, first: nat, last: nat)
    requires
        first <= usize::MAX,
        last <= usize::MAX,
        args.str_at("lines"@) == Some(text::decimal(first) + "-"@ + text::decimal(last)),
    ensures
        read_file_reply(args, content) == mcp::text_view(extract(content, first, last)),
{
    reveal_strlit("-");
    let front = text::decimal(first);
    let back = text::decimal(last);
    let s = front + "-"@ + back;
    text::lemma_decimal(first);
    text::lemma_decimal(last);
    text::law_decimal_is_read_back(first, usize::MAX as nat);
    text::law_decimal_is_read_back(last, usize::MAX as nat);
    assert forall|j: int| 0 <= j < front.len() implies s[j] != '-' by {
        assert(text::is_digit(front[j]));
    }
    text::lemma_char_at(s, '-', front.len() as int);
    assert(s.take(front.len() as int) =~= front);
    assert(s.skip(front.len() as int + 1) =~= back);
    assert forall|j: int| 0 <= j < back.len() implies back[j] != '-' by {
        assert(text::is_digit(back[j]));
    }
    text::lemma_char_at(back, '-', back.len() as int);
}

/// Every line that is shown is a line of the file with its own number in front, and of two lines
/// the one with the lower number comes first.
pub proof fn law_listing_numbers_lines(lines: Seq<Seq<char>>, keep: spec_fn(int) -> bool, k: int)
    requires
        0 <= k < listing(lines, keep).len(),
    ensures
        exists|i: int|
            0 <= i < lines.len() && keep(i) && listing(lines, keep)[k] == #[trigger] numbered_line(
                i,
                lines[i],
            ) && listing(lines.take(i), keep).len() == k,
    decreases lines.len(),
{
    let front = listing(lines.drop_last(), keep);
    let last = lines.len() - 1;
    assert(lines.take(last) =~= lines.drop_last());
    if k < front.len() {
        law_listing_numbers_lines(lines.drop_last(), keep, k);
        let i = choose|i: int|
            0 <= i < lines.len() - 1 && keep(i) && front[k] == #[trigger] numbered_line(
                i,
                lines.drop_last()[i],
            ) && listing(lines.drop_last().take(i), keep).len() == k;
        assert(lines.drop_last().take(i) =~= lines.take(i));
        assert(listing(lines, keep)[k] == numbered_line(i, lines[i]));
    } else {
        assert(listing(lines, keep)[k] == numbered_line(last, lines[last]));
    }
}

/// The bytes of lines, with two more for each.
spec fn line_bytes(lines: Seq<Seq<char>>) -> nat
    decreases lines.len(),
{
    if lines.len() == 0 {
        0
    } else {
        line_bytes(lines.drop_last()) + text::byte_len(lines.last()) + 2
    }
}

proof fn lemma_line_bytes_add(line: Seq<char>, rest: Seq<Seq<char>>)
    ensures
        line_bytes(seq![line] + rest) == text::byte_len(line) + 2 + line_bytes(rest),
    decreases rest.len(),
{
    let all = seq![line] + rest;
    if rest.len() == 0 {
        assert(all =~= seq![line]);
        assert(all.drop_last() =~= Seq::empty());
        assert(line_bytes(all.drop_last()) == 0);
    } else {
        lemma_line_bytes_add(line, rest.drop_last());
        assert(all.drop_last() =~= seq![line] + rest.drop_last());
    }
}

proof fn lemma_lines_hold_the_text(s: Seq<char>)
    ensures
        text::byte_len(s) <= line_bytes(text::lines_of(s)),
    decreases s.len(),
{
    if s.len() > 0 {
        let i = text::char_at(s, '\n') as int;
        if i < s.len() {
            let first = s.take(i);
            let rest = s.skip(i + 1);
            let line = text::without_cr(first);
            lemma_lines_hold_the_text(rest);
            lemma_line_bytes_add(line, text::lines_of(rest));
            assert(s =~= first + (seq![s[i]] + rest));
            text::lemma_bytes_add(first, seq![s[i]] + rest);
            text::lemma_bytes_add(seq![s[i]], rest);
            lemma_char_at_is_there(s, '\n');
            text::lemma_ascii_is_one_byte('\n');
            if first.len() > 0 && first.last() == '\r' {
                assert(first =~= line + seq!['\r']);
                text::lemma_bytes_add(line, seq!['\r']);
                text::lemma_ascii_is_one_byte('\r');
            }
        } else {
            let none = Seq::<Seq<char>>::empty();
            lemma_line_bytes_add(s, none);
            assert(seq![s] + none =~= seq![s]);
        }
    }
}

proof fn lemma_char_at_is_there(s: Seq<char>, c: char)
    ensures
        text::char_at(s, c) < s.len() ==> s[text::char_at(s, c) as int] == c,
    decreases s.len(),
{
    if s.len() > 0 && s[0] != c {
        lemma_char_at_is_there(s.drop_first(), c);
    }
}

proof fn lemma_listing_is_longer(lines: Seq<Seq<char>>)
    requires
        lines.len() > 0,
    ensures
        listing(lines, every_line()).len() == lines.len(),
        text::byte_len(listing_text(lines, every_line())) >= line_bytes(lines),
    decreases lines.len(),
{
    reveal_strlit("\t");
    reveal_strlit("\n");
    let n = lines.len() - 1;
    let front = listing(lines.drop_last(), every_line());
    let last = numbered_line(n, lines.last());
    let number = text::right_aligned(text::decimal((n + 1) as nat), 5);
    text::lemma_bytes_add(number + "\t"@, lines.last());
    text::lemma_bytes_at_least(number + "\t"@);
    assert(text::byte_len(last) >= text::byte_len(lines.last()) + 6);
    let all = listing(lines, every_line());
    assert(all == front.push(last));
    if n > 0 {
        lemma_listing_is_longer(lines.drop_last());
        assert(all.drop_last() =~= front);
        let before = text::joined(front, "\n"@);
        text::lemma_bytes_add(before + "\n"@, last);
        text::lemma_bytes_add(before, "\n"@);
    } else {
        assert(lines.drop_last() =~= Seq::empty());
        assert(front =~= Seq::empty());
        assert(all[0] == last);
        assert(line_bytes(lines.drop_last()) == 0);
    }
}

/// A file that is no longer than the call wants to see is shown whole. Of a longer one the
/// beginning of the same listing is shown, no longer than that, and the mark says so.
pub proof fn law_long_files_are_shown_in_part(args: JsonView, content: Seq<char>)
    requires
        args.str_at("lines"@) is None,
        args.str_at("search"@) is None,
    ensures
        ({
            let listed = listing_text(text::lines_of(content), every_line());
            let part = text::fitting(listed, max_bytes(args));
            &&& text::byte_len(content) <= max_bytes(args) ==> read_file_reply(args, content)
                == mcp::text_view(listed)
            &&& text::byte_len(content) > max_bytes(args) ==> read_file_reply(args, content)
                == mcp::text_view(part + cut_mark(args))
            &&& text::has_prefix(listed, part)
            &&& text::byte_len(part) <= max_bytes(args)
        }),
{
    let listed = listing_text(text::lines_of(content), every_line());
    text::law_fitting_is_the_longest_beginning(listed, max_bytes(args));
    if text::byte_len(content) > max_bytes(args) {
        assert(content.len() > 0) by {
            if content.len() == 0 {
                assert(text::byte_len(content) == 0);
            }
        }
        lemma_lines_hold_the_text(content);
        lemma_listing_is_longer(text::lines_of(content));
    }
}

/// The lines that are kept are listed in their order, each with its number right-aligned in five
/// columns and a tab in front, and no other line is.
pub proof fn law_listing_keeps_what_is_to_be_kept(
    lines: Seq<Seq<char>>,
    keep: spec_fn(int) -> bool,
    line: Seq<char>,
)
    ensures
        listing(Seq::empty(), keep).len() == 0,
        keep(lines.len() as int) ==> listing(lines.push(line), keep) == listing(lines, keep).push(
            text::right_aligned(text::decimal(lines.len() + 1), 5) + "\t"@ + line,
        ),
        !keep(lines.len() as int) ==> listing(lines.push(line), keep) == listing(lines, keep),
        listing_text(lines, keep) == text::joined(listing(lines, keep), "\n"@),
{
    assert(lines.push(line).drop_last() =~= lines);
}

/// A range keeps the lines from its first number to its last, a search those in which its text
/// stands, and a listing of the whole keeps all.
pub proof fn law_kept_lines_are_those_asked_for(
    content: Seq<char>,
    first: nat,
    last: nat,
    lines: Seq<Seq<char>>,
    search: Seq<char>,
    i: int,
)
    ensures
        in_range(first, last)(i) <==> first <= i + 1 && i + 1 <= last,
        with_text(lines, search)(i) <==> text::contains_text(lines[i], search),
        every_line()(i),
        extract(content, first, last) == listing_text(
            text::lines_of(content),
            in_range(first, last),
        ),
{
}

/// A range without a first number starts with the first line, and one without a last number goes
/// on to the end; a text without a dash, or with two, is no range.
pub proof fn law_range_may_be_open(
    n: nat,
    s: Seq<char>,
)
    requires
        n <= usize::MAX,
    ensures
        line_range(text::decimal(n) + "-"@) == Some((n, usize::MAX as nat)),
        line_range("-"@ + text::decimal(n)) == Some((1nat, n)),
        (forall|i: int| 0 <= i < s.len() ==> s[i] != '-') ==> line_range(s) is None,
        (exists|i: int, j: int| 0 <= i < j < s.len() && s[i] == '-' && s[j] == '-')
            ==> line_range(s)
            is None,
{
    reveal_strlit("-");
    let number = text::decimal(n);
    text::lemma_decimal(n);
    text::law_decimal_is_read_back(n, usize::MAX as nat);
    assert forall|j: int| 0 <= j < number.len() implies number[j] != '-' by {
        assert(text::is_digit(number[j]));
    }
    let none = Seq::<char>::empty();
    assert(text::parsed_number(none, usize::MAX as nat) is None);
    let from = number + "-"@;
    text::lemma_char_at(from, '-', number.len() as int);
    assert(from.take(number.len() as int) =~= number);
    assert(from.skip(number.len() as int + 1) =~= none);
    text::lemma_char_at(none, '-', 0);
    let to = "-"@ + number;
    text::lemma_char_at(to, '-', 0);
    assert(to.take(0) =~= none);
    assert(to.skip(1) =~= number);
    text::lemma_char_at(number, '-', number.len() as int);
    if forall|i: int| 0 <= i < s.len() ==> s[i] != '-' {
        text::lemma_char_at(s, '-', s.len() as int);
    }
    if exists|i: int, j: int| 0 <= i < j < s.len() && s[i] == '-' && s[j] == '-' {
        let (i, j) = choose|i: int, j: int| 0 <= i < j < s.len() && s[i] == '-' && s[j] == '-';
        lemma_first_dash(s);
        let dash = text::char_at(s, '-') as int;
        assert(dash <= i);
        let rest = s.skip(dash + 1);
        lemma_first_dash(rest);
        assert(rest[j - dash - 1] == '-');
    }
}

proof fn lemma_first_dash(s: Seq<char>)
    ensures
        text::char_at(s, '-') <= s.len(),
        forall|i: int| 0 <= i < text::char_at(s, '-') ==> s[i] != '-',
    decreases s.len(),
{
    if s.len() > 0 && s[0] != '-' {
        lemma_first_dash(s.drop_first());
        assert forall|i: int| 0 <= i < text::char_at(s, '-') implies s[i] != '-' by {
            if i > 0 {
                assert(s.drop_first()[i - 1] == s[i]);
            }
        }
    }
}

/// A call for the lines in which a text stands is answered with these lines, or with the words that
/// there are none; the text is looked for only where the call gives no range.
pub proof fn law_search_shows_the_lines_with_the_text(
    args: JsonView,
    content: Seq<char>,
    search: Seq<char>,
    found: Seq<char>,
)
    requires
        !(args.get("lines"@) matches Some(JsonView::Str(_))),
        args.get("search"@) == Some(JsonView::Str(search)),
        found == text::joined(
            listing(
                text::lines_of(content),
                |i: int| text::contains_text(text::lines_of(content)[i], search),
            ),
            "\n"@,
        ),
    ensures
        found.len() > 0 ==> read_file_reply(args, content) == mcp::text_view(found),
        found.len() == 0 ==> read_file_reply(args, content) == mcp::text_view(
            "no lines matching '"@ + search + "' in "@ + args.str_or("path"@, ""@),
        ),
{
    assert(with_text(text::lines_of(content), search) =~= |i: int| text::contains_text(
        text::lines_of(content)[i], search));
}

/// A file is shown whole where it is at most as long as the call wants to see, a hundred times 1024
/// bytes where the call does not say; a longer one is shown in part, with a mark that gives the
/// limit.
pub proof fn law_limit_is_in_kilobytes(
    args: JsonView,
    n: u64,
)
    requires
        args.u64_at("max_kb"@) == Some(n) || args.u64_at("max_kb"@) is None && n == 100,
    ensures
        max_bytes(args) == n * 1024,
        cut_mark(args) == "\n... [truncated at "@ + text::decimal(n as nat) + "KB]"@,
{
}

/// A call for a part of a file is answered with the lines from the number that it starts with, the
/// first where it does not say, to the number that it ends with, the last where it does not say.
pub proof fn law_part_of_a_file_is_given(
    args: JsonView,
    content: Seq<char>,
    first: u64,
    last: u64,
)
    requires
        args.u64_at("start"@) == Some(first) || args.u64_at("start"@) is None && first == 1,
        args.u64_at("end"@) == Some(last) || args.u64_at("end"@) is None && last == u64::MAX,
        first <= usize::MAX,
        last <= usize::MAX,
    ensures
        extract_lines_reply(args, content) == mcp::text_view(
            text::joined(
                listing(text::lines_of(content), |i: int| first <= i + 1 <= last),
                "\n"@,
            ),
        ),
{
    assert(in_range(first as nat, last as nat) =~= |i: int| first <= i + 1 <= last);
}

/// A file in which texts are replaced is written anew if and only if that changes it, with the new
/// text; the answer says whether it was. A pattern that is none is answered with why.
pub proof fn law_file_is_written_only_if_it_changes(
    path: Seq<char>,
    content: Seq<char>,
    new: Seq<char>,
    reason: Seq<char>,
)
    ensures
        new != content ==> replacement(path, content, Ok(new)) == (ReplacementView::Write {
            content: new,
            reply: mcp::text_view(path + ": 1 replacement(s) applied"@),
        }),
        replacement(path, content, Ok(content)) == ReplacementView::Reply(
            mcp::text_view(path + ": 0 replacement(s) applied"@),
        ),
        replacement(path, content, Err(reason)) == ReplacementView::Reply(
            mcp::error_view("invalid regex: "@ + reason),
        ),
{
}

/// What is looked for is a pattern if and only if the call says so, and a plain text otherwise.
pub proof fn law_replacement_is_by_text_or_by_pattern(
    args: JsonView,
    content: Seq<char>,
)
    ensures
        args.get("regex"@) == Some(JsonView::Bool(true)) ==> new_content(args, content)
            == regex_replaced(args.str_or("find"@, ""@), content, args.str_or("replace"@, ""@)),
        args.get("regex"@) != Some(JsonView::Bool(true)) ==> new_content(args, content) == Ok::<
            Seq<char>,
            Seq<char>,
        >(text::replaced(content, args.str_or("find"@, ""@), args.str_or("replace"@, ""@))),
{
}

/// An entry of a listing stands two spaces further in for each level, and a directory ends in a
/// slash; what could not be looked at says why.
pub proof fn law_entries_stand_in_by_level(
    depth: usize,
    name: String,
    reason: String,
)
    ensures
        walk_line(WalkEntry::Found { depth, name, is_dir: true }) == Seq::new(
            (2 * depth) as nat,
            |i: int| ' ',
        ) + name@ + "/"@,
        walk_line(WalkEntry::Found { depth, name, is_dir: false }) == Seq::new(
            (2 * depth) as nat,
            |i: int| ' ',
        ) + name@,
        walk_line(WalkEntry::Failed(reason)) == "  error: "@ + reason@,
{
    reveal_strlit("");
    let blank = Seq::new((2 * depth) as nat, |i: int| ' ');
    assert(text::spaces(2 * depth as nat) =~= blank);
    assert(blank + name@ + ""@ =~= blank + name@);
}

/// The answer on a file that was written, or written to at its end, says which of the two it was,
/// how many bytes went and where; the answer on a failure says what failed and why.
pub proof fn law_writing_is_answered(
    path: Seq<char>,
    content: Seq<char>,
    reason: String,
)
    ensures
        write_reply_view(path, content, Ok(())) == mcp::text_view(
            "wrote "@ + text::decimal(text::byte_len(content)) + " bytes to "@ + path,
        ),
        append_reply_view(path, content, AppendOutcome::Written) == mcp::text_view(
            "appended "@ + text::decimal(text::byte_len(content)) + " bytes to "@ + path,
        ),
        write_reply_view(path, content, Err(reason))
            == mcp::error_view("write failed: "@ + reason@),
        append_reply_view(path, content, AppendOutcome::NotOpened(reason)) == mcp::error_view(
            "open failed: "@ + reason@,
        ),
        append_reply_view(path, content, AppendOutcome::NotWritten(reason)) == mcp::error_view(
            "append failed: "@ + reason@,
        ),
        stat_reply(path, Ok(())) is None,
        stat_reply(path, Err(reason)) == Some(
            mcp::error_view("cannot stat "@ + path + ": "@ + reason@),
        ),
{
}

/// A range that is none makes no difference: the lines with the text that the call gives are
/// shown, or all lines where it gives none.
pub proof fn law_bad_range_makes_no_difference(
    args: JsonView,
    other: JsonView,
    content: Seq<char>,
    range: Seq<char>,
)
    requires
        args.get("lines"@) == Some(JsonView::Str(range)),
        line_range(range) is None,
        !(other.get("lines"@) matches Some(JsonView::Str(_))),
        args.get("search"@) == other.get("search"@),
        args.get("path"@) == other.get("path"@),
        args.get("max_kb"@) == other.get("max_kb"@),
    ensures
        read_file_reply(args, content) == read_file_reply(other, content),
{
}

} // verus!
