//! What the driver answers over HTTP: its state, its registry, and the runs it has kept.

use vstd::prelude::*;

use crate::config;
use crate::config::{DriverConfig, McpServerConfig, ModelConfig};
use crate::driver_tools::DriverTools;
use crate::json;
use crate::json::{Json, JsonView, Members};
use crate::mcp;
use crate::mcp::McpToolView;
use crate::paths;
use crate::report;
use crate::text;
use crate::tool_defs;

verus! {

/// How many runs are listed where the query does not say.
pub fn default_limit() -> (r: usize)
    ensures
        r == 20,
{
    20
}

/// The state of the driver.
pub open spec fn health_json(uptime_secs: u64, models: nat, servers: nat) -> JsonView {
    JsonView::Object(
        json::no_members().push(("status"@, JsonView::Str("ok"@))).push(
            ("uptime_secs"@, JsonView::Uint(uptime_secs)),
        ).push(("registered_models"@, JsonView::Uint(models as u64))).push(
            ("registered_servers"@, JsonView::Uint(servers as u64)),
        ),
    )
}

/// The state of the driver.
pub fn health(config: &DriverConfig, uptime_secs: u64) -> (r: Json)
    ensures
        r@ == health_json(uptime_secs, config.models@.len(), config.mcp_servers@.len()),
{
    Members::new().with("status", json::string("ok")).with(
        "uptime_secs",
        Json::Uint(uptime_secs),
    ).with("registered_models", json::size(config.models.len())).with(
        "registered_servers",
        json::size(config.mcp_servers.len()),
    ).object()
}

/// What is said of a model.
pub open spec fn model_json(m: ModelConfig) -> JsonView {
    JsonView::Object(
        json::no_members().push(("name"@, JsonView::Str(m.name@))).push(
            ("model_id"@, JsonView::Str(m.model_id@)),
        ).push(("base_url"@, JsonView::Str(m.base_url@))).push(
            ("max_tokens"@, JsonView::Uint(m.max_tokens as u64)),
        ).push(("temperature"@, m.temperature@)),
    )
}

/// What is said of a server.
pub open spec fn server_json(s: McpServerConfig) -> JsonView {
    JsonView::Object(
        json::no_members().push(("name"@, JsonView::Str(s.name@))).push(
            ("command"@, JsonView::Str(s.command@)),
        ).push(("tools"@, JsonView::Str("listed at spawn time"@))),
    )
}

/// The names of tools.
pub open spec fn tool_names(tools: Seq<McpToolView>) -> Seq<Seq<char>> {
    Seq::new(tools.len(), |i: int| tools[i].name)
}

/// What is configured, and the driver's own tools.
pub open spec fn registry_json(config: DriverConfig) -> JsonView {
    JsonView::Object(
        json::no_members().push(
            (
                "models"@,
                JsonView::Array(
                    Seq::new(config.models@.len(), |i: int| model_json(config.models@[i])),
                ),
            ),
        ).push(
            (
                "mcp_servers"@,
                JsonView::Array(
                    Seq::new(
                        config.mcp_servers@.len(),
                        |i: int| server_json(config.mcp_servers@[i]),
                    ),
                ),
            ),
        ).push(
            ("driver_tools"@, json::str_array_view(tool_names(tool_defs::all_tool_views()))),
        ),
    )
}

fn models_value(models: &Vec<ModelConfig>) -> (r: Json)
    ensures
        r@ == JsonView::Array(Seq::new(models@.len(), |i: int| model_json(models@[i]))),
{
    let mut items: Vec<Json> = Vec::new();
    let mut i: usize = 0;
    while i < models.len()
        invariant
            i <= models@.len(),
            items@.len() == i,
            forall|j: int| 0 <= j < i ==> (#[trigger] items@[j])@ == model_json(models@[j]),
        decreases models@.len() - i,
    {
        let m = &models[i];
        items.push(
            Members::new().with("name", json::string(m.name.as_str())).with(
                "model_id",
                json::string(m.model_id.as_str()),
            ).with("base_url", json::string(m.base_url.as_str())).with(
                "max_tokens",
                Json::Uint(m.max_tokens as u64),
            ).with("temperature", m.temperature.copy()).object(),
        );
        i += 1;
    }
    proof {
        assert(json::items_view(items@) =~= Seq::new(
            models@.len(),
            |i: int| model_json(models@[i]),
        ));
    }
    json::array(items)
}

fn servers_value(servers: &Vec<McpServerConfig>) -> (r: Json)
    ensures
        r@ == JsonView::Array(Seq::new(servers@.len(), |i: int| server_json(servers@[i]))),
{
    let mut items: Vec<Json> = Vec::new();
    let mut i: usize = 0;
    while i < servers.len()
        invariant
            i <= servers@.len(),
            items@.len() == i,
            forall|j: int| 0 <= j < i ==> (#[trigger] items@[j])@ == server_json(servers@[j]),
        decreases servers@.len() - i,
    {
        let s = &servers[i];
        items.push(
            Members::new().with("name", json::string(s.name.as_str())).with(
                "command",
                json::string(s.command.as_str()),
            ).with("tools", json::string("listed at spawn time")).object(),
        );
        i += 1;
    }
    proof {
        assert(json::items_view(items@) =~= Seq::new(
            servers@.len(),
            |i: int| server_json(servers@[i]),
        ));
    }
    json::array(items)
}

/// What is configured, and the driver's own tools.
pub fn registry(config: &DriverConfig) -> (r: Json)
    ensures
        r@ == registry_json(*config),
{
    let tools = DriverTools::tool_definitions();
    let mut names: Vec<String> = Vec::new();
    let mut i: usize = 0;
    while i < tools.len()
        invariant
            i <= tools@.len(),
            names@.len() == i,
            forall|j: int| 0 <= j < i ==> (#[trigger] names@[j])@ == tools@[j]@.name,
        decreases tools@.len() - i,
    {
        names.push(text::copy(tools[i].name.as_str()));
        i += 1;
    }
    proof {
        assert(text::texts(names@) =~= tool_names(mcp::tool_views(tools@)));
    }
    Members::new().with("models", models_value(&config.models)).with(
        "mcp_servers",
        servers_value(&config.mcp_servers),
    ).with("driver_tools", json::string_array(&names)).object()
}

/// A body that gives an error.
pub open spec fn error_json(message: Seq<char>) -> JsonView {
    JsonView::Object(json::no_members().push(("error"@, JsonView::Str(message))))
}

fn error_body(message: &str) -> (r: Json)
    ensures
        r@ == error_json(message@),
{
    Members::new().with("error", json::string(message)).object()
}

/// What a request for a run is refused with: nothing, where its model is configured.
pub fn refuse_run(config: &DriverConfig, model: &str) -> (r: Option<Json>)
    ensures
        match r {
            Some(body) => config::name_at(config.model_names(), model@) == config.models@.len()
                && body@ == error_json("model '"@ + model@ + "' not found"@),
            None => config::name_at(config.model_names(), model@) < config.models@.len(),
        },
{
    match config.find_model(model) {
        Ok(_) => None,
        Err(_) => Some(error_body(text::cat3("model '", model, "' not found").as_str())),
    }
}

/// The directory of a run.
pub open spec fn run_dir_of(log_dir: Seq<char>, id: Seq<char>) -> Seq<char> {
    paths::path_join(paths::path_join(log_dir, "runs"@), id)
}

/// The directory of all runs.
pub fn runs_dir(log_dir: &str) -> (r: String)
    ensures
        r@ == paths::path_join(log_dir@, "runs"@),
{
    paths::join(log_dir, "runs")
}

/// The directory of a run.
pub fn run_dir(log_dir: &str, id: &str) -> (r: String)
    ensures
        r@ == run_dir_of(log_dir@, id@),
{
    paths::join(runs_dir(log_dir).as_str(), id)
}

/// The file with what a run logged.
pub fn log_file(run_dir: &str) -> (r: String)
    ensures
        r@ == paths::path_join(run_dir@, "run.jsonl"@),
{
    paths::join(run_dir, "run.jsonl")
}

/// The file with the report on a run.
pub fn report_file(run_dir: &str) -> (r: String)
    ensures
        r@ == paths::path_join(run_dir@, "shared_state.md"@),
{
    paths::join(run_dir, "shared_state.md")
}

/// The directory of a run that was found, and when it was last changed: the nanoseconds since
/// 1970, if they are known.
#[derive(Debug, Clone, PartialEq, Eq)]
pub struct RunDir {
    pub name: String,
    pub modified: Option<i128>,
}

/// The directory of a run, over texts.
pub struct RunDirView {
    pub name: Seq<char>,
    pub modified: Option<i128>,
}

impl RunDir {
    pub open spec fn view(&self) -> RunDirView {
        RunDirView { name: self.name@, modified: self.modified }
    }
}

/// Directories of runs, over texts.
pub open spec fn dir_views(dirs: Seq<RunDir>) -> Seq<RunDirView> {
    Seq::new(dirs.len(), |i: int| dirs[i]@)
}

/// Whether a moment is later than another. One that is not known is earlier than any.
pub open spec fn later(a: Option<i128>, b: Option<i128>) -> bool {
    match (a, b) {
        (Some(x), Some(y)) => x > y,
        (Some(_), None) => true,
        _ => false,
    }
}

fn is_later(a: Option<i128>, b: Option<i128>) -> (r: bool)
    ensures
        r == later(a, b),
{
    match (a, b) {
        (Some(x), Some(y)) => x > y,
        (Some(_), None) => true,
        _ => false,
    }
}

/// Where a directory goes among directories that stand with the newest first: behind all but
/// those at the end that it is newer than.
pub open spec fn place_of(dirs: Seq<RunDirView>, d: RunDirView) -> nat
    decreases dirs.len(),
{
    if dirs.len() > 0 && later(d.modified, dirs.last().modified) {
        place_of(dirs.drop_last(), d)
    } else {
        dirs.len()
    }
}

/// The directories with the newest first; of two that were changed at one moment, the one that
/// stood first stays first.
pub open spec fn newest_first(dirs: Seq<RunDirView>) -> Seq<RunDirView>
    decreases dirs.len(),
{
    if dirs.len() == 0 {
        Seq::empty()
    } else {
        let front = newest_first(dirs.drop_last());
        front.insert(place_of(front, dirs.last()) as int, dirs.last())
    }
}

/// The part of a sequence that begins at `offset` and has at most `limit` elements.
pub open spec fn page_of(dirs: Seq<RunDirView>, offset: nat, limit: nat) -> Seq<RunDirView> {
    let rest = if offset < dirs.len() {
        dirs.skip(offset as int)
    } else {
        Seq::empty()
    };
    if limit < rest.len() {
        rest.take(limit as int)
    } else {
        rest
    }
}

fn sort_dirs(dirs: Vec<RunDir>) -> (r: Vec<RunDir>)
    ensures
        dir_views(r@) == newest_first(dir_views(dirs@)),
{
    let ghost all = dir_views(dirs@);
    let mut out: Vec<RunDir> = Vec::new();
    let mut i: usize = 0;
    proof {
        assert(dir_views(out@) =~= newest_first(all.take(0)));
    }
    while i < dirs.len()
        invariant
            i <= dirs@.len(),
            all == dir_views(dirs@),
            dir_views(out@) == newest_first(all.take(i as int)),
        decreases dirs@.len() - i,
    {
        let d = RunDir { name: text::copy(dirs[i].name.as_str()), modified: dirs[i].modified };
        let ghost front = dir_views(out@);
        proof {
            assert(all.take(i + 1).drop_last() =~= all.take(i as int));
            assert(d@ == all[i as int]);
            assert(front.take(front.len() as int) =~= front);
        }
        let mut at: usize = out.len();
        while at > 0 && is_later(d.modified, out[at - 1].modified)
            invariant
                at <= out@.len(),
                front == dir_views(out@),
                place_of(front.take(at as int), d@) == place_of(front, d@),
            decreases at,
        {
            proof {
                assert(front.take(at as int).drop_last() =~= front.take(at - 1));
            }
            at -= 1;
        }
        proof {
            if at > 0 {
                assert(front.take(at as int).last() == out@[at - 1]@);
            }
        }
        out.insert(at, d);
        proof {
            assert(dir_views(out@) =~= front.insert(at as int, d@));
        }
        i += 1;
    }
    proof {
        assert(all.take(i as int) =~= all);
    }
    out
}

/// The directories that a query asks for: the newest first, from `offset` on, at most `limit`.
pub fn page(dirs: Vec<RunDir>, offset: usize, limit: usize) -> (r: Vec<RunDir>)
    ensures
        dir_views(r@) == page_of(newest_first(dir_views(dirs@)), offset as nat, limit as nat),
{
    let sorted = sort_dirs(dirs);
    let ghost all = dir_views(sorted@);
    let ghost asked = page_of(all, offset as nat, limit as nat);
    let mut out: Vec<RunDir> = Vec::new();
    let mut i: usize = offset;
    while i < sorted.len() && out.len() < limit
        invariant
            offset <= i,
            i <= sorted@.len() || i == offset,
            out@.len() == i - offset,
            out@.len() <= limit,
            all == dir_views(sorted@),
            forall|j: int| 0 <= j < out@.len() ==> (#[trigger] out@[j])@ == all[offset + j],
        decreases sorted@.len() - i,
    {
        out.push(RunDir { name: text::copy(sorted[i].name.as_str()), modified: sorted[i].modified });
        i += 1;
    }
    proof {
        assert(dir_views(out@) =~= asked);
    }
    out
}

/// Members with the value `v` behind them under the name `to`, if there is such a value.
pub open spec fn carried(
    members: Seq<(Seq<char>, JsonView)>,
    v: Option<JsonView>,
    to: Seq<char>,
) -> Seq<(Seq<char>, JsonView)> {
    match v {
        Some(value) => members.push((to, value)),
        None => members,
    }
}

fn carry(members: Members, v: Option<&Json>, to: &str) -> (r: Members)
    ensures
        r@ == carried(
            members@,
            match v {
                Some(value) => Some(value@),
                None => None,
            },
            to@,
        ),
{
    match v {
        Some(value) => members.with(to, value.copy()),
        None => members,
    }
}

/// The name of a run by its first entry.
pub open spec fn name_in(first: JsonView) -> Option<JsonView> {
    match first.get("name"@) {
        Some(v) => Some(v),
        None => first.get("task"@),
    }
}

/// What is said of a run by its first and its last entry, as far as there are such.
pub open spec fn run_info_json(
    id: Seq<char>,
    first: Option<JsonView>,
    last: Option<JsonView>,
) -> JsonView {
    let start = json::no_members().push(("id"@, JsonView::Str(id)));
    let begun = match first {
        Some(v) => carried(
            carried(carried(start, name_in(v), "name"@), v.get("model"@), "model"@),
            v.get("ts"@),
            "started_at"@,
        ),
        None => start,
    };
    JsonView::Object(
        match last {
            Some(v) => carried(
                carried(begun, v.get("ok"@), "ok"@),
                v.get("duration_ms"@),
                "duration_ms"@,
            ),
            None => begun,
        },
    )
}

/// A value that may be missing, over texts.
pub open spec fn opt_json(v: Option<Json>) -> Option<JsonView> {
    match v {
        Some(v) => Some(v@),
        None => None,
    }
}

/// What is said of a run by its first and its last entry.
pub fn run_info_of(id: &str, first: &Option<Json>, last: &Option<Json>) -> (r: Json)
    ensures
        r@ == run_info_json(id@, opt_json(*first), opt_json(*last)),
{
    let start = Members::new().with("id", json::string(id));
    let begun = match first {
        Some(v) => {
            let name = match v.get("name") {
                Some(name) => Some(name),
                None => v.get("task"),
            };
            carry(
                carry(carry(start, name, "name"), v.get("model"), "model"),
                v.get("ts"),
                "started_at",
            )
        },
        None => start,
    };
    match last {
        Some(v) => carry(
            carry(begun, v.get("ok"), "ok"),
            v.get("duration_ms"),
            "duration_ms",
        ).object(),
        None => begun.object(),
    }
}

/// The value of a line, if it is one.
pub open spec fn line_value(line: Seq<char>) -> Option<JsonView> {
    match json::json_parse(line) {
        Ok(v) => Some(v),
        Err(_) => None,
    }
}

/// The first line's value and the last one's, if there are such.
pub open spec fn ends_of(content: Option<Seq<char>>) -> (Option<JsonView>, Option<JsonView>) {
    match content {
        Some(c) => {
            let lines = text::lines_of(c);
            if lines.len() == 0 {
                (None, None)
            } else {
                (line_value(lines[0]), line_value(lines.last()))
            }
        },
        None => (None, None),
    }
}

fn value_of_line(line: &str) -> (r: Option<Json>)
    ensures
        opt_json(r) == line_value(line@),
{
    match json::parse(line) {
        Ok(v) => Some(v),
        Err(_) => None,
    }
}

/// What is said of a run whose log is `content`, if it can be read.
pub fn run_info(id: &str, content: &Option<String>) -> (r: Json)
    ensures
        ({
            let (first, last) = ends_of(text::opt_text(*content));
            r@ == run_info_json(id@, first, last)
        }),
{
    match content {
        None => run_info_of(id, &None, &None),
        Some(c) => {
            let lines = text::lines(c.as_str());
            if lines.len() == 0 {
                return run_info_of(id, &None, &None);
            }
            let ghost all = text::lines_of(c@);
            proof {
                assert(all[0] == lines@[0]@);
                assert(all.last() == lines@[lines@.len() - 1]@);
            }
            let first = value_of_line(lines[0].as_str());
            let last = value_of_line(lines[lines.len() - 1].as_str());
            run_info_of(id, &first, &last)
        },
    }
}

/// The list of runs.
pub open spec fn runs_json(runs: Seq<JsonView>) -> JsonView {
    JsonView::Object(
        json::no_members().push(("runs"@, JsonView::Array(runs))).push(
            ("total"@, JsonView::Uint(runs.len() as u64)),
        ),
    )
}

/// The list of runs.
pub fn list_runs(runs: Vec<Json>) -> (r: Json)
    ensures
        r@ == runs_json(json::items_view(runs@)),
{
    let total: usize = runs.len();
    Members::new().with("runs", json::array(runs)).with("total", json::size(total)).object()
}

/// What is answered where there is no such run.
pub fn run_not_found(id: &str) -> (r: Json)
    ensures
        r@ == error_json("run '"@ + id@ + "' not found"@),
{
    error_body(text::cat3("run '", id, "' not found").as_str())
}

/// What is kept of a run.
pub open spec fn run_json(id: Seq<char>, events: Seq<JsonView>, report: Seq<char>) -> JsonView {
    JsonView::Object(
        json::no_members().push(("id"@, JsonView::Str(id))).push(
            ("events"@, JsonView::Array(events)),
        ).push(("report"@, JsonView::Str(report))),
    )
}

/// What is kept of a run with these events.
pub fn run_body(id: &str, events: Vec<Json>, report: &str) -> (r: Json)
    ensures
        r@ == run_json(id@, json::items_view(events@), report@),
{
    Members::new().with("id", json::string(id)).with("events", json::array(events)).with(
        "report",
        json::string(report),
    ).object()
}

/// What is kept of a run: the lines of its log that can be parsed, and the report. Either is
/// empty where it cannot be read.
pub fn get_run(id: &str, log: &Option<String>, report: &Option<String>) -> (r: Json)
    ensures
        r@ == run_json(
            id@,
            match *log {
                Some(content) => report::parsed_lines(text::lines_of(content@)),
                None => Seq::empty(),
            },
            match *report {
                Some(t) => t@,
                None => ""@,
            },
        ),
{
    let events: Vec<Json> = match log {
        Some(content) => report::parse_lines(&text::lines(content.as_str())),
        None => Vec::new(),
    };
    proof {
        if *log is None {
            assert(json::items_view(events@) =~= Seq::empty());
        }
    }
    match report {
        Some(t) => run_body(id, events, t.as_str()),
        None => run_body(id, events, ""),
    }
}

/// The directories that the driver keeps its state in.
pub open spec fn state_dirs_of(log_dir: Seq<char>) -> Seq<Seq<char>> {
    seq![
        log_dir + "/runs"@,
        log_dir + "/breadcrumbs/active"@,
        log_dir + "/breadcrumbs/completed"@,
        log_dir + "/loaves"@,
    ]
}

/// The directories that the driver keeps its state in.
pub fn state_dirs(log_dir: &str) -> (r: Vec<String>)
    ensures
        text::texts(r@) == state_dirs_of(log_dir@),
{
    let mut dirs: Vec<String> = Vec::new();
    dirs.push(text::cat2(log_dir, "/runs"));
    dirs.push(text::cat2(log_dir, "/breadcrumbs/active"));
    dirs.push(text::cat2(log_dir, "/breadcrumbs/completed"));
    dirs.push(text::cat2(log_dir, "/loaves"));
    proof {
        assert(text::texts(dirs@) =~= state_dirs_of(log_dir@));
    }
    dirs
}

/// The address that the driver listens at.
pub fn address(bind: &str, port: u16) -> (r: String)
    ensures
        r@ == bind@ + ":"@ + text::decimal(port as nat),
{
    text::cat3(bind, ":", text::number(port as u64).as_str())
}

/// Whether no directory is newer than one in front of it.
pub open spec fn is_newest_first(dirs: Seq<RunDirView>) -> bool {
    forall|i: int, j: int|
        0 <= i < j < dirs.len() ==> !later(
            (#[trigger] dirs[j]).modified,
            (#[trigger] dirs[i]).modified,
        )
}

proof fn lemma_place(dirs: Seq<RunDirView>, d: RunDirView)
    ensures
        place_of(dirs, d) <= dirs.len(),
        place_of(dirs, d) > 0 ==> !later(d.modified, dirs[place_of(dirs, d) - 1].modified),
        forall|j: int|
            place_of(dirs, d) <= j < dirs.len() ==> later(d.modified, (#[trigger] dirs[j]).modified),
    decreases dirs.len(),
{
    if dirs.len() > 0 && later(d.modified, dirs.last().modified) {
        lemma_place(dirs.drop_last(), d);
        assert forall|j: int| place_of(dirs, d) <= j < dirs.len() implies later(
            d.modified,
            (#[trigger] dirs[j]).modified,
        ) by {
            if j < dirs.len() - 1 {
                assert(dirs.drop_last()[j] == dirs[j]);
            }
        }
    }
}

/// The runs are listed with the newest first, and each is listed once.
pub proof fn law_runs_are_newest_first(dirs: Seq<RunDirView>)
    ensures
        is_newest_first(newest_first(dirs)),
        newest_first(dirs).to_multiset() == dirs.to_multiset(),
    decreases dirs.len(),
{
    if dirs.len() > 0 {
        law_runs_are_newest_first(dirs.drop_last());
        let front = newest_first(dirs.drop_last());
        let d = dirs.last();
        let at = place_of(front, d) as int;
        lemma_place(front, d);
        let after = front.insert(at, d);
        assert forall|i: int, j: int| 0 <= i < j < after.len() implies !later(
            (#[trigger] after[j]).modified,
            (#[trigger] after[i]).modified,
        ) by {
            if i < at && j < at {
                assert(!later(front[j].modified, front[i].modified));
            } else if i < at && j == at {
                assert(i == at - 1 || !later(front[at - 1].modified, front[i].modified));
            } else if i < at {
                assert(!later(front[j - 1].modified, front[i].modified));
            } else if i == at {
                assert(later(d.modified, front[j - 1].modified));
            } else {
                assert(!later(front[j - 1].modified, front[i - 1].modified));
            }
        }
        vstd::seq_lib::to_multiset_insert(front, at, d);
        assert(dirs =~= dirs.drop_last().push(d));
        broadcast use vstd::seq_lib::group_to_multiset_ensures;
    } else {
        assert(newest_first(dirs) =~= dirs);
    }
}

/// Two pages that follow each other are one page of both lengths.
pub proof fn law_pages_follow(dirs: Seq<RunDirView>, offset: nat, first: nat, second: nat)
    ensures
        page_of(dirs, offset, first) + page_of(dirs, offset + first, second) == page_of(
            dirs,
            offset,
            first + second,
        ),
{
    assert(page_of(dirs, offset, first) + page_of(dirs, offset + first, second) =~= page_of(
        dirs,
        offset,
        first + second,
    ));
}

proof fn lemma_words()
    ensures
        text::shape("status"@) == 117116115116115006,
        text::shape("uptime_secs"@) == 101101115095117011,
        text::shape("registered_models"@) == 111101115100114017,
        text::shape("registered_servers"@) == 114100115095114018,
        text::shape("name"@) == 101109101109110004,
        text::shape("model_id"@) == 105108100108109008,
        text::shape("base_url"@) == 114095108095098008,
        text::shape("max_tokens"@) == 101111115111109010,
        text::shape("temperature"@) == 117114101097116011,
        text::shape("command"@) == 110109100097099007,
        text::shape("tools"@) == 108111115111116005,
        text::shape("models"@) == 108101115101109006,
        text::shape("mcp_servers"@) == 101101115114109011,
        text::shape("driver_tools"@) == 111095115095100012,
        text::shape("error"@) == 111114114114101005,
        text::shape("id"@) == 100100100100105002,
        text::shape("model"@) == 101100108100109005,
        text::shape("started_at"@) == 95101116101115010,
        text::shape("ok"@) == 107107107107111002,
        text::shape("duration_ms"@) == 95105115111100011,
        text::shape("runs"@) == 115110115110114004,
        text::shape("total"@) == 97116108116116005,
        text::shape("events"@) == 116110115110101006,
        text::shape("report"@) == 114111116111114006,
{
    reveal_strlit("status");
    assert(text::shape("status"@) == 117116115116115006);
    reveal_strlit("uptime_secs");
    assert(text::shape("uptime_secs"@) == 101101115095117011);
    reveal_strlit("registered_models");
    assert(text::shape("registered_models"@) == 111101115100114017);
    reveal_strlit("registered_servers");
    assert(text::shape("registered_servers"@) == 114100115095114018);
    reveal_strlit("name");
    assert(text::shape("name"@) == 101109101109110004);
    reveal_strlit("model_id");
    assert(text::shape("model_id"@) == 105108100108109008);
    reveal_strlit("base_url");
    assert(text::shape("base_url"@) == 114095108095098008);
    reveal_strlit("max_tokens");
    assert(text::shape("max_tokens"@) == 101111115111109010);
    reveal_strlit("temperature");
    assert(text::shape("temperature"@) == 117114101097116011);
    reveal_strlit("command");
    assert(text::shape("command"@) == 110109100097099007);
    reveal_strlit("tools");
    assert(text::shape("tools"@) == 108111115111116005);
    reveal_strlit("models");
    assert(text::shape("models"@) == 108101115101109006);
    reveal_strlit("mcp_servers");
    assert(text::shape("mcp_servers"@) == 101101115114109011);
    reveal_strlit("driver_tools");
    assert(text::shape("driver_tools"@) == 111095115095100012);
    reveal_strlit("error");
    assert(text::shape("error"@) == 111114114114101005);
    reveal_strlit("id");
    assert(text::shape("id"@) == 100100100100105002);
    reveal_strlit("model");
    assert(text::shape("model"@) == 101100108100109005);
    reveal_strlit("started_at");
    assert(text::shape("started_at"@) == 95101116101115010);
    reveal_strlit("ok");
    assert(text::shape("ok"@) == 107107107107111002);
    reveal_strlit("duration_ms");
    assert(text::shape("duration_ms"@) == 95105115111100011);
    reveal_strlit("runs");
    assert(text::shape("runs"@) == 115110115110114004);
    reveal_strlit("total");
    assert(text::shape("total"@) == 97116108116116005);
    reveal_strlit("events");
    assert(text::shape("events"@) == 116110115110101006);
    reveal_strlit("report");
    assert(text::shape("report"@) == 114111116111114006);
}

/// The answer on how the driver is says that it is well, how long it has run and how many models
/// and servers it knows.
pub proof fn law_health_says_how_it_is(
    uptime_secs: u64,
    models: nat,
    servers: nat,
)
    ensures
        health_json(uptime_secs, models, servers) is Object,
        health_json(uptime_secs, models, servers)->Object_0.len() == 4,
        health_json(uptime_secs, models, servers).get("status"@) == Some(JsonView::Str("ok"@)),
        health_json(uptime_secs, models, servers).get("uptime_secs"@)
            == Some(JsonView::Uint(uptime_secs)),
        health_json(uptime_secs, models, servers).get("registered_models"@)
            == Some(JsonView::Uint(models as u64)),
        health_json(uptime_secs, models, servers).get("registered_servers"@)
            == Some(JsonView::Uint(servers as u64)),
{
    broadcast use json::lemma_member_push;

    lemma_words();
}

/// The answer on what the driver knows holds each model and each server of the configuration, in
/// their order and each with what it is, and the names of the driver's own tools.
pub proof fn law_registry_holds_what_is_configured(
    config: DriverConfig,
    i: int,
)
    ensures
        registry_json(config) is Object,
        registry_json(config)->Object_0.len() == 3,
        registry_json(config).get("models"@) is Some
            && registry_json(config).get("models"@)->0 is Array,
        registry_json(config).get("mcp_servers"@) is Some
            && registry_json(config).get("mcp_servers"@)->0
            is Array,
        registry_json(config).get("models"@)->0->Array_0.len() == config.models@.len(),
        registry_json(config).get("mcp_servers"@)->0->Array_0.len() == config.mcp_servers@.len(),
        0 <= i < config.models@.len() ==> {
            let v = registry_json(config).get("models"@)->0->Array_0[i];
            let m = config.models@[i];
            &&& v is Object && v->Object_0.len() == 5
            &&& v.get("name"@) == Some(JsonView::Str(m.name@))
            &&& v.get("model_id"@) == Some(JsonView::Str(m.model_id@))
            &&& v.get("base_url"@) == Some(JsonView::Str(m.base_url@))
            &&& v.get("max_tokens"@) == Some(JsonView::Uint(m.max_tokens as u64))
            &&& v.get("temperature"@) == Some(m.temperature@)
        },
        0 <= i < config.mcp_servers@.len() ==> {
            let v = registry_json(config).get("mcp_servers"@)->0->Array_0[i];
            let s = config.mcp_servers@[i];
            &&& v is Object && v->Object_0.len() == 3
            &&& v.get("name"@) == Some(JsonView::Str(s.name@))
            &&& v.get("command"@) == Some(JsonView::Str(s.command@))
            &&& v.get("tools"@) == Some(JsonView::Str("listed at spawn time"@))
        },
        ({
            let tools = tool_defs::all_tool_views();
            registry_json(config).get("driver_tools"@) == Some(
                JsonView::Array(Seq::new(tools.len(), |k: int| JsonView::Str(tools[k].name))),
            )
        }),
{
    broadcast use json::lemma_member_push;

    lemma_words();
    let tools = tool_defs::all_tool_views();
    assert(json::str_array_view(tool_names(tools))->Array_0 =~= Seq::new(
        tools.len(),
        |k: int| JsonView::Str(tools[k].name),
    ));
}

/// The answers on an error, on a list of runs and on one run hold what they are given, and a list
/// says how many runs it holds.
pub proof fn law_answers_hold_what_they_are_given(
    message: Seq<char>,
    runs: Seq<JsonView>,
    id: Seq<char>,
    events: Seq<JsonView>,
    report: Seq<char>,
)
    ensures
        error_json(message) is Object,
        error_json(message)->Object_0.len() == 1,
        error_json(message).get("error"@) == Some(JsonView::Str(message)),
        runs_json(runs) is Object,
        runs_json(runs)->Object_0.len() == 2,
        runs_json(runs).get("runs"@) == Some(JsonView::Array(runs)),
        runs_json(runs).get("total"@) == Some(JsonView::Uint(runs.len() as u64)),
        run_json(id, events, report) is Object,
        run_json(id, events, report)->Object_0.len() == 3,
        run_json(id, events, report).get("id"@) == Some(JsonView::Str(id)),
        run_json(id, events, report).get("events"@) == Some(JsonView::Array(events)),
        run_json(id, events, report).get("report"@) == Some(JsonView::Str(report)),
{
    broadcast use json::lemma_member_push;

    lemma_words();
}

proof fn lemma_carried(
    members: Seq<(Seq<char>, JsonView)>,
    v: Option<JsonView>,
    to: Seq<char>,
    key: Seq<char>,
)
    requires
        json::member(members, to) is None,
    ensures
        json::member(carried(members, v, to), to) == v,
        key != to ==> json::member(carried(members, v, to), key) == json::member(members, key),
{
    broadcast use json::lemma_member_push;

}

/// The answer on a run says its identifier; what its first event gives as its name, or else as
/// its task, as its model and as its moment; and what its last event gives as its success and its
/// duration. What an event does not give is left out.
pub proof fn law_run_is_told_by_its_ends(
    id: Seq<char>,
    first: Option<JsonView>,
    last: Option<JsonView>,
)
    ensures
        run_info_json(id, first, last).get("id"@) == Some(JsonView::Str(id)),
        run_info_json(id, first, last).get("name"@) == (match first {
            Some(v) => if v.get("name"@) is Some {
                v.get("name"@)
            } else {
                v.get("task"@)
            },
            None => None,
        }),
        run_info_json(id, first, last).get("model"@) == (match first {
            Some(v) => v.get("model"@),
            None => None,
        }),
        run_info_json(id, first, last).get("started_at"@) == (match first {
            Some(v) => v.get("ts"@),
            None => None,
        }),
        run_info_json(id, first, last).get("ok"@) == (match last {
            Some(v) => v.get("ok"@),
            None => None,
        }),
        run_info_json(id, first, last).get("duration_ms"@) == (match last {
            Some(v) => v.get("duration_ms"@),
            None => None,
        }),
{
    lemma_words();
    let start = json::no_members().push(("id"@, JsonView::Str(id)));
    json::lemma_member_push(json::no_members(), "id"@, JsonView::Str(id), "id"@);
    json::lemma_member_push(json::no_members(), "id"@, JsonView::Str(id), "name"@);
    json::lemma_member_push(json::no_members(), "id"@, JsonView::Str(id), "model"@);
    json::lemma_member_push(json::no_members(), "id"@, JsonView::Str(id), "started_at"@);
    json::lemma_member_push(json::no_members(), "id"@, JsonView::Str(id), "ok"@);
    json::lemma_member_push(json::no_members(), "id"@, JsonView::Str(id), "duration_ms"@);
    let av = match first {
        Some(v) => name_in(v),
        None => None,
    };
    let a = carried(start, av, "name"@);
    lemma_carried(start, av, "name"@, "id"@);
    lemma_carried(start, av, "name"@, "name"@);
    lemma_carried(start, av, "name"@, "model"@);
    lemma_carried(start, av, "name"@, "started_at"@);
    lemma_carried(start, av, "name"@, "ok"@);
    lemma_carried(start, av, "name"@, "duration_ms"@);
    let bv = match first {
        Some(v) => v.get("model"@),
        None => None,
    };
    let b = carried(a, bv, "model"@);
    lemma_carried(a, bv, "model"@, "id"@);
    lemma_carried(a, bv, "model"@, "name"@);
    lemma_carried(a, bv, "model"@, "model"@);
    lemma_carried(a, bv, "model"@, "started_at"@);
    lemma_carried(a, bv, "model"@, "ok"@);
    lemma_carried(a, bv, "model"@, "duration_ms"@);
    let cv = match first {
        Some(v) => v.get("ts"@),
        None => None,
    };
    let c = carried(b, cv, "started_at"@);
    lemma_carried(b, cv, "started_at"@, "id"@);
    lemma_carried(b, cv, "started_at"@, "name"@);
    lemma_carried(b, cv, "started_at"@, "model"@);
    lemma_carried(b, cv, "started_at"@, "started_at"@);
    lemma_carried(b, cv, "started_at"@, "ok"@);
    lemma_carried(b, cv, "started_at"@, "duration_ms"@);
    let dv = match last {
        Some(v) => v.get("ok"@),
        None => None,
    };
    let d = carried(c, dv, "ok"@);
    lemma_carried(c, dv, "ok"@, "id"@);
    lemma_carried(c, dv, "ok"@, "name"@);
    lemma_carried(c, dv, "ok"@, "model"@);
    lemma_carried(c, dv, "ok"@, "started_at"@);
    lemma_carried(c, dv, "ok"@, "ok"@);
    lemma_carried(c, dv, "ok"@, "duration_ms"@);
    let ev = match last {
        Some(v) => v.get("duration_ms"@),
        None => None,
    };
    let e = carried(d, ev, "duration_ms"@);
    lemma_carried(d, ev, "duration_ms"@, "id"@);
    lemma_carried(d, ev, "duration_ms"@, "name"@);
    lemma_carried(d, ev, "duration_ms"@, "model"@);
    lemma_carried(d, ev, "duration_ms"@, "started_at"@);
    lemma_carried(d, ev, "duration_ms"@, "ok"@);
    lemma_carried(d, ev, "duration_ms"@, "duration_ms"@);
    assert(run_info_json(id, first, last) == JsonView::Object(e));
}

/// The ends of a run are its first and its last line, as far as they are JSON; a run without a
/// log, or with an empty one, has none.
pub proof fn law_ends_are_the_first_and_the_last_line(
    content: Seq<char>,
    v: JsonView,
)
    ensures
        ends_of(None).0 is None && ends_of(None).1 is None,
        text::lines_of(content).len() == 0 ==> ends_of(Some(content)).0 is None && ends_of(
            Some(content),
        ).1 is None,
        text::lines_of(content).len() > 0 ==> {
            &&& json::json_parse(text::lines_of(content)[0]) == Ok::<JsonView, Seq<char>>(v)
                ==> ends_of(Some(content)).0 == Some(v)
            &&& json::json_parse(text::lines_of(content)[0]) is Err ==> ends_of(Some(content)).0
                is None
            &&& json::json_parse(text::lines_of(content).last()) == Ok::<JsonView, Seq<char>>(v)
                ==> ends_of(Some(content)).1 == Some(v)
            &&& json::json_parse(text::lines_of(content).last()) is Err ==> ends_of(Some(content)).1
                is None
        },
{
}

/// A page starts behind as many runs as are passed over and holds as many as are asked for, or as
/// are left.
pub proof fn law_page_starts_at_the_offset(
    dirs: Seq<RunDirView>,
    offset: nat,
    limit: nat,
    i: int,
)
    ensures
        page_of(dirs, offset, limit).len() <= limit,
        page_of(dirs, offset, limit).len() == limit || page_of(dirs, offset, limit).len() + offset
            >= dirs.len(),
        0 <= i < page_of(dirs, offset, limit).len() ==> offset + i < dirs.len() && page_of(
            dirs,
            offset,
            limit,
        )[i] == dirs[offset + i],
        offset < dirs.len() ==> page_of(dirs, offset, limit).len() + offset <= dirs.len(),
        offset >= dirs.len() ==> page_of(dirs, offset, limit).len() == 0,
{
}

/// A run is put before those that are older than it and behind the others, so that runs of one
/// moment keep their order; one whose moment is not known counts as the oldest.
pub proof fn law_run_is_put_before_older_ones(
    dirs: Seq<RunDirView>,
    d: RunDirView,
    x: i128,
    y: i128,
)
    ensures
        later(Some(x), Some(y)) <==> x > y,
        later(Some(x), None),
        !later(None, Some(x)) && !later(None, None),
        exists|k: int|
            0 <= k <= dirs.len() && newest_first(dirs.push(d)) == #[trigger] newest_first(
                dirs,
            ).insert(k, d) && (k < dirs.len() ==> later(d.modified, newest_first(dirs)[k].modified))
                && (k > 0 ==> !later(d.modified, newest_first(dirs)[k - 1].modified)),
        newest_first(Seq::empty()).len() == 0,
{
    assert(dirs.push(d).drop_last() =~= dirs);
    let front = newest_first(dirs);
    lemma_same_number(dirs);
    lemma_place(front, d);
    let k = place_of(front, d) as int;
    assert(newest_first(dirs.push(d)) == front.insert(k, d));
}

proof fn lemma_same_number(dirs: Seq<RunDirView>)
    ensures
        newest_first(dirs).len() == dirs.len(),
    decreases dirs.len(),
{
    if dirs.len() > 0 {
        lemma_same_number(dirs.drop_last());
        lemma_place(newest_first(dirs.drop_last()), dirs.last());
    }
}

/// The state of the driver is kept in four directories below the one for its log, and a run in a
/// directory of its own among the runs.
pub proof fn law_state_is_below_the_log_directory(
    log_dir: Seq<char>,
    id: Seq<char>,
)
    requires
        log_dir.len() > 0,
        log_dir.last() != '/',
        id.len() > 0,
        id[0] != '/',
    ensures
        state_dirs_of(log_dir).len() == 4,
        state_dirs_of(log_dir)[0] == log_dir + "/runs"@,
        state_dirs_of(log_dir)[1] == log_dir + "/breadcrumbs/active"@,
        state_dirs_of(log_dir)[2] == log_dir + "/breadcrumbs/completed"@,
        state_dirs_of(log_dir)[3] == log_dir + "/loaves"@,
        run_dir_of(log_dir, id) == log_dir + "/runs/"@ + id,
{
    reveal_strlit("/");
    reveal_strlit("runs");
    reveal_strlit("/runs/");
    assert(log_dir + "/"@ + "runs"@ + "/"@ + id =~= log_dir + "/runs/"@ + id);
}

} // verus!
