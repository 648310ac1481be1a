//! Loafs: records of projects of several phases, kept one to a file.
//!
//! The files are read and written elsewhere; here stands what a tool call makes of the
//! record that was read, and what is to be written.

use vstd::prelude::*;

use crate::breadcrumbs;
use crate::breadcrumbs::ArchivedView;
use crate::clock;
use crate::json;
use crate::json::{Json, JsonView, Members};
use crate::mcp;
use crate::mcp::{error_result, text_result, ResultView, ToolCallResult};
use crate::paths;
use crate::text;
use crate::unicode;

verus! {

/// A phase of a project.
#[derive(Debug, PartialEq)]
pub struct Phase {
    pub name: String,
    pub status: String,
    pub tasks: Vec<Json>,
}

/// A decision that was taken.
#[derive(Debug, Clone, PartialEq, Eq)]
pub struct Decision {
    pub what: String,
    pub why: Option<String>,
    pub who: Option<String>,
    pub when: String,
}

/// Something that was found out.
#[derive(Debug, Clone, PartialEq, Eq)]
pub struct Discovery {
    pub what: String,
    pub impact: Option<String>,
    pub when: String,
}

/// A line of a project's log.
#[derive(Debug, Clone, PartialEq, Eq)]
pub struct LogEntry {
    pub timestamp: String,
    pub event: String,
}

/// The record of a project.
#[derive(Debug, PartialEq)]
pub struct Loaf {
    pub loaf_id: String,
    pub goal: String,
    pub created: String,
    pub status: String,
    pub current_phase: usize,
    pub phases: Vec<Phase>,
    pub decisions: Vec<Decision>,
    pub discoveries: Vec<Discovery>,
    pub next_actions: Vec<String>,
    pub breadcrumbs: Vec<LogEntry>,
}

/// Where the records are kept.
#[derive(Debug, Clone, PartialEq, Eq)]
pub struct Loafs {
    pub loaves_dir: String,
    pub archive_dir: String,
}

/// What a phase is, over texts.
pub struct PhaseView {
    pub name: Seq<char>,
    pub status: Seq<char>,
    pub tasks: Seq<JsonView>,
}

/// What a decision is, over texts.
pub struct DecisionView {
    pub what: Seq<char>,
    pub why: Option<Seq<char>>,
    pub who: Option<Seq<char>>,
    pub when: Seq<char>,
}

/// What a discovery is, over texts.
pub struct DiscoveryView {
    pub what: Seq<char>,
    pub impact: Option<Seq<char>>,
    pub when: Seq<char>,
}

/// What a line of a log is, over texts.
pub struct LogView {
    pub timestamp: Seq<char>,
    pub event: Seq<char>,
}

/// What a record is, over texts.
pub struct LoafView {
    pub loaf_id: Seq<char>,
    pub goal: Seq<char>,
    pub created: Seq<char>,
    pub status: Seq<char>,
    pub current_phase: usize,
    pub phases: Seq<PhaseView>,
    pub decisions: Seq<DecisionView>,
    pub discoveries: Seq<DiscoveryView>,
    pub next_actions: Seq<Seq<char>>,
    pub breadcrumbs: Seq<LogView>,
}

/// Where the records are kept, over texts.
pub struct LoafsView {
    pub loaves_dir: Seq<char>,
    pub archive_dir: Seq<char>,
}

impl Phase {
    pub open spec fn view(&self) -> PhaseView {
        PhaseView {
            name: self.name@,
            status: self.status@,
            tasks: json::items_view(self.tasks@),
        }
    }
}

impl Decision {
    pub open spec fn view(&self) -> DecisionView {
        DecisionView {
            what: self.what@,
            why: text::opt_text(self.why),
            who: text::opt_text(self.who),
            when: self.when@,
        }
    }
}

impl Discovery {
    pub open spec fn view(&self) -> DiscoveryView {
        DiscoveryView {
            what: self.what@,
            impact: text::opt_text(self.impact),
            when: self.when@,
        }
    }
}

impl LogEntry {
    pub open spec fn view(&self) -> LogView {
        LogView { timestamp: self.timestamp@, event: self.event@ }
    }
}

/// What phases are, over texts.
pub open spec fn phase_views(phases: Seq<Phase>) -> Seq<PhaseView> {
    Seq::new(phases.len(), |i: int| phases[i]@)
}

/// What decisions are, over texts.
pub open spec fn decision_views(decisions: Seq<Decision>) -> Seq<DecisionView> {
    Seq::new(decisions.len(), |i: int| decisions[i]@)
}

/// What discoveries are, over texts.
pub open spec fn discovery_views(discoveries: Seq<Discovery>) -> Seq<DiscoveryView> {
    Seq::new(discoveries.len(), |i: int| discoveries[i]@)
}

/// What the lines of a log are, over texts.
pub open spec fn log_views(log: Seq<LogEntry>) -> Seq<LogView> {
    Seq::new(log.len(), |i: int| log[i]@)
}

impl Loaf {
    pub open spec fn view(&self) -> LoafView {
        LoafView {
            loaf_id: self.loaf_id@,
            goal: self.goal@,
            created: self.created@,
            status: self.status@,
            current_phase: self.current_phase,
            phases: phase_views(self.phases@),
            decisions: decision_views(self.decisions@),
            discoveries: discovery_views(self.discoveries@),
            next_actions: text::texts(self.next_actions@),
            breadcrumbs: log_views(self.breadcrumbs@),
        }
    }
}

impl Loafs {
    pub open spec fn view(&self) -> LoafsView {
        LoafsView { loaves_dir: self.loaves_dir@, archive_dir: self.archive_dir@ }
    }
}

/// What is to be done about a tool call.
#[derive(Debug, PartialEq)]
pub enum LoafAction {
    /// The call is answered.
    Reply(ToolCallResult),
    /// The record is written to `path`; then `reply` is the answer. Where the writing fails,
    /// the answer is an error: `failure` with the words of the failure behind it.
    Save { path: String, loaf: Loaf, failure: String, reply: ToolCallResult },
    /// The record is written to `dest` and the file `active_path` is removed; then `reply` is
    /// the answer. Where the writing fails, the call itself fails.
    Archive { dest: String, loaf: Loaf, active_path: String, reply: ToolCallResult },
}

/// What is to be done about a tool call, over texts.
pub enum LoafActionView {
    Reply(ResultView),
    Save { path: Seq<char>, loaf: LoafView, failure: Seq<char>, reply: ResultView },
    Archive { dest: Seq<char>, loaf: LoafView, active_path: Seq<char>, reply: ResultView },
}

impl LoafAction {
    pub open spec fn view(&self) -> LoafActionView {
        match *self {
            LoafAction::Reply(r) => LoafActionView::Reply(r@),
            LoafAction::Save { path, loaf, failure, reply } => LoafActionView::Save {
                path: path@,
                loaf: loaf@,
                failure: failure@,
                reply: reply@,
            },
            LoafAction::Archive { dest, loaf, active_path, reply } => LoafActionView::Archive {
                dest: dest@,
                loaf: loaf@,
                active_path: active_path@,
                reply: reply@,
            },
        }
    }
}

/// A record with one line more in its log.
pub open spec fn logged(loaf: LoafView, now: Seq<char>, event: Seq<char>) -> LoafView {
    LoafView {
        breadcrumbs: loaf.breadcrumbs.push(LogView { timestamp: now, event }),
        ..loaf
    }
}

fn log(loaf: &mut Loaf, now: &str, event: &str)
    ensures
        final(loaf)@ == logged(old(loaf)@, now@, event@),
{
    let ghost before = loaf.breadcrumbs@;
    let line = LogEntry { timestamp: text::copy(now), event: text::copy(event) };
    loaf.breadcrumbs.push(line);
    proof {
        assert(log_views(loaf.breadcrumbs@) =~= log_views(before).push(line@));
    }
}

/// Whether a character stays in an identifier.
pub open spec fn id_char(c: char) -> bool {
    unicode::alphanumeric(c) || c == '_' || c == '-'
}

/// The characters that stay in an identifier.
pub open spec fn id_chars(s: Seq<char>) -> Seq<char>
    decreases s.len(),
{
    if s.len() == 0 {
        Seq::empty()
    } else if id_char(s.last()) {
        id_chars(s.drop_last()).push(s.last())
    } else {
        id_chars(s.drop_last())
    }
}

/// The identifier of a project: its name with `_` for each space and without what is no letter,
/// digit, `_` or `-`.
pub open spec fn loaf_id_of(project_name: Seq<char>) -> Seq<char> {
    id_chars(text::replaced(project_name, " "@, "_"@)) + "_Loaf"@
}

/// The ASCII characters that stay in an identifier.
pub open spec fn ascii_id_chars(s: Seq<char>) -> Seq<char>
    decreases s.len(),
{
    if s.len() == 0 {
        Seq::empty()
    } else {
        let c = s.last();
        if unicode::ascii_alphanumeric(c) || c == '_' || c == '-' {
            ascii_id_chars(s.drop_last()).push(c)
        } else {
            ascii_id_chars(s.drop_last())
        }
    }
}

/// The identifier of a project whose name is made of ASCII characters.
pub open spec fn ascii_loaf_id_of(project_name: Seq<char>) -> Seq<char> {
    ascii_id_chars(text::replaced(project_name, " "@, "_"@)) + "_Loaf"@
}

proof fn lemma_replaced_is_ascii(s: Seq<char>, find: Seq<char>, rep: Seq<char>)
    requires
        unicode::all_ascii(s),
        unicode::all_ascii(rep),
    ensures
        unicode::all_ascii(text::replaced(s, find, rep)),
    decreases s.len(),
{
    if s.len() > 0 && find.len() > 0 {
        if text::has_prefix(s, find) {
            lemma_replaced_is_ascii(s.skip(find.len() as int), find, rep);
        } else {
            lemma_replaced_is_ascii(s.drop_first(), find, rep);
        }
    }
}

/// The identifier of a project.
pub fn loaf_id(project_name: &str) -> (r: String)
    ensures
        r@ == loaf_id_of(project_name@),
        unicode::all_ascii(project_name@) ==> r@ == ascii_loaf_id_of(project_name@),
{
    proof {
        reveal_strlit(" ");
        reveal_strlit("_");
        if unicode::all_ascii(project_name@) {
            lemma_replaced_is_ascii(project_name@, " "@, "_"@);
        }
    }
    let chars = text::to_chars(text::replace(project_name, " ", "_").as_str());
    let mut out = String::new();
    let mut i: usize = 0;
    while i < chars.len()
        invariant
            i <= chars@.len(),
            out@ == id_chars(chars@.take(i as int)),
            unicode::all_ascii(chars@) ==> out@ == ascii_id_chars(chars@.take(i as int)),
        decreases chars@.len() - i,
    {
        proof {
            assert(chars@.take(i + 1).drop_last() =~= chars@.take(i as int));
        }
        let c = chars[i];
        if unicode::is_alphanumeric(c) || c == '_' || c == '-' {
            out.push(c);
        }
        i += 1;
    }
    proof {
        assert(chars@.take(i as int) =~= chars@);
    }
    out.push_str("_Loaf");
    out
}

/// The phases of a project at its start: the first is active.
pub open spec fn first_phases(names: Seq<Seq<char>>) -> Seq<PhaseView> {
    if names.len() == 0 {
        seq![PhaseView { name: "default"@, status: "active"@, tasks: Seq::empty() }]
    } else {
        Seq::new(
            names.len(),
            |i: int|
                PhaseView {
                    name: names[i],
                    status: if i == 0 {
                        "active"@
                    } else {
                        "pending"@
                    },
                    tasks: Seq::empty(),
                },
        )
    }
}

fn phase(name: &str, status: &str) -> (r: Phase)
    ensures
        r@ == (PhaseView { name: name@, status: status@, tasks: Seq::empty() }),
{
    let r = Phase { name: text::copy(name), status: text::copy(status), tasks: Vec::new() };
    proof {
        assert(r@.tasks =~= Seq::empty());
    }
    r
}

fn make_phases(names: &Vec<String>) -> (r: Vec<Phase>)
    ensures
        phase_views(r@) == first_phases(text::texts(names@)),
{
    let mut phases: Vec<Phase> = Vec::new();
    if names.len() == 0 {
        phases.push(phase("default", "active"));
        proof {
            assert(phase_views(phases@) =~= first_phases(text::texts(names@)));
        }
        return phases;
    }
    let ghost all = first_phases(text::texts(names@));
    let mut i: usize = 0;
    while i < names.len()
        invariant
            i <= names@.len(),
            names@.len() > 0,
            all == first_phases(text::texts(names@)),
            phases@.len() == i,
            forall|j: int| 0 <= j < i ==> (#[trigger] phases@[j])@ == all[j],
        decreases names@.len() - i,
    {
        phases.push(
            phase(
                names[i].as_str(),
                if i == 0 {
                    "active"
                } else {
                    "pending"
                },
            ),
        );
        i += 1;
    }
    proof {
        assert(phase_views(phases@) =~= all);
    }
    phases
}

/// The name of a project that a call creates.
pub open spec fn project_in(args: JsonView) -> Seq<char> {
    args.str_or("project_name"@, "unnamed"@)
}

/// A record that is created.
pub open spec fn created(args: JsonView, now: Seq<char>) -> LoafView {
    created_as(args, loaf_id_of(project_in(args)), now)
}

/// A record that is created under an identifier.
pub open spec fn created_as(args: JsonView, loaf_id: Seq<char>, now: Seq<char>) -> LoafView {
    LoafView {
        loaf_id,
        goal: args.str_or("goal"@, ""@),
        created: now,
        status: "active"@,
        current_phase: 0,
        phases: first_phases(args.strings_at("phases"@)),
        decisions: Seq::empty(),
        discoveries: Seq::empty(),
        next_actions: Seq::empty(),
        breadcrumbs: seq![LogView { timestamp: now, event: "Loaf created"@ }],
    }
}

/// What creating a record comes to.
pub open spec fn create_action(store: LoafsView, args: JsonView, now: Seq<char>) -> LoafActionView {
    create_action_as(store, args, loaf_id_of(project_in(args)), now)
}

/// What creating a record under an identifier comes to.
pub open spec fn create_action_as(
    store: LoafsView,
    args: JsonView,
    loaf_id: Seq<char>,
    now: Seq<char>,
) -> LoafActionView {
    let loaf = created_as(args, loaf_id, now);
    if loaf.goal.len() == 0 {
        LoafActionView::Reply(mcp::error_view("goal is required"@))
    } else {
        LoafActionView::Save {
            path: paths::json_file(store.loaves_dir, loaf.loaf_id),
            loaf,
            failure: "failed to save loaf: "@,
            reply: mcp::text_view(
                json::json_pretty(
                    JsonView::Object(
                        json::no_members().push(("loaf_id"@, JsonView::Str(loaf.loaf_id))).push(
                            ("goal"@, JsonView::Str(loaf.goal)),
                        ).push(("status"@, JsonView::Str("active"@))).push(
                            ("phases"@, JsonView::Uint(loaf.phases.len() as u64)),
                        ),
                    ),
                ),
            ),
        }
    }
}

/// A record with a task put into its current phase, if a call names one.
pub open spec fn with_task(loaf: LoafView, args: JsonView, now: Seq<char>) -> LoafView {
    match args.get("task_update"@) {
        None => loaf,
        Some(task) => {
            let filed = if loaf.current_phase < loaf.phases.len() {
                let phase = loaf.phases[loaf.current_phase as int];
                LoafView {
                    phases: loaf.phases.update(
                        loaf.current_phase as int,
                        PhaseView { tasks: phase.tasks.push(task), ..phase },
                    ),
                    ..loaf
                }
            } else {
                loaf
            };
            logged(
                filed,
                now,
                "Task "@ + task.str_or("task_id"@, "unknown"@) + " -> "@ + task.str_or(
                    "status"@,
                    "done"@,
                ),
            )
        },
    }
}

/// A record with a decision, if a call names one.
pub open spec fn with_decision(loaf: LoafView, args: JsonView, now: Seq<char>) -> LoafView {
    match args.get("decision"@) {
        None => loaf,
        Some(d) => {
            let what = d.str_or("what"@, ""@);
            logged(
                LoafView {
                    decisions: loaf.decisions.push(
                        DecisionView {
                            what,
                            why: d.str_at("why"@),
                            who: d.str_at("who"@),
                            when: now,
                        },
                    ),
                    ..loaf
                },
                now,
                "Decision: "@ + what,
            )
        },
    }
}

/// A record with a discovery, if a call names one.
pub open spec fn with_discovery(loaf: LoafView, args: JsonView, now: Seq<char>) -> LoafView {
    match args.get("discovery"@) {
        None => loaf,
        Some(d) => {
            let what = d.str_or("what"@, ""@);
            logged(
                LoafView {
                    discoveries: loaf.discoveries.push(
                        DiscoveryView { what, impact: d.str_at("impact"@), when: now },
                    ),
                    ..loaf
                },
                now,
                "Discovery: "@ + what,
            )
        },
    }
}

/// A record with the next actions that a call lists, if it lists any.
pub open spec fn with_next_actions(loaf: LoafView, args: JsonView, now: Seq<char>) -> LoafView {
    match args.array_at("next_actions"@) {
        None => loaf,
        Some(items) => logged(
            LoafView { next_actions: json::strings(items), ..loaf },
            now,
            "Next actions updated"@,
        ),
    }
}

/// Phases with the one at `i` in another status; the same phases, where there is none at `i`.
pub open spec fn with_status(phases: Seq<PhaseView>, i: int, status: Seq<char>) -> Seq<PhaseView> {
    if 0 <= i < phases.len() {
        phases.update(i, PhaseView { status, ..phases[i] })
    } else {
        phases
    }
}

/// A record in its next phase, if a call says that the current one is done.
pub open spec fn with_phase(loaf: LoafView, args: JsonView, now: Seq<char>) -> LoafView {
    if args.str_at("phase_status"@) == Some("done"@) {
        let next = loaf.current_phase + 1;
        logged(
            LoafView {
                phases: with_status(
                    with_status(loaf.phases, loaf.current_phase as int, "done"@),
                    next,
                    "active"@,
                ),
                current_phase: next as usize,
                ..loaf
            },
            now,
            "Phase advanced to: "@ + text::decimal(next as nat),
        )
    } else {
        loaf
    }
}

/// Whether a record's phase can be counted on, if a call says that the current one is done.
pub open spec fn can_advance(loaf: LoafView, args: JsonView) -> bool {
    args.str_at("phase_status"@) == Some("done"@) ==> loaf.current_phase < usize::MAX
}

/// A record with everything that a call updates.
pub open spec fn updated(loaf: LoafView, args: JsonView, now: Seq<char>) -> LoafView {
    with_phase(
        with_next_actions(
            with_discovery(with_decision(with_task(loaf, args, now), args, now), args, now),
            args,
            now,
        ),
        args,
        now,
    )
}

/// What is said where there is no record of an identifier.
pub open spec fn not_found(id: Seq<char>) -> ResultView {
    mcp::error_view("loaf '"@ + id + "' not found"@)
}

fn no_loaf(id: &str) -> (r: ToolCallResult)
    ensures
        r@ == not_found(id@),
{
    error_result(text::cat3("loaf '", id, "' not found").as_str())
}

/// What updating a record comes to.
pub open spec fn update_action(
    store: LoafsView,
    args: JsonView,
    loaded: Option<LoafView>,
    now: Seq<char>,
) -> LoafActionView {
    let id = args.str_or("loaf_id"@, ""@);
    if id.len() == 0 {
        LoafActionView::Reply(mcp::error_view("loaf_id is required"@))
    } else {
        match loaded {
            None => LoafActionView::Reply(not_found(id)),
            Some(loaf) => LoafActionView::Save {
                path: paths::json_file(store.loaves_dir, loaf.loaf_id),
                loaf: updated(loaf, args, now),
                failure: "save failed: "@,
                reply: mcp::text_view("loaf '"@ + id + "' updated"@),
            },
        }
    }
}

/// The number of tasks in phases.
pub open spec fn task_count(phases: Seq<PhaseView>) -> nat
    decreases phases.len(),
{
    if phases.len() == 0 {
        0
    } else {
        task_count(phases.drop_last()) + phases.last().tasks.len()
    }
}

/// A line of a log as JSON.
pub open spec fn log_item(line: LogView) -> JsonView {
    JsonView::Object(
        json::no_members().push(("timestamp"@, JsonView::Str(line.timestamp))).push(
            ("event"@, JsonView::Str(line.event)),
        ),
    )
}

/// The last lines of a log, at most five, the latest first.
pub open spec fn last_lines(log: Seq<LogView>) -> Seq<JsonView> {
    let n = if log.len() < 5 {
        log.len()
    } else {
        5
    };
    Seq::new(n, |i: int| log_item(log[log.len() - 1 - i]))
}

/// The answer on a record.
pub open spec fn status_reply(loaf: LoafView) -> ResultView {
    mcp::text_view(
        json::json_pretty(
            JsonView::Object(
                json::no_members().push(("loaf_id"@, JsonView::Str(loaf.loaf_id))).push(
                    ("goal"@, JsonView::Str(loaf.goal)),
                ).push(("status"@, JsonView::Str(loaf.status))).push(
                    ("current_phase"@, JsonView::Uint(loaf.current_phase as u64)),
                ).push(("total_phases"@, JsonView::Uint(loaf.phases.len() as u64))).push(
                    ("total_tasks"@, JsonView::Uint(task_count(loaf.phases) as u64)),
                ).push(("decisions_count"@, JsonView::Uint(loaf.decisions.len() as u64))).push(
                    ("discoveries_count"@, JsonView::Uint(loaf.discoveries.len() as u64)),
                ).push(("next_actions"@, json::str_array_view(loaf.next_actions))).push(
                    ("last_events"@, JsonView::Array(last_lines(loaf.breadcrumbs))),
                ),
            ),
        ),
    )
}

/// The answer on the record of a call's identifier; on the active one, where it names none.
pub open spec fn status_of(args: JsonView, loaded: Option<LoafView>) -> ResultView {
    match loaded {
        Some(loaf) => status_reply(loaf),
        None => match args.str_at("loaf_id"@) {
            Some(id) => not_found(id),
            None => mcp::text_view("no active loaf"@),
        },
    }
}

/// A record that is closed.
pub open spec fn closed(loaf: LoafView, now: Seq<char>) -> LoafView {
    logged(LoafView { status: "completed"@, ..loaf }, now, "Loaf closed"@)
}

/// What closing a record comes to.
pub open spec fn close_action(
    store: LoafsView,
    args: JsonView,
    loaded: Option<LoafView>,
    now: Seq<char>,
) -> LoafActionView {
    let id = args.str_or("loaf_id"@, ""@);
    if id.len() == 0 {
        LoafActionView::Reply(mcp::error_view("loaf_id is required"@))
    } else {
        match loaded {
            None => LoafActionView::Reply(not_found(id)),
            Some(loaf) => {
                let dest = paths::json_file(store.archive_dir, id);
                LoafActionView::Archive {
                    dest,
                    loaf: closed(loaf, now),
                    active_path: paths::json_file(store.loaves_dir, id),
                    reply: mcp::text_view(
                        json::json_pretty(
                            JsonView::Object(
                                json::no_members().push(("loaf_id"@, JsonView::Str(id))).push(
                                    ("status"@, JsonView::Str("completed"@)),
                                ).push(("archived_to"@, JsonView::Str(dest))),
                            ),
                        ),
                    ),
                }
            },
        }
    }
}

/// What a loaded record is, over texts.
pub open spec fn loaded_view(loaded: Option<Loaf>) -> Option<LoafView> {
    match loaded {
        Some(loaf) => Some(loaf@),
        None => None,
    }
}

/// The position of the first record that is active; the number of records, where none is.
pub open spec fn active_at(statuses: Seq<Seq<char>>) -> nat
    decreases statuses.len(),
{
    if statuses.len() == 0 || statuses[0] == "active"@ {
        0
    } else {
        1 + active_at(statuses.drop_first())
    }
}

/// Puts the task of a call into the current phase.
fn file_task(loaf: &mut Loaf, args: &Json, now: &str)
    ensures
        final(loaf)@ == with_task(old(loaf)@, args@, now@),
{
    let task = match args.get("task_update") {
        Some(task) => task,
        None => return,
    };
    let ghost before = loaf@;
    if loaf.current_phase < loaf.phases.len() {
        let i = loaf.current_phase;
        let ghost phases = loaf.phases@;
        let mut tasks: Vec<Json> = Vec::new();
        std::mem::swap(&mut tasks, &mut loaf.phases[i].tasks);
        let ghost filed = tasks@;
        tasks.push(task.copy());
        let ghost more = tasks@;
        std::mem::swap(&mut tasks, &mut loaf.phases[i].tasks);
        proof {
            assert(json::items_view(more) =~= json::items_view(filed).push(task@));
            assert(phase_views(loaf.phases@) =~= before.phases.update(
                i as int,
                PhaseView {
                    tasks: before.phases[i as int].tasks.push(task@),
                    ..before.phases[i as int]
                },
            ));
        }
    }
    let event = text::cat4(
        "Task ",
        task.str_or("task_id", "unknown"),
        " -> ",
        task.str_or("status", "done"),
    );
    log(loaf, now, event.as_str());
}

/// Notes the decision of a call.
fn note_decision(loaf: &mut Loaf, args: &Json, now: &str)
    ensures
        final(loaf)@ == with_decision(old(loaf)@, args@, now@),
{
    let d = match args.get("decision") {
        Some(d) => d,
        None => return,
    };
    let what = d.str_or("what", "");
    let decision = Decision {
        what: text::copy(what),
        why: d.string_at("why"),
        who: d.string_at("who"),
        when: text::copy(now),
    };
    let ghost before = loaf.decisions@;
    loaf.decisions.push(decision);
    proof {
        assert(decision_views(loaf.decisions@) =~= decision_views(before).push(decision@));
    }
    log(loaf, now, text::cat2("Decision: ", what).as_str());
}

/// Notes the discovery of a call.
fn note_discovery(loaf: &mut Loaf, args: &Json, now: &str)
    ensures
        final(loaf)@ == with_discovery(old(loaf)@, args@, now@),
{
    let d = match args.get("discovery") {
        Some(d) => d,
        None => return,
    };
    let what = d.str_or("what", "");
    let discovery = Discovery {
        what: text::copy(what),
        impact: d.string_at("impact"),
        when: text::copy(now),
    };
    let ghost before = loaf.discoveries@;
    loaf.discoveries.push(discovery);
    proof {
        assert(discovery_views(loaf.discoveries@) =~= discovery_views(before).push(discovery@));
    }
    log(loaf, now, text::cat2("Discovery: ", what).as_str());
}

/// Takes over the next actions of a call.
fn set_next_actions(loaf: &mut Loaf, args: &Json, now: &str)
    ensures
        final(loaf)@ == with_next_actions(old(loaf)@, args@, now@),
{
    let listed = match args.get("next_actions") {
        Some(v) => v.as_array().is_some(),
        None => false,
    };
    if listed {
        loaf.next_actions = args.strings_at("next_actions");
        log(loaf, now, "Next actions updated");
    }
}

fn set_status(phases: &mut Vec<Phase>, i: usize, status: &str)
    ensures
        phase_views(final(phases)@) == with_status(phase_views(old(phases)@), i as int, status@),
{
    let ghost before = phase_views(phases@);
    if i < phases.len() {
        phases[i].status = text::copy(status);
        proof {
            assert(phase_views(phases@) =~= with_status(before, i as int, status@));
        }
    }
}

/// Goes on to the next phase, if a call says that the current one is done.
fn advance_phase(loaf: &mut Loaf, args: &Json, now: &str)
    requires
        can_advance(old(loaf)@, args@),
    ensures
        final(loaf)@ == with_phase(old(loaf)@, args@, now@),
{
    let done = match args.str_at("phase_status") {
        Some(status) => text::str_eq(status, "done"),
        None => false,
    };
    if done {
        set_status(&mut loaf.phases, loaf.current_phase, "done");
        loaf.current_phase = loaf.current_phase + 1;
        set_status(&mut loaf.phases, loaf.current_phase, "active");
        let event = text::cat2(
            "Phase advanced to: ",
            text::number(loaf.current_phase as u64).as_str(),
        );
        log(loaf, now, event.as_str());
    }
}

impl Loafs {
    /// The records under a state directory.
    pub fn new(log_dir: &str) -> (r: Loafs)
        ensures
            r.loaves_dir@ == paths::path_join(log_dir@, "loaves"@),
            r.archive_dir@ == paths::path_join(
                paths::path_join(log_dir@, "loaves"@),
                "archive"@,
            ),
    {
        let base = paths::join(log_dir, "loaves");
        let archive = paths::join(base.as_str(), "archive");
        Loafs { loaves_dir: base, archive_dir: archive }
    }

    /// The file of an active record.
    pub fn loaf_path(&self, id: &str) -> (r: String)
        ensures
            r@ == paths::json_file(self@.loaves_dir, id@),
    {
        paths::json_path(self.loaves_dir.as_str(), id)
    }

    /// The first of the records that is active.
    pub fn find_active(&self, loafs: Vec<Loaf>) -> (r: Option<Loaf>)
        ensures
            ({
                let statuses = Seq::new(loafs@.len(), |i: int| loafs@[i].status@);
                match r {
                    Some(loaf) => active_at(statuses) < loafs@.len() && loaf@
                        == loafs@[active_at(statuses) as int]@,
                    None => active_at(statuses) == loafs@.len(),
                }
            }),
    {
        let ghost statuses = Seq::new(loafs@.len(), |i: int| loafs@[i].status@);
        let mut rest = loafs;
        let mut i: usize = 0;
        proof {
            assert(statuses.skip(0) =~= statuses);
        }
        while i < rest.len()
            invariant
                i <= rest@.len(),
                rest@ == loafs@,
                statuses == Seq::new(loafs@.len(), |i: int| loafs@[i].status@),
                active_at(statuses) == i + active_at(statuses.skip(i as int)),
            decreases rest@.len() - i,
        {
            proof {
                assert(statuses.skip(i as int)[0] == statuses[i as int]);
                assert(statuses.skip(i as int).drop_first() =~= statuses.skip(i + 1));
            }
            if text::str_eq(rest[i].status.as_str(), "active") {
                return Some(rest.swap_remove(i));
            }
            i += 1;
        }
        None
    }

    /// Creates a record at a given moment.
    pub fn create_at(&self, args: &Json, now: &str) -> (r: LoafAction)
        ensures
            r@ == create_action(self@, args@, now@),
            unicode::all_ascii(project_in(args@)) ==> r@ == create_action_as(
                self@,
                args@,
                ascii_loaf_id_of(project_in(args@)),
                now@,
            ),
    {
        let goal = args.str_or("goal", "");
        if goal.is_empty() {
            return LoafAction::Reply(error_result("goal is required"));
        }
        let id = loaf_id(args.str_or("project_name", "unnamed"));
        let names = args.strings_at("phases");
        let phases = make_phases(&names);
        let reply = Members::new().with("loaf_id", json::string(id.as_str())).with(
            "goal",
            json::string(goal),
        ).with("status", json::string("active")).with("phases", json::size(phases.len())).object();
        let path = self.loaf_path(id.as_str());
        let mut log: Vec<LogEntry> = Vec::new();
        log.push(LogEntry { timestamp: text::copy(now), event: text::copy("Loaf created") });
        let loaf = Loaf {
            loaf_id: id,
            goal: text::copy(goal),
            created: text::copy(now),
            status: text::copy("active"),
            current_phase: 0,
            phases,
            decisions: Vec::new(),
            discoveries: Vec::new(),
            next_actions: Vec::new(),
            breadcrumbs: log,
        };
        proof {
            assert(loaf@.decisions =~= Seq::empty());
            assert(loaf@.discoveries =~= Seq::empty());
            assert(loaf@.next_actions =~= Seq::empty());
            assert(loaf@.breadcrumbs =~= created(args@, now@).breadcrumbs);
            assert(loaf@ == created(args@, now@));
        }
        LoafAction::Save {
            path,
            loaf,
            failure: text::copy("failed to save loaf: "),
            reply: text_result(json::pretty(&reply).as_str()),
        }
    }

    /// Creates a record now.
    pub fn create(&self, args: &Json) -> (r: LoafAction)
        ensures
            exists|now: Seq<char>|
                r@ == #[trigger] create_action(self@, args@, now) && (unicode::all_ascii(
                    project_in(args@),
                ) ==> r@ == create_action_as(
                    self@,
                    args@,
                    ascii_loaf_id_of(project_in(args@)),
                    now,
                )),
    {
        let now = clock::now_rfc3339();
        self.create_at(args, now.as_str())
    }

    /// Updates the record that was loaded for the call's identifier, at a given moment.
    pub fn update_at(&self, args: &Json, loaded: Option<Loaf>, now: &str) -> (r: LoafAction)
        requires
            loaded matches Some(loaf) ==> can_advance(loaf@, args@),
        ensures
            r@ == update_action(self@, args@, loaded_view(loaded), now@),
    {
        let id = args.str_or("loaf_id", "");
        if id.is_empty() {
            return LoafAction::Reply(error_result("loaf_id is required"));
        }
        let mut loaf = match loaded {
            Some(loaf) => loaf,
            None => return LoafAction::Reply(no_loaf(id)),
        };
        file_task(&mut loaf, args, now);
        note_decision(&mut loaf, args, now);
        note_discovery(&mut loaf, args, now);
        set_next_actions(&mut loaf, args, now);
        advance_phase(&mut loaf, args, now);
        LoafAction::Save {
            path: self.loaf_path(loaf.loaf_id.as_str()),
            loaf,
            failure: text::copy("save failed: "),
            reply: text_result(text::cat3("loaf '", id, "' updated").as_str()),
        }
    }

    /// Updates the record that was loaded for the call's identifier.
    pub fn update(&self, args: &Json, loaded: Option<Loaf>) -> (r: LoafAction)
        requires
            loaded matches Some(loaf) ==> can_advance(loaf@, args@),
        ensures
            exists|now: Seq<char>|
                r@ == #[trigger] update_action(self@, args@, loaded_view(loaded), now),
    {
        let now = clock::now_rfc3339();
        self.update_at(args, loaded, now.as_str())
    }

    /// The answer on the record that was loaded: the one of the call's identifier; the active
    /// one, where the call names none.
    pub fn status(&self, args: &Json, loaded: &Option<Loaf>) -> (r: ToolCallResult)
        requires
            loaded matches Some(loaf) ==> task_count(loaf@.phases) <= usize::MAX,
        ensures
            r@ == status_of(args@, loaded_view(*loaded)),
    {
        let loaf = match loaded {
            Some(loaf) => loaf,
            None => return match args.str_at("loaf_id") {
                Some(id) => no_loaf(id),
                None => text_result("no active loaf"),
            },
        };
        let mut tasks: usize = 0;
        let mut i: usize = 0;
        while i < loaf.phases.len()
            invariant
                i <= loaf.phases@.len(),
                task_count(loaf@.phases) <= usize::MAX,
                tasks == task_count(loaf@.phases.take(i as int)),
            decreases loaf.phases@.len() - i,
        {
            proof {
                assert(loaf@.phases.take(i + 1).drop_last() =~= loaf@.phases.take(i as int));
                lemma_task_count_grows(loaf@.phases, i + 1);
            }
            tasks = tasks + loaf.phases[i].tasks.len();
            i += 1;
        }
        let mut lines: Vec<Json> = Vec::new();
        let ghost log = loaf@.breadcrumbs;
        let total: usize = loaf.breadcrumbs.len();
        let mut k: usize = 0;
        while k < total && k < 5
            invariant
                total == loaf.breadcrumbs@.len(),
                k <= total,
                k <= 5,
                lines@.len() == k,
                forall|j: int|
                    0 <= j < k ==> (#[trigger] lines@[j])@ == log_item(
                        loaf@.breadcrumbs[total - 1 - j],
                    ),
            decreases total - k,
        {
            let line = &loaf.breadcrumbs[total - 1 - k];
            lines.push(
                Members::new().with("timestamp", json::string(line.timestamp.as_str())).with(
                    "event",
                    json::string(line.event.as_str()),
                ).object(),
            );
            k += 1;
        }
        proof {
            assert(loaf@.phases.take(i as int) =~= loaf@.phases);
            assert(json::items_view(lines@) =~= last_lines(log));
        }
        let reply = Members::new().with("loaf_id", json::string(loaf.loaf_id.as_str())).with(
            "goal",
            json::string(loaf.goal.as_str()),
        ).with("status", json::string(loaf.status.as_str())).with(
            "current_phase",
            json::size(loaf.current_phase),
        ).with("total_phases", json::size(loaf.phases.len())).with(
            "total_tasks",
            json::size(tasks),
        ).with("decisions_count", json::size(loaf.decisions.len())).with(
            "discoveries_count",
            json::size(loaf.discoveries.len()),
        ).with("next_actions", json::string_array(&loaf.next_actions)).with(
            "last_events",
            json::array(lines),
        ).object();
        text_result(json::pretty(&reply).as_str())
    }

    /// Closes the record that was loaded for the call's identifier, at a given moment.
    pub fn close_at(&self, args: &Json, loaded: Option<Loaf>, now: &str) -> (r: LoafAction)
        ensures
            r@ == close_action(self@, args@, loaded_view(loaded), now@),
    {
        let id = args.str_or("loaf_id", "");
        if id.is_empty() {
            return LoafAction::Reply(error_result("loaf_id is required"));
        }
        let mut loaf = match loaded {
            Some(loaf) => loaf,
            None => return LoafAction::Reply(no_loaf(id)),
        };
        loaf.status = text::copy("completed");
        log(&mut loaf, now, "Loaf closed");
        let dest = paths::json_path(self.archive_dir.as_str(), id);
        let reply = Members::new().with("loaf_id", json::string(id)).with(
            "status",
            json::string("completed"),
        ).with("archived_to", json::string(dest.as_str())).object();
        LoafAction::Archive {
            dest,
            loaf,
            active_path: self.loaf_path(id),
            reply: text_result(json::pretty(&reply).as_str()),
        }
    }

    /// Closes the record that was loaded for the call's identifier.
    pub fn close(&self, args: &Json, loaded: Option<Loaf>) -> (r: LoafAction)
        ensures
            exists|now: Seq<char>|
                r@ == #[trigger] close_action(self@, args@, loaded_view(loaded), now),
    {
        let now = clock::now_rfc3339();
        self.close_at(args, loaded, now.as_str())
    }
}

proof fn lemma_task_count_grows(phases: Seq<PhaseView>, i: int)
    requires
        0 <= i <= phases.len(),
    ensures
        task_count(phases.take(i)) <= task_count(phases),
    decreases phases.len() - i,
{
    if i < phases.len() {
        assert(phases.take(i + 1).drop_last() =~= phases.take(i));
        lemma_task_count_grows(phases, i + 1);
    } else {
        assert(phases.take(i) =~= phases);
    }
}

/// Whether the phases before the current one are done, the current one is active and those
/// behind it are pending.
pub open spec fn in_order(loaf: LoafView) -> bool {
    forall|i: int|
        0 <= i < loaf.phases.len() ==> (#[trigger] loaf.phases[i]).status == (if i
            < loaf.current_phase {
            "done"@
        } else if i == loaf.current_phase {
            "active"@
        } else {
            "pending"@
        })
}

/// A record that is created has its first phase active and the others pending, and at least
/// one phase.
pub proof fn law_created_in_order(args: JsonView, now: Seq<char>)
    ensures
        in_order(created(args, now)),
        created(args, now).phases.len() > 0,
{
}

/// An update keeps the phases in order: it makes the current phase done and the next one
/// active, or leaves their statuses as they are.
pub proof fn law_update_keeps_order(loaf: LoafView, args: JsonView, now: Seq<char>)
    requires
        in_order(loaf),
        can_advance(loaf, args),
    ensures
        in_order(updated(loaf, args, now)),
        updated(loaf, args, now).phases.len() == loaf.phases.len(),
        updated(loaf, args, now).current_phase == loaf.current_phase + (if args.str_at(
            "phase_status"@,
        ) == Some("done"@) {
            1int
        } else {
            0
        }),
{
    let filed = with_task(loaf, args, now);
    assert(in_order(filed)) by {
        assert forall|i: int| 0 <= i < filed.phases.len() implies (#[trigger] filed.phases[i]).status
            == loaf.phases[i].status by {}
    }
}

/// An update takes nothing away: the log, the decisions and the discoveries only grow, and
/// what the project is called, is for and was created stays.
pub proof fn law_update_only_adds(loaf: LoafView, args: JsonView, now: Seq<char>)
    ensures
        loaf.breadcrumbs.is_prefix_of(updated(loaf, args, now).breadcrumbs),
        loaf.decisions.is_prefix_of(updated(loaf, args, now).decisions),
        loaf.discoveries.is_prefix_of(updated(loaf, args, now).discoveries),
        updated(loaf, args, now).loaf_id == loaf.loaf_id,
        updated(loaf, args, now).goal == loaf.goal,
        updated(loaf, args, now).created == loaf.created,
        updated(loaf, args, now).status == loaf.status,
{
}

/// Closing a record adds one line to its log and completes it; the rest stays.
pub proof fn law_close_only_completes(loaf: LoafView, now: Seq<char>)
    ensures
        closed(loaf, now).status == "completed"@,
        loaf.breadcrumbs.is_prefix_of(closed(loaf, now).breadcrumbs),
        closed(loaf, now).breadcrumbs.len() == loaf.breadcrumbs.len() + 1,
        closed(loaf, now).phases == loaf.phases,
        closed(loaf, now).decisions == loaf.decisions,
        closed(loaf, now).discoveries == loaf.discoveries,
        in_order(loaf) ==> in_order(closed(loaf, now)),
{
}

/// The records in the files of a store, by path.
pub type Files = Map<Seq<char>, LoafView>;

/// The record in a file, if there is one.
pub open spec fn record_at(files: Files, path: Seq<char>) -> Option<LoafView> {
    if files.contains_key(path) {
        Some(files[path])
    } else {
        None
    }
}

/// Whether two stores hold the same records in all files but one.
pub open spec fn same_but(before: Files, after: Files, path: Seq<char>) -> bool {
    forall|p: Seq<char>| p != path ==> #[trigger] record_at(after, p) == record_at(before, p)
}

/// Whether `after` is what a store may hold once `action` was performed on `before`, where the
/// file that the action writes came to `outcome`. A file whose writing failed may hold anything.
pub open spec fn follows(
    before: Files,
    action: LoafActionView,
    outcome: Result<(), Seq<char>>,
    after: Files,
) -> bool {
    match action {
        LoafActionView::Reply(_) => after == before,
        LoafActionView::Save { path, loaf, .. } => match outcome {
            Ok(_) => after == before.insert(path, loaf),
            Err(_) => same_but(before, after, path),
        },
        LoafActionView::Archive { dest, loaf, active_path, reply } => {
            match breadcrumbs::archived_then(""@, active_path, reply, outcome) {
                ArchivedView::Remove { active_path, .. } => after == before.insert(
                    dest,
                    loaf,
                ).remove(active_path),
                ArchivedView::Fail(_) => same_but(before, after, dest),
            }
        },
    }
}

/// The file of an active record.
pub open spec fn active_file(store: LoafsView, id: Seq<char>) -> Seq<char> {
    paths::json_file(store.loaves_dir, id)
}

/// The file of an archived record.
pub open spec fn archive_file(store: LoafsView, id: Seq<char>) -> Seq<char> {
    paths::json_file(store.archive_dir, id)
}

/// Closing a record puts it into the archive, completed, and takes it from the active ones; every
/// later call that names it is told that there is no such record.
pub proof fn law_closed_record_is_archived(
    store: LoafsView,
    args: JsonView,
    later: JsonView,
    id: Seq<char>,
    now: Seq<char>,
    then: Seq<char>,
    before: Files,
    after: Files,
)
    requires
        id.len() > 0,
        args.str_at("loaf_id"@) == Some(id),
        later.str_at("loaf_id"@) == Some(id),
        before.contains_key(active_file(store, id)),
        archive_file(store, id) != active_file(store, id),
        follows(
            before,
            close_action(store, args, record_at(before, active_file(store, id)), now),
            Ok(()),
            after,
        ),
    ensures
        record_at(after, archive_file(store, id)) == Some(
            closed(before[active_file(store, id)], now),
        ),
        ({
            let loaded = record_at(after, active_file(store, id));
            &&& loaded is None
            &&& update_action(store, later, loaded, then) == LoafActionView::Reply(not_found(id))
            &&& status_of(later, loaded) == not_found(id)
            &&& close_action(store, later, loaded, then) == LoafActionView::Reply(not_found(id))
        }),
{
}

/// Where a record cannot be written to the archive, the call fails for that reason, and the record
/// is active as it was.
pub proof fn law_failed_archive_keeps_the_record(
    store: LoafsView,
    args: JsonView,
    id: Seq<char>,
    now: Seq<char>,
    reason: Seq<char>,
    before: Files,
    after: Files,
)
    requires
        id.len() > 0,
        args.str_at("loaf_id"@) == Some(id),
        before.contains_key(active_file(store, id)),
        archive_file(store, id) != active_file(store, id),
        follows(
            before,
            close_action(store, args, record_at(before, active_file(store, id)), now),
            Err(reason),
            after,
        ),
    ensures
        record_at(after, active_file(store, id)) == record_at(before, active_file(store, id)),
        match close_action(store, args, record_at(before, active_file(store, id)), now) {
            LoafActionView::Archive { active_path, reply, .. } => breadcrumbs::archived_then(
                ""@,
                active_path,
                reply,
                Err(reason),
            ) == ArchivedView::Fail(reason),
            _ => false,
        },
{
    reveal_strlit("");
    assert(""@ + reason =~= reason);
}

/// The archive of a store below a directory is not among its active records: the two files of
/// a record are not one, unless its identifier is a path from the root.
pub proof fn law_archive_is_elsewhere(store: LoafsView, log_dir: Seq<char>, id: Seq<char>)
    requires
        store.loaves_dir == paths::path_join(log_dir, "loaves"@),
        store.archive_dir == paths::path_join(
            paths::path_join(log_dir, "loaves"@),
            "archive"@,
        ),
        id.len() > 0 ==> id[0] != '/',
    ensures
        archive_file(store, id) != active_file(store, id),
{
    reveal_strlit("loaves");
    reveal_strlit("archive");
    reveal_strlit("/");
    reveal_strlit(".json");
    let base = store.loaves_dir;
    let file = id + ".json"@;
    assert(base.last() == 's');
    assert(file[0] != '/');
    assert(store.archive_dir == base + "/"@ + "archive"@);
    assert(store.archive_dir.last() == 'e');
    assert(active_file(store, id).len() == base.len() + 1 + file.len());
    assert(archive_file(store, id).len() == base.len() + 9 + file.len());
}

proof fn lemma_words()
    ensures
        text::shape("task_update"@) == 97117101112116011,
        text::shape("decision"@) == 111115110115100008,
        text::shape("discovery"@) == 101111121118100009,
        text::shape("next_actions"@) == 111099115099110012,
        text::shape("phase_status"@) == 116115115115112012,
        text::shape("loaf_id"@) == 105102100095108007,
        text::shape("goal"@) == 108097108097103004,
        text::shape("status"@) == 117116115116115006,
        text::shape("phases"@) == 101115115115112006,
        text::shape("archived_to"@) == 95118111101097011,
        text::shape("current_phase"@) == 104116101095099013,
        text::shape("total_phases"@) == 115112115112116012,
        text::shape("total_tasks"@) == 115095115116116011,
        text::shape("decisions_count"@) == 111110116115100015,
        text::shape("discoveries_count"@) == 99105116101100017,
        text::shape("last_events"@) == 110101115118108011,
        text::shape("timestamp"@) == 97115112116116009,
        text::shape("event"@) == 110101116101101005,
        text::shape("done"@) == 101110101110100004,
        text::shape("active"@) == 118105101105097006,
        text::shape("pending"@) == 110100103105112007,
{
    reveal_strlit("task_update");
    assert(text::shape("task_update"@) == 97117101112116011);
    reveal_strlit("decision");
    assert(text::shape("decision"@) == 111115110115100008);
    reveal_strlit("discovery");
    assert(text::shape("discovery"@) == 101111121118100009);
    reveal_strlit("next_actions");
    assert(text::shape("next_actions"@) == 111099115099110012);
    reveal_strlit("phase_status");
    assert(text::shape("phase_status"@) == 116115115115112012);
    reveal_strlit("loaf_id");
    assert(text::shape("loaf_id"@) == 105102100095108007);
    reveal_strlit("goal");
    assert(text::shape("goal"@) == 108097108097103004);
    reveal_strlit("status");
    assert(text::shape("status"@) == 117116115116115006);
    reveal_strlit("phases");
    assert(text::shape("phases"@) == 101115115115112006);
    reveal_strlit("archived_to");
    assert(text::shape("archived_to"@) == 95118111101097011);
    reveal_strlit("current_phase");
    assert(text::shape("current_phase"@) == 104116101095099013);
    reveal_strlit("total_phases");
    assert(text::shape("total_phases"@) == 115112115112116012);
    reveal_strlit("total_tasks");
    assert(text::shape("total_tasks"@) == 115095115116116011);
    reveal_strlit("decisions_count");
    assert(text::shape("decisions_count"@) == 111110116115100015);
    reveal_strlit("discoveries_count");
    assert(text::shape("discoveries_count"@) == 99105116101100017);
    reveal_strlit("last_events");
    assert(text::shape("last_events"@) == 110101115118108011);
    reveal_strlit("timestamp");
    assert(text::shape("timestamp"@) == 97115112116116009);
    reveal_strlit("event");
    assert(text::shape("event"@) == 110101116101101005);
    reveal_strlit("done");
    assert(text::shape("done"@) == 101110101110100004);
    reveal_strlit("active");
    assert(text::shape("active"@) == 118105101105097006);
    reveal_strlit("pending");
    assert(text::shape("pending"@) == 110100103105112007);
}

/// A task that a call names is put behind the tasks of the phase that was the current one before
/// the call, where there is one; every other phase keeps its tasks, and without a task all do.
pub proof fn law_task_is_filed_in_the_current_phase(
    loaf: LoafView,
    args: JsonView,
    now: Seq<char>,
    task: JsonView,
)
    ensures
        updated(loaf, args, now).phases.len() == loaf.phases.len(),
        args.get("task_update"@) == Some(task) ==> forall|i: int|
            0 <= i < loaf.phases.len()
                ==> (#[trigger] updated(loaf, args, now).phases[i]).tasks == (if i
                == loaf.current_phase {
                loaf.phases[i].tasks.push(task)
            } else {
                loaf.phases[i].tasks
            }),
        args.get("task_update"@) is None ==> forall|i: int|
            0 <= i < loaf.phases.len() ==> (#[trigger] updated(loaf, args, now).phases[i]).tasks
                == loaf.phases[i].tasks,
        forall|i: int|
            0 <= i < loaf.phases.len()
                ==> (#[trigger] updated(loaf, args, now).phases[i]).name == loaf.phases[i].name,
{
}

/// The current phase is done and the next one active once a call says so; the other phases keep
/// their statuses, and all do where no call says so.
pub proof fn law_phase_is_done_once_a_call_says_so(
    loaf: LoafView,
    args: JsonView,
    now: Seq<char>,
)
    requires
        can_advance(loaf, args),
    ensures
        args.get("phase_status"@) == Some(JsonView::Str("done"@))
            ==> updated(loaf, args, now).current_phase
            == loaf.current_phase + 1 && forall|i: int|
            0 <= i < loaf.phases.len()
                ==> (#[trigger] updated(loaf, args, now).phases[i]).status == (if i
                == loaf.current_phase {
                "done"@
            } else if i == loaf.current_phase + 1 {
                "active"@
            } else {
                loaf.phases[i].status
            }),
        args.get("phase_status"@) != Some(JsonView::Str("done"@))
            ==> updated(loaf, args, now).current_phase
            == loaf.current_phase && forall|i: int|
            0 <= i < loaf.phases.len() ==> (#[trigger] updated(loaf, args, now).phases[i]).status
                == loaf.phases[i].status,
{
}

/// A decision that a call names is noted behind the earlier ones, with why and by whom it was taken
/// and when.
pub proof fn law_decision_is_noted(
    loaf: LoafView,
    args: JsonView,
    now: Seq<char>,
    d: JsonView,
)
    ensures
        args.get("decision"@) == Some(d)
            ==> updated(loaf, args, now).decisions.len() == loaf.decisions.len() + 1
            && updated(loaf, args, now).decisions.drop_last() == loaf.decisions,
        args.get("decision"@) == Some(d) ==> {
            let last = updated(loaf, args, now).decisions.last();
            &&& d.get("what"@) matches Some(JsonView::Str(s)) ==> last.what == s
            &&& !(d.get("what"@) matches Some(JsonView::Str(_))) ==> last.what == ""@
            &&& d.get("why"@) matches Some(JsonView::Str(s)) ==> last.why == Some(s)
            &&& !(d.get("why"@) matches Some(JsonView::Str(_))) ==> last.why is None
            &&& d.get("who"@) matches Some(JsonView::Str(s)) ==> last.who == Some(s)
            &&& !(d.get("who"@) matches Some(JsonView::Str(_))) ==> last.who is None
            &&& last.when == now
        },
        args.get("decision"@) is None ==> updated(loaf, args, now).decisions == loaf.decisions,
{
    if args.get("decision"@) == Some(d) {
        assert(updated(loaf, args, now).decisions.drop_last() =~= loaf.decisions);
    }
}

/// A discovery that a call names is noted behind the earlier ones, with its impact and when it was
/// made.
pub proof fn law_discovery_is_noted(
    loaf: LoafView,
    args: JsonView,
    now: Seq<char>,
    d: JsonView,
)
    ensures
        args.get("discovery"@) == Some(d)
            ==> updated(loaf, args, now).discoveries.len() == loaf.discoveries.len() + 1
            && updated(loaf, args, now).discoveries.drop_last() == loaf.discoveries,
        args.get("discovery"@) == Some(d) ==> {
            let last = updated(loaf, args, now).discoveries.last();
            &&& d.get("what"@) matches Some(JsonView::Str(s)) ==> last.what == s
            &&& !(d.get("what"@) matches Some(JsonView::Str(_))) ==> last.what == ""@
            &&& d.get("impact"@) matches Some(JsonView::Str(s)) ==> last.impact == Some(s)
            &&& !(d.get("impact"@) matches Some(JsonView::Str(_))) ==> last.impact is None
            &&& last.when == now
        },
        args.get("discovery"@) is None ==> updated(loaf, args, now).discoveries == loaf.discoveries,
{
    if args.get("discovery"@) == Some(d) {
        assert(updated(loaf, args, now).discoveries.drop_last() =~= loaf.discoveries);
    }
}

/// A list of next actions takes the place of the one before; it holds the texts of the call's list.
/// Without a list the one before stays.
pub proof fn law_next_actions_are_taken_over(
    loaf: LoafView,
    args: JsonView,
    now: Seq<char>,
    items: Seq<JsonView>,
)
    ensures
        args.get("next_actions"@) == Some(JsonView::Array(items))
            ==> updated(loaf, args, now).next_actions
            == json::strings(items),
        !(args.get("next_actions"@) matches Some(JsonView::Array(_)))
            ==> updated(loaf, args, now).next_actions
            == loaf.next_actions,
{
}

/// What a call that updates a record tells the log: one line for each thing that the call holds.
pub open spec fn told(args: JsonView, phase: nat, events: Seq<Seq<char>>) -> bool {
    exists|task: Seq<Seq<char>>,
        decision: Seq<Seq<char>>,
        discovery: Seq<Seq<char>>,
        actions: Seq<Seq<char>>,
        advanced: Seq<Seq<char>>|
        {
            &&& events == #[trigger] (task + decision + discovery + actions + advanced)
            &&& match args.get("task_update"@) {
                Some(t) => task == seq![
                    "Task "@ + t.str_or("task_id"@, "unknown"@) + " -> "@ + t.str_or(
                        "status"@,
                        "done"@,
                    ),
                ],
                None => task.len() == 0,
            }
            &&& match args.get("decision"@) {
                Some(d) => decision == seq!["Decision: "@ + d.str_or("what"@, ""@)],
                None => decision.len() == 0,
            }
            &&& match args.get("discovery"@) {
                Some(d) => discovery == seq!["Discovery: "@ + d.str_or("what"@, ""@)],
                None => discovery.len() == 0,
            }
            &&& match args.get("next_actions"@) {
                Some(JsonView::Array(_)) => actions == seq!["Next actions updated"@],
                _ => actions.len() == 0,
            }
            &&& if args.get("phase_status"@) == Some(JsonView::Str("done"@)) {
                advanced == seq!["Phase advanced to: "@ + text::decimal(phase + 1)]
            } else {
                advanced.len() == 0
            }
        }
}

/// Lines of a log that were all written at one moment.
pub open spec fn lines_at(now: Seq<char>, events: Seq<Seq<char>>) -> Seq<LogView> {
    Seq::new(events.len(), |i: int| LogView { timestamp: now, event: events[i] })
}

proof fn lemma_lines_in_two(now: Seq<char>, a: Seq<Seq<char>>, b: Seq<Seq<char>>)
    ensures
        lines_at(now, a + b) == lines_at(now, a) + lines_at(now, b),
{
    assert(lines_at(now, a + b) =~= lines_at(now, a) + lines_at(now, b));
}

proof fn lemma_line_is_logged(loaf: LoafView, now: Seq<char>, event: Seq<char>)
    ensures
        logged(loaf, now, event).breadcrumbs == loaf.breadcrumbs + lines_at(now, seq![event]),
        loaf.breadcrumbs == loaf.breadcrumbs + lines_at(now, Seq::empty()),
{
    assert(logged(loaf, now, event).breadcrumbs =~= loaf.breadcrumbs + lines_at(now, seq![event]));
    assert(loaf.breadcrumbs =~= loaf.breadcrumbs + lines_at(now, Seq::empty()));
}

proof fn lemma_task_is_logged(
    loaf: LoafView, args: JsonView, now: Seq<char>, events: Seq<Seq<char>>)
    requires
        events == (match args.get("task_update"@) {
            Some(t) => seq![
                "Task "@ + t.str_or("task_id"@, "unknown"@) + " -> "@
                    + t.str_or("status"@, "done"@),
            ],
            None => Seq::empty(),
        }),
    ensures
        with_task(loaf, args, now).breadcrumbs == loaf.breadcrumbs + lines_at(now, events),
        with_task(loaf, args, now).current_phase == loaf.current_phase,
{
    lemma_line_is_logged(loaf, now, if events.len() > 0 {
        events[0]
    } else {
        Seq::empty()
    });
    assert(events.len() > 0 ==> events =~= seq![events[0]]);
    assert(events.len() == 0 ==> events =~= Seq::empty());
}

proof fn lemma_decision_is_logged(
    loaf: LoafView, args: JsonView, now: Seq<char>, events: Seq<Seq<char>>)
    requires
        events == (match args.get("decision"@) {
            Some(v) => seq!["Decision: "@ + v.str_or("what"@, ""@)],
            None => Seq::empty(),
        }),
    ensures
        with_decision(loaf, args, now).breadcrumbs == loaf.breadcrumbs + lines_at(now, events),
        with_decision(loaf, args, now).current_phase == loaf.current_phase,
{
    lemma_line_is_logged(loaf, now, if events.len() > 0 {
        events[0]
    } else {
        Seq::empty()
    });
    assert(events.len() > 0 ==> events =~= seq![events[0]]);
    assert(events.len() == 0 ==> events =~= Seq::empty());
}

proof fn lemma_discovery_is_logged(
    loaf: LoafView, args: JsonView, now: Seq<char>, events: Seq<Seq<char>>)
    requires
        events == (match args.get("discovery"@) {
            Some(v) => seq!["Discovery: "@ + v.str_or("what"@, ""@)],
            None => Seq::empty(),
        }),
    ensures
        with_discovery(loaf, args, now).breadcrumbs == loaf.breadcrumbs + lines_at(now, events),
        with_discovery(loaf, args, now).current_phase == loaf.current_phase,
{
    lemma_line_is_logged(loaf, now, if events.len() > 0 {
        events[0]
    } else {
        Seq::empty()
    });
    assert(events.len() > 0 ==> events =~= seq![events[0]]);
    assert(events.len() == 0 ==> events =~= Seq::empty());
}

proof fn lemma_actions_is_logged(
    loaf: LoafView, args: JsonView, now: Seq<char>, events: Seq<Seq<char>>)
    requires
        events == (match args.get("next_actions"@) {
            Some(JsonView::Array(_)) => seq!["Next actions updated"@],
            _ => Seq::empty(),
        }),
    ensures
        with_next_actions(loaf, args, now).breadcrumbs == loaf.breadcrumbs + lines_at(now, events),
        with_next_actions(loaf, args, now).current_phase == loaf.current_phase,
{
    lemma_line_is_logged(loaf, now, if events.len() > 0 {
        events[0]
    } else {
        Seq::empty()
    });
    assert(events.len() > 0 ==> events =~= seq![events[0]]);
    assert(events.len() == 0 ==> events =~= Seq::empty());
}

proof fn lemma_advanced_is_logged(
    loaf: LoafView, args: JsonView, now: Seq<char>, events: Seq<Seq<char>>)
    requires
        events == (if args.get("phase_status"@) == Some(JsonView::Str("done"@)) {
            seq!["Phase advanced to: "@ + text::decimal((loaf.current_phase + 1) as nat)]
        } else {
            Seq::empty()
        }),
    ensures
        with_phase(loaf, args, now).breadcrumbs == loaf.breadcrumbs + lines_at(now, events),
        
{
    lemma_line_is_logged(loaf, now, if events.len() > 0 {
        events[0]
    } else {
        Seq::empty()
    });
    assert(events.len() > 0 ==> events =~= seq![events[0]]);
    assert(events.len() == 0 ==> events =~= Seq::empty());
}

proof fn lemma_lines_in_five(
    log: Seq<LogView>,
    now: Seq<char>,
    a: Seq<Seq<char>>,
    b: Seq<Seq<char>>,
    c: Seq<Seq<char>>,
    d: Seq<Seq<char>>,
    e: Seq<Seq<char>>,
)
    ensures
        log + lines_at(now, a) + lines_at(now, b) + lines_at(now, c) + lines_at(now, d) + lines_at(
            now,
            e,
        ) == log + lines_at(now, a + b + c + d + e),
{
    lemma_lines_in_two(now, a, b);
    lemma_lines_in_two(now, a + b, c);
    lemma_lines_in_two(now, a + b + c, d);
    lemma_lines_in_two(now, a + b + c + d, e);
    assert(log + lines_at(now, a) + lines_at(now, b) + lines_at(now, c) + lines_at(now, d)
        + lines_at(now, e) =~= log + lines_at(now, a + b + c + d + e));
}

/// An update puts one line behind the log for each thing that the call holds, all at the moment of
/// the call: for a task, a decision, a discovery, the next actions and the phase, in this order.
pub proof fn law_update_is_logged(
    loaf: LoafView,
    args: JsonView,
    now: Seq<char>,
)
    ensures
        exists|events: Seq<Seq<char>>|
            #[trigger] told(args, loaf.current_phase as nat, events)
                && updated(loaf, args, now).breadcrumbs
                == loaf.breadcrumbs + lines_at(now, events),
{
    let a = with_task(loaf, args, now);
    let task: Seq<Seq<char>> = match args.get("task_update"@) {
        Some(t) => seq![
            "Task "@ + t.str_or("task_id"@, "unknown"@) + " -> "@ + t.str_or("status"@, "done"@),
        ],
        None => Seq::empty(),
    };
    lemma_task_is_logged(loaf, args, now, task);
    let b = with_decision(a, args, now);
    let decision: Seq<Seq<char>> = match args.get("decision"@) {
        Some(v) => seq!["Decision: "@ + v.str_or("what"@, ""@)],
        None => Seq::empty(),
    };
    lemma_decision_is_logged(a, args, now, decision);
    let c = with_discovery(b, args, now);
    let discovery: Seq<Seq<char>> = match args.get("discovery"@) {
        Some(v) => seq!["Discovery: "@ + v.str_or("what"@, ""@)],
        None => Seq::empty(),
    };
    lemma_discovery_is_logged(b, args, now, discovery);
    let d = with_next_actions(c, args, now);
    let actions: Seq<Seq<char>> = match args.get("next_actions"@) {
        Some(JsonView::Array(_)) => seq!["Next actions updated"@],
        _ => Seq::empty(),
    };
    lemma_actions_is_logged(c, args, now, actions);
    let e = with_phase(d, args, now);
    let advanced: Seq<Seq<char>> = if args.get("phase_status"@) == Some(JsonView::Str("done"@)) {
        seq!["Phase advanced to: "@ + text::decimal((loaf.current_phase + 1) as nat)]
    } else {
        Seq::empty()
    };
    lemma_advanced_is_logged(d, args, now, advanced);
    let events = task + decision + discovery + actions + advanced;
    assert(told(args, loaf.current_phase as nat, events));
    lemma_lines_in_five(loaf.breadcrumbs, now, task, decision, discovery, actions, advanced);
}

/// A project that has a goal is recorded as active from the moment of the call, in the file of its
/// identifier, with the phases that the call lists or with one of its own, and with nothing but its
/// creation in its log. The answer says its identifier, its goal, that it is active and how many
/// phases it has.
pub proof fn law_project_is_recorded(
    store: LoafsView,
    args: JsonView,
    goal: Seq<char>,
    now: Seq<char>,
)
    requires
        args.get("goal"@) == Some(JsonView::Str(goal)),
        goal.len() > 0,
    ensures
        create_action(store, args, now) is Save,
        create_action(store, args, now)->path == paths::json_file(
            store.loaves_dir,
            loaf_id_of(args.str_or("project_name"@, "unnamed"@)),
        ),
        create_action(store, args, now)->failure == "failed to save loaf: "@,
        ({
            let loaf = create_action(store, args, now)->Save_loaf;
            &&& loaf.loaf_id == loaf_id_of(args.str_or("project_name"@, "unnamed"@))
            &&& loaf.goal == goal
            &&& loaf.created == now
            &&& loaf.status == "active"@
            &&& loaf.current_phase == 0
            &&& loaf.decisions.len() == 0
            &&& loaf.discoveries.len() == 0
            &&& loaf.next_actions.len() == 0
            &&& loaf.breadcrumbs.len() == 1
            &&& loaf.breadcrumbs[0] == LogView { timestamp: now, event: "Loaf created"@ }
            &&& args.strings_at("phases"@).len() == 0 ==> loaf.phases.len() == 1
                && loaf.phases[0].name == "default"@
            &&& args.strings_at("phases"@).len() > 0 ==> loaf.phases.len() == args.strings_at(
                "phases"@,
            ).len() && forall|i: int|
                0 <= i < loaf.phases.len() ==> (#[trigger] loaf.phases[i]).name == args.strings_at(
                    "phases"@,
                )[i]
            &&& forall|i: int|
                0 <= i < loaf.phases.len() ==> (#[trigger] loaf.phases[i]).tasks.len() == 0
                    && loaf.phases[i].status == (if i == 0 {
                    "active"@
                } else {
                    "pending"@
                })
        }),
        exists|v: JsonView|
            create_action(store, args, now)->Save_reply
                == mcp::text_view(#[trigger] json::json_pretty(v)) && v is Object
                && v->Object_0.len() == 4
                && v.get("loaf_id"@)
                == Some(JsonView::Str(loaf_id_of(args.str_or("project_name"@, "unnamed"@))))
                && v.get("goal"@) == Some(JsonView::Str(goal))
                && v.get("status"@) == Some(JsonView::Str("active"@))
                && v.get("phases"@)
                == Some(JsonView::Uint(
                create_action(store, args, now)->Save_loaf.phases.len() as u64)),
{
    broadcast use json::lemma_member_push;

    lemma_words();
    let v = JsonView::Object(
        json::no_members()
        .push(("loaf_id"@, JsonView::Str(loaf_id_of(args.str_or("project_name"@, "unnamed"@)))))
        .push(("goal"@, JsonView::Str(goal))).push(("status"@, JsonView::Str("active"@)))
        .push(("phases"@,
        JsonView::Uint(create_action(store, args, now)->Save_loaf.phases.len() as u64))));
    assert(create_action(store, args, now)->Save_reply == mcp::text_view(json::json_pretty(v)));
    assert(v.get("loaf_id"@)
        == Some(JsonView::Str(loaf_id_of(args.str_or("project_name"@, "unnamed"@)))));
    assert(v.get("goal"@) == Some(JsonView::Str(goal)));
    assert(v.get("status"@) == Some(JsonView::Str("active"@)));
    assert(v.get("phases"@)
        == Some(JsonView::Uint(create_action(store, args, now)->Save_loaf.phases.len() as u64)));
}

/// A call that lacks what it must name is refused: a project without a goal, and the update or the
/// end of a project that is not named. One that no record is of is not found.
pub proof fn law_lacking_calls_are_refused(
    store: LoafsView,
    args: JsonView,
    loaded: Option<LoafView>,
    id: Seq<char>,
    now: Seq<char>,
)
    ensures
        args.str_or("goal"@, ""@).len() == 0
            ==> create_action(store, args, now) == LoafActionView::Reply(
            mcp::error_view("goal is required"@),
        ),
        args.str_or("loaf_id"@, ""@).len() == 0
            ==> update_action(store, args, loaded, now) == LoafActionView::Reply(
            mcp::error_view("loaf_id is required"@),
        ),
        args.str_or("loaf_id"@, ""@).len() == 0
            ==> close_action(store, args, loaded, now) == LoafActionView::Reply(
            mcp::error_view("loaf_id is required"@),
        ),
        args.get("loaf_id"@) == Some(JsonView::Str(id))
            && id.len() > 0 ==> update_action(store, args, None, now)
            == LoafActionView::Reply(mcp::error_view("loaf '"@ + id + "' not found"@)),
        args.get("loaf_id"@) == Some(JsonView::Str(id))
            && id.len() > 0 ==> close_action(store, args, None, now)
            == LoafActionView::Reply(mcp::error_view("loaf '"@ + id + "' not found"@)),
        args.get("loaf_id"@) == Some(JsonView::Str(id))
            ==> status_of(args, None) == mcp::error_view(
            "loaf '"@ + id + "' not found"@,
        ),
        !(args.get("loaf_id"@) matches Some(JsonView::Str(_))) ==> status_of(args, None)
            == mcp::text_view("no active loaf"@),
{
}

/// An update is written to the file of the record's own identifier, and the answer names the one of
/// the call.
pub proof fn law_update_is_written(
    store: LoafsView,
    args: JsonView,
    loaf: LoafView,
    id: Seq<char>,
    now: Seq<char>,
)
    requires
        args.get("loaf_id"@) == Some(JsonView::Str(id)),
        id.len() > 0,
    ensures
        update_action(store, args, Some(loaf), now) is Save,
        update_action(store, args, Some(loaf), now)->path == paths::json_file(
            store.loaves_dir,
            loaf.loaf_id,
        ),
        update_action(store, args, Some(loaf), now)->Save_loaf == updated(loaf, args, now),
        update_action(store, args, Some(loaf), now)->failure == "save failed: "@,
        update_action(store, args, Some(loaf), now)->Save_reply == mcp::text_view(
            "loaf '"@ + id + "' updated"@,
        ),
{
}

/// A project that is closed is put as it was into the archive, but completed and with the moment in
/// its log, and its active file is removed; the answer says where it went.
pub proof fn law_project_is_closed(
    store: LoafsView,
    args: JsonView,
    loaf: LoafView,
    id: Seq<char>,
    now: Seq<char>,
)
    requires
        args.get("loaf_id"@) == Some(JsonView::Str(id)),
        id.len() > 0,
    ensures
        close_action(store, args, Some(loaf), now) is Archive,
        close_action(store, args, Some(loaf), now)->dest == paths::json_file(store.archive_dir, id),
        close_action(store, args, Some(loaf), now)->active_path
            == paths::json_file(store.loaves_dir, id),
        close_action(store, args, Some(loaf), now)->Archive_loaf == (LoafView {
            status: "completed"@,
            breadcrumbs: loaf.breadcrumbs.push(
                LogView { timestamp: now, event: "Loaf closed"@ },
            ),
            ..loaf
        }),
        exists|v: JsonView|
            close_action(store, args, Some(loaf), now)->Archive_reply
                == mcp::text_view(#[trigger] json::json_pretty(v)) && v is Object
                && v->Object_0.len() == 3 && v.get("loaf_id"@) == Some(JsonView::Str(id))
                && v.get("status"@) == Some(JsonView::Str("completed"@))
                && v.get("archived_to"@)
                == Some(JsonView::Str(paths::json_file(store.archive_dir, id))),
{
    broadcast use json::lemma_member_push;

    lemma_words();
    let v = JsonView::Object(
        json::no_members().push(("loaf_id"@, JsonView::Str(id)))
        .push(("status"@, JsonView::Str("completed"@)))
        .push(("archived_to"@, JsonView::Str(paths::json_file(store.archive_dir, id)))));
    assert(close_action(store, args, Some(loaf), now)->Archive_reply
        == mcp::text_view(json::json_pretty(v)));
    assert(v.get("loaf_id"@) == Some(JsonView::Str(id)));
    assert(v.get("status"@) == Some(JsonView::Str("completed"@)));
    assert(v.get("archived_to"@) == Some(JsonView::Str(paths::json_file(store.archive_dir, id))));
}

/// The answer on a record says what it is, in which phase it is, how much it holds, what comes next
/// and what happened last.
pub proof fn law_status_says_what_a_record_is(
    args: JsonView,
    loaf: LoafView,
)
    ensures
        exists|v: JsonView|
            status_of(args, Some(loaf)) == mcp::text_view(#[trigger] json::json_pretty(v))
                && v is Object && v->Object_0.len() == 10
                && v.get("loaf_id"@) == Some(JsonView::Str(loaf.loaf_id))
                && v.get("goal"@) == Some(JsonView::Str(loaf.goal))
                && v.get("status"@) == Some(JsonView::Str(loaf.status))
                && v.get("current_phase"@) == Some(JsonView::Uint(loaf.current_phase as u64))
                && v.get("total_phases"@) == Some(JsonView::Uint(loaf.phases.len() as u64))
                && v.get("total_tasks"@) == Some(JsonView::Uint(task_count(loaf.phases) as u64))
                && v.get("decisions_count"@) == Some(JsonView::Uint(loaf.decisions.len() as u64))
                && v.get("discoveries_count"@)
                == Some(JsonView::Uint(loaf.discoveries.len() as u64))
                && v.get("next_actions"@) == Some(JsonView::Array(
                Seq::new(
                    loaf.next_actions.len(),
                    |i: int| JsonView::Str(loaf.next_actions[i]),
                ),
            )) && v.get("last_events"@) == Some(JsonView::Array(last_lines(loaf.breadcrumbs))),
{
    broadcast use json::lemma_member_push;

    lemma_words();
    assert(json::str_array_view(loaf.next_actions) == JsonView::Array(
        Seq::new(loaf.next_actions.len(), |i: int| JsonView::Str(loaf.next_actions[i])),
    )) by {
        assert(json::str_array_view(loaf.next_actions)->Array_0 =~= Seq::new(
            loaf.next_actions.len(),
            |i: int| JsonView::Str(loaf.next_actions[i]),
        ));
    }
    let v = JsonView::Object(
        json::no_members().push(("loaf_id"@, JsonView::Str(loaf.loaf_id)))
        .push(("goal"@, JsonView::Str(loaf.goal))).push(("status"@, JsonView::Str(loaf.status)))
        .push(("current_phase"@, JsonView::Uint(loaf.current_phase as u64)))
        .push(("total_phases"@, JsonView::Uint(loaf.phases.len() as u64)))
        .push(("total_tasks"@, JsonView::Uint(task_count(loaf.phases) as u64)))
        .push(("decisions_count"@, JsonView::Uint(loaf.decisions.len() as u64)))
        .push(("discoveries_count"@, JsonView::Uint(loaf.discoveries.len() as u64)))
        .push(("next_actions"@, JsonView::Array(
                Seq::new(
                    loaf.next_actions.len(),
                    |i: int| JsonView::Str(loaf.next_actions[i]),
                ),
            ))).push(("last_events"@, JsonView::Array(last_lines(loaf.breadcrumbs)))));
    assert(status_of(args, Some(loaf)) == mcp::text_view(json::json_pretty(v)));
    assert(v.get("loaf_id"@) == Some(JsonView::Str(loaf.loaf_id)));
    assert(v.get("goal"@) == Some(JsonView::Str(loaf.goal)));
    assert(v.get("status"@) == Some(JsonView::Str(loaf.status)));
    assert(v.get("current_phase"@) == Some(JsonView::Uint(loaf.current_phase as u64)));
    assert(v.get("total_phases"@) == Some(JsonView::Uint(loaf.phases.len() as u64)));
    assert(v.get("total_tasks"@) == Some(JsonView::Uint(task_count(loaf.phases) as u64)));
    assert(v.get("decisions_count"@) == Some(JsonView::Uint(loaf.decisions.len() as u64)));
    assert(v.get("discoveries_count"@) == Some(JsonView::Uint(loaf.discoveries.len() as u64)));
    assert(v.get("next_actions"@) == Some(JsonView::Array(
                Seq::new(
                    loaf.next_actions.len(),
                    |i: int| JsonView::Str(loaf.next_actions[i]),
                ),
            )));
    assert(v.get("last_events"@) == Some(JsonView::Array(last_lines(loaf.breadcrumbs))));
}

/// What happened last are the last five lines of the log, or all where there are fewer, the latest
/// first, each with its moment.
pub proof fn law_last_lines_come_latest_first(
    log: Seq<LogView>,
    i: int,
)
    requires
        0 <= i < log.len(),
        i < 5,
    ensures
        last_lines(log).len() <= 5,
        last_lines(log).len() == 5 || last_lines(log).len() == log.len(),
        last_lines(log)[i].get("timestamp"@) == Some(
            JsonView::Str(log[log.len() - 1 - i].timestamp),
        ),
        last_lines(log)[i].get("event"@) == Some(JsonView::Str(log[log.len() - 1 - i].event)),
{
    broadcast use json::lemma_member_push;

    lemma_words();
}

/// The tasks that are counted are those of all phases.
pub proof fn law_tasks_of_all_phases_are_counted(
    phases: Seq<PhaseView>,
    phase: PhaseView,
)
    ensures
        task_count(Seq::empty()) == 0,
        task_count(phases.push(phase)) == task_count(phases) + phase.tasks.len(),
{
    assert(phases.push(phase).drop_last() =~= phases);
}

/// The record that is found active is active, and none before it is; none is found only where none
/// is active.
pub proof fn law_first_active_record_is_found(
    statuses: Seq<Seq<char>>,
)
    ensures
        active_at(statuses) <= statuses.len(),
        active_at(statuses) < statuses.len() ==> statuses[active_at(statuses) as int] == "active"@,
        forall|i: int| 0 <= i < active_at(statuses) ==> #[trigger] statuses[i] != "active"@,
    decreases statuses.len(),
{
    if statuses.len() > 0 && statuses[0] != "active"@ {
        let rest = statuses.drop_first();
        law_first_active_record_is_found(rest);
        assert forall|i: int| 0 <= i < active_at(statuses) implies #[trigger] statuses[i]
            != "active"@ by {
            if i > 0 {
                assert(rest[i - 1] == statuses[i]);
            }
        }
    }
}

proof fn lemma_id_chars_in_two(a: Seq<char>, b: Seq<char>)
    ensures
        id_chars(a + b) == id_chars(a) + id_chars(b),
    decreases b.len(),
{
    if b.len() == 0 {
        assert(a + b =~= a);
        assert(id_chars(a) + id_chars(b) =~= id_chars(a));
    } else {
        assert((a + b).drop_last() =~= a + b.drop_last());
        lemma_id_chars_in_two(a, b.drop_last());
        assert(id_chars(a + b) =~= id_chars(a) + id_chars(b));
    }
}

/// The identifier of a project is its name, character by character: an underscore stands for a
/// space, a letter, a digit, an underscore and a hyphen stay, anything else is left out; `_Loaf`
/// ends it.
pub proof fn law_identifier_follows_the_name(
    c: char,
    rest: Seq<char>,
)
    ensures
        loaf_id_of(Seq::empty()) == "_Loaf"@,
        c == ' ' ==> loaf_id_of(seq![c] + rest) == seq!['_'] + loaf_id_of(rest),
        c == '_' || c == '-' || (c != ' ' && unicode::alphanumeric(c))
            ==> loaf_id_of(seq![c] + rest)
            == seq![c] + loaf_id_of(rest),
        c != ' ' && c != '_' && c != '-' && !unicode::alphanumeric(c) ==> loaf_id_of(seq![c] + rest)
            == loaf_id_of(rest),
{
    reveal_strlit(" ");
    reveal_strlit("_");
    reveal_strlit("_Loaf");
    let name = seq![c] + rest;
    let done = text::replaced(rest, " "@, "_"@);
    assert(text::replaced(Seq::empty(), " "@, "_"@) =~= Seq::empty());
    assert(loaf_id_of(Seq::empty()) =~= "_Loaf"@);
    assert(name.skip(1) =~= rest);
    assert(name.drop_first() =~= rest);
    assert(text::has_prefix(name, " "@) <==> c == ' ') by {
        if c == ' ' {
            assert(name.subrange(0, 1) =~= " "@);
            assert(name.take(1) =~= " "@);
        } else {
            assert(name.subrange(0, 1)[0] != " "@[0]);
            assert(name.take(1)[0] != " "@[0]);
        }
    }
    let head = if c == ' ' {
        '_'
    } else {
        c
    };
    assert(text::replaced(name, " "@, "_"@) =~= seq![head] + done);
    lemma_id_chars_in_two(seq![head], done);
    assert(seq![head].drop_last() =~= Seq::<char>::empty());
    assert(id_chars(Seq::<char>::empty()) =~= Seq::<char>::empty());
    if id_char(head) {
        assert(id_chars(seq![head]) =~= seq![head]);
        assert(loaf_id_of(name) =~= seq![head] + loaf_id_of(rest));
    } else {
        assert(loaf_id_of(name) =~= loaf_id_of(rest));
    }
}

} // verus!
