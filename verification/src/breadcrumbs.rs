//! Breadcrumbs: records of operations of several steps, kept one to a file.
//!
//! The files are read and written elsewhere; here stands what a tool call makes of the
//! record that was read, and what is to be written.

use vstd::prelude::*;

use crate::clock;
use crate::json;
use crate::json::{Json, JsonView, Members};
use crate::mcp;
use crate::mcp::{error_result, text_result, ResultView, ToolCallResult};
use crate::paths;
use crate::text;
use crate::unicode;

verus! {

/// What a step came to.
#[derive(Debug, Clone, PartialEq, Eq)]
pub struct StepResult {
    pub step_idx: usize,
    pub step_name: String,
    pub result: String,
    pub at: String,
    pub files_changed: Vec<String>,
}

/// The record of an operation of several steps.
#[derive(Debug, Clone, PartialEq, Eq)]
pub struct Breadcrumb {
    pub id: String,
    pub name: String,
    pub project_id: Option<String>,
    pub owner: String,
    pub started_at: String,
    pub last_activity_at: String,
    pub steps: Vec<String>,
    pub current_step: usize,
    pub total_steps: usize,
    pub step_results: Vec<StepResult>,
    pub files_changed: Vec<String>,
    pub aborted: bool,
    pub abort_reason: Option<String>,
}

/// Where the records are kept.
#[derive(Debug, Clone, PartialEq, Eq)]
pub struct Breadcrumbs {
    pub active_dir: String,
    pub completed_base: String,
}

/// The records that were archived on one day.
#[derive(Debug, Clone, PartialEq, Eq)]
pub struct CompletedDay {
    pub day: String,
    pub breadcrumbs: Vec<Breadcrumb>,
}

/// What a step came to, over texts.
pub struct StepView {
    pub step_idx: usize,
    pub step_name: Seq<char>,
    pub result: Seq<char>,
    pub at: Seq<char>,
    pub files_changed: Seq<Seq<char>>,
}

/// What a record is, over texts.
pub struct BreadcrumbView {
    pub id: Seq<char>,
    pub name: Seq<char>,
    pub project_id: Option<Seq<char>>,
    pub owner: Seq<char>,
    pub started_at: Seq<char>,
    pub last_activity_at: Seq<char>,
    pub steps: Seq<Seq<char>>,
    pub current_step: usize,
    pub total_steps: usize,
    pub step_results: Seq<StepView>,
    pub files_changed: Seq<Seq<char>>,
    pub aborted: bool,
    pub abort_reason: Option<Seq<char>>,
}

/// Where the records are kept, over texts.
pub struct BreadcrumbsView {
    pub active_dir: Seq<char>,
    pub completed_base: Seq<char>,
}

/// The records of one day, over texts.
pub struct DayView {
    pub day: Seq<char>,
    pub breadcrumbs: Seq<BreadcrumbView>,
}

impl StepResult {
    pub open spec fn view(&self) -> StepView {
        StepView {
            step_idx: self.step_idx,
            step_name: self.step_name@,
            result: self.result@,
            at: self.at@,
            files_changed: text::texts(self.files_changed@),
        }
    }
}

/// What the results of steps are, over texts.
pub open spec fn step_views(results: Seq<StepResult>) -> Seq<StepView> {
    Seq::new(results.len(), |i: int| results[i]@)
}

impl Breadcrumb {
    pub open spec fn view(&self) -> BreadcrumbView {
        BreadcrumbView {
            id: self.id@,
            name: self.name@,
            project_id: text::opt_text(self.project_id),
            owner: self.owner@,
            started_at: self.started_at@,
            last_activity_at: self.last_activity_at@,
            steps: text::texts(self.steps@),
            current_step: self.current_step,
            total_steps: self.total_steps,
            step_results: step_views(self.step_results@),
            files_changed: text::texts(self.files_changed@),
            aborted: self.aborted,
            abort_reason: text::opt_text(self.abort_reason),
        }
    }
}

/// What records are, over texts.
pub open spec fn breadcrumb_views(records: Seq<Breadcrumb>) -> Seq<BreadcrumbView> {
    Seq::new(records.len(), |i: int| records[i]@)
}

impl Breadcrumbs {
    pub open spec fn view(&self) -> BreadcrumbsView {
        BreadcrumbsView { active_dir: self.active_dir@, completed_base: self.completed_base@ }
    }
}

impl CompletedDay {
    pub open spec fn view(&self) -> DayView {
        DayView { day: self.day@, breadcrumbs: breadcrumb_views(self.breadcrumbs@) }
    }
}

/// What days are, over texts.
pub open spec fn day_views(days: Seq<CompletedDay>) -> Seq<DayView> {
    Seq::new(days.len(), |i: int| days[i]@)
}

/// What is to be done about a tool call.
#[derive(Debug, Clone, PartialEq, Eq)]
pub enum StoreAction {
    /// The call is answered.
    Reply(ToolCallResult),
    /// The record is written to `path`; then `reply` is the answer. Where the writing fails,
    /// the answer is an error: `failure` with the words of the failure behind it.
    Save { path: String, breadcrumb: Breadcrumb, failure: String, reply: ToolCallResult },
    /// The record is written to `dest` in the directory `dir` and the file `active_path` is
    /// removed; then `reply` is the answer. Where the writing fails, the call itself fails,
    /// with `failure` and the words of the failure behind it.
    Archive {
        dir: String,
        dest: String,
        breadcrumb: Breadcrumb,
        failure: String,
        active_path: String,
        reply: ToolCallResult,
    },
}

/// What is to be done about a tool call, over texts.
pub enum StoreView {
    Reply(ResultView),
    Save {
        path: Seq<char>,
        breadcrumb: BreadcrumbView,
        failure: Seq<char>,
        reply: ResultView,
    },
    Archive {
        dir: Seq<char>,
        dest: Seq<char>,
        breadcrumb: BreadcrumbView,
        failure: Seq<char>,
        active_path: Seq<char>,
        reply: ResultView,
    },
}

impl StoreAction {
    pub open spec fn view(&self) -> StoreView {
        match *self {
            StoreAction::Reply(r) => StoreView::Reply(r@),
            StoreAction::Save { path, breadcrumb, failure, reply } => StoreView::Save {
                path: path@,
                breadcrumb: breadcrumb@,
                failure: failure@,
                reply: reply@,
            },
            StoreAction::Archive { dir, dest, breadcrumb, failure, active_path, reply } => {
                StoreView::Archive {
                    dir: dir@,
                    dest: dest@,
                    breadcrumb: breadcrumb@,
                    failure: failure@,
                    active_path: active_path@,
                    reply: reply@,
                }
            },
        }
    }
}

/// The answer once a record was to be written: `reply`, or why it could not be written.
pub fn saved(failure: &str, outcome: Result<(), String>, reply: ToolCallResult) -> (r:
    ToolCallResult)
    ensures
        match outcome {
            Ok(_) => r@ == reply@,
            Err(e) => r@ == mcp::error_view(failure@ + e@),
        },
{
    match outcome {
        Ok(_) => reply,
        Err(e) => error_result(text::cat2(failure, e.as_str()).as_str()),
    }
}

/// What follows once a record was to be archived.
#[derive(Debug, Clone, PartialEq, Eq)]
pub enum Archived {
    /// The file of the active record is removed; then `reply` is the answer.
    Remove { active_path: String, reply: ToolCallResult },
    /// The call fails with this message, and the active record stays where it is.
    Fail(String),
}

/// What follows once a record was to be archived, over texts.
pub enum ArchivedView {
    Remove { active_path: Seq<char>, reply: ResultView },
    Fail(Seq<char>),
}

impl Archived {
    pub open spec fn view(&self) -> ArchivedView {
        match *self {
            Archived::Remove { active_path, reply } => ArchivedView::Remove {
                active_path: active_path@,
                reply: reply@,
            },
            Archived::Fail(e) => ArchivedView::Fail(e@),
        }
    }
}

/// What follows once a record was to be archived: only a record that was written leaves the
/// active ones.
pub open spec fn archived_then(
    failure: Seq<char>,
    active_path: Seq<char>,
    reply: ResultView,
    outcome: Result<(), Seq<char>>,
) -> ArchivedView {
    match outcome {
        Ok(_) => ArchivedView::Remove { active_path, reply },
        Err(e) => ArchivedView::Fail(failure + e),
    }
}

/// The outcome of writing a file, over texts.
pub open spec fn outcome_view(outcome: Result<(), String>) -> Result<(), Seq<char>> {
    match outcome {
        Ok(_) => Ok(()),
        Err(e) => Err(e@),
    }
}

/// What follows once a record was to be archived.
pub fn archived(
    failure: &str,
    active_path: String,
    reply: ToolCallResult,
    outcome: Result<(), String>,
) -> (r: Archived)
    ensures
        r@ == archived_then(failure@, active_path@, reply@, outcome_view(outcome)),
{
    match outcome {
        Ok(_) => Archived::Remove { active_path, reply },
        Err(e) => Archived::Fail(text::cat2(failure, e.as_str())),
    }
}

/// The character that stands for `c` in a slug.
pub open spec fn slug_char(c: char) -> char {
    if unicode::alphanumeric(c) || c == '-' || c == '_' {
        c
    } else {
        '_'
    }
}

/// The slug of a name in lower case: its first `max_len` characters, with `_` for each that is
/// no letter, digit, `-` or `_`, and without the `_` at its end.
pub open spec fn slug(lower: Seq<char>, max_len: nat) -> Seq<char> {
    let kept = if lower.len() < max_len {
        lower
    } else {
        lower.take(max_len as int)
    };
    text::trim_end_of(Seq::new(kept.len(), |i: int| slug_char(kept[i])), '_')
}

/// The character that stands for an ASCII character in a slug.
pub open spec fn ascii_slug_char(c: char) -> char {
    if unicode::ascii_alphanumeric(c) || c == '-' || c == '_' {
        c
    } else {
        '_'
    }
}

/// The slug of a name of ASCII characters in lower case.
pub open spec fn ascii_slug(lower: Seq<char>, max_len: nat) -> Seq<char> {
    let kept = if lower.len() < max_len {
        lower
    } else {
        lower.take(max_len as int)
    };
    text::trim_end_of(Seq::new(kept.len(), |i: int| ascii_slug_char(kept[i])), '_')
}

/// The slug of a name that is in lower case already.
pub fn slug_lowered(lower: &str, max_len: usize) -> (r: String)
    ensures
        r@ == slug(lower@, max_len as nat),
        unicode::all_ascii(lower@) ==> r@ == ascii_slug(lower@, max_len as nat),
{
    let chars = text::to_chars(lower);
    let mut kept: Vec<char> = Vec::new();
    let mut i: usize = 0;
    while i < chars.len() && i < max_len
        invariant
            chars@ == lower@,
            i <= chars@.len(),
            i <= max_len,
            kept@.len() == i,
            forall|j: int| 0 <= j < i ==> kept@[j] == slug_char(chars@[j]),
            unicode::all_ascii(lower@) ==> forall|j: int|
                0 <= j < i ==> kept@[j] == ascii_slug_char(chars@[j]),
        decreases chars@.len() - i,
    {
        let c = chars[i];
        if unicode::is_alphanumeric(c) || c == '-' || c == '_' {
            kept.push(c);
        } else {
            kept.push('_');
        }
        i += 1;
    }
    proof {
        let taken = if lower@.len() < max_len as nat {
            lower@
        } else {
            lower@.take(max_len as int)
        };
        assert(kept@ =~= Seq::new(taken.len(), |i: int| slug_char(taken[i])));
        if unicode::all_ascii(lower@) {
            assert(kept@ =~= Seq::new(taken.len(), |i: int| ascii_slug_char(taken[i])));
        }
    }
    text::trim_end_matches(&kept, '_')
}

/// The identifier of an operation that is started at a moment.
pub open spec fn id_of(timestamp: i64, lower_name: Seq<char>) -> Seq<char> {
    "bc_"@ + text::signed_decimal(timestamp as int) + "_"@ + slug(lower_name, 40)
}

/// The identifier of an operation that is started at a moment, where its name is made of ASCII
/// characters.
pub open spec fn ascii_id_of(timestamp: i64, name: Seq<char>) -> Seq<char> {
    "bc_"@ + text::signed_decimal(timestamp as int) + "_"@ + ascii_slug(
        unicode::ascii_lower(name),
        40,
    )
}

/// Letters in lower case are ASCII where those in upper case are.
proof fn lemma_lower_is_ascii(name: Seq<char>)
    ensures
        unicode::all_ascii(name) ==> unicode::all_ascii(unicode::ascii_lower(name)),
{
    if unicode::all_ascii(name) {
        let lower = unicode::ascii_lower(name);
        assert forall|i: int| 0 <= i < lower.len() implies (#[trigger] lower[i]) <= '\x7f' by {
            assert(name[i] <= '\x7f');
        }
    }
}

/// Steps so far, out of all.
pub open spec fn progress(bc: BreadcrumbView) -> Seq<char> {
    text::decimal(bc.current_step as nat) + "/"@ + text::decimal(bc.total_steps as nat)
}

fn progress_of(bc: &Breadcrumb) -> (r: String)
    ensures
        r@ == progress(bc@),
{
    text::cat3(
        text::number(bc.current_step as u64).as_str(),
        "/",
        text::number(bc.total_steps as u64).as_str(),
    )
}

/// What is said where there is no record of an identifier.
pub open spec fn not_found(id: Seq<char>) -> ResultView {
    mcp::error_view("breadcrumb '"@ + id + "' not found"@)
}

fn no_breadcrumb(id: &str) -> (r: ToolCallResult)
    ensures
        r@ == not_found(id@),
{
    error_result(text::cat3("breadcrumb '", id, "' not found").as_str())
}

/// The name of an operation that a call starts.
pub open spec fn name_in(args: JsonView) -> Seq<char> {
    args.str_or("name"@, "unnamed"@)
}

/// A record that is started.
pub open spec fn started(
    args: JsonView,
    timestamp: i64,
    now: Seq<char>,
) -> BreadcrumbView {
    started_as(args, id_of(timestamp, unicode::lowercase(name_in(args))), now)
}

/// A record that is started under an identifier.
pub open spec fn started_as(args: JsonView, id: Seq<char>, now: Seq<char>) -> BreadcrumbView {
    let steps = args.strings_at("steps"@);
    BreadcrumbView {
        id,
        name: name_in(args),
        project_id: args.str_at("project_id"@),
        owner: "driver"@,
        started_at: now,
        last_activity_at: now,
        steps,
        current_step: 0,
        total_steps: steps.len() as usize,
        step_results: Seq::empty(),
        files_changed: Seq::empty(),
        aborted: false,
        abort_reason: None,
    }
}

/// What starting a record comes to.
pub open spec fn start_action(
    store: BreadcrumbsView,
    args: JsonView,
    timestamp: i64,
    now: Seq<char>,
) -> StoreView {
    start_action_as(store, args, id_of(timestamp, unicode::lowercase(name_in(args))), now)
}

/// What starting a record under an identifier comes to.
pub open spec fn start_action_as(
    store: BreadcrumbsView,
    args: JsonView,
    id: Seq<char>,
    now: Seq<char>,
) -> StoreView {
    let bc = started_as(args, id, now);
    if bc.steps.len() == 0 {
        StoreView::Reply(mcp::error_view("steps[] is required and must not be empty"@))
    } else {
        StoreView::Save {
            path: paths::json_file(store.active_dir, bc.id),
            breadcrumb: bc,
            failure: "failed to save breadcrumb: "@,
            reply: mcp::text_view(
                json::json_pretty(
                    JsonView::Object(
                        json::no_members().push(("id"@, JsonView::Str(bc.id))).push(
                            ("name"@, JsonView::Str(bc.name)),
                        ).push(("project_id"@, json::opt_str_view(bc.project_id))).push(
                            ("status"@, JsonView::Str("started"@)),
                        ).push(("total_steps"@, JsonView::Uint(bc.total_steps as u64))),
                    ),
                ),
            ),
        }
    }
}

/// The name of a record's current step.
pub open spec fn step_name(bc: BreadcrumbView) -> Seq<char> {
    if bc.current_step < bc.steps.len() {
        bc.steps[bc.current_step as int]
    } else {
        "step_"@ + text::decimal(bc.current_step as nat)
    }
}

/// A record with one step more done.
pub open spec fn stepped(
    bc: BreadcrumbView,
    result: Seq<char>,
    files_changed: Seq<Seq<char>>,
    at: Seq<char>,
    now: Seq<char>,
) -> BreadcrumbView {
    BreadcrumbView {
        step_results: bc.step_results.push(
            StepView {
                step_idx: bc.current_step,
                step_name: step_name(bc),
                result,
                at,
                files_changed,
            },
        ),
        files_changed: bc.files_changed + files_changed,
        current_step: (bc.current_step + 1) as usize,
        last_activity_at: now,
        ..bc
    }
}

/// What a step comes to.
pub open spec fn step_action(
    store: BreadcrumbsView,
    args: JsonView,
    id: Seq<char>,
    loaded: Option<BreadcrumbView>,
    at: Seq<char>,
    now: Seq<char>,
) -> StoreView {
    match loaded {
        None => StoreView::Reply(not_found(id)),
        Some(bc) => {
            let next = stepped(
                bc,
                args.str_or("result"@, ""@),
                args.strings_at("files_changed"@),
                at,
                now,
            );
            StoreView::Save {
                path: paths::json_file(store.active_dir, bc.id),
                breadcrumb: next,
                failure: "failed to save: "@,
                reply: mcp::text_view(
                    json::json_pretty(
                        JsonView::Object(
                            json::no_members().push(("id"@, JsonView::Str(id))).push(
                                ("step_completed"@, JsonView::Str(step_name(bc))),
                            ).push(("progress"@, JsonView::Str(progress(next)))),
                        ),
                    ),
                ),
            }
        },
    }
}

/// The directory of the records that are archived on a day.
pub open spec fn day_dir(store: BreadcrumbsView, day: Seq<char>) -> Seq<char> {
    paths::path_join(store.completed_base, day)
}

/// What completing a record comes to.
pub open spec fn complete_action(
    store: BreadcrumbsView,
    args: JsonView,
    id: Seq<char>,
    loaded: Option<BreadcrumbView>,
    day: Seq<char>,
) -> StoreView {
    match loaded {
        None => StoreView::Reply(not_found(id)),
        Some(bc) => {
            let dest = paths::json_file(day_dir(store, day), id);
            StoreView::Archive {
                dir: day_dir(store, day),
                dest,
                breadcrumb: bc,
                failure: "archive write: "@,
                active_path: paths::json_file(store.active_dir, id),
                reply: mcp::text_view(
                    json::json_pretty(
                        JsonView::Object(
                            json::no_members().push(("id"@, JsonView::Str(id))).push(
                                ("status"@, JsonView::Str("completed"@)),
                            ).push(
                                (
                                    "summary"@,
                                    JsonView::Str(args.str_or("summary"@, "completed"@)),
                                ),
                            ).push(("archived_to"@, JsonView::Str(dest))).push(
                                ("steps_completed"@, JsonView::Uint(bc.current_step as u64)),
                            ).push(("total_steps"@, JsonView::Uint(bc.total_steps as u64))).push(
                                ("files_changed"@, json::str_array_view(bc.files_changed)),
                            ),
                        ),
                    ),
                ),
            }
        },
    }
}

/// A record that is aborted.
pub open spec fn aborted(bc: BreadcrumbView, reason: Seq<char>, now: Seq<char>) -> BreadcrumbView {
    BreadcrumbView {
        aborted: true,
        abort_reason: Some(reason),
        last_activity_at: now,
        ..bc
    }
}

/// What aborting a record comes to.
pub open spec fn abort_action(
    store: BreadcrumbsView,
    args: JsonView,
    id: Seq<char>,
    loaded: Option<BreadcrumbView>,
    now: Seq<char>,
    day: Seq<char>,
) -> StoreView {
    match loaded {
        None => StoreView::Reply(not_found(id)),
        Some(bc) => {
            let reason = args.str_or("reason"@, "aborted"@);
            StoreView::Archive {
                dir: day_dir(store, day),
                dest: paths::json_file(day_dir(store, day), id),
                breadcrumb: aborted(bc, reason, now),
                failure: ""@,
                active_path: paths::json_file(store.active_dir, id),
                reply: mcp::text_view(
                    json::json_pretty(
                        JsonView::Object(
                            json::no_members().push(("id"@, JsonView::Str(id))).push(
                                ("status"@, JsonView::Str("aborted"@)),
                            ).push(("reason"@, JsonView::Str(reason))),
                        ),
                    ),
                ),
            }
        },
    }
}

/// A record that is adopted.
pub open spec fn adopted(bc: BreadcrumbView, now: Seq<char>) -> BreadcrumbView {
    BreadcrumbView { owner: "driver"@, last_activity_at: now, ..bc }
}

/// What adopting a record comes to.
pub open spec fn adopt_action(
    store: BreadcrumbsView,
    args: JsonView,
    loaded: Option<BreadcrumbView>,
    now: Seq<char>,
) -> StoreView {
    let id = args.str_or("breadcrumb_id"@, ""@);
    if id.len() == 0 {
        StoreView::Reply(mcp::error_view("breadcrumb_id is required"@))
    } else {
        match loaded {
            None => StoreView::Reply(not_found(id)),
            Some(bc) => StoreView::Save {
                path: paths::json_file(store.active_dir, bc.id),
                breadcrumb: adopted(bc, now),
                failure: "failed to save: "@,
                reply: mcp::text_view("breadcrumb '"@ + id + "' adopted by driver"@),
            },
        }
    }
}

/// The summary of an active record.
pub open spec fn status_item(bc: BreadcrumbView) -> JsonView {
    JsonView::Object(
        json::no_members().push(("id"@, JsonView::Str(bc.id))).push(
            ("name"@, JsonView::Str(bc.name)),
        ).push(("progress"@, JsonView::Str(progress(bc)))).push(
            ("started_at"@, JsonView::Str(bc.started_at)),
        ).push(("last_activity"@, JsonView::Str(bc.last_activity_at))).push(
            ("project_id"@, json::opt_str_view(bc.project_id)),
        ),
    )
}

/// The answer on the active records.
pub open spec fn status_reply(active: Seq<BreadcrumbView>) -> ResultView {
    if active.len() == 0 {
        mcp::text_view("no active breadcrumbs"@)
    } else {
        mcp::text_view(
            json::json_pretty(
                JsonView::Array(Seq::new(active.len(), |i: int| status_item(active[i]))),
            ),
        )
    }
}

/// A record in a list.
pub open spec fn list_item(bc: BreadcrumbView, status: Seq<char>) -> JsonView {
    JsonView::Object(
        json::no_members().push(("id"@, JsonView::Str(bc.id))).push(
            ("name"@, JsonView::Str(bc.name)),
        ).push(("status"@, JsonView::Str(status))).push(
            ("started_at"@, JsonView::Str(bc.started_at)),
        ),
    )
}

/// An archived record in a list.
pub open spec fn archived_item(bc: BreadcrumbView) -> JsonView {
    list_item(
        bc,
        if bc.aborted {
            "aborted"@
        } else {
            "completed"@
        },
    )
}

/// The archived records of the days that a scope takes in, in order.
pub open spec fn archived_items(days: Seq<DayView>, scope: Seq<char>, today: Seq<char>) -> Seq<
    JsonView,
>
    decreases days.len(),
{
    if days.len() == 0 {
        Seq::empty()
    } else {
        let front = archived_items(days.drop_last(), scope, today);
        let day = days.last();
        if scope == "today"@ && day.day != today {
            front
        } else {
            front + Seq::new(
                day.breadcrumbs.len(),
                |i: int| archived_item(day.breadcrumbs[i]),
            )
        }
    }
}

/// The answer on the records in a scope.
pub open spec fn list_reply(
    args: JsonView,
    active: Seq<BreadcrumbView>,
    days: Seq<DayView>,
    today: Seq<char>,
) -> ResultView {
    let scope = args.str_or("scope"@, "active"@);
    if scope == "active"@ {
        status_reply(active)
    } else if scope == "today"@ || scope == "week"@ || scope == "all"@ {
        mcp::text_view(
            json::json_pretty(
                JsonView::Array(
                    Seq::new(active.len(), |i: int| list_item(active[i], "active"@))
                        + archived_items(days, scope, today),
                ),
            ),
        )
    } else {
        mcp::error_view("unknown scope: "@ + scope)
    }
}

/// The record that a call is about: the one it names; else the only active one.
pub open spec fn resolved(explicit: Option<Seq<char>>, active: Seq<BreadcrumbView>) -> Result<
    Seq<char>,
    Seq<char>,
> {
    match explicit {
        Some(id) => Ok(id),
        None => if active.len() == 0 {
            Err("no active breadcrumb"@)
        } else if active.len() == 1 {
            Ok(active[0].id)
        } else {
            Err(
                "ambiguous: "@ + text::decimal(active.len())
                    + " active breadcrumbs, provide breadcrumb_id"@,
            )
        },
    }
}

/// The identifier that a call names, if it names one.
pub fn explicit_id(args: &Json) -> (r: Option<&str>)
    ensures
        match r {
            Some(s) => args@.str_at("breadcrumb_id"@) == Some(s@),
            None => args@.str_at("breadcrumb_id"@) is None,
        },
{
    args.str_at("breadcrumb_id")
}

fn list_entry(bc: &Breadcrumb, status: &str) -> (r: Json)
    ensures
        r@ == list_item(bc@, status@),
{
    Members::new().with("id", json::string(bc.id.as_str())).with(
        "name",
        json::string(bc.name.as_str()),
    ).with("status", json::string(status)).with(
        "started_at",
        json::string(bc.started_at.as_str()),
    ).object()
}

/// What a loaded record is, over texts.
pub open spec fn loaded_view(loaded: Option<Breadcrumb>) -> Option<BreadcrumbView> {
    match loaded {
        Some(bc) => Some(bc@),
        None => None,
    }
}

impl Breadcrumbs {
    /// The records under a state directory.
    pub fn new(log_dir: &str) -> (r: Breadcrumbs)
        ensures
            r.active_dir@ == paths::path_join(
                paths::path_join(log_dir@, "breadcrumbs"@),
                "active"@,
            ),
            r.completed_base@ == paths::path_join(
                paths::path_join(log_dir@, "breadcrumbs"@),
                "completed"@,
            ),
    {
        let base = paths::join(log_dir, "breadcrumbs");
        Breadcrumbs {
            active_dir: paths::join(base.as_str(), "active"),
            completed_base: paths::join(base.as_str(), "completed"),
        }
    }

    /// The file of an active record.
    pub fn active_path(&self, id: &str) -> (r: String)
        ensures
            r@ == paths::json_file(self@.active_dir, id@),
    {
        paths::json_path(self.active_dir.as_str(), id)
    }

    /// The record that a call is about: the one it names; else the only active one.
    pub fn resolve_id(&self, explicit: Option<&str>, active: &Vec<Breadcrumb>) -> (r: Result<
        String,
        String,
    >)
        ensures
            (match r {
                Ok(id) => Ok(id@),
                Err(e) => Err(e@),
            }) == resolved(
                match explicit {
                    Some(id) => Some(id@),
                    None => None,
                },
                breadcrumb_views(active@),
            ),
    {
        match explicit {
            Some(id) => Ok(text::copy(id)),
            None => if active.len() == 0 {
                Err(text::copy("no active breadcrumb"))
            } else if active.len() == 1 {
                Ok(active[0].id.clone())
            } else {
                Err(
                    text::cat3(
                        "ambiguous: ",
                        text::number(active.len() as u64).as_str(),
                        " active breadcrumbs, provide breadcrumb_id",
                    ),
                )
            },
        }
    }

    /// The slug of a name.
    pub fn slugify(name: &str, max_len: usize) -> (r: String)
        ensures
            r@ == slug(unicode::lowercase(name@), max_len as nat),
            unicode::all_ascii(name@) ==> r@ == ascii_slug(
                unicode::ascii_lower(name@),
                max_len as nat,
            ),
    {
        proof {
            lemma_lower_is_ascii(name@);
        }
        slug_lowered(unicode::to_lowercase(name).as_str(), max_len)
    }

    /// The identifier of an operation that is started at a moment.
    pub fn id_at(timestamp: i64, name: &str) -> (r: String)
        ensures
            r@ == id_of(timestamp, unicode::lowercase(name@)),
            unicode::all_ascii(name@) ==> r@ == ascii_id_of(timestamp, name@),
    {
        text::cat4(
            "bc_",
            text::signed_number(timestamp).as_str(),
            "_",
            Breadcrumbs::slugify(name, 40).as_str(),
        )
    }

    /// The identifier of an operation that is started now.
    pub fn new_id(name: &str) -> (r: String)
        ensures
            exists|timestamp: i64|
                r@ == #[trigger] id_of(timestamp, unicode::lowercase(name@)) && (
                unicode::all_ascii(name@) ==> r@ == ascii_id_of(timestamp, name@)),
    {
        Breadcrumbs::id_at(clock::now_timestamp(), name)
    }

    /// Starts a record at a given moment.
    pub fn start_at(&self, args: &Json, timestamp: i64, now: &str) -> (r: StoreAction)
        ensures
            r@ == start_action(self@, args@, timestamp, now@),
            unicode::all_ascii(name_in(args@)) ==> r@ == start_action_as(
                self@,
                args@,
                ascii_id_of(timestamp, name_in(args@)),
                now@,
            ),
    {
        let name = args.str_or("name", "unnamed");
        let steps = args.strings_at("steps");
        let project_id = args.string_at("project_id");
        if steps.len() == 0 {
            return StoreAction::Reply(error_result("steps[] is required and must not be empty"));
        }
        let id = Breadcrumbs::id_at(timestamp, name);
        let total: usize = steps.len();
        let reply = Members::new().with("id", json::string(id.as_str())).with(
            "name",
            json::string(name),
        ).with("project_id", json::opt_string(&project_id)).with(
            "status",
            json::string("started"),
        ).with("total_steps", json::size(total)).object();
        let path = self.active_path(id.as_str());
        let bc = Breadcrumb {
            id,
            name: text::copy(name),
            project_id,
            owner: text::copy("driver"),
            started_at: text::copy(now),
            last_activity_at: text::copy(now),
            steps,
            current_step: 0,
            total_steps: total,
            step_results: Vec::new(),
            files_changed: Vec::new(),
            aborted: false,
            abort_reason: None,
        };
        proof {
            assert(bc@.step_results =~= Seq::empty());
            assert(bc@.files_changed =~= Seq::empty());
            assert(bc@ == started(args@, timestamp, now@));
        }
        StoreAction::Save {
            path,
            breadcrumb: bc,
            failure: text::copy("failed to save breadcrumb: "),
            reply: text_result(json::pretty(&reply).as_str()),
        }
    }

    /// Starts a record now.
    pub fn start(&self, args: &Json) -> (r: StoreAction)
        ensures
            exists|timestamp: i64, now: Seq<char>|
                r@ == #[trigger] start_action(self@, args@, timestamp, now) && (unicode::all_ascii(
                    name_in(args@),
                ) ==> r@ == start_action_as(
                    self@,
                    args@,
                    ascii_id_of(timestamp, name_in(args@)),
                    now,
                )),
    {
        let timestamp = clock::now_timestamp();
        let now = clock::now_rfc3339();
        self.start_at(args, timestamp, now.as_str())
    }

    /// Takes a step in the record that was loaded for `id`, at a given moment.
    pub fn step_at(
        &self,
        args: &Json,
        id: &str,
        loaded: Option<Breadcrumb>,
        at: &str,
        now: &str,
    ) -> (r: StoreAction)
        requires
            loaded matches Some(bc) ==> bc.current_step < usize::MAX,
        ensures
            r@ == step_action(self@, args@, id@, loaded_view(loaded), at@, now@),
    {
        let result = args.str_or("result", "");
        let files = args.strings_at("files_changed");
        let mut bc = match loaded {
            Some(bc) => bc,
            None => return StoreAction::Reply(no_breadcrumb(id)),
        };
        let ghost before = bc@;
        let step_idx = bc.current_step;
        let name = if step_idx < bc.steps.len() {
            bc.steps[step_idx].clone()
        } else {
            text::cat2("step_", text::number(step_idx as u64).as_str())
        };
        let ghost results = bc.step_results@;
        let step = StepResult {
            step_idx,
            step_name: name.clone(),
            result: text::copy(result),
            at: text::copy(at),
            files_changed: files.clone(),
        };
        bc.step_results.push(step);
        let ghost changed = bc.files_changed@;
        let mut more = files;
        bc.files_changed.append(&mut more);
        bc.current_step = bc.current_step + 1;
        bc.last_activity_at = text::copy(now);
        proof {
            assert(text::texts(step.files_changed@) =~= text::texts(files@));
            assert(step_views(bc.step_results@) =~= step_views(results).push(step@));
            assert(text::texts(bc.files_changed@) =~= text::texts(changed) + text::texts(files@));
            assert(bc@ == stepped(before, result@, text::texts(files@), at@, now@));
        }
        let reply = Members::new().with("id", json::string(id)).with(
            "step_completed",
            json::string(name.as_str()),
        ).with("progress", json::string(progress_of(&bc).as_str())).object();
        StoreAction::Save {
            path: self.active_path(bc.id.as_str()),
            breadcrumb: bc,
            failure: text::copy("failed to save: "),
            reply: text_result(json::pretty(&reply).as_str()),
        }
    }

    /// Takes a step in the record that was loaded for `id`.
    pub fn step(&self, args: &Json, id: &str, loaded: Option<Breadcrumb>) -> (r: StoreAction)
        requires
            loaded matches Some(bc) ==> bc.current_step < usize::MAX,
        ensures
            exists|at: Seq<char>, now: Seq<char>|
                r@ == #[trigger] step_action(self@, args@, id@, loaded_view(loaded), at, now),
    {
        let at = clock::now_rfc3339();
        let now = clock::now_rfc3339();
        self.step_at(args, id, loaded, at.as_str(), now.as_str())
    }

    /// Completes the record that was loaded for `id`, on a given day.
    pub fn complete_on(&self, args: &Json, id: &str, loaded: Option<Breadcrumb>, day: &str) -> (r:
        StoreAction)
        ensures
            r@ == complete_action(self@, args@, id@, loaded_view(loaded), day@),
    {
        let bc = match loaded {
            Some(bc) => bc,
            None => return StoreAction::Reply(no_breadcrumb(id)),
        };
        let dir = paths::join(self.completed_base.as_str(), day);
        let dest = paths::json_path(dir.as_str(), id);
        let reply = Members::new().with("id", json::string(id)).with(
            "status",
            json::string("completed"),
        ).with("summary", json::string(args.str_or("summary", "completed"))).with(
            "archived_to",
            json::string(dest.as_str()),
        ).with("steps_completed", json::size(bc.current_step)).with(
            "total_steps",
            json::size(bc.total_steps),
        ).with("files_changed", json::string_array(&bc.files_changed)).object();
        StoreAction::Archive {
            dir,
            dest,
            breadcrumb: bc,
            failure: text::copy("archive write: "),
            active_path: self.active_path(id),
            reply: text_result(json::pretty(&reply).as_str()),
        }
    }

    /// Completes the record that was loaded for `id`.
    pub fn complete(&self, args: &Json, id: &str, loaded: Option<Breadcrumb>) -> (r: StoreAction)
        ensures
            exists|day: Seq<char>|
                r@ == #[trigger] complete_action(self@, args@, id@, loaded_view(loaded), day),
    {
        let day = clock::today();
        self.complete_on(args, id, loaded, day.as_str())
    }

    /// Aborts the record that was loaded for `id`, at a given moment.
    pub fn abort_at(
        &self,
        args: &Json,
        id: &str,
        loaded: Option<Breadcrumb>,
        now: &str,
        day: &str,
    ) -> (r: StoreAction)
        ensures
            r@ == abort_action(self@, args@, id@, loaded_view(loaded), now@, day@),
    {
        let reason = args.str_or("reason", "aborted");
        let mut bc = match loaded {
            Some(bc) => bc,
            None => return StoreAction::Reply(no_breadcrumb(id)),
        };
        bc.aborted = true;
        bc.abort_reason = Some(text::copy(reason));
        bc.last_activity_at = text::copy(now);
        let dir = paths::join(self.completed_base.as_str(), day);
        let dest = paths::json_path(dir.as_str(), id);
        let reply = Members::new().with("id", json::string(id)).with(
            "status",
            json::string("aborted"),
        ).with("reason", json::string(reason)).object();
        StoreAction::Archive {
            dir,
            dest,
            breadcrumb: bc,
            failure: text::copy(""),
            active_path: self.active_path(id),
            reply: text_result(json::pretty(&reply).as_str()),
        }
    }

    /// Aborts the record that was loaded for `id`.
    pub fn abort(&self, args: &Json, id: &str, loaded: Option<Breadcrumb>) -> (r: StoreAction)
        ensures
            exists|now: Seq<char>, day: Seq<char>|
                r@ == #[trigger] abort_action(self@, args@, id@, loaded_view(loaded), now, day),
    {
        let now = clock::now_rfc3339();
        let day = clock::today();
        self.abort_at(args, id, loaded, now.as_str(), day.as_str())
    }

    /// The answer on the active records.
    pub fn status(&self, active: &Vec<Breadcrumb>) -> (r: ToolCallResult)
        ensures
            r@ == status_reply(breadcrumb_views(active@)),
    {
        if active.len() == 0 {
            return text_result("no active breadcrumbs");
        }
        let mut items: Vec<Json> = Vec::new();
        let mut i: usize = 0;
        while i < active.len()
            invariant
                i <= active@.len(),
                items@.len() == i,
                forall|j: int| 0 <= j < i ==> (#[trigger] items@[j])@ == status_item(active@[j]@),
            decreases active@.len() - i,
        {
            let bc = &active[i];
            let item = Members::new().with("id", json::string(bc.id.as_str())).with(
                "name",
                json::string(bc.name.as_str()),
            ).with("progress", json::string(progress_of(bc).as_str())).with(
                "started_at",
                json::string(bc.started_at.as_str()),
            ).with("last_activity", json::string(bc.last_activity_at.as_str())).with(
                "project_id",
                json::opt_string(&bc.project_id),
            ).object();
            items.push(item);
            i += 1;
        }
        let ghost all = breadcrumb_views(active@);
        proof {
            assert(json::items_view(items@) =~= Seq::new(
                all.len(),
                |i: int| status_item(all[i]),
            ));
        }
        text_result(json::pretty(&json::array(items)).as_str())
    }

    /// The answer on the records in a scope, on a given day. `completed` are the archived
    /// records, day by day.
    pub fn list_on(
        &self,
        args: &Json,
        active: &Vec<Breadcrumb>,
        completed: &Vec<CompletedDay>,
        today: &str,
    ) -> (r: ToolCallResult)
        ensures
            r@ == list_reply(args@, breadcrumb_views(active@), day_views(completed@), today@),
    {
        let scope = args.str_or("scope", "active");
        if text::str_eq(scope, "active") {
            return self.status(active);
        }
        let only_today = text::str_eq(scope, "today");
        if !only_today && !text::str_eq(scope, "week") && !text::str_eq(scope, "all") {
            return error_result(text::cat2("unknown scope: ", scope).as_str());
        }
        let ghost now_active = breadcrumb_views(active@);
        let ghost days = day_views(completed@);
        let ghost head = Seq::new(now_active.len(), |i: int| list_item(now_active[i], "active"@));
        let mut items: Vec<Json> = Vec::new();
        let mut i: usize = 0;
        while i < active.len()
            invariant
                i <= active@.len(),
                now_active == breadcrumb_views(active@),
                head == Seq::new(now_active.len(), |i: int| list_item(now_active[i], "active"@)),
                json::items_view(items@) == head.take(i as int),
            decreases active@.len() - i,
        {
            let ghost before = items@;
            let item = list_entry(&active[i], "active");
            items.push(item);
            proof {
                assert(json::items_view(items@) =~= json::items_view(before).push(item@));
                assert(head.take(i + 1) =~= head.take(i as int).push(head[i as int]));
            }
            i += 1;
        }
        proof {
            assert(head.take(i as int) =~= head);
            assert(head + archived_items(days.take(0), scope@, today@) =~= head);
        }
        let mut d: usize = 0;
        while d < completed.len()
            invariant
                d <= completed@.len(),
                days == day_views(completed@),
                only_today == (scope@ == "today"@),
                json::items_view(items@) == head + archived_items(
                    days.take(d as int),
                    scope@,
                    today@,
                ),
            decreases completed@.len() - d,
        {
            let day = &completed[d];
            let ghost so_far = json::items_view(items@);
            proof {
                assert(days.take(d + 1).drop_last() =~= days.take(d as int));
                assert(days.take(d + 1).last() == day@);
            }
            if !only_today || text::str_eq(day.day.as_str(), today) {
                let ghost mine = Seq::new(
                    day@.breadcrumbs.len(),
                    |i: int| archived_item(day@.breadcrumbs[i]),
                );
                let mut j: usize = 0;
                proof {
                    assert(so_far + mine.take(0) =~= so_far);
                }
                while j < day.breadcrumbs.len()
                    invariant
                        j <= day.breadcrumbs@.len(),
                        mine == Seq::new(
                            day@.breadcrumbs.len(),
                            |i: int| archived_item(day@.breadcrumbs[i]),
                        ),
                        json::items_view(items@) == so_far + mine.take(j as int),
                    decreases day.breadcrumbs@.len() - j,
                {
                    let bc = &day.breadcrumbs[j];
                    let ghost before = items@;
                    let item = list_entry(
                        bc,
                        if bc.aborted {
                            "aborted"
                        } else {
                            "completed"
                        },
                    );
                    items.push(item);
                    proof {
                        assert(item@ == mine[j as int]);
                        assert(json::items_view(items@) =~= json::items_view(before).push(item@));
                        assert(json::items_view(items@) =~= so_far + mine.take(j + 1));
                    }
                    j += 1;
                }
                proof {
                    assert(mine.take(j as int) =~= mine);
                    assert(so_far + mine =~= head + (archived_items(
                        days.take(d as int),
                        scope@,
                        today@,
                    ) + mine));
                }
            }
            d += 1;
        }
        proof {
            assert(days.take(d as int) =~= days);
        }
        text_result(json::pretty(&json::array(items)).as_str())
    }

    /// The answer on the records in a scope. `completed` are the archived records, day by day.
    pub fn list(&self, args: &Json, active: &Vec<Breadcrumb>, completed: &Vec<CompletedDay>) -> (r:
        ToolCallResult)
        ensures
            exists|today: Seq<char>|
                r@ == #[trigger] list_reply(
                    args@,
                    breadcrumb_views(active@),
                    day_views(completed@),
                    today,
                ),
    {
        let today = clock::today();
        self.list_on(args, active, completed, today.as_str())
    }

    /// Adopts the record that was loaded for the call's identifier, at a given moment.
    pub fn adopt_at(&self, args: &Json, loaded: Option<Breadcrumb>, now: &str) -> (r: StoreAction)
        ensures
            r@ == adopt_action(self@, args@, loaded_view(loaded), now@),
    {
        let id = args.str_or("breadcrumb_id", "");
        if id.is_empty() {
            return StoreAction::Reply(error_result("breadcrumb_id is required"));
        }
        let mut bc = match loaded {
            Some(bc) => bc,
            None => return StoreAction::Reply(no_breadcrumb(id)),
        };
        bc.owner = text::copy("driver");
        bc.last_activity_at = text::copy(now);
        StoreAction::Save {
            path: self.active_path(bc.id.as_str()),
            breadcrumb: bc,
            failure: text::copy("failed to save: "),
            reply: text_result(text::cat3("breadcrumb '", id, "' adopted by driver").as_str()),
        }
    }

    /// Adopts the record that was loaded for the call's identifier.
    pub fn adopt(&self, args: &Json, loaded: Option<Breadcrumb>) -> (r: StoreAction)
        ensures
            exists|now: Seq<char>|
                r@ == #[trigger] adopt_action(self@, args@, loaded_view(loaded), now),
    {
        let now = clock::now_rfc3339();
        self.adopt_at(args, loaded, now.as_str())
    }
}

/// The files that steps changed, in order.
pub open spec fn all_files(results: Seq<StepView>) -> Seq<Seq<char>>
    decreases results.len(),
{
    if results.len() == 0 {
        Seq::empty()
    } else {
        all_files(results.drop_last()) + results.last().files_changed
    }
}

/// The name of the step `i` among planned steps.
pub open spec fn planned_name(steps: Seq<Seq<char>>, i: int) -> Seq<char> {
    if i < steps.len() {
        steps[i]
    } else {
        "step_"@ + text::decimal(i as nat)
    }
}

/// Whether a record tells of its steps: as many results as steps done, each under its own
/// number and name, and the changed files are those of the results.
pub open spec fn tracks(bc: BreadcrumbView) -> bool {
    &&& bc.total_steps == bc.steps.len()
    &&& bc.current_step == bc.step_results.len()
    &&& forall|i: int|
        0 <= i < bc.step_results.len() ==> (#[trigger] bc.step_results[i]).step_idx == i
            && bc.step_results[i].step_name == planned_name(bc.steps, i)
    &&& bc.files_changed == all_files(bc.step_results)
}

/// A record that is started tells of its steps.
pub proof fn law_started_tracks(args: JsonView, timestamp: i64, now: Seq<char>)
    requires
        args.strings_at("steps"@).len() <= usize::MAX,
    ensures
        tracks(started(args, timestamp, now)),
{
}

/// A step keeps a record telling of its steps, and is one more; the plan stays as it is.
pub proof fn law_step_tracks(
    bc: BreadcrumbView,
    result: Seq<char>,
    files_changed: Seq<Seq<char>>,
    at: Seq<char>,
    now: Seq<char>,
)
    requires
        tracks(bc),
        bc.current_step < usize::MAX,
    ensures
        tracks(stepped(bc, result, files_changed, at, now)),
        stepped(bc, result, files_changed, at, now).current_step == bc.current_step + 1,
        stepped(bc, result, files_changed, at, now).steps == bc.steps,
        stepped(bc, result, files_changed, at, now).id == bc.id,
        bc.step_results.is_prefix_of(stepped(bc, result, files_changed, at, now).step_results),
{
    let next = stepped(bc, result, files_changed, at, now);
    assert(next.step_results.drop_last() =~= bc.step_results);
}

/// Aborting and adopting a record change nothing of what it tells of its steps.
pub proof fn law_abort_and_adopt_keep_steps(bc: BreadcrumbView, reason: Seq<char>, now: Seq<char>)
    requires
        tracks(bc),
    ensures
        tracks(aborted(bc, reason, now)),
        tracks(adopted(bc, now)),
        aborted(bc, reason, now).step_results == bc.step_results,
        adopted(bc, now).step_results == bc.step_results,
        adopted(bc, now).aborted == bc.aborted,
{
}

/// Completing a record archives it as it is, in a file of the name that it had.
pub proof fn law_complete_keeps_record(
    store: BreadcrumbsView,
    args: JsonView,
    id: Seq<char>,
    bc: BreadcrumbView,
    day: Seq<char>,
)
    ensures
        complete_action(store, args, id, Some(bc), day) matches StoreView::Archive {
            dest,
            breadcrumb,
            active_path,
            ..
        } && breadcrumb == bc && dest == paths::json_file(day_dir(store, day), id) && active_path
            == paths::json_file(store.active_dir, id),
{
}

/// A slug is no longer than it may be, holds nothing but letters, digits, `-` and `_`, and does
/// not end in `_`.
pub proof fn law_slug_is_plain(lower: Seq<char>, max_len: nat)
    ensures
        slug(lower, max_len).len() <= max_len,
        forall|i: int|
            0 <= i < slug(lower, max_len).len() ==> {
                let c = #[trigger] slug(lower, max_len)[i];
                unicode::alphanumeric(c) || c == '-' || c == '_'
            },
        slug(lower, max_len).len() > 0 ==> slug(lower, max_len).last() != '_',
{
    let kept = if lower.len() < max_len {
        lower
    } else {
        lower.take(max_len as int)
    };
    let mapped = Seq::new(kept.len(), |i: int| slug_char(kept[i]));
    text::lemma_trim_end_of(mapped, '_');
}

/// The records in the files of a store, by path.
pub type Files = Map<Seq<char>, BreadcrumbView>;

/// The record in a file, if there is one.
pub open spec fn record_at(files: Files, path: Seq<char>) -> Option<BreadcrumbView> {
    if files.contains_key(path) {
        Some(files[path])
    } else {
        None
    }
}

/// Whether two stores hold the same records in all files but one.
pub open spec fn same_but(before: Files, after: Files, path: Seq<char>) -> bool {
    forall|p: Seq<char>| p != path ==> #[trigger] record_at(after, p) == record_at(before, p)
}

/// Whether `after` is what a store may hold once `action` was performed on `before`, where the
/// file that the action writes came to `outcome`. A file whose writing failed may hold anything.
pub open spec fn follows(
    before: Files,
    action: StoreView,
    outcome: Result<(), Seq<char>>,
    after: Files,
) -> bool {
    match action {
        StoreView::Reply(_) => after == before,
        StoreView::Save { path, breadcrumb, .. } => match outcome {
            Ok(_) => after == before.insert(path, breadcrumb),
            Err(_) => same_but(before, after, path),
        },
        StoreView::Archive { dest, breadcrumb, failure, active_path, reply, .. } => {
            match archived_then(failure, active_path, reply, outcome) {
                ArchivedView::Remove { active_path, .. } => after == before.insert(
                    dest,
                    breadcrumb,
                ).remove(active_path),
                ArchivedView::Fail(_) => same_but(before, after, dest),
            }
        },
    }
}

/// The file of an active record.
pub open spec fn active_file(store: BreadcrumbsView, id: Seq<char>) -> Seq<char> {
    paths::json_file(store.active_dir, id)
}

/// The file of a record that was archived on a day.
pub open spec fn archive_file(store: BreadcrumbsView, id: Seq<char>, day: Seq<char>) -> Seq<char> {
    paths::json_file(day_dir(store, day), id)
}

/// Completing a record, however many of its steps are done, puts it into the archive as it is
/// and takes it from the active ones; every later call that names it is told that there is no
/// such record.
pub proof fn law_completed_record_is_archived(
    store: BreadcrumbsView,
    args: JsonView,
    later: JsonView,
    id: Seq<char>,
    day: Seq<char>,
    at: Seq<char>,
    now: Seq<char>,
    before: Files,
    after: Files,
)
    requires
        before.contains_key(active_file(store, id)),
        archive_file(store, id, day) != active_file(store, id),
        follows(
            before,
            complete_action(store, args, id, record_at(before, active_file(store, id)), day),
            Ok(()),
            after,
        ),
        later.str_at("breadcrumb_id"@) == Some(id),
    ensures
        record_at(after, archive_file(store, id, day)) == record_at(before, active_file(store, id)),
        ({
            let loaded = record_at(after, active_file(store, id));
            let gone = StoreView::Reply(not_found(id));
            &&& loaded is None
            &&& step_action(store, later, id, loaded, at, now) == gone
            &&& complete_action(store, later, id, loaded, day) == gone
            &&& abort_action(store, later, id, loaded, now, day) == gone
            &&& id.len() > 0 ==> adopt_action(store, later, loaded, now) == gone
        }),
{
}

/// Where a record cannot be written to the archive, the call fails, with the reason, and the
/// record is active as it was. So it is where a record is completed and where it is aborted.
pub proof fn law_failed_archive_keeps_the_record(
    store: BreadcrumbsView,
    args: JsonView,
    id: Seq<char>,
    day: Seq<char>,
    now: Seq<char>,
    reason: Seq<char>,
    before: Files,
    after: Files,
)
    requires
        before.contains_key(active_file(store, id)),
        archive_file(store, id, day) != active_file(store, id),
        ({
            let loaded = record_at(before, active_file(store, id));
            ||| follows(before, complete_action(store, args, id, loaded, day), Err(reason), after)
            ||| follows(before, abort_action(store, args, id, loaded, now, day), Err(reason), after)
        }),
    ensures
        record_at(after, active_file(store, id)) == record_at(before, active_file(store, id)),
        ({
            let loaded = record_at(before, active_file(store, id));
            match complete_action(store, args, id, loaded, day) {
                StoreView::Archive { failure, active_path, reply, .. } => archived_then(
                    failure,
                    active_path,
                    reply,
                    Err(reason),
                ) == ArchivedView::Fail("archive write: "@ + reason),
                _ => false,
            }
        }),
{
}

/// The archive of a store below a directory is not among its active records: the two files of
/// a record are not one, unless its identifier is a path from the root.
pub proof fn law_archive_is_elsewhere(
    store: BreadcrumbsView,
    log_dir: Seq<char>,
    id: Seq<char>,
    day: Seq<char>,
)
    requires
        store.active_dir == paths::path_join(
            paths::path_join(log_dir, "breadcrumbs"@),
            "active"@,
        ),
        store.completed_base == paths::path_join(
            paths::path_join(log_dir, "breadcrumbs"@),
            "completed"@,
        ),
        id.len() > 0 ==> id[0] != '/',
        day.len() > 0 ==> day[0] != '/',
    ensures
        archive_file(store, id, day) != active_file(store, id),
{
    reveal_strlit("breadcrumbs");
    reveal_strlit("active");
    reveal_strlit("completed");
    reveal_strlit("/");
    reveal_strlit(".json");
    let base = paths::path_join(log_dir, "breadcrumbs"@);
    let file = id + ".json"@;
    assert(base.last() == 's');
    assert(file[0] != '/');
    let active = active_file(store, id);
    let archive = archive_file(store, id, day);
    let at = base.len() as int + 1;
    assert(store.active_dir == base + "/"@ + "active"@);
    assert(store.completed_base == base + "/"@ + "completed"@);
    assert(store.active_dir.last() == 'e');
    assert(active == store.active_dir + "/"@ + file);
    assert(active[at] == 'a');
    assert(day_dir(store, day) == store.completed_base + "/"@ + day);
    assert(archive[at] == 'c');
}

proof fn lemma_words()
    ensures
        text::shape("id"@) == 100100100100105002,
        text::shape("name"@) == 101109101109110004,
        text::shape("project_id"@) == 95099100099112010,
        text::shape("status"@) == 117116115116115006,
        text::shape("total_steps"@) == 101095115115116011,
        text::shape("step_completed"@) == 101109100112115014,
        text::shape("progress"@) == 115114115114112008,
        text::shape("summary"@) == 114109121097115007,
        text::shape("archived_to"@) == 95118111101097011,
        text::shape("steps_completed"@) == 101111100109115015,
        text::shape("files_changed"@) == 110099100104102013,
        text::shape("reason"@) == 111115110115114006,
        text::shape("started_at"@) == 95101116101115010,
        text::shape("last_activity"@) == 118099121116108013,
        text::shape("active"@) == 118105101105097006,
        text::shape("today"@) == 97100121100116005,
        text::shape("week"@) == 107101107101119004,
        text::shape("all"@) == 108108108108097003,
{
    reveal_strlit("id");
    assert(text::shape("id"@) == 100100100100105002);
    reveal_strlit("name");
    assert(text::shape("name"@) == 101109101109110004);
    reveal_strlit("project_id");
    assert(text::shape("project_id"@) == 95099100099112010);
    reveal_strlit("status");
    assert(text::shape("status"@) == 117116115116115006);
    reveal_strlit("total_steps");
    assert(text::shape("total_steps"@) == 101095115115116011);
    reveal_strlit("step_completed");
    assert(text::shape("step_completed"@) == 101109100112115014);
    reveal_strlit("progress");
    assert(text::shape("progress"@) == 115114115114112008);
    reveal_strlit("summary");
    assert(text::shape("summary"@) == 114109121097115007);
    reveal_strlit("archived_to");
    assert(text::shape("archived_to"@) == 95118111101097011);
    reveal_strlit("steps_completed");
    assert(text::shape("steps_completed"@) == 101111100109115015);
    reveal_strlit("files_changed");
    assert(text::shape("files_changed"@) == 110099100104102013);
    reveal_strlit("reason");
    assert(text::shape("reason"@) == 111115110115114006);
    reveal_strlit("started_at");
    assert(text::shape("started_at"@) == 95101116101115010);
    reveal_strlit("last_activity");
    assert(text::shape("last_activity"@) == 118099121116108013);
    reveal_strlit("active");
    assert(text::shape("active"@) == 118105101105097006);
    reveal_strlit("today");
    assert(text::shape("today"@) == 97100121100116005);
    reveal_strlit("week");
    assert(text::shape("week"@) == 107101107101119004);
    reveal_strlit("all");
    assert(text::shape("all"@) == 108108108108097003);
}

/// An operation that has steps is recorded as begun at the moment of the call, in the file of its
/// identifier, with the steps that the call lists and none of them done. The answer says what it is
/// and how many steps it has. One without steps is refused.
pub proof fn law_operation_is_recorded(
    store: BreadcrumbsView,
    args: JsonView,
    timestamp: i64,
    now: Seq<char>,
)
    requires
        args.strings_at("steps"@).len() <= usize::MAX,
    ensures
        args.strings_at("steps"@).len() == 0
            ==> start_action(store, args, timestamp, now) == StoreView::Reply(
            mcp::error_view("steps[] is required and must not be empty"@),
        ),
        args.strings_at("steps"@).len() > 0 ==> {
            &&& start_action(store, args, timestamp, now) is Save
            &&& start_action(store, args, timestamp, now)->path
                == paths::json_file(
                store.active_dir,
                id_of(timestamp, unicode::lowercase(args.str_or("name"@, "unnamed"@))))
            &&& start_action(store, args, timestamp, now)->Save_failure
                == "failed to save breadcrumb: "@
            &&& start_action(store, args, timestamp, now)->Save_breadcrumb == (BreadcrumbView {
                id: id_of(timestamp, unicode::lowercase(args.str_or("name"@, "unnamed"@))),
                name: args.str_or("name"@, "unnamed"@),
                project_id: args.str_at("project_id"@),
                owner: "driver"@,
                started_at: now,
                last_activity_at: now,
                steps: args.strings_at("steps"@),
                current_step: 0,
                total_steps: args.strings_at("steps"@).len() as usize,
                step_results: Seq::empty(),
                files_changed: Seq::empty(),
                aborted: false,
                abort_reason: None,
            })
            &&& exists|v: JsonView|
            start_action(store, args, timestamp, now)->Save_reply
                == mcp::text_view(#[trigger] json::json_pretty(v)) && v is Object
                && v->Object_0.len() == 5
                && v.get("id"@)
                == Some(JsonView::Str(
                id_of(timestamp, unicode::lowercase(args.str_or("name"@, "unnamed"@)))))
                && v.get("name"@) == Some(JsonView::Str(args.str_or("name"@, "unnamed"@)))
                && v.get("project_id"@) == Some((match args.str_at("project_id"@) {
                Some(s) => JsonView::Str(s),
                None => JsonView::Null,
            })) && v.get("status"@) == Some(JsonView::Str("started"@))
                && v.get("total_steps"@)
                == Some(JsonView::Uint(args.strings_at("steps"@).len() as u64))
        },
{
    broadcast use json::lemma_member_push;

    lemma_words();
    if args.strings_at("steps"@).len() > 0 {
    let v = JsonView::Object(
        json::no_members()
        .push(("id"@,
        JsonView::Str(id_of(timestamp, unicode::lowercase(args.str_or("name"@, "unnamed"@))))))
        .push(("name"@, JsonView::Str(args.str_or("name"@, "unnamed"@))))
        .push(("project_id"@, (match args.str_at("project_id"@) {
                Some(s) => JsonView::Str(s),
                None => JsonView::Null,
            }))).push(("status"@, JsonView::Str("started"@)))
                .push(("total_steps"@, JsonView::Uint(args.strings_at("steps"@).len() as u64))));
    assert(start_action(store, args, timestamp, now)->Save_reply
        == mcp::text_view(json::json_pretty(v)));
    assert(v.get("id"@)
        == Some(JsonView::Str(
        id_of(timestamp, unicode::lowercase(args.str_or("name"@, "unnamed"@))))));
    assert(v.get("name"@) == Some(JsonView::Str(args.str_or("name"@, "unnamed"@))));
    assert(v.get("project_id"@) == Some((match args.str_at("project_id"@) {
                Some(s) => JsonView::Str(s),
                None => JsonView::Null,
            })));
    assert(v.get("status"@) == Some(JsonView::Str("started"@)));
    assert(v.get("total_steps"@) == Some(JsonView::Uint(args.strings_at("steps"@).len() as u64)));
    }
}

/// The identifier of an operation holds the moment of its start and its name: a letter, a digit,
/// a hyphen and an underscore stand for themselves, any other character is an underscore, and
/// only the first forty characters count; underscores at the end are left out.
pub proof fn law_identifier_holds_time_and_name(
    timestamp: i64,
    name: Seq<char>,
    i: int,
)
    ensures
        ({
            let tail = slug(name, 40);
            &&& id_of(timestamp, name) == "bc_"@ + text::signed_decimal(timestamp as int) + "_"@
                + tail
            &&& tail.len() <= name.len()
            &&& 0 <= i < tail.len() ==> tail[i] == (if unicode::alphanumeric(name[i]) || name[i]
                == '-' || name[i] == '_' {
                name[i]
            } else {
                '_'
            })
            &&& tail.len() <= i < name.len() && i < 40 ==> name[i] == '_' || (name[i] != '-'
                && !unicode::alphanumeric(name[i]))
        }),
{
    let kept = if name.len() < 40 {
        name
    } else {
        name.take(40)
    };
    let mapped = Seq::new(kept.len(), |k: int| slug_char(kept[k]));
    lemma_trimmed_are_that(mapped, '_', i);
}

proof fn lemma_trimmed_are_that(s: Seq<char>, c: char, i: int)
    ensures
        text::trim_end_of(s, c).len() <= s.len(),
        text::trim_end_of(s, c) == s.take(text::trim_end_of(s, c).len() as int),
        text::trim_end_of(s, c).len() <= i < s.len() ==> s[i] == c,
    decreases s.len(),
{
    if s.len() > 0 && s.last() == c {
        lemma_trimmed_are_that(s.drop_last(), c, i);
        let t = text::trim_end_of(s.drop_last(), c);
        assert(s.drop_last().take(t.len() as int) =~= s.take(t.len() as int));
    } else {
        assert(s.take(s.len() as int) =~= s);
    }
}

/// A step is noted behind the earlier ones, under the number and the name of the step that was
/// the current one, with what the call says of its result and of the files that it changed; the
/// next step is then the current one, and nothing else of the record changes but the time. The
/// answer says which step it was and how far the operation is.
pub proof fn law_step_is_noted(
    store: BreadcrumbsView,
    args: JsonView,
    id: Seq<char>,
    bc: BreadcrumbView,
    at: Seq<char>,
    now: Seq<char>,
    name: Seq<char>,
)
    requires
        bc.current_step < usize::MAX,
        bc.current_step < bc.steps.len() ==> name == bc.steps[bc.current_step as int],
        bc.current_step >= bc.steps.len()
            ==> name == "step_"@ + text::decimal(bc.current_step as nat),
    ensures
        step_action(store, args, id, Some(bc), at, now) is Save,
        step_action(store, args, id, Some(bc), at, now)->path
            == paths::json_file(store.active_dir, bc.id),
        step_action(store, args, id, Some(bc), at, now)->Save_failure == "failed to save: "@,
        step_action(store, args, id, Some(bc), at, now)->Save_breadcrumb == (BreadcrumbView {
            step_results: bc.step_results.push(
                StepView {
                    step_idx: bc.current_step,
                    step_name: name,
                    result: args.str_or("result"@, ""@),
                    at,
                    files_changed: args.strings_at("files_changed"@),
                },
            ),
            files_changed: bc.files_changed + args.strings_at("files_changed"@),
            current_step: (bc.current_step + 1) as usize,
            last_activity_at: now,
            ..bc
        }),
        exists|v: JsonView|
            step_action(store, args, id, Some(bc), at, now)->Save_reply
                == mcp::text_view(#[trigger] json::json_pretty(v)) && v is Object
                && v->Object_0.len() == 3 && v.get("id"@) == Some(JsonView::Str(id))
                && v.get("step_completed"@) == Some(JsonView::Str(name))
                && v.get("progress"@) == Some(JsonView::Str(
                text::decimal((bc.current_step + 1) as nat) + "/"@ + text::decimal(
                    bc.total_steps as nat,
                ),
            )),
{
    broadcast use json::lemma_member_push;

    lemma_words();
    let v = JsonView::Object(
        json::no_members().push(("id"@, JsonView::Str(id)))
        .push(("step_completed"@, JsonView::Str(name))).push(("progress"@, JsonView::Str(
                text::decimal((bc.current_step + 1) as nat) + "/"@ + text::decimal(
                    bc.total_steps as nat,
                ),
            ))));
    assert(step_action(store, args, id, Some(bc), at, now)->Save_reply
        == mcp::text_view(json::json_pretty(v)));
    assert(v.get("id"@) == Some(JsonView::Str(id)));
    assert(v.get("step_completed"@) == Some(JsonView::Str(name)));
    assert(v.get("progress"@) == Some(JsonView::Str(
                text::decimal((bc.current_step + 1) as nat) + "/"@ + text::decimal(
                    bc.total_steps as nat,
                ),
            )));
}

/// The answer on an operation that is completed says so, where it went, how much of it was done and
/// what it changed. Its record is put into the directory of the day.
pub proof fn law_operation_is_completed(
    store: BreadcrumbsView,
    args: JsonView,
    id: Seq<char>,
    bc: BreadcrumbView,
    day: Seq<char>,
)
    ensures
        complete_action(store, args, id, Some(bc), day) is Archive,
        complete_action(store, args, id, Some(bc), day)->dir
            == paths::path_join(store.completed_base, day),
        complete_action(store, args, id, Some(bc), day)->Archive_failure == "archive write: "@,
        exists|v: JsonView|
            complete_action(store, args, id, Some(bc), day)->Archive_reply
                == mcp::text_view(#[trigger] json::json_pretty(v)) && v is Object
                && v->Object_0.len() == 7 && v.get("id"@) == Some(JsonView::Str(id))
                && v.get("status"@) == Some(JsonView::Str("completed"@))
                && v.get("summary"@) == Some(JsonView::Str(args.str_or("summary"@, "completed"@)))
                && v.get("archived_to"@)
                == Some(JsonView::Str(
                paths::json_file(paths::path_join(store.completed_base, day), id)))
                && v.get("steps_completed"@) == Some(JsonView::Uint(bc.current_step as u64))
                && v.get("total_steps"@) == Some(JsonView::Uint(bc.total_steps as u64))
                && v.get("files_changed"@) == Some(JsonView::Array(
                Seq::new(bc.files_changed.len(), |i: int| JsonView::Str(bc.files_changed[i])),
            )),
{
    broadcast use json::lemma_member_push;

    lemma_words();
    assert(json::str_array_view(bc.files_changed)->Array_0 =~= Seq::new(
        bc.files_changed.len(),
        |i: int| JsonView::Str(bc.files_changed[i]),
    ));
    let v = JsonView::Object(
        json::no_members().push(("id"@, JsonView::Str(id)))
        .push(("status"@, JsonView::Str("completed"@)))
        .push(("summary"@, JsonView::Str(args.str_or("summary"@, "completed"@))))
        .push(("archived_to"@,
        JsonView::Str(paths::json_file(paths::path_join(store.completed_base, day), id))))
        .push(("steps_completed"@, JsonView::Uint(bc.current_step as u64)))
        .push(("total_steps"@, JsonView::Uint(bc.total_steps as u64)))
        .push(("files_changed"@, JsonView::Array(
                Seq::new(bc.files_changed.len(), |i: int| JsonView::Str(bc.files_changed[i])),
            ))));
    assert(complete_action(store, args, id, Some(bc), day)->Archive_reply
        == mcp::text_view(json::json_pretty(v)));
    assert(v.get("id"@) == Some(JsonView::Str(id)));
    assert(v.get("status"@) == Some(JsonView::Str("completed"@)));
    assert(v.get("summary"@) == Some(JsonView::Str(args.str_or("summary"@, "completed"@))));
    assert(v.get("archived_to"@)
        == Some(JsonView::Str(paths::json_file(paths::path_join(store.completed_base, day), id))));
    assert(v.get("steps_completed"@) == Some(JsonView::Uint(bc.current_step as u64)));
    assert(v.get("total_steps"@) == Some(JsonView::Uint(bc.total_steps as u64)));
    assert(v.get("files_changed"@) == Some(JsonView::Array(
                Seq::new(bc.files_changed.len(), |i: int| JsonView::Str(bc.files_changed[i])),
            )));
}

/// An operation that is aborted is archived as aborted, for the reason that the call gives, and
/// as it was otherwise; the answer says so.
pub proof fn law_operation_is_aborted(
    store: BreadcrumbsView,
    args: JsonView,
    id: Seq<char>,
    bc: BreadcrumbView,
    now: Seq<char>,
    day: Seq<char>,
)
    ensures
        abort_action(store, args, id, Some(bc), now, day) is Archive,
        abort_action(store, args, id, Some(bc), now, day)->dir
            == paths::path_join(store.completed_base, day),
        abort_action(store, args, id, Some(bc), now, day)->dest
            == paths::json_file(paths::path_join(store.completed_base, day), id),
        abort_action(store, args, id, Some(bc), now, day)->active_path
            == paths::json_file(store.active_dir, id),
        abort_action(store, args, id, Some(bc), now, day)->Archive_failure == ""@,
        abort_action(store, args, id, Some(bc), now, day)->Archive_breadcrumb == (BreadcrumbView {
            aborted: true,
            abort_reason: Some(args.str_or("reason"@, "aborted"@)),
            last_activity_at: now,
            ..bc
        }),
        exists|v: JsonView|
            abort_action(store, args, id, Some(bc), now, day)->Archive_reply
                == mcp::text_view(#[trigger] json::json_pretty(v)) && v is Object
                && v->Object_0.len() == 3 && v.get("id"@) == Some(JsonView::Str(id))
                && v.get("status"@) == Some(JsonView::Str("aborted"@))
                && v.get("reason"@) == Some(JsonView::Str(args.str_or("reason"@, "aborted"@))),
{
    broadcast use json::lemma_member_push;

    lemma_words();
    let v = JsonView::Object(
        json::no_members().push(("id"@, JsonView::Str(id)))
        .push(("status"@, JsonView::Str("aborted"@)))
        .push(("reason"@, JsonView::Str(args.str_or("reason"@, "aborted"@)))));
    assert(abort_action(store, args, id, Some(bc), now, day)->Archive_reply
        == mcp::text_view(json::json_pretty(v)));
    assert(v.get("id"@) == Some(JsonView::Str(id)));
    assert(v.get("status"@) == Some(JsonView::Str("aborted"@)));
    assert(v.get("reason"@) == Some(JsonView::Str(args.str_or("reason"@, "aborted"@))));
}

/// An operation that is adopted belongs to the driver from then on and is as it was otherwise;
/// the call must name it.
pub proof fn law_operation_is_adopted(
    store: BreadcrumbsView,
    args: JsonView,
    id: Seq<char>,
    bc: BreadcrumbView,
    now: Seq<char>,
)
    ensures
        args.str_or("breadcrumb_id"@, ""@).len() == 0
            ==> adopt_action(store, args, Some(bc), now) == StoreView::Reply(
            mcp::error_view("breadcrumb_id is required"@),
        ),
        args.get("breadcrumb_id"@) == Some(JsonView::Str(id)) && id.len() > 0 ==> {
            &&& adopt_action(store, args, Some(bc), now) is Save
            &&& adopt_action(store, args, Some(bc), now)->path
                == paths::json_file(store.active_dir, bc.id)
            &&& adopt_action(store, args, Some(bc), now)->Save_failure == "failed to save: "@
            &&& adopt_action(store, args, Some(bc), now)->Save_breadcrumb == (BreadcrumbView {
                owner: "driver"@,
                last_activity_at: now,
                ..bc
            })
            &&& adopt_action(store, args, Some(bc), now)->Save_reply
                == mcp::text_view("breadcrumb '"@ + id + "' adopted by driver"@)
            &&& adopt_action(store, args, None, now) == StoreView::Reply(
                mcp::error_view("breadcrumb '"@ + id + "' not found"@),
            )
        },
{
}

/// A call on an operation that there is no record of is told so.
pub proof fn law_missing_operation_is_not_found(
    store: BreadcrumbsView,
    args: JsonView,
    id: Seq<char>,
    at: Seq<char>,
    now: Seq<char>,
    day: Seq<char>,
)
    ensures
        step_action(store, args, id, None, at, now) == StoreView::Reply(
            mcp::error_view("breadcrumb '"@ + id + "' not found"@),
        ),
        complete_action(store, args, id, None, day) == StoreView::Reply(
            mcp::error_view("breadcrumb '"@ + id + "' not found"@),
        ),
        abort_action(store, args, id, None, now, day) == StoreView::Reply(
            mcp::error_view("breadcrumb '"@ + id + "' not found"@),
        ),
{
}

/// A call that names an operation is about that one; one that names none is about the only active
/// one, and fails where there is none or more than one.
pub proof fn law_call_is_about_one_operation(
    id: Seq<char>,
    active: Seq<BreadcrumbView>,
)
    ensures
        resolved(Some(id), active) == Ok::<Seq<char>, Seq<char>>(id),
        active.len() == 1 ==> resolved(None, active) == Ok::<Seq<char>, Seq<char>>(active[0].id),
        active.len() == 0 ==> resolved(None, active) == Err::<Seq<char>, Seq<char>>(
            "no active breadcrumb"@,
        ),
        active.len() > 1 ==> resolved(None, active) == Err::<Seq<char>, Seq<char>>(
            "ambiguous: "@ + text::decimal(active.len())
                + " active breadcrumbs, provide breadcrumb_id"@,
        ),
{
}

/// Whether a value says of an operation what it is and how far it is.
pub open spec fn tells_status(v: JsonView, bc: BreadcrumbView) -> bool {
    &&& v is Object
    &&& v->Object_0.len() == 6
    &&& v.get("id"@) == Some(JsonView::Str(bc.id))
    &&& v.get("name"@) == Some(JsonView::Str(bc.name))
    &&& v.get("progress"@) == Some(JsonView::Str(
                        text::decimal(bc.current_step as nat) + "/"@ + text::decimal(
                            bc.total_steps as nat,
                        ),
                    ))
    &&& v.get("started_at"@) == Some(JsonView::Str(bc.started_at))
    &&& v.get("last_activity"@) == Some(JsonView::Str(bc.last_activity_at))
    &&& v.get("project_id"@) == Some((match bc.project_id {
                Some(s) => JsonView::Str(s),
                None => JsonView::Null,
            }))
}

/// Whether a value says of an operation what it is and what has become of it.
pub open spec fn tells_entry(v: JsonView, bc: BreadcrumbView, status: Seq<char>) -> bool {
    &&& v is Object
    &&& v->Object_0.len() == 4
    &&& v.get("id"@) == Some(JsonView::Str(bc.id))
    &&& v.get("name"@) == Some(JsonView::Str(bc.name))
    &&& v.get("status"@) == Some(JsonView::Str(status))
    &&& v.get("started_at"@) == Some(JsonView::Str(bc.started_at))
}

/// The answer on the active operations says of each of them, in their order, what it is and how
/// far it is, or that there are none.
pub proof fn law_every_active_operation_is_told_of(
    active: Seq<BreadcrumbView>,
)
    ensures
        active.len() == 0 ==> status_reply(active) == mcp::text_view("no active breadcrumbs"@),
        active.len() > 0 ==> exists|v: JsonView|
            status_reply(active) == mcp::text_view(#[trigger] json::json_pretty(v)) && v is Array
                && v->Array_0.len() == active.len() && forall|i: int|
                0 <= i < active.len() ==> tells_status(#[trigger] v->Array_0[i], active[i]),
{
    broadcast use json::lemma_member_push;

    lemma_words();
    if active.len() > 0 {
        let v = JsonView::Array(Seq::new(active.len(), |i: int| status_item(active[i])));
        assert(status_reply(active) == mcp::text_view(json::json_pretty(v)));
        assert forall|i: int| 0 <= i < active.len() implies tells_status(
            #[trigger] v->Array_0[i],
            active[i],
        ) by {
            lemma_status_item(active[i]);
        }
    }
}

proof fn lemma_status_item(bc: BreadcrumbView)
    ensures
        tells_status(status_item(bc), bc),
{
    broadcast use json::lemma_member_push;

    lemma_words();
}

proof fn lemma_list_item(bc: BreadcrumbView, status: Seq<char>)
    ensures
        tells_entry(list_item(bc, status), bc, status),
{
    broadcast use json::lemma_member_push;

    lemma_words();
}

/// A list of the operations of a day, of a week or of all times has the active ones first and
/// then the archived ones, each with what has become of it; a list of the active ones is the
/// answer on them, and no other list is known.
pub proof fn law_list_has_the_active_operations_first(
    args: JsonView,
    active: Seq<BreadcrumbView>,
    days: Seq<DayView>,
    today: Seq<char>,
    scope: Seq<char>,
)
    requires
        scope == args.str_or("scope"@, "active"@),
    ensures
        scope == "active"@ ==> list_reply(args, active, days, today) == status_reply(active),
        scope != "active"@ && scope != "today"@ && scope != "week"@
            && scope != "all"@ ==> list_reply(
            args,
            active,
            days,
            today,
        ) == mcp::error_view("unknown scope: "@ + scope),
        scope == "today"@ || scope == "week"@ || scope == "all"@ ==> exists|v: JsonView|
            list_reply(args, active, days, today) == mcp::text_view(#[trigger] json::json_pretty(v))
                && v is Array && v->Array_0.len() == active.len() + archived_items(
                days,
                scope,
                today,
            ).len() && v->Array_0.skip(active.len() as int) == archived_items(days, scope, today)
                && forall|i: int|
                0 <= i < active.len() ==> tells_entry(
                    #[trigger] v->Array_0[i],
                    active[i],
                    "active"@,
                ),
{
    lemma_words();
    if scope == "today"@ || scope == "week"@ || scope == "all"@ {
        let v = JsonView::Array(
            Seq::new(active.len(), |i: int| list_item(active[i], "active"@)) + archived_items(
                days,
                scope,
                today,
            ),
        );
        assert(list_reply(args, active, days, today) == mcp::text_view(json::json_pretty(v)));
        assert(v->Array_0.skip(active.len() as int) =~= archived_items(days, scope, today));
        assert forall|i: int| 0 <= i < active.len() implies tells_entry(
            #[trigger] v->Array_0[i],
            active[i],
            "active"@,
        ) by {
            lemma_list_item(active[i], "active"@);
        }
    }
}

/// The archived operations of all days are listed day by day, but for a list of today, which
/// takes in no other day; each is said to be aborted or completed, as it was.
pub proof fn law_archived_operations_are_listed_by_day(
    days: Seq<DayView>,
    day: DayView,
    scope: Seq<char>,
    today: Seq<char>,
    i: int,
)
    ensures
        archived_items(Seq::empty(), scope, today).len() == 0,
        scope == "today"@ && day.day != today ==> archived_items(days.push(day), scope, today)
            == archived_items(days, scope, today),
        scope != "today"@ || day.day == today ==> {
            let before = archived_items(days, scope, today);
            let after = archived_items(days.push(day), scope, today);
            &&& after.len() == before.len() + day.breadcrumbs.len()
            &&& after.take(before.len() as int) == before
            &&& 0 <= i < day.breadcrumbs.len() ==> tells_entry(
                after[before.len() + i],
                day.breadcrumbs[i],
                if day.breadcrumbs[i].aborted {
                    "aborted"@
                } else {
                    "completed"@
                },
            )
        },
{
    assert(days.push(day).drop_last() =~= days);
    let before = archived_items(days, scope, today);
    let after = archived_items(days.push(day), scope, today);
    if scope != "today"@ || day.day == today {
        assert(after.take(before.len() as int) =~= before);
        if 0 <= i < day.breadcrumbs.len() {
            let bc = day.breadcrumbs[i];
            lemma_list_item(
                bc,
                if bc.aborted {
                    "aborted"@
                } else {
                    "completed"@
                },
            );
        }
    }
}

} // verus!
