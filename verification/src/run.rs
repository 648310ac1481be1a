//! A run: what it takes from its request and what from the model it is for, the servers that are
//! started for it, and what is logged at its start and at its end.

use vstd::prelude::*;

use crate::agent;
use crate::agent::AgentResult;
use crate::config;
use crate::config::{DriverConfig, McpServerConfig, ModelConfig, RunRequest};
use crate::events::{entry, Entry, EntryView};
use crate::json;
use crate::json::{JsonView, Members};
use crate::text;

verus! {

/// The system prompt that holds where there is no other.
pub const DEFAULT_SYSTEM_PROMPT: &'static str =
    "You are an agent with access to tools. Use the tools to accomplish the user's task. Provide a clear final answer when done.";

/// The file that holds the system prompt where the request has none.
pub const SYSTEM_PROMPT_FILE: &'static str = "config/prompts/system.txt";

/// What a run is called.
pub open spec fn task_name_of(req: RunRequest) -> Seq<char> {
    match req.name {
        Some(name) => name@,
        None => "unnamed"@,
    }
}

/// What a run is called.
pub fn task_name(req: &RunRequest) -> (r: &str)
    ensures
        r@ == task_name_of(*req),
{
    match &req.name {
        Some(name) => name.as_str(),
        None => "unnamed",
    }
}

/// The servers that a run uses: those of the request, or those of the model.
pub open spec fn servers_of(req: RunRequest, model: ModelConfig) -> Seq<Seq<char>> {
    match req.mcp_servers {
        Some(servers) => text::texts(servers@),
        None => text::texts(model.mcp_servers@),
    }
}

/// The patterns that the tools of a run are filtered by: those of the request, or those of the
/// model.
pub open spec fn filter_of(req: RunRequest, model: ModelConfig) -> Seq<Seq<char>> {
    match req.tool_filter {
        Some(filter) => text::texts(filter@),
        None => text::texts(model.tool_filter@),
    }
}

/// The system prompt of a run: that of the request, or that of the file, or the one that holds
/// where there is no other.
pub open spec fn prompt_of(req: RunRequest, file: Option<Seq<char>>) -> Seq<char> {
    match req.system_prompt {
        Some(prompt) => prompt@,
        None => match file {
            Some(prompt) => prompt,
            None => DEFAULT_SYSTEM_PROMPT@,
        },
    }
}

/// The system prompt of a run. `file` is what the file holds, if it can be read.
pub fn system_prompt(req: &RunRequest, file: &Option<String>) -> (r: String)
    ensures
        r@ == prompt_of(*req, text::opt_text(*file)),
{
    match &req.system_prompt {
        Some(prompt) => text::copy(prompt.as_str()),
        None => load_default_system_prompt(file),
    }
}

/// The system prompt where the request has none. `file` is what the file holds, if it can be
/// read.
pub fn load_default_system_prompt(file: &Option<String>) -> (r: String)
    ensures
        r@ == (match *file {
            Some(prompt) => prompt@,
            None => DEFAULT_SYSTEM_PROMPT@,
        }),
{
    match file {
        Some(prompt) => text::copy(prompt.as_str()),
        None => text::copy(DEFAULT_SYSTEM_PROMPT),
    }
}

/// The log entry at the start of a run.
pub open spec fn start_entry(run_id: Seq<char>, req: RunRequest, model: ModelConfig) -> EntryView {
    EntryView {
        kind: "run_start"@,
        data: JsonView::Object(
            json::no_members().push(("run_id"@, JsonView::Str(run_id))).push(
                ("name"@, JsonView::Str(task_name_of(req))),
            ).push(("model"@, JsonView::Str(model.name@))).push(
                ("base_url"@, JsonView::Str(model.base_url@)),
            ).push(("user_prompt"@, JsonView::Str(req.user_prompt@))).push(
                ("mcp_servers"@, json::str_array_view(servers_of(req, model))),
            ).push(("max_iterations"@, JsonView::Uint(req.max_iterations as u64))),
        ),
    }
}

/// The log entry at the end of a run that came to a result.
pub open spec fn end_entry(result: AgentResult) -> EntryView {
    EntryView {
        kind: "run_end"@,
        data: JsonView::Object(
            json::no_members().push(("ok"@, JsonView::Bool(true))).push(
                ("duration_ms"@, JsonView::Uint(result.duration_ms)),
            ).push(("total_tokens"@, JsonView::Uint(result.total_usage.total_tokens))).push(
                ("iterations"@, JsonView::Uint(result.iterations as u64)),
            ),
        ),
    }
}

/// The log entry at the end of a run that failed.
pub open spec fn failure_entry(error: Seq<char>) -> EntryView {
    EntryView {
        kind: "run_end"@,
        data: JsonView::Object(
            json::no_members().push(("ok"@, JsonView::Bool(false))).push(
                ("error"@, JsonView::Str(error)),
            ),
        ),
    }
}

/// What is logged at the end of a run.
pub open spec fn ended_entry(outcome: Result<AgentResult, String>) -> EntryView {
    match outcome {
        Ok(result) => end_entry(result),
        Err(e) => failure_entry(e@),
    }
}

/// What is logged at the end of a run.
pub fn run_ended(outcome: &Result<AgentResult, String>) -> (r: Entry)
    ensures
        r@ == ended_entry(*outcome),
{
    match outcome {
        Ok(result) => entry(
            "run_end",
            Members::new().with("ok", json::Json::Bool(true)).with(
                "duration_ms",
                json::Json::Uint(result.duration_ms),
            ).with("total_tokens", json::Json::Uint(result.total_usage.total_tokens)).with(
                "iterations",
                json::Json::Uint(result.iterations as u64),
            ).object(),
        ),
        Err(e) => entry(
            "run_end",
            Members::new().with("ok", json::Json::Bool(false)).with(
                "error",
                json::string(e.as_str()),
            ).object(),
        ),
    }
}

/// The log entry on an error that ended a run.
pub fn run_error(error: &str) -> (r: Entry)
    ensures
        r@ == (EntryView {
            kind: "error"@,
            data: JsonView::Object(json::no_members().push(("error"@, JsonView::Str(error@)))),
        }),
{
    entry("error", Members::new().with("error", json::string(error)).object())
}

/// How far a run has come.
#[derive(Debug, Clone, Copy, PartialEq, Eq, Structural)]
pub enum Phase {
    /// It has not begun.
    Fresh,
    /// Its start is logged, and its servers are started.
    Starting,
    /// The model and its tools are at work.
    Chatting,
    /// Its end is logged.
    Ending,
    /// Nothing more is done.
    Over,
}

/// What came of the last step of a run.
#[derive(Debug, PartialEq, Eq)]
pub enum RunEvent {
    /// It was done; at the beginning: the run may begin.
    Done,
    /// It failed, for this reason.
    Failed(String),
    /// The work of the model and its tools came to this.
    ChatEnded(Result<AgentResult, String>),
}

/// The next step of a run.
#[derive(Debug)]
pub enum RunStep<'a> {
    /// This is logged.
    Log(Entry),
    /// A server is started and asked for its tools.
    Start(&'a McpServerConfig),
    /// The model and its tools are set to work, and what they do is logged.
    Chat,
    /// The servers are ended, and this is what the run came to.
    Finish(Result<AgentResult, String>),
    /// The run fails for this reason, and nothing more is done.
    Fail(String),
}

/// The next step of a run, over texts.
pub enum RunStepView {
    Log(EntryView),
    Start(McpServerConfig),
    Chat,
    Finish(Result<AgentResult, String>),
    Fail(Seq<char>),
}

impl<'a> RunStep<'a> {
    pub open spec fn view(&self) -> RunStepView {
        match *self {
            RunStep::Log(e) => RunStepView::Log(e@),
            RunStep::Start(s) => RunStepView::Start(*s),
            RunStep::Chat => RunStepView::Chat,
            RunStep::Finish(outcome) => RunStepView::Finish(outcome),
            RunStep::Fail(e) => RunStepView::Fail(e@),
        }
    }
}

/// What a run is made of, and how far it has come.
pub struct RunPlan<'a> {
    pub config: &'a DriverConfig,
    pub req: &'a RunRequest,
    pub run_id: &'a str,
    pub model: &'a ModelConfig,
    pub servers: &'a Vec<String>,
    pub filter: &'a Vec<String>,
    pub started: usize,
    pub phase: Phase,
    pub outcome: Option<Result<AgentResult, String>>,
}

/// What a run is made of and how far it has come, over texts. So many servers as `started` says
/// were started or are being started.
pub struct RunView {
    pub config: DriverConfig,
    pub req: RunRequest,
    pub run_id: Seq<char>,
    pub model: ModelConfig,
    pub started: nat,
    pub phase: Phase,
    pub outcome: Option<Result<AgentResult, String>>,
}

/// Where the model of a request stands among the models.
pub open spec fn model_at(config: DriverConfig, req: RunRequest) -> nat {
    config::name_at(config.model_names(), req.model@)
}

/// What is to be done about a server.
pub open spec fn server_step(config: DriverConfig, server: Seq<char>) -> Result<
    McpServerConfig,
    Seq<char>,
> {
    let at = config::name_at(config.server_names(), server);
    if at < config.mcp_servers@.len() {
        Ok(config.mcp_servers@[at as int])
    } else {
        Err("mcp_server '"@ + server + "' not found in config"@)
    }
}

impl RunView {
    /// The names of the servers of the run.
    pub open spec fn servers(self) -> Seq<Seq<char>> {
        servers_of(self.req, self.model)
    }

    /// Whether something is what may come of the last step.
    pub open spec fn expects(self, event: RunEvent) -> bool {
        match self.phase {
            Phase::Fresh => event is Done,
            Phase::Starting => event is Done || event is Failed,
            Phase::Chatting => event is ChatEnded,
            Phase::Ending => (event is Done || event is Failed) && self.outcome is Some,
            Phase::Over => false,
        }
    }

    /// The run after the last step, and its next step.
    pub open spec fn next(self, event: RunEvent) -> (RunView, RunStepView) {
        let over = RunView { phase: Phase::Over, ..self };
        match event {
            RunEvent::Failed(e) => (RunView { outcome: None, ..over }, RunStepView::Fail(e@)),
            RunEvent::ChatEnded(outcome) => (
                RunView { phase: Phase::Ending, outcome: Some(outcome), ..self },
                RunStepView::Log(ended_entry(outcome)),
            ),
            RunEvent::Done => if self.phase == Phase::Fresh {
                (
                    RunView { phase: Phase::Starting, ..self },
                    RunStepView::Log(start_entry(self.run_id, self.req, self.model)),
                )
            } else if self.phase == Phase::Ending {
                (RunView { outcome: None, ..over }, RunStepView::Finish(self.outcome->0))
            } else if self.started < self.servers().len() {
                let begun = RunView { started: self.started + 1, ..self };
                match server_step(self.config, self.servers()[self.started as int]) {
                    Ok(server) => (begun, RunStepView::Start(server)),
                    Err(e) => (RunView { phase: Phase::Over, ..begun }, RunStepView::Fail(e)),
                }
            } else {
                (RunView { phase: Phase::Chatting, ..self }, RunStepView::Chat)
            },
        }
    }
}

impl<'a> RunPlan<'a> {
    pub open spec fn view(&self) -> RunView {
        RunView {
            config: *self.config,
            req: *self.req,
            run_id: self.run_id@,
            model: *self.model,
            started: self.started as nat,
            phase: self.phase,
            outcome: self.outcome,
        }
    }

    /// Whether the servers and the filter are those of the request or of the model.
    pub open spec fn wf(&self) -> bool {
        &&& text::texts(self.servers@) == servers_of(*self.req, *self.model)
        &&& text::texts(self.filter@) == filter_of(*self.req, *self.model)
    }

    /// What a run is made of. There is no run for a model that is not configured.
    pub fn new(config: &'a DriverConfig, req: &'a RunRequest, run_id: &'a str) -> (r: Result<
        RunPlan<'a>,
        String,
    >)
        ensures
            match r {
                Ok(plan) => {
                    &&& model_at(*config, *req) < config.models@.len()
                    &&& plan@ == (RunView {
                        config: *config,
                        req: *req,
                        run_id: run_id@,
                        model: config.models@[model_at(*config, *req) as int],
                        started: 0,
                        phase: Phase::Fresh,
                        outcome: None,
                    })
                    &&& plan.wf()
                },
                Err(e) => {
                    &&& model_at(*config, *req) == config.models@.len()
                    &&& e@ == "model '"@ + req.model@ + "' not found in config"@
                },
            },
    {
        match config.find_model(req.model.as_str()) {
            Err(e) => Err(e),
            Ok(model) => {
                let servers = match &req.mcp_servers {
                    Some(servers) => servers,
                    None => &model.mcp_servers,
                };
                let filter = match &req.tool_filter {
                    Some(filter) => filter,
                    None => &model.tool_filter,
                };
                Ok(
                    RunPlan {
                        config,
                        req,
                        run_id,
                        model,
                        servers,
                        filter,
                        started: 0,
                        phase: Phase::Fresh,
                        outcome: None,
                    },
                )
            },
        }
    }

    /// What is logged at the start.
    fn run_started(&self) -> (r: Entry)
        requires
            self.wf(),
        ensures
            r@ == start_entry(self@.run_id, self@.req, self@.model),
    {
        entry(
            "run_start",
            Members::new().with("run_id", json::string(self.run_id)).with(
                "name",
                json::string(task_name(self.req)),
            ).with("model", json::string(self.model.name.as_str())).with(
                "base_url",
                json::string(self.model.base_url.as_str()),
            ).with("user_prompt", json::string(self.req.user_prompt.as_str())).with(
                "mcp_servers",
                json::string_array(self.servers),
            ).with("max_iterations", json::Json::Uint(self.req.max_iterations as u64)).object(),
        )
    }

    /// Takes in what came of the last step and says what the next one is.
    pub fn advance(&mut self, event: RunEvent) -> (r: RunStep<'a>)
        requires
            old(self).wf(),
            old(self)@.expects(event),
        ensures
            final(self).wf(),
            (final(self)@, r@) == old(self)@.next(event),
    {
        match event {
            RunEvent::Failed(e) => {
                self.phase = Phase::Over;
                self.outcome = None;
                RunStep::Fail(e)
            },
            RunEvent::ChatEnded(outcome) => {
                self.phase = Phase::Ending;
                let ended = run_ended(&outcome);
                self.outcome = Some(outcome);
                RunStep::Log(ended)
            },
            RunEvent::Done => match self.phase {
                Phase::Fresh => {
                    self.phase = Phase::Starting;
                    RunStep::Log(self.run_started())
                },
                Phase::Ending => {
                    self.phase = Phase::Over;
                    match self.outcome.take() {
                        Some(outcome) => RunStep::Finish(outcome),
                        None => RunStep::Fail(text::copy("")),
                    }
                },
                _ => {
                    if self.started >= self.servers.len() {
                        self.phase = Phase::Chatting;
                        return RunStep::Chat;
                    }
                    proof {
                        assert(self@.servers()[self.started as int]
                            == self.servers@[self.started as int]@);
                    }
                    let name = self.servers[self.started].as_str();
                    self.started = self.started + 1;
                    match self.config.find_server(name) {
                        Ok(server) => RunStep::Start(server),
                        Err(e) => {
                            self.phase = Phase::Over;
                            RunStep::Fail(e)
                        },
                    }
                },
            },
        }
    }
}

/// Whether each event is what may come of the step before it.
pub open spec fn accepted(run: RunView, events: Seq<RunEvent>) -> bool
    decreases events.len(),
{
    events.len() > 0 ==> run.expects(events[0]) && accepted(
        run.next(events[0]).0,
        events.drop_first(),
    )
}

/// The steps of a run in which these events come, in order.
pub open spec fn course(run: RunView, events: Seq<RunEvent>) -> Seq<RunStepView>
    decreases events.len(),
{
    if events.len() == 0 {
        Seq::empty()
    } else {
        seq![run.next(events[0]).1] + course(run.next(events[0]).0, events.drop_first())
    }
}

/// The run after all of `events`.
pub open spec fn after(run: RunView, events: Seq<RunEvent>) -> RunView
    decreases events.len(),
{
    if events.len() == 0 {
        run
    } else {
        after(run.next(events[0]).0, events.drop_first())
    }
}

/// Whether a step logs something, other than the work of the model and its tools.
pub open spec fn logs(step: RunStepView) -> bool {
    step is Log
}

proof fn lemma_course(run: RunView, events: Seq<RunEvent>)
    requires
        accepted(run, events),
        run.phase != Phase::Fresh,
    ensures
        course(run, events).len() == events.len(),
        run.phase == Phase::Over ==> events.len() == 0,
        run.phase == Phase::Ending ==> events.len() <= 1 && (events.len() == 1 ==> {
            &&& !logs(course(run, events)[0])
            &&& course(run, events)[0] matches RunStepView::Finish(o) ==> run.outcome == Some(o)
        }),
        run.phase == Phase::Starting || run.phase == Phase::Chatting ==> {
            &&& forall|i: int|
                0 <= i < events.len() && logs(#[trigger] course(run, events)[i]) ==> {
                    &&& events[i] is ChatEnded
                    &&& course(run, events)[i] == RunStepView::Log(
                        ended_entry(events[i]->ChatEnded_0),
                    )
                    &&& i + 2 >= events.len()
                    &&& forall|j: int|
                        i < j < events.len() ==> !logs(#[trigger] course(run, events)[j])
                }
            &&& events.len() > 0 && course(run, events).last() is Finish ==> events.len() >= 2
                && course(run, events)[events.len() - 2] == RunStepView::Log(
                ended_entry(course(run, events).last()->Finish_0),
            )
        },
    decreases events.len(),
{
    if events.len() > 0 {
        let (then, step) = run.next(events[0]);
        let rest = events.drop_first();
        lemma_course(then, rest);
        let steps = course(run, events);
        let later = course(then, rest);
        assert(steps[0] == step);
        assert forall|i: int| 0 < i < events.len() implies #[trigger] steps[i] == later[i - 1] by {}
        assert forall|i: int| 0 < i < events.len() implies #[trigger] events[i] == rest[i - 1] by {}
        if rest.len() > 0 {
            assert(steps.last() == later.last());
        }
        if run.phase == Phase::Starting || run.phase == Phase::Chatting {
            assert forall|i: int| 0 <= i < events.len() && logs(#[trigger] steps[i]) implies {
                &&& events[i] is ChatEnded
                &&& steps[i] == RunStepView::Log(ended_entry(events[i]->ChatEnded_0))
                &&& i + 2 >= events.len()
                &&& forall|j: int| i < j < events.len() ==> !logs(#[trigger] steps[j])
            } by {
                if i > 0 {
                    assert(steps[i] == later[i - 1]);
                    assert forall|j: int| i < j < events.len() implies !logs(
                        #[trigger] steps[j],
                    ) by {
                        assert(steps[j] == later[j - 1]);
                    }
                } else {
                    assert forall|j: int| i < j < events.len() implies !logs(
                        #[trigger] steps[j],
                    ) by {
                        assert(steps[j] == later[j - 1]);
                    }
                }
            }
            if steps.last() is Finish && rest.len() >= 2 {
                assert(steps[events.len() - 2] == later[rest.len() - 2]);
            }
        }
    }
}

/// Whatever comes of its steps, a run logs its start first and never again, and its end at most
/// once, when the work of the model and its tools is over and with what it came to. A run that is
/// finished has logged its end last, with what it came to.
pub proof fn law_start_comes_first_and_end_last(run: RunView, events: Seq<RunEvent>)
    requires
        run.phase == Phase::Fresh,
        accepted(run, events),
        events.len() > 0,
    ensures
        ({
            let steps = course(run, events);
            &&& steps.len() == events.len()
            &&& steps[0] == RunStepView::Log(start_entry(run.run_id, run.req, run.model))
            &&& forall|i: int|
                0 < i < events.len() && logs(#[trigger] steps[i]) ==> {
                    &&& events[i] is ChatEnded
                    &&& steps[i] == RunStepView::Log(ended_entry(events[i]->ChatEnded_0))
                    &&& forall|j: int| i < j < events.len() ==> !logs(#[trigger] steps[j])
                }
            &&& steps.last() is Finish ==> events.len() >= 3 && steps[events.len() - 2]
                == RunStepView::Log(ended_entry(steps.last()->Finish_0))
        }),
{
    let (then, step) = run.next(events[0]);
    let rest = events.drop_first();
    lemma_course(then, rest);
    let steps = course(run, events);
    let later = course(then, rest);
    assert(steps[0] == step);
    assert forall|i: int| 0 < i < events.len() && logs(#[trigger] steps[i]) implies {
        &&& events[i] is ChatEnded
        &&& steps[i] == RunStepView::Log(ended_entry(events[i]->ChatEnded_0))
        &&& forall|j: int| i < j < events.len() ==> !logs(#[trigger] steps[j])
    } by {
        assert(steps[i] == later[i - 1]);
        assert(events[i] == rest[i - 1]);
        assert forall|j: int| i < j < events.len() implies !logs(#[trigger] steps[j]) by {
            assert(steps[j] == later[j - 1]);
        }
    }
    if rest.len() > 0 {
        assert(steps.last() == later.last());
        if steps.last() is Finish {
            assert(steps[events.len() - 2] == later[rest.len() - 2]);
        }
    }
}

/// What is logged in a run: by its own steps, and by the model and its tools at their work.
pub open spec fn log_of(steps: Seq<RunStepView>, chat: Seq<EntryView>) -> Seq<EntryView>
    decreases steps.len(),
{
    if steps.len() == 0 {
        Seq::empty()
    } else {
        log_of(steps.drop_last(), chat) + (match steps.last() {
            RunStepView::Log(e) => seq![e],
            RunStepView::Chat => chat,
            _ => Seq::empty(),
        })
    }
}

/// Whether all servers of a run are configured.
pub open spec fn all_configured(run: RunView) -> bool {
    forall|i: int|
        0 <= i < run.servers().len() ==> server_step(
            run.config,
            #[trigger] run.servers()[i],
        ) is Ok
}

/// What comes of the steps of a run in which nothing fails until the model and its tools come to
/// `outcome`.
pub open spec fn smooth(run: RunView, outcome: Result<AgentResult, String>) -> Seq<RunEvent> {
    Seq::new(run.servers().len() + 2, |i: int| RunEvent::Done).push(
        RunEvent::ChatEnded(outcome),
    ).push(RunEvent::Done)
}

proof fn lemma_course_push(run: RunView, events: Seq<RunEvent>, event: RunEvent)
    requires
        accepted(run, events),
    ensures
        after(run, events).expects(event) ==> accepted(run, events.push(event)),
        course(run, events.push(event)) == course(run, events).push(
            after(run, events).next(event).1,
        ),
        after(run, events.push(event)) == after(run, events).next(event).0,
    decreases events.len(),
{
    let all = events.push(event);
    if events.len() == 0 {
        assert(all.drop_first() =~= Seq::empty());
        let then = run.next(event).0;
        assert(course(then, all.drop_first()) =~= Seq::empty());
        assert(after(then, all.drop_first()) == then);
        assert(accepted(then, all.drop_first()));
        assert(course(run, all) =~= course(run, events).push(after(run, events).next(event).1));
    } else {
        assert(all.drop_first() =~= events.drop_first().push(event));
        let then = run.next(events[0]).0;
        lemma_course_push(then, events.drop_first(), event);
        assert(course(run, all) =~= course(run, events).push(after(run, events).next(event).1));
    }
}

proof fn lemma_log_push(steps: Seq<RunStepView>, step: RunStepView, chat: Seq<EntryView>)
    ensures
        log_of(steps.push(step), chat) == log_of(steps, chat) + (match step {
            RunStepView::Log(e) => seq![e],
            RunStepView::Chat => chat,
            _ => Seq::empty(),
        }),
{
    assert(steps.push(step).drop_last() =~= steps);
}

proof fn lemma_smooth_start(run: RunView, n: nat, chat: Seq<EntryView>)
    requires
        run.phase == Phase::Fresh,
        run.started == 0,
        all_configured(run),
        1 <= n <= run.servers().len() + 1,
    ensures
        ({
            let events = Seq::new(n, |i: int| RunEvent::Done);
            &&& accepted(run, events)
            &&& after(run, events) == (RunView {
                phase: Phase::Starting,
                started: (n - 1) as nat,
                ..run
            })
            &&& log_of(course(run, events), chat) == seq![
                start_entry(run.run_id, run.req, run.model),
            ]
        }),
    decreases n,
{
    let events = Seq::new(n, |i: int| RunEvent::Done);
    let front = Seq::new((n - 1) as nat, |i: int| RunEvent::Done);
    assert(events =~= front.push(RunEvent::Done));
    if n > 1 {
        lemma_smooth_start(run, (n - 1) as nat, chat);
    } else {
        assert(front =~= Seq::empty());
        assert(accepted(run, front));
        assert(course(run, front) =~= Seq::empty());
        assert(log_of(course(run, front), chat) =~= Seq::empty());
    }
    lemma_course_push(run, front, RunEvent::Done);
    lemma_log_push(course(run, front), after(run, front).next(RunEvent::Done).1, chat);
    assert(log_of(course(run, events), chat) =~= seq![
        start_entry(run.run_id, run.req, run.model),
    ]);
}

/// Where nothing fails, a run logs its start, then what the model and its tools do, then its end,
/// and comes to what these came to. Neither kind of entry is logged by them, so each stands in
/// the log once: the start first and the end last.
pub proof fn law_log_has_one_start_and_one_end(
    run: RunView,
    outcome: Result<AgentResult, String>,
    chat: Seq<EntryView>,
)
    requires
        run.phase == Phase::Fresh,
        run.started == 0,
        all_configured(run),
        forall|i: int| 0 <= i < chat.len() ==> agent::is_chat_kind((#[trigger] chat[i]).kind),
    ensures
        accepted(run, smooth(run, outcome)),
        course(run, smooth(run, outcome)).last() == RunStepView::Finish(outcome),
        log_of(course(run, smooth(run, outcome)), chat) == seq![
            start_entry(run.run_id, run.req, run.model),
        ] + chat + seq![ended_entry(outcome)],
        ({
            let log = log_of(course(run, smooth(run, outcome)), chat);
            forall|i: int|
                0 <= i < log.len() ==> {
                    &&& (#[trigger] log[i]).kind == "run_start"@ <==> i == 0
                    &&& log[i].kind == "run_end"@ <==> i == log.len() - 1
                }
        }),
{
    let n = run.servers().len();
    let started = Seq::new(n + 1, |i: int| RunEvent::Done);
    lemma_smooth_start(run, n + 1, chat);
    let s1 = started.push(RunEvent::Done);
    lemma_course_push(run, started, RunEvent::Done);
    lemma_log_push(course(run, started), RunStepView::Chat, chat);
    let s2 = s1.push(RunEvent::ChatEnded(outcome));
    lemma_course_push(run, s1, RunEvent::ChatEnded(outcome));
    lemma_log_push(course(run, s1), RunStepView::Log(ended_entry(outcome)), chat);
    let s3 = s2.push(RunEvent::Done);
    lemma_course_push(run, s2, RunEvent::Done);
    lemma_log_push(course(run, s2), RunStepView::Finish(outcome), chat);
    assert(s3 =~= smooth(run, outcome));
    let log = log_of(course(run, s3), chat);
    let first = start_entry(run.run_id, run.req, run.model);
    assert(log =~= seq![first] + chat + seq![ended_entry(outcome)]);
    assert("run_start"@ != "run_end"@) by {
        reveal_strlit("run_start");
        reveal_strlit("run_end");
        assert("run_start"@.len() == 9 && "run_end"@.len() == 7);
    }
    assert forall|i: int| 0 <= i < log.len() implies {
        &&& (#[trigger] log[i]).kind == "run_start"@ <==> i == 0
        &&& log[i].kind == "run_end"@ <==> i == log.len() - 1
    } by {
        if 0 < i < log.len() - 1 {
            assert(log[i] == chat[i - 1]);
            agent::lemma_chat_kinds_are_others(log[i].kind);
        }
    }
}

/// What is said where a server does not answer at the start.
pub fn handshake_failure(server: &str) -> (r: String)
    ensures
        r@ == "MCP initialize handshake with '"@ + server@ + "'"@,
{
    text::cat3("MCP initialize handshake with '", server, "'")
}

/// What is said where a server does not list its tools.
pub fn listing_failure(server: &str) -> (r: String)
    ensures
        r@ == "tools/list from '"@ + server@ + "'"@,
{
    text::cat3("tools/list from '", server, "'")
}

/// What is said where a server cannot be started.
pub fn spawn_failure(command: &str) -> (r: String)
    ensures
        r@ == "spawning MCP server: "@ + command@,
{
    text::cat2("spawning MCP server: ", command)
}

proof fn lemma_words()
    ensures
        text::shape("run_id"@) == 105095100095114006,
        text::shape("name"@) == 101109101109110004,
        text::shape("model"@) == 101100108100109005,
        text::shape("base_url"@) == 114095108095098008,
        text::shape("user_prompt"@) == 109112116114117011,
        text::shape("mcp_servers"@) == 101101115114109011,
        text::shape("max_iterations"@) == 105114115097109014,
        text::shape("ok"@) == 107107107107111002,
        text::shape("duration_ms"@) == 95105115111100011,
        text::shape("total_tokens"@) == 101116115116116012,
        text::shape("iterations"@) == 111116115116105010,
        text::shape("error"@) == 111114114114101005,
{
    reveal_strlit("run_id");
    assert(text::shape("run_id"@) == 105095100095114006);
    reveal_strlit("name");
    assert(text::shape("name"@) == 101109101109110004);
    reveal_strlit("model");
    assert(text::shape("model"@) == 101100108100109005);
    reveal_strlit("base_url");
    assert(text::shape("base_url"@) == 114095108095098008);
    reveal_strlit("user_prompt");
    assert(text::shape("user_prompt"@) == 109112116114117011);
    reveal_strlit("mcp_servers");
    assert(text::shape("mcp_servers"@) == 101101115114109011);
    reveal_strlit("max_iterations");
    assert(text::shape("max_iterations"@) == 105114115097109014);
    reveal_strlit("ok");
    assert(text::shape("ok"@) == 107107107107111002);
    reveal_strlit("duration_ms");
    assert(text::shape("duration_ms"@) == 95105115111100011);
    reveal_strlit("total_tokens");
    assert(text::shape("total_tokens"@) == 101116115116116012);
    reveal_strlit("iterations");
    assert(text::shape("iterations"@) == 111116115116105010);
    reveal_strlit("error");
    assert(text::shape("error"@) == 111114114114101005);
}

/// What a request gives goes before what the model's configuration gives: its name, its servers,
/// its filter and its system prompt, for which a file goes before the prompt that is built in.
pub proof fn law_request_goes_before_configuration(
    req: RunRequest,
    model: ModelConfig,
    file: Seq<char>,
)
    ensures
        req.name matches Some(name) ==> task_name_of(req) == name@,
        req.name is None ==> task_name_of(req) == "unnamed"@,
        req.mcp_servers matches Some(s) ==> servers_of(req, model) == text::texts(s@),
        req.mcp_servers is None ==> servers_of(req, model) == text::texts(model.mcp_servers@),
        req.tool_filter matches Some(f) ==> filter_of(req, model) == text::texts(f@),
        req.tool_filter is None ==> filter_of(req, model) == text::texts(model.tool_filter@),
        req.system_prompt matches Some(p) ==> prompt_of(req, Some(file)) == p@
            && prompt_of(req, None)
            == p@,
        req.system_prompt is None ==> prompt_of(req, Some(file)) == file && prompt_of(req, None)
            == DEFAULT_SYSTEM_PROMPT@,
{
}

/// The first entry of a run's log says which run it is, what it is for, by which model and with
/// which servers and how often the model may answer.
pub proof fn law_start_says_what_the_run_is(
    run_id: Seq<char>,
    req: RunRequest,
    model: ModelConfig,
)
    ensures
        start_entry(run_id, req, model).kind == "run_start"@,
        start_entry(run_id, req, model).data is Object,
        start_entry(run_id, req, model).data->Object_0.len() == 7,
        start_entry(run_id, req, model).data.get("run_id"@) == Some(JsonView::Str(run_id)),
        start_entry(run_id, req, model).data.get("model"@) == Some(JsonView::Str(model.name@)),
        start_entry(run_id, req, model).data.get("base_url"@)
            == Some(JsonView::Str(model.base_url@)),
        start_entry(run_id, req, model).data.get("user_prompt"@)
            == Some(JsonView::Str(req.user_prompt@)),
        start_entry(run_id, req, model).data.get("max_iterations"@)
            == Some(JsonView::Uint(req.max_iterations as u64)),
        req.name matches Some(name) ==> start_entry(run_id, req, model).data.get("name"@) == Some(
            JsonView::Str(name@),
        ),
        req.name is None
            ==> start_entry(run_id, req, model).data.get("name"@)
            == Some(JsonView::Str("unnamed"@)),
        ({
            let servers = servers_of(req, model);
            start_entry(run_id, req, model).data.get("mcp_servers"@) == Some(
                JsonView::Array(Seq::new(servers.len(), |i: int| JsonView::Str(servers[i]))),
            )
        }),
{
    broadcast use json::lemma_member_push;

    lemma_words();
    let servers = servers_of(req, model);
    assert(json::str_array_view(servers)->Array_0 =~= Seq::new(
        servers.len(),
        |i: int| JsonView::Str(servers[i]),
    ));
}

/// The last entry of a run's log says that it went well, how long it took, how many tokens it
/// used and how often the model answered; or that it did not, and why.
pub proof fn law_end_says_what_the_run_came_to(
    result: AgentResult,
    reason: String,
)
    ensures
        ended_entry(Ok(result)).kind == "run_end"@,
        ended_entry(Err(reason)).kind == "run_end"@,
        ended_entry(Ok(result)).data is Object,
        ended_entry(Ok(result)).data->Object_0.len() == 4,
        ended_entry(Ok(result)).data.get("ok"@) == Some(JsonView::Bool(true)),
        ended_entry(Ok(result)).data.get("duration_ms"@)
            == Some(JsonView::Uint(result.duration_ms)),
        ended_entry(Ok(result)).data.get("total_tokens"@)
            == Some(JsonView::Uint(result.total_usage.total_tokens)),
        ended_entry(Ok(result)).data.get("iterations"@)
            == Some(JsonView::Uint(result.iterations as u64)),
        ended_entry(Err(reason)).data is Object,
        ended_entry(Err(reason)).data->Object_0.len() == 2,
        ended_entry(Err(reason)).data.get("ok"@) == Some(JsonView::Bool(false)),
        ended_entry(Err(reason)).data.get("error"@) == Some(JsonView::Str(reason@)),
{
    broadcast use json::lemma_member_push;

    lemma_words();
}

/// The servers of a run are started one after the other, each by the first configuration of its
/// name; a name that is not configured ends the run with words that say so. Once all are started
/// the model is set to work, and a failure on the way ends the run.
pub proof fn law_servers_are_started_in_turn(
    run: RunView,
    at: int,
    reason: String,
)
    requires
        run.phase == Phase::Starting,
    ensures
        run.started < run.servers().len() && 0 <= at < run.config.mcp_servers@.len()
            && run.config.mcp_servers@[at].name@ == run.servers()[run.started as int]
                && (forall|j: int|
            0 <= j < at ==> (#[trigger] run.config.mcp_servers@[j]).name@
                != run.servers()[run.started as int]) ==> run.next(RunEvent::Done) == (
            RunView { started: run.started + 1, ..run },
            RunStepView::Start(run.config.mcp_servers@[at]),
        ),
        run.started < run.servers().len() && (forall|j: int|
            0 <= j < run.config.mcp_servers@.len() ==> (#[trigger] run.config.mcp_servers@[j]).name@
                != run.servers()[run.started as int]) ==> run.next(RunEvent::Done).1
            == RunStepView::Fail(
            "mcp_server '"@ + run.servers()[run.started as int] + "' not found in config"@,
        ) && run.next(RunEvent::Done).0.phase == Phase::Over,
        run.started >= run.servers().len() ==> run.next(RunEvent::Done) == (
            RunView { phase: Phase::Chatting, ..run },
            RunStepView::Chat,
        ),
        run.next(RunEvent::Failed(reason)).1 == RunStepView::Fail(reason@),
        run.next(RunEvent::Failed(reason)).0.phase == Phase::Over,
{
    if run.started < run.servers().len() {
        let name = run.servers()[run.started as int];
        let names = run.config.server_names();
        if 0 <= at < run.config.mcp_servers@.len() && run.config.mcp_servers@[at].name@ == name && (
        forall|j: int|
            0 <= j < at ==> (#[trigger] run.config.mcp_servers@[j]).name@ != name) {
            assert forall|j: int| 0 <= j < at implies names[j] != name by {
                assert(run.config.mcp_servers@[j].name@ != name);
            }
            config::lemma_name_at(names, name, at);
        }
        if forall|j: int|
            0 <= j < run.config.mcp_servers@.len() ==> (#[trigger] run.config.mcp_servers@[j]).name@
                != name {
            assert forall|j: int| 0 <= j < names.len() implies names[j] != name by {
                assert(run.config.mcp_servers@[j].name@ != name);
            }
            config::lemma_name_at(names, name, names.len() as int);
        }
    }
}

/// The model of a run is the first of the configuration that has the name that the request gives.
pub proof fn law_model_is_the_first_of_its_name(
    config: DriverConfig,
    req: RunRequest,
)
    ensures
        model_at(config, req) <= config.models@.len(),
        model_at(config, req) < config.models@.len() ==> config.models@[model_at(
            config,
            req,
        ) as int].name@ == req.model@,
        forall|i: int|
            0 <= i < model_at(config, req) ==> (#[trigger] config.models@[i]).name@ != req.model@,
{
    let names = config.model_names();
    config::law_first_of_a_name_is_found(names, req.model@);
    assert forall|i: int| 0 <= i < model_at(config, req)
        implies (#[trigger] config.models@[i]).name@
        != req.model@ by {
        assert(names[i] == config.models@[i].name@);
    }
}

} // verus!
