//! Shell sessions: a shell that stays open between calls, with what was run in it.

use vstd::prelude::*;

use crate::actions;
use crate::actions::{refuse, ActionView, ToolAction};
use crate::clock;
use crate::driver_tools::{DriverTools, DriverToolsView};
use crate::json;
use crate::json::{Json, JsonView, Members};
use crate::mcp;
use crate::mcp::{error_result, text_result, ResultView, ToolCallResult};
use crate::policy;
use crate::text;
use crate::unicode;

verus! {

/// A shell session.
#[derive(Debug, Clone, PartialEq, Eq)]
pub struct Session {
    pub name: String,
    /// The commands that were run, each with its output, the oldest first.
    pub history: Vec<(String, String)>,
    pub cwd: String,
    pub created_at: String,
}

/// A shell session, over texts.
pub struct SessionView {
    pub name: Seq<char>,
    pub history: Seq<(Seq<char>, Seq<char>)>,
    pub cwd: Seq<char>,
    pub created_at: Seq<char>,
}

impl Session {
    pub open spec fn view(&self) -> SessionView {
        SessionView {
            name: self.name@,
            history: actions::pair_texts(self.history@),
            cwd: self.cwd@,
            created_at: self.created_at@,
        }
    }
}

/// Sessions, over texts.
pub open spec fn sessions_view(list: Seq<Session>) -> Seq<SessionView> {
    Seq::new(list.len(), |i: int| list[i]@)
}

/// Where the session with a name stands; the number of sessions, where there is none.
pub open spec fn session_at(list: Seq<SessionView>, name: Seq<char>) -> nat
    decreases list.len(),
{
    if list.len() == 0 || list[0].name == name {
        0
    } else {
        1 + session_at(list.skip(1), name)
    }
}

/// Whether there is a session with a name.
pub open spec fn has_session(list: Seq<SessionView>, name: Seq<char>) -> bool {
    session_at(list, name) < list.len()
}

/// Whether no two sessions have one name.
pub open spec fn distinct_names(list: Seq<SessionView>) -> bool {
    forall|i: int, j: int|
        0 <= i < j < list.len() ==> (#[trigger] list[i]).name != (#[trigger] list[j]).name
}

/// The session with a name is the first one that has it.
pub proof fn lemma_session_at(list: Seq<SessionView>, name: Seq<char>, i: int)
    requires
        0 <= i <= list.len(),
        i < list.len() ==> list[i].name == name,
        forall|j: int| 0 <= j < i ==> (#[trigger] list[j]).name != name,
    ensures
        session_at(list, name) == i,
    decreases list.len(),
{
    if i > 0 {
        assert(list[0].name != name);
        assert forall|j: int| 0 <= j < i - 1 implies (#[trigger] list.skip(1)[j]).name != name by {
            assert(list.skip(1)[j] == list[j + 1]);
        }
        lemma_session_at(list.skip(1), name, i - 1);
    }
}

/// What `session_at` gives is the first place with the name.
pub proof fn lemma_session_at_is_first(list: Seq<SessionView>, name: Seq<char>)
    ensures
        session_at(list, name) <= list.len(),
        session_at(list, name) < list.len() ==> list[session_at(list, name) as int].name == name,
        forall|j: int|
            0 <= j < session_at(list, name) && j < list.len() ==> (#[trigger] list[j]).name != name,
    decreases list.len(),
{
    if list.len() > 0 && list[0].name != name {
        lemma_session_at_is_first(list.skip(1), name);
        assert forall|j: int|
            0 <= j < session_at(list, name) && j < list.len() implies (#[trigger] list[j]).name
            != name by {
            if j > 0 {
                assert(list.skip(1)[j - 1] == list[j]);
            }
        }
    }
}

/// The sessions with one more; it takes the place of one with its name.
pub open spec fn with_session(list: Seq<SessionView>, s: SessionView) -> Seq<SessionView> {
    if has_session(list, s.name) {
        list.update(session_at(list, s.name) as int, s)
    } else {
        list.push(s)
    }
}

/// The sessions without the one with a name.
pub open spec fn without_session(list: Seq<SessionView>, name: Seq<char>) -> Seq<SessionView> {
    if has_session(list, name) {
        list.remove(session_at(list, name) as int)
    } else {
        list
    }
}

/// A session once a command was run in it. Where `moves` holds, the output is its new
/// directory.
pub open spec fn after_run(
    s: SessionView,
    command: Seq<char>,
    output: Seq<char>,
    moves: bool,
) -> SessionView {
    SessionView {
        history: s.history.push((command, output)),
        cwd: if moves {
            text::trimmed(output)
        } else {
            s.cwd
        },
        ..s
    }
}

/// The sessions once a command was run in one of them.
pub open spec fn sessions_after_run(
    list: Seq<SessionView>,
    name: Seq<char>,
    command: Seq<char>,
    output: Seq<char>,
    moves: bool,
) -> Seq<SessionView> {
    if has_session(list, name) {
        let i = session_at(list, name) as int;
        list.update(i, after_run(list[i], command, output, moves))
    } else {
        list
    }
}

/// The name of a session to be made: the one that is asked for, or one with the number of
/// sessions in it.
pub open spec fn new_session_name(list: Seq<SessionView>, args: JsonView) -> Seq<char> {
    match args.str_at("name"@) {
        Some(name) => name,
        None => "s"@ + text::decimal(list.len()),
    }
}

/// What making a session becomes.
pub open spec fn session_create_action(list: Seq<SessionView>, args: JsonView) -> ActionView {
    let name = new_session_name(list, args);
    if has_session(list, name) {
        actions::refused("session '"@ + name + "' already exists"@)
    } else {
        ActionView::CreateSession { name, cwd: args.str_or("cwd"@, "/root"@) }
    }
}

/// The line that ends a command's output.
pub open spec fn sentinel_of(token: Seq<char>) -> Seq<char> {
    "__DRIVER_SENTINEL_"@ + token + "__"@
}

/// What running a command of a known tier in a session becomes.
pub open spec fn run_in_session(
    list: Seq<SessionView>,
    session: Seq<char>,
    command: Seq<char>,
    tier: policy::Tier,
    confirm: bool,
    allow_destructive: bool,
    token: Seq<char>,
    moves: bool,
) -> ActionView {
    if session.len() == 0 || command.len() == 0 {
        actions::refused("session and command are required"@)
    } else if !policy::permitted(tier, confirm, allow_destructive) {
        actions::refused(policy::refusal(tier, command))
    } else if !has_session(list, session) {
        actions::refused("session '"@ + session + "' not found"@)
    } else {
        ActionView::RunInSession {
            session,
            command,
            input: command + " 2>&1; echo \""@ + sentinel_of(token) + "\"\n"@,
            sentinel: sentinel_of(token),
            moves,
        }
    }
}

/// What running a command in a session becomes.
pub open spec fn session_run_action(
    list: Seq<SessionView>,
    args: JsonView,
    token: Seq<char>,
) -> ActionView {
    let command = args.str_or("command"@, ""@);
    run_in_session(
        list,
        args.str_or("session"@, ""@),
        command,
        policy::tier_of(unicode::lowercase(command)),
        args.flag("confirm"@),
        args.flag("allow_destructive"@),
        token,
        false,
    )
}

/// What a command with nothing granted becomes.
pub open spec fn plain_run_action(
    list: Seq<SessionView>,
    session: Seq<char>,
    command: Seq<char>,
    token: Seq<char>,
    moves: bool,
) -> ActionView {
    run_in_session(
        list,
        session,
        command,
        policy::tier_of(unicode::lowercase(command)),
        false,
        false,
        token,
        moves,
    )
}

/// What moving a session to another directory becomes.
pub open spec fn session_cd_action(
    list: Seq<SessionView>,
    args: JsonView,
    token: Seq<char>,
) -> ActionView {
    let name = args.str_or("session"@, ""@);
    let path = args.str_or("path"@, ""@);
    if name.len() == 0 || path.len() == 0 {
        actions::refused("session and path are required"@)
    } else {
        plain_run_action(list, name, "cd '"@ + path + "' && pwd"@, token, true)
    }
}

/// What setting a variable in a session becomes.
pub open spec fn session_set_env_action(
    list: Seq<SessionView>,
    args: JsonView,
    token: Seq<char>,
) -> ActionView {
    plain_run_action(
        list,
        args.str_or("session"@, ""@),
        "export "@ + args.str_or("key"@, ""@) + "='"@ + args.str_or("value"@, ""@) + "'"@,
        token,
        false,
    )
}

/// What reading a variable of a session, or all of them, becomes.
pub open spec fn session_get_env_action(
    list: Seq<SessionView>,
    args: JsonView,
    token: Seq<char>,
) -> ActionView {
    plain_run_action(
        list,
        args.str_or("session"@, ""@),
        match args.str_at("key"@) {
            Some(key) => "echo $"@ + key,
            None => "env"@,
        },
        token,
        false,
    )
}

/// What ending a session becomes.
pub open spec fn session_destroy_action(list: Seq<SessionView>, args: JsonView) -> ActionView {
    let name = args.str_or("session"@, ""@);
    if has_session(list, name) {
        ActionView::DestroySession {
            name,
            reply: mcp::text_view("session '"@ + name + "' destroyed"@),
        }
    } else {
        actions::refused("session '"@ + name + "' not found"@)
    }
}

/// What is said of a session in a list.
pub open spec fn session_json(s: SessionView) -> JsonView {
    JsonView::Object(
        json::no_members().push(("name"@, JsonView::Str(s.name))).push(
            ("cwd"@, JsonView::Str(s.cwd)),
        ).push(("created_at"@, JsonView::Str(s.created_at))).push(
            ("history_count"@, JsonView::Uint(s.history.len() as u64)),
        ),
    )
}

/// The sessions as a list.
pub open spec fn session_list_json(list: Seq<SessionView>) -> JsonView {
    JsonView::Array(Seq::new(list.len(), |i: int| session_json(list[i])))
}

/// The longest output that is shown in a session's history, in bytes.
pub const PREVIEW_BYTES: usize = 200;

/// The last `limit` entries of a history.
pub open spec fn recent(
    history: Seq<(Seq<char>, Seq<char>)>,
    limit: nat,
) -> Seq<(Seq<char>, Seq<char>)> {
    if limit < history.len() {
        history.skip(history.len() - limit)
    } else {
        history
    }
}

/// What is said of an entry of a history.
pub open spec fn entry_json(i: int, entry: (Seq<char>, Seq<char>)) -> JsonView {
    JsonView::Object(
        json::no_members().push(("index"@, JsonView::Uint(i as u64))).push(
            ("command"@, JsonView::Str(entry.0)),
        ).push(
            ("output_preview"@, JsonView::Str(text::clipped(entry.1, PREVIEW_BYTES as nat, ""@))),
        ),
    )
}

/// The entries of a history as a list.
pub open spec fn history_json(entries: Seq<(Seq<char>, Seq<char>)>) -> JsonView {
    JsonView::Array(Seq::new(entries.len(), |i: int| entry_json(i, entries[i])))
}

/// Whether every output can be cut where it is cut.
pub open spec fn previews_cuttable(entries: Seq<(Seq<char>, Seq<char>)>) -> bool {
    forall|i: int|
        0 <= i < entries.len() ==> text::can_cut((#[trigger] entries[i]).1, PREVIEW_BYTES as nat)
}

/// The part of a session's history that a call asks for.
pub open spec fn asked_history(list: Seq<SessionView>, args: JsonView) -> Seq<
    (Seq<char>, Seq<char>),
> {
    recent(
        list[session_at(list, args.str_or("session"@, ""@)) as int].history,
        (args.u64_or("limit"@, 20) as usize) as nat,
    )
}

/// Whether a session's history can be shown as a call asks: where it could not, an output
/// would have to be cut within a character.
pub open spec fn can_show_history(list: Seq<SessionView>, args: JsonView) -> bool {
    has_session(list, args.str_or("session"@, ""@)) ==> previews_cuttable(asked_history(list, args))
}

/// The answer to a call for a session's history.
pub open spec fn session_history_reply(list: Seq<SessionView>, args: JsonView) -> ResultView {
    let name = args.str_or("session"@, ""@);
    if has_session(list, name) {
        mcp::text_view(json::json_pretty(history_json(asked_history(list, args))))
    } else {
        mcp::error_view("session '"@ + name + "' not found"@)
    }
}

/// Where the session with a name stands.
fn find_session(list: &Vec<Session>, name: &str) -> (r: Option<usize>)
    ensures
        match r {
            Some(i) => i < list@.len() && i == session_at(sessions_view(list@), name@),
            None => !has_session(sessions_view(list@), name@),
        },
{
    let mut i: usize = 0;
    while i < list.len()
        invariant
            i <= list@.len(),
            forall|j: int| 0 <= j < i ==> (#[trigger] sessions_view(list@)[j]).name != name@,
        decreases list@.len() - i,
    {
        if text::str_eq(list[i].name.as_str(), name) {
            proof {
                lemma_session_at(sessions_view(list@), name@, i as int);
            }
            return Some(i);
        }
        i += 1;
    }
    proof {
        lemma_session_at(sessions_view(list@), name@, list@.len() as int);
    }
    None
}

/// What came of reading a line of a session's output.
#[derive(Debug, Clone, PartialEq, Eq)]
pub enum ReadEvent {
    /// The time for the whole command is over.
    Deadline,
    /// There is no more output.
    End,
    /// A line, with its line break.
    Line(String),
    /// The line could not be read.
    Failed(String),
    /// The line did not come in time.
    TimedOut,
}

/// The output of a command as it is read.
#[derive(Debug, Clone, PartialEq, Eq)]
pub struct Collector {
    pub sentinel: String,
    pub output: String,
    pub done: bool,
}

/// The output of a command as it is read, over texts.
pub struct CollectorView {
    pub sentinel: Seq<char>,
    pub output: Seq<char>,
    pub done: bool,
}

impl CollectorView {
    /// The output once something more was read. Nothing is added once it is complete.
    pub open spec fn after(self, event: ReadEvent) -> CollectorView {
        if self.done {
            self
        } else {
            match event {
                ReadEvent::Deadline => CollectorView {
                    output: self.output + "\n[timeout after 120s]"@,
                    done: true,
                    ..self
                },
                ReadEvent::End => CollectorView { done: true, ..self },
                ReadEvent::Line(line) => if text::trimmed(line@) == self.sentinel {
                    CollectorView { done: true, ..self }
                } else {
                    CollectorView { output: self.output + line@, ..self }
                },
                ReadEvent::Failed(e) => CollectorView {
                    output: self.output + ("\n[read error: "@ + e@ + "]"@),
                    done: true,
                    ..self
                },
                ReadEvent::TimedOut => CollectorView {
                    output: self.output + "\n[timeout]"@,
                    done: true,
                    ..self
                },
            }
        }
    }

    /// The output once all of `events` happened, in order.
    pub open spec fn after_all(self, events: Seq<ReadEvent>) -> CollectorView
        decreases events.len(),
    {
        if events.len() == 0 {
            self
        } else {
            self.after_all(events.drop_last()).after(events.last())
        }
    }
}

impl Collector {
    pub open spec fn view(&self) -> CollectorView {
        CollectorView { sentinel: self.sentinel@, output: self.output@, done: self.done }
    }

    /// No output yet.
    pub fn new(sentinel: &str) -> (r: Collector)
        ensures
            r@ == (CollectorView { sentinel: sentinel@, output: ""@, done: false }),
    {
        Collector { sentinel: text::copy(sentinel), output: text::copy(""), done: false }
    }

    /// Takes in what was read.
    pub fn take_in(&mut self, event: &ReadEvent)
        ensures
            final(self)@ == old(self)@.after(*event),
    {
        if self.done {
            return;
        }
        match event {
            ReadEvent::Deadline => {
                self.output.push_str("\n[timeout after 120s]");
                self.done = true;
            },
            ReadEvent::End => {
                self.done = true;
            },
            ReadEvent::Line(line) => {
                if text::str_eq(text::trim(line.as_str()).as_str(), self.sentinel.as_str()) {
                    self.done = true;
                } else {
                    self.output.push_str(line.as_str());
                }
            },
            ReadEvent::Failed(e) => {
                let note = text::cat3("\n[read error: ", e.as_str(), "]");
                self.output.push_str(note.as_str());
                self.done = true;
            },
            ReadEvent::TimedOut => {
                self.output.push_str("\n[timeout]");
                self.done = true;
            },
        }
    }
}

impl DriverTools {
    /// Makes a session.
    pub fn session_create(&self, args: &Json) -> (r: ToolAction)
        ensures
            r@ == session_create_action(self@.sessions, args@),
    {
        let name: String = match args.str_at("name") {
            Some(name) => text::copy(name),
            None => text::cat2("s", text::number(self.sessions.len() as u64).as_str()),
        };
        match find_session(&self.sessions, name.as_str()) {
            Some(_) => refuse(text::cat3("session '", name.as_str(), "' already exists").as_str()),
            None => ToolAction::CreateSession {
                name,
                cwd: text::copy(args.str_or("cwd", "/root")),
            },
        }
    }

    /// Keeps a session whose shell was started at the moment `now`.
    pub fn session_created_at(&mut self, name: &str, cwd: &str, now: &str) -> (r: ToolCallResult)
        ensures
            r@ == mcp::text_view("session '"@ + name@ + "' created in "@ + cwd@),
            final(self)@ == (DriverToolsView {
                sessions: with_session(
                    old(self)@.sessions,
                    SessionView {
                        name: name@,
                        history: Seq::empty(),
                        cwd: cwd@,
                        created_at: now@,
                    },
                ),
                ..old(self)@
            }),
    {
        let s = Session {
            name: text::copy(name),
            history: Vec::new(),
            cwd: text::copy(cwd),
            created_at: text::copy(now),
        };
        let ghost new = SessionView {
            name: name@,
            history: Seq::empty(),
            cwd: cwd@,
            created_at: now@,
        };
        let ghost list = sessions_view(self.sessions@);
        proof {
            assert(s@.history =~= new.history);
        }
        match find_session(&self.sessions, name) {
            Some(i) => {
                let _ = self.sessions.remove(i);
                self.sessions.insert(i, s);
                proof {
                    assert(sessions_view(self.sessions@) =~= list.update(i as int, new));
                }
            },
            None => {
                self.sessions.push(s);
                proof {
                    assert(sessions_view(self.sessions@) =~= list.push(new));
                }
            },
        }
        text_result(text::cat4("session '", name, "' created in ", cwd).as_str())
    }

    /// Keeps a session whose shell was started just now.
    pub fn session_created(&mut self, name: &str, cwd: &str) -> (r: ToolCallResult)
        ensures
            r@ == mcp::text_view("session '"@ + name@ + "' created in "@ + cwd@),
            final(self)@.breadcrumbs == old(self)@.breadcrumbs,
            final(self)@.loafs == old(self)@.loafs,
            exists|now: Seq<char>|
                final(self)@.sessions == #[trigger] with_session(
                    old(self)@.sessions,
                    SessionView {
                        name: name@,
                        history: Seq::empty(),
                        cwd: cwd@,
                        created_at: now,
                    },
                ),
    {
        let now = clock::now_rfc3339();
        self.session_created_at(name, cwd, now.as_str())
    }

    /// Runs a command of a known tier in a session, if the tier permits it. The line that ends
    /// its output holds `token`.
    pub fn run_tiered(
        &self,
        session: &str,
        command: &str,
        tier: policy::Tier,
        confirm: bool,
        allow_destructive: bool,
        token: &str,
        moves: bool,
    ) -> (r: ToolAction)
        ensures
            r@ == run_in_session(
                self@.sessions,
                session@,
                command@,
                tier,
                confirm,
                allow_destructive,
                token@,
                moves,
            ),
    {
        if session.is_empty() || command.is_empty() {
            return refuse("session and command are required");
        }
        if let Err(message) = policy::check_tier(tier, command, confirm, allow_destructive) {
            return refuse(message.as_str());
        }
        match find_session(&self.sessions, session) {
            None => refuse(text::cat3("session '", session, "' not found").as_str()),
            Some(_) => {
                let sentinel = text::cat3("__DRIVER_SENTINEL_", token, "__");
                ToolAction::RunInSession {
                    session: text::copy(session),
                    command: text::copy(command),
                    input: text::cat4(command, " 2>&1; echo \"", sentinel.as_str(), "\"\n"),
                    sentinel,
                    moves,
                }
            },
        }
    }

    /// Runs a command in a session; the line that ends its output holds `token`.
    pub fn session_run_with(&self, args: &Json, token: &str) -> (r: ToolAction)
        ensures
            r@ == session_run_action(self@.sessions, args@, token@),
            policy::is_catastrophic(args@.str_or("command"@, ""@)) ==> !(r@ is RunInSession),
    {
        let command = args.str_or("command", "");
        self.run_tiered(
            args.str_or("session", ""),
            command,
            policy::classify_command(command),
            args.flag("confirm"),
            args.flag("allow_destructive"),
            token,
            false,
        )
    }

    /// Runs a command in a session.
    pub fn session_run(&self, args: &Json) -> (r: ToolAction)
        ensures
            exists|token: Seq<char>|
                r@ == #[trigger] session_run_action(self@.sessions, args@, token),
            policy::is_catastrophic(args@.str_or("command"@, ""@)) ==> !(r@ is RunInSession),
    {
        let token = clock::new_uuid();
        self.session_run_with(args, token.as_str())
    }

    /// Keeps what was run in a session and what it gave. Where `moves` holds, that is the
    /// session's new directory.
    pub fn session_finished(
        &mut self,
        session: &str,
        command: &str,
        output: &str,
        moves: bool,
    ) -> (r: ToolCallResult)
        ensures
            r@ == mcp::text_view(output@),
            final(self)@ == (DriverToolsView {
                sessions: sessions_after_run(
                    old(self)@.sessions,
                    session@,
                    command@,
                    output@,
                    moves,
                ),
                ..old(self)@
            }),
    {
        let ghost list = sessions_view(self.sessions@);
        if let Some(i) = find_session(&self.sessions, session) {
            let mut s = self.sessions.remove(i);
            let ghost before = s@;
            s.history.push((text::copy(command), text::copy(output)));
            proof {
                assert(s@.history =~= before.history.push((command@, output@)));
            }
            if moves {
                s.cwd = text::trim(output);
            }
            proof {
                assert(before == list[i as int]);
                assert(s@ == after_run(before, command@, output@, moves));
            }
            self.sessions.insert(i, s);
            proof {
                assert(sessions_view(self.sessions@) =~= list.update(
                    i as int,
                    after_run(list[i as int], command@, output@, moves),
                ));
            }
        }
        text_result(output)
    }

    /// Ends a session.
    pub fn session_destroy(&mut self, args: &Json) -> (r: ToolAction)
        ensures
            r@ == session_destroy_action(old(self)@.sessions, args@),
            final(self)@ == (DriverToolsView {
                sessions: without_session(old(self)@.sessions, args@.str_or("session"@, ""@)),
                ..old(self)@
            }),
    {
        let name = args.str_or("session", "");
        let ghost list = sessions_view(self.sessions@);
        match find_session(&self.sessions, name) {
            Some(i) => {
                let _ = self.sessions.remove(i);
                proof {
                    assert(sessions_view(self.sessions@) =~= list.remove(i as int));
                }
                ToolAction::DestroySession {
                    name: text::copy(name),
                    reply: text_result(text::cat3("session '", name, "' destroyed").as_str()),
                }
            },
            None => refuse(text::cat3("session '", name, "' not found").as_str()),
        }
    }

    /// Runs a command in a session with nothing granted.
    fn plain_run(&self, session: &str, command: &str, token: &str, moves: bool) -> (r: ToolAction)
        ensures
            r@ == plain_run_action(self@.sessions, session@, command@, token@, moves),
    {
        self.run_tiered(
            session,
            command,
            policy::classify_command(command),
            false,
            false,
            token,
            moves,
        )
    }

    /// Moves a session to another directory; the line that ends the output holds `token`.
    pub fn session_cd_with(&self, args: &Json, token: &str) -> (r: ToolAction)
        ensures
            r@ == session_cd_action(self@.sessions, args@, token@),
    {
        let name = args.str_or("session", "");
        let path = args.str_or("path", "");
        if name.is_empty() || path.is_empty() {
            return refuse("session and path are required");
        }
        self.plain_run(name, text::cat3("cd '", path, "' && pwd").as_str(), token, true)
    }

    /// Moves a session to another directory.
    pub fn session_cd(&self, args: &Json) -> (r: ToolAction)
        ensures
            exists|token: Seq<char>|
                r@ == #[trigger] session_cd_action(self@.sessions, args@, token),
    {
        let token = clock::new_uuid();
        self.session_cd_with(args, token.as_str())
    }

    /// Sets a variable in a session; the line that ends the output holds `token`.
    pub fn session_set_env_with(&self, args: &Json, token: &str) -> (r: ToolAction)
        ensures
            r@ == session_set_env_action(self@.sessions, args@, token@),
    {
        let command = text::cat5(
            "export ",
            args.str_or("key", ""),
            "='",
            args.str_or("value", ""),
            "'",
        );
        self.plain_run(args.str_or("session", ""), command.as_str(), token, false)
    }

    /// Sets a variable in a session.
    pub fn session_set_env(&self, args: &Json) -> (r: ToolAction)
        ensures
            exists|token: Seq<char>|
                r@ == #[trigger] session_set_env_action(self@.sessions, args@, token),
    {
        let token = clock::new_uuid();
        self.session_set_env_with(args, token.as_str())
    }

    /// Reads a variable of a session, or all of them; the line that ends the output holds
    /// `token`.
    pub fn session_get_env_with(&self, args: &Json, token: &str) -> (r: ToolAction)
        ensures
            r@ == session_get_env_action(self@.sessions, args@, token@),
    {
        let command: String = match args.str_at("key") {
            Some(key) => text::cat2("echo $", key),
            None => text::copy("env"),
        };
        self.plain_run(args.str_or("session", ""), command.as_str(), token, false)
    }

    /// Reads a variable of a session, or all of them.
    pub fn session_get_env(&self, args: &Json) -> (r: ToolAction)
        ensures
            exists|token: Seq<char>|
                r@ == #[trigger] session_get_env_action(self@.sessions, args@, token),
    {
        let token = clock::new_uuid();
        self.session_get_env_with(args, token.as_str())
    }

    /// The sessions as a list.
    pub fn session_list_value(&self) -> (r: Json)
        ensures
            r@ == session_list_json(self@.sessions),
    {
        let mut items: Vec<Json> = Vec::new();
        let mut i: usize = 0;
        while i < self.sessions.len()
            invariant
                i <= self.sessions@.len(),
                items@.len() == i,
                forall|j: int|
                    0 <= j < i ==> (#[trigger] items@[j])@ == session_json(self.sessions@[j]@),
            decreases self.sessions@.len() - i,
        {
            let s = &self.sessions[i];
            items.push(
                Members::new().with("name", json::string(s.name.as_str())).with(
                    "cwd",
                    json::string(s.cwd.as_str()),
                ).with("created_at", json::string(s.created_at.as_str())).with(
                    "history_count",
                    json::size(s.history.len()),
                ).object(),
            );
            i += 1;
        }
        proof {
            assert(json::items_view(items@) =~= session_list_json(self@.sessions)->Array_0);
        }
        json::array(items)
    }

    /// Lists the sessions.
    pub fn session_list(&self) -> (r: ToolCallResult)
        ensures
            r@ == mcp::text_view(json::json_pretty(session_list_json(self@.sessions))),
    {
        text_result(json::pretty(&self.session_list_value()).as_str())
    }

    /// Whether a session's history can be shown as a call asks.
    pub fn is_history_cuttable(&self, args: &Json) -> (r: bool)
        ensures
            r == can_show_history(self@.sessions, args@),
    {
        match find_session(&self.sessions, args.str_or("session", "")) {
            None => true,
            Some(at) => {
                let history = &self.sessions[at].history;
                let limit: usize = args.u64_or("limit", 20) as usize;
                let start: usize = if limit < history.len() {
                    history.len() - limit
                } else {
                    0
                };
                let ghost all = self@.sessions[at as int].history;
                let ghost asked = asked_history(self@.sessions, args@);
                proof {
                    assert(asked =~= all.skip(start as int));
                }
                let mut i: usize = start;
                while i < history.len()
                    invariant
                        start <= i <= history@.len(),
                        all == actions::pair_texts(history@),
                        asked == all.skip(start as int),
                        asked == asked_history(self@.sessions, args@),
                        has_session(self@.sessions, args@.str_or("session"@, ""@)),
                        forall|j: int|
                            0 <= j < i - start ==> text::can_cut(
                                (#[trigger] asked[j]).1,
                                PREVIEW_BYTES as nat,
                            ),
                    decreases history@.len() - i,
                {
                    let ghost k = i - start;
                    proof {
                        assert(asked[k].1 == history@[i as int].1@);
                    }
                    if !text::is_cuttable(history[i].1.as_str(), PREVIEW_BYTES) {
                        return false;
                    }
                    i += 1;
                }
                true
            },
        }
    }

    /// The part of a session's history that a call asks for, as a list.
    pub fn session_history_value(&self, at: usize, args: &Json) -> (r: Json)
        requires
            at < self@.sessions.len(),
            previews_cuttable(
                recent(
                    self@.sessions[at as int].history,
                    (args@.u64_or("limit"@, 20) as usize) as nat,
                ),
            ),
        ensures
            r@ == history_json(
                recent(
                    self@.sessions[at as int].history,
                    (args@.u64_or("limit"@, 20) as usize) as nat,
                ),
            ),
    {
        let history = &self.sessions[at].history;
        let limit: usize = args.u64_or("limit", 20) as usize;
        let start: usize = if limit < history.len() {
            history.len() - limit
        } else {
            0
        };
        let ghost all = self@.sessions[at as int].history;
        let ghost asked = recent(all, limit as nat);
        proof {
            assert(asked =~= all.skip(start as int));
        }
        let mut items: Vec<Json> = Vec::new();
        let mut i: usize = start;
        while i < history.len()
            invariant
                start <= i <= history@.len(),
                all == actions::pair_texts(history@),
                asked == all.skip(start as int),
                previews_cuttable(asked),
                items@.len() == i - start,
                forall|j: int|
                    0 <= j < i - start ==> (#[trigger] items@[j])@ == entry_json(j, asked[j]),
            decreases history@.len() - i,
        {
            let entry = &history[i];
            let ghost k = i - start;
            proof {
                assert(asked[k] == (entry.0@, entry.1@));
            }
            items.push(
                Members::new().with("index", json::size(i - start)).with(
                    "command",
                    json::string(entry.0.as_str()),
                ).with(
                    "output_preview",
                    json::string(text::clip(entry.1.as_str(), PREVIEW_BYTES, "").as_str()),
                ).object(),
            );
            i += 1;
        }
        proof {
            assert(json::items_view(items@) =~= history_json(asked)->Array_0);
        }
        json::array(items)
    }

    /// Shows what was run in a session of late.
    pub fn session_history(&self, args: &Json) -> (r: ToolCallResult)
        requires
            can_show_history(self@.sessions, args@),
        ensures
            r@ == session_history_reply(self@.sessions, args@),
    {
        let name = args.str_or("session", "");
        match find_session(&self.sessions, name) {
            None => error_result(text::cat3("session '", name, "' not found").as_str()),
            Some(at) => text_result(json::pretty(&self.session_history_value(at, args)).as_str()),
        }
    }
}

/// Making a session, running a command in one and ending one all leave the names of the
/// sessions distinct.
pub proof fn law_names_stay_distinct(
    list: Seq<SessionView>,
    made: SessionView,
    name: Seq<char>,
    command: Seq<char>,
    output: Seq<char>,
    moves: bool,
)
    requires
        distinct_names(list),
    ensures
        distinct_names(with_session(list, made)),
        distinct_names(sessions_after_run(list, name, command, output, moves)),
        distinct_names(without_session(list, name)),
{
    lemma_session_at_is_first(list, made.name);
    lemma_session_at_is_first(list, name);
}

/// A session that was made is there, as it was made, and no other one has changed; once it is
/// ended it is there no more.
pub proof fn law_made_then_ended(list: Seq<SessionView>, s: SessionView)
    requires
        distinct_names(list),
        !has_session(list, s.name),
    ensures
        has_session(with_session(list, s), s.name),
        with_session(list, s)[session_at(with_session(list, s), s.name) as int] == s,
        without_session(with_session(list, s), s.name) == list,
        !has_session(without_session(with_session(list, s), s.name), s.name),
{
    lemma_session_at_is_first(list, s.name);
    let made = with_session(list, s);
    lemma_session_at(made, s.name, list.len() as int);
    assert(made.remove(list.len() as int) =~= list);
}

/// A command that was run in a session stands last in its history, behind what stood there;
/// its name and the other sessions are what they were.
pub proof fn law_run_is_remembered(
    list: Seq<SessionView>,
    name: Seq<char>,
    command: Seq<char>,
    output: Seq<char>,
    moves: bool,
)
    requires
        has_session(list, name),
    ensures
        ({
            let after = sessions_after_run(list, name, command, output, moves);
            let i = session_at(list, name) as int;
            &&& session_at(after, name) == i
            &&& after[i].name == list[i].name
            &&& after[i].history == list[i].history.push((command, output))
            &&& !moves ==> after[i].cwd == list[i].cwd
            &&& after.len() == list.len()
            &&& forall|j: int| 0 <= j < list.len() && j != i ==> after[j] == list[j]
        }),
{
    lemma_session_at_is_first(list, name);
    let after = sessions_after_run(list, name, command, output, moves);
    lemma_session_at(after, name, session_at(list, name) as int);
}

/// No session ever runs a command with catastrophic words in it, whatever is granted.
pub proof fn law_sessions_run_nothing_rejected(
    list: Seq<SessionView>,
    args: JsonView,
    token: Seq<char>,
)
    requires
        policy::has_any(
            unicode::lowercase(args.str_or("command"@, ""@)),
            policy::rejected_patterns(),
        ),
    ensures
        !(session_run_action(list, args, token) is RunInSession),
{
}

/// The lines of the events, one behind the other.
pub open spec fn lines_together(events: Seq<ReadEvent>) -> Seq<char>
    decreases events.len(),
{
    if events.len() == 0 {
        Seq::empty()
    } else {
        lines_together(events.drop_last()) + (match events.last() {
            ReadEvent::Line(line) => line@,
            _ => Seq::empty(),
        })
    }
}

/// Where lines come that are not the ending line and then the ending line, the output is those
/// lines as they came, and it is complete; what comes after it changes nothing.
pub proof fn law_output_is_what_precedes_the_sentinel(
    sentinel: Seq<char>,
    lines: Seq<ReadEvent>,
    last: String,
    rest: Seq<ReadEvent>,
)
    requires
        forall|i: int|
            0 <= i < lines.len() ==> (#[trigger] lines[i]) is Line && text::trimmed(
                lines[i]->Line_0@,
            ) != sentinel,
        text::trimmed(last@) == sentinel,
    ensures
        (CollectorView { sentinel, output: ""@, done: false }).after_all(
            lines.push(ReadEvent::Line(last)) + rest,
        ) == (CollectorView { sentinel, output: lines_together(lines), done: true }),
    decreases lines.len() + rest.len(),
{
    let start = CollectorView { sentinel, output: ""@, done: false };
    if rest.len() > 0 {
        let all = lines.push(ReadEvent::Line(last)) + rest;
        law_output_is_what_precedes_the_sentinel(sentinel, lines, last, rest.drop_last());
        assert(all.drop_last() =~= lines.push(ReadEvent::Line(last)) + rest.drop_last());
    } else {
        let all = lines.push(ReadEvent::Line(last)) + rest;
        assert(all.drop_last() =~= lines);
        assert(all.last() == ReadEvent::Line(last));
        lemma_lines_collect(start, lines);
    }
}

proof fn lemma_lines_collect(start: CollectorView, lines: Seq<ReadEvent>)
    requires
        !start.done,
        start.output == ""@,
        forall|i: int|
            0 <= i < lines.len() ==> (#[trigger] lines[i]) is Line && text::trimmed(
                lines[i]->Line_0@,
            ) != start.sentinel,
    ensures
        start.after_all(lines) == (CollectorView { output: lines_together(lines), ..start }),
    decreases lines.len(),
{
    if lines.len() == 0 {
        reveal_strlit("");
        assert(lines_together(lines) =~= ""@);
    } else {
        lemma_lines_collect(start, lines.drop_last());
        assert(lines.last() == lines[lines.len() - 1]);
    }
}

proof fn lemma_words()
    ensures
        text::shape("name"@) == 101109101109110004,
        text::shape("cwd"@) == 100119100119099003,
        text::shape("created_at"@) == 95101116101099010,
        text::shape("history_count"@) == 111121116095104013,
        text::shape("index"@) == 101100120100105005,
        text::shape("command"@) == 110109100097099007,
        text::shape("output_preview"@) == 118112119114111014,
{
    reveal_strlit("name");
    assert(text::shape("name"@) == 101109101109110004);
    reveal_strlit("cwd");
    assert(text::shape("cwd"@) == 100119100119099003);
    reveal_strlit("created_at");
    assert(text::shape("created_at"@) == 95101116101099010);
    reveal_strlit("history_count");
    assert(text::shape("history_count"@) == 111121116095104013);
    reveal_strlit("index");
    assert(text::shape("index"@) == 101100120100105005);
    reveal_strlit("command");
    assert(text::shape("command"@) == 110109100097099007);
    reveal_strlit("output_preview");
    assert(text::shape("output_preview"@) == 118112119114111014);
}

/// There is a session with a name if and only if one of the sessions has it.
pub proof fn law_session_is_there_if_one_has_the_name(
    list: Seq<SessionView>,
    name: Seq<char>,
)
    ensures
        has_session(list, name) <==> exists|i: int|
            0 <= i < list.len() && (#[trigger] list[i]).name == name,
{
    lemma_session_at_is_first(list, name);
    if has_session(list, name) {
        assert(list[session_at(list, name) as int].name == name);
    }
}

/// A session is made under the name that a call gives, or under `s` and the number of the sessions
/// that there are, in the directory that the call gives; a name that is taken is refused.
pub proof fn law_session_is_made_under_a_new_name(
    list: Seq<SessionView>,
    args: JsonView,
    name: Seq<char>,
)
    requires
        args.get("name"@) == Some(JsonView::Str(name)) || !(args.get("name"@) matches Some(
            JsonView::Str(_),
        )) && name == "s"@ + text::decimal(list.len()),
    ensures
        has_session(list, name) ==> session_create_action(list, args) == actions::refused(
            "session '"@ + name + "' already exists"@,
        ),
        !has_session(list, name)
            ==> session_create_action(list, args) == (ActionView::CreateSession {
            name,
            cwd: args.str_or("cwd"@, "/root"@),
        }),
{
}

/// A command runs in a session if and only if both are named, the session is there and what the
/// command's tier needs is granted. The run is of exactly that command, in that session; behind it
/// the shell is told to say the line that ends the output.
pub proof fn law_session_runs_what_is_granted(
    list: Seq<SessionView>,
    session: Seq<char>,
    command: Seq<char>,
    tier: policy::Tier,
    confirm: bool,
    allow_destructive: bool,
    token: Seq<char>,
    moves: bool,
)
    ensures
        run_in_session(list, session, command, tier, confirm, allow_destructive, token, moves)
            is RunInSession <==> session.len() > 0 && command.len() > 0
                && has_session(list, session)
            && (tier == policy::Tier::Open || tier == policy::Tier::Confirm && confirm
            || tier == policy::Tier::Destructive && allow_destructive),
        ({
            let action = run_in_session(
                list,
                session,
                command,
                tier,
                confirm,
                allow_destructive,
                token,
                moves,
            );
            &&& action is RunInSession ==> {
                &&& action->RunInSession_session == session
                &&& action->RunInSession_command == command
                &&& action->moves == moves
                &&& action->sentinel == "__DRIVER_SENTINEL_"@ + token + "__"@
                &&& action->input == command + " 2>&1; echo \""@ + action->sentinel + "\"\n"@
            }
            &&& session.len() == 0 || command.len() == 0 ==> action == actions::refused(
                "session and command are required"@,
            )
            &&& session.len() > 0 && command.len() > 0
                && !(tier == policy::Tier::Open || tier == policy::Tier::Confirm && confirm
                || tier == policy::Tier::Destructive && allow_destructive)
                    ==> action == actions::refused(policy::refusal(tier, command))
            &&& session.len() > 0 && command.len() > 0
                && (tier == policy::Tier::Open || tier == policy::Tier::Confirm && confirm
                || tier == policy::Tier::Destructive && allow_destructive)
                    && !has_session(list, session)
                ==> action == actions::refused("session '"@ + session + "' not found"@)
        }),
{
}

/// A call to run a command in a session takes its grants from its own `confirm` and its own
/// `allow_destructive`, and the command leaves the session's directory as it is. To move a
/// session, to set a variable and to read one are runs for which nothing is granted; only the
/// first takes the output for the new directory.
pub proof fn law_session_calls_run_commands(
    list: Seq<SessionView>,
    args: JsonView,
    token: Seq<char>,
    session: Seq<char>,
    command: Seq<char>,
    path: Seq<char>,
    key: Seq<char>,
    value: Seq<char>,
)
    requires
        args.get("session"@) == Some(JsonView::Str(session)),
        args.get("command"@) == Some(JsonView::Str(command)),
        args.get("path"@) == Some(JsonView::Str(path)),
        args.get("key"@) == Some(JsonView::Str(key)),
        args.get("value"@) == Some(JsonView::Str(value)),
        session.len() > 0,
        path.len() > 0,
    ensures
        session_run_action(list, args, token) == run_in_session(
            list,
            session,
            command,
            policy::tier_of(unicode::lowercase(command)),
            args.get("confirm"@) == Some(JsonView::Bool(true)),
            args.get("allow_destructive"@) == Some(JsonView::Bool(true)),
            token,
            false,
        ),
        session_cd_action(list, args, token) == run_in_session(
            list,
            session,
            "cd '"@ + path + "' && pwd"@,
            policy::tier_of(unicode::lowercase("cd '"@ + path + "' && pwd"@)),
            false,
            false,
            token,
            true,
        ),
        session_set_env_action(list, args, token) == run_in_session(
            list,
            session,
            "export "@ + key + "='"@ + value + "'"@,
            policy::tier_of(unicode::lowercase("export "@ + key + "='"@ + value + "'"@)),
            false,
            false,
            token,
            false,
        ),
        session_get_env_action(list, args, token) == run_in_session(
            list,
            session,
            "echo $"@ + key,
            policy::tier_of(unicode::lowercase("echo $"@ + key)),
            false,
            false,
            token,
            false,
        ),
{
}

/// A call for no variable reads all of them, and one to move a session needs both a session and a
/// directory.
pub proof fn law_session_calls_that_lack_something(
    list: Seq<SessionView>,
    args: JsonView,
    token: Seq<char>,
)
    ensures
        args.get("key"@) is None ==> session_get_env_action(list, args, token) == run_in_session(
            list,
            args.str_or("session"@, ""@),
            "env"@,
            policy::tier_of(unicode::lowercase("env"@)),
            false,
            false,
            token,
            false,
        ),
        args.str_or("session"@, ""@).len() == 0 || args.str_or("path"@, ""@).len() == 0
            ==> session_cd_action(list, args, token) == actions::refused(
            "session and path are required"@,
        ),
{
}

/// Ending a session is for the one that the call names, and for none that is not there.
pub proof fn law_session_is_ended_by_its_name(
    list: Seq<SessionView>,
    args: JsonView,
    name: Seq<char>,
)
    requires
        name == args.str_or("session"@, ""@),
    ensures
        has_session(list, name)
            ==> session_destroy_action(list, args) == (ActionView::DestroySession {
            name,
            reply: mcp::text_view("session '"@ + name + "' destroyed"@),
        }),
        !has_session(list, name) ==> session_destroy_action(list, args) == actions::refused(
            "session '"@ + name + "' not found"@,
        ),
        forall|other: Seq<char>|
            other != name ==> #[trigger] has_session(without_session(list, name), other)
                == has_session(list, other),
        forall|other: Seq<char>|
            other != name && has_session(list, other) ==> without_session(list, name)[session_at(
                without_session(list, name),
                other,
            ) as int] == list[#[trigger] session_at(list, other) as int],
{
    let left = without_session(list, name);
    lemma_session_at_is_first(list, name);
    let at = session_at(list, name) as int;
    assert forall|other: Seq<char>| other != name implies #[trigger] has_session(left, other)
        == has_session(list, other) && (has_session(list, other) ==> left[session_at(
        left,
        other,
    ) as int] == list[session_at(list, other) as int]) by {
        if has_session(list, name) {
            lemma_session_at_is_first(list, other);
            let i = session_at(list, other) as int;
            let k = if i > at {
                i - 1
            } else {
                i
            };
            assert forall|j: int| 0 <= j < k implies (#[trigger] left[j]).name != other by {
                assert(left[j] == list[if j < at {
                    j
                } else {
                    j + 1
                }]);
            }
            if i < list.len() {
                assert(left[k] == list[i]);
            }
            lemma_session_at(left, other, k);
        }
    }
    assert forall|other: Seq<char>| other != name
        && has_session(list, other) implies left[session_at(
        left,
        other,
    ) as int] == list[#[trigger] session_at(list, other) as int] by {
        assert(has_session(left, other) == has_session(list, other));
    }
}

/// Once a session has moved, it is in the directory that the command said, without the white space
/// around it; when it was made stays.
pub proof fn law_moved_session_is_where_the_output_says(
    list: Seq<SessionView>,
    name: Seq<char>,
    command: Seq<char>,
    output: Seq<char>,
    moves: bool,
)
    requires
        has_session(list, name),
    ensures
        ({
            let i = session_at(list, name) as int;
            let after = sessions_after_run(list, name, command, output, moves)[i];
            &&& moves ==> after.cwd == text::trimmed(output)
            &&& !moves ==> after.cwd == list[i].cwd
            &&& after.created_at == list[i].created_at
        }),
{
}

/// The list of the sessions names each of them, in their order, with where it is, when it was made
/// and how much was run in it.
pub proof fn law_list_names_every_session(
    list: Seq<SessionView>,
    i: int,
)
    requires
        0 <= i < list.len(),
    ensures
        session_list_json(list) is Array,
        session_list_json(list)->Array_0.len() == list.len(),
        ({
            let item = session_list_json(list)->Array_0[i];
            &&& item is Object && item->Object_0.len() == 4
            &&& item.get("name"@) == Some(JsonView::Str(list[i].name))
            &&& item.get("cwd"@) == Some(JsonView::Str(list[i].cwd))
            &&& item.get("created_at"@) == Some(JsonView::Str(list[i].created_at))
            &&& item.get("history_count"@) == Some(JsonView::Uint(list[i].history.len() as u64))
        }),
{
    broadcast use json::lemma_member_push;

    lemma_words();
}

/// The history that is shown is the end of what was run in the session: as many of the last
/// commands as the call asks for, twenty where it does not say, in the order in which they were
/// run, counted from zero, each with the beginning of what it gave.
pub proof fn law_history_shows_the_last_commands(
    list: Seq<SessionView>,
    args: JsonView,
    name: Seq<char>,
    limit: u64,
    at: int,
    k: int,
)
    requires
        args.get("session"@) == Some(JsonView::Str(name)),
        args.u64_at("limit"@) == Some(limit) || args.u64_at("limit"@) is None && limit == 20,
        limit <= usize::MAX,
        0 <= at < list.len(),
        list[at].name == name,
        forall|j: int| 0 <= j < at ==> (#[trigger] list[j]).name != name,
    ensures
        ({
            let history = list[at].history;
            let shown = if limit < history.len() {
                limit as nat
            } else {
                history.len()
            };
            exists|v: JsonView|
                session_history_reply(list, args) == mcp::text_view(#[trigger] json::json_pretty(v))
                    && v is Array && v->Array_0.len() == shown && (0 <= k < shown ==> {
                    let item = v->Array_0[k];
                    let entry = history[history.len() - shown + k];
                    &&& item is Object && item->Object_0.len() == 3
                    &&& item.get("index"@) == Some(JsonView::Uint(k as u64))
                    &&& item.get("command"@) == Some(JsonView::Str(entry.0))
                    &&& item.get("output_preview"@) == Some(
                        JsonView::Str(text::clipped(entry.1, 200, ""@)),
                    )
                })
        }),
{
    broadcast use json::lemma_member_push;

    lemma_words();
    lemma_session_at(list, name, at);
    let v = history_json(asked_history(list, args));
    assert(session_history_reply(list, args) == mcp::text_view(json::json_pretty(v)));
}

/// What is read of a command's output ends with the line that ends it, with the end of all output,
/// with a failure or when the time is over; the last two are noted. Any other line is put behind
/// what was read before, and once the output has ended nothing is.
pub proof fn law_reading_ends(
    c: CollectorView,
    line: String,
    failure: String,
    event: ReadEvent,
)
    ensures
        c.done ==> c.after(event) == c,
        !c.done ==> {
            &&& c.after(ReadEvent::Deadline).done
            &&& c.after(ReadEvent::Deadline).output == c.output + "\n[timeout after 120s]"@
            &&& c.after(ReadEvent::TimedOut).done
            &&& c.after(ReadEvent::TimedOut).output == c.output + "\n[timeout]"@
            &&& c.after(ReadEvent::End).done
            &&& c.after(ReadEvent::End).output == c.output
            &&& c.after(ReadEvent::Failed(failure)).done
            &&& c.after(ReadEvent::Failed(failure)).output == c.output + "\n[read error: "@
                + failure@ + "]"@
            &&& text::trimmed(line@) == c.sentinel ==> c.after(ReadEvent::Line(line)).done
                && c.after(ReadEvent::Line(line)).output == c.output
            &&& text::trimmed(line@) != c.sentinel ==> !c.after(ReadEvent::Line(line)).done
                && c.after(ReadEvent::Line(line)).output == c.output + line@
        },
        c.after(event).sentinel == c.sentinel,
{
    assert(c.output + ("\n[read error: "@ + failure@ + "]"@) =~= c.output + "\n[read error: "@
        + failure@ + "]"@);
}

/// A history can be shown where no session has the name, and where none of the outputs in it is
/// longer than what is shown of it.
pub proof fn law_history_of_short_outputs_can_be_shown(
    list: Seq<SessionView>,
    args: JsonView,
    name: Seq<char>,
)
    requires
        name == args.str_or("session"@, ""@),
    ensures
        !has_session(list, name) ==> can_show_history(list, args),
        has_session(list, name) && (forall|k: int|
            0 <= k < list[session_at(list, name) as int].history.len() ==> text::byte_len(
                (#[trigger] list[session_at(list, name) as int].history[k]).1,
            ) <= 200) ==> can_show_history(list, args),
{
    if has_session(list, name) && (forall|k: int|
        0 <= k < list[session_at(list, name) as int].history.len() ==> text::byte_len(
            (#[trigger] list[session_at(list, name) as int].history[k]).1,
        ) <= 200) {
        let history = list[session_at(list, name) as int].history;
        let asked = asked_history(list, args);
        assert forall|i: int| 0 <= i < asked.len() implies text::can_cut(
            (#[trigger] asked[i]).1,
            PREVIEW_BYTES as nat,
        ) by {
            assert(asked[i] == history[history.len() - asked.len() + i]);
        }
    }
}

/// A session that is kept takes the place of one with its name and stands behind the others where
/// there is none; no other session changes.
pub proof fn law_kept_session_takes_its_place(
    list: Seq<SessionView>,
    s: SessionView,
)
    ensures
        has_session(list, s.name) ==> {
            let after = with_session(list, s);
            &&& after.len() == list.len()
            &&& after[session_at(list, s.name) as int] == s
            &&& forall|i: int|
                0 <= i < list.len() && i != session_at(list, s.name) ==> after[i] == list[i]
        },
        !has_session(list, s.name) ==> with_session(list, s) == list.push(s),
{
}

} // verus!
