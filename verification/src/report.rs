//! The report of a run, composed from the events that the run logged.

use vstd::prelude::*;

use crate::agent;
use crate::events;
use crate::json;
use crate::json::{Json, JsonView};
use crate::text;

verus! {

/// The values of the lines that are JSON; the other lines are passed over.
pub open spec fn parsed_lines(lines: Seq<Seq<char>>) -> Seq<JsonView>
    decreases lines.len(),
{
    if lines.len() == 0 {
        Seq::empty()
    } else {
        let front = parsed_lines(lines.drop_last());
        match json::json_parse(lines.last()) {
            Ok(v) => front.push(v),
            Err(_) => front,
        }
    }
}

/// The values of the lines that are JSON; the other lines are passed over.
pub fn parse_lines(lines: &Vec<String>) -> (r: Vec<Json>)
    ensures
        json::items_view(r@) == parsed_lines(text::texts(lines@)),
{
    let mut out: Vec<Json> = Vec::new();
    let mut i: usize = 0;
    let ghost all = text::texts(lines@);
    proof {
        assert(json::items_view(out@) =~= parsed_lines(all.take(0)));
    }
    while i < lines.len()
        invariant
            i <= lines@.len(),
            all == text::texts(lines@),
            json::items_view(out@) == parsed_lines(all.take(i as int)),
        decreases lines@.len() - i,
    {
        proof {
            assert(all.take(i + 1).drop_last() =~= all.take(i as int));
        }
        match json::parse(lines[i].as_str()) {
            Ok(v) => {
                let ghost before = out@;
                out.push(v);
                proof {
                    assert(json::items_view(out@) =~= json::items_view(before).push(v@));
                }
            },
            Err(_) => {},
        }
        i += 1;
    }
    proof {
        assert(all.take(i as int) =~= all);
    }
    out
}

/// Whether an event is of a kind.
pub open spec fn is_kind(e: JsonView, kind: Seq<char>) -> bool {
    e.str_at("kind"@) == Some(kind)
}

/// Whether an event is of a kind and belongs to an iteration.
pub open spec fn is_kind_in(e: JsonView, kind: Seq<char>, iteration: u64) -> bool {
    is_kind(e, kind) && e.u64_at("iteration"@) == Some(iteration)
}

fn of_kind(e: &Json, kind: &str) -> (r: bool)
    ensures
        r == is_kind(e@, kind@),
{
    match e.str_at("kind") {
        Some(k) => text::str_eq(k, kind),
        None => false,
    }
}

fn of_kind_in(e: &Json, kind: &str, iteration: u64) -> (r: bool)
    ensures
        r == is_kind_in(e@, kind@, iteration),
{
    of_kind(e, kind) && match e.u64_at("iteration") {
        Some(n) => n == iteration,
        None => false,
    }
}

/// The first event of a kind.
pub open spec fn first_of(events: Seq<JsonView>, kind: Seq<char>) -> Option<JsonView>
    decreases events.len(),
{
    if events.len() == 0 {
        None
    } else if is_kind(events[0], kind) {
        Some(events[0])
    } else {
        first_of(events.drop_first(), kind)
    }
}

fn find_first<'a>(events: &'a Vec<Json>, kind: &str) -> (r: Option<&'a Json>)
    ensures
        match r {
            Some(e) => first_of(json::items_view(events@), kind@) == Some(e@),
            None => first_of(json::items_view(events@), kind@) is None,
        },
{
    let ghost all = json::items_view(events@);
    let mut i: usize = 0;
    proof {
        assert(all.skip(0) =~= all);
    }
    while i < events.len()
        invariant
            i <= events@.len(),
            all == json::items_view(events@),
            first_of(all.skip(i as int), kind@) == first_of(all, kind@),
        decreases events@.len() - i,
    {
        if of_kind(&events[i], kind) {
            proof {
                assert(all.skip(i as int)[0] == events@[i as int]@);
            }
            return Some(&events[i]);
        }
        proof {
            assert(all.skip(i as int)[0] == events@[i as int]@);
            assert(all.skip(i as int).drop_first() =~= all.skip(i + 1));
        }
        i += 1;
    }
    None
}

/// The first event of a kind in an iteration.
pub open spec fn first_in(events: Seq<JsonView>, kind: Seq<char>, iteration: u64) -> Option<JsonView>
    decreases events.len(),
{
    if events.len() == 0 {
        None
    } else if is_kind_in(events[0], kind, iteration) {
        Some(events[0])
    } else {
        first_in(events.drop_first(), kind, iteration)
    }
}

fn find_first_in<'a>(events: &'a Vec<Json>, kind: &str, iteration: u64) -> (r: Option<&'a Json>)
    ensures
        match r {
            Some(e) => first_in(json::items_view(events@), kind@, iteration) == Some(e@),
            None => first_in(json::items_view(events@), kind@, iteration) is None,
        },
{
    let ghost all = json::items_view(events@);
    let mut i: usize = 0;
    proof {
        assert(all.skip(0) =~= all);
    }
    while i < events.len()
        invariant
            i <= events@.len(),
            all == json::items_view(events@),
            first_in(all.skip(i as int), kind@, iteration) == first_in(all, kind@, iteration),
        decreases events@.len() - i,
    {
        proof {
            assert(all.skip(i as int)[0] == events@[i as int]@);
            assert(all.skip(i as int).drop_first() =~= all.skip(i + 1));
        }
        if of_kind_in(&events[i], kind, iteration) {
            return Some(&events[i]);
        }
        i += 1;
    }
    None
}

/// Whether an event is the result of the call with an identifier.
pub open spec fn is_result_of(e: JsonView, call_id: Seq<char>) -> bool {
    is_kind(e, "tool_result"@) && e.str_at("id"@) == Some(call_id)
}

/// The first result of the call with an identifier.
pub open spec fn result_of(events: Seq<JsonView>, call_id: Seq<char>) -> Option<JsonView>
    decreases events.len(),
{
    if events.len() == 0 {
        None
    } else if is_result_of(events[0], call_id) {
        Some(events[0])
    } else {
        result_of(events.drop_first(), call_id)
    }
}

fn find_result<'a>(events: &'a Vec<Json>, call_id: &str) -> (r: Option<&'a Json>)
    ensures
        match r {
            Some(e) => result_of(json::items_view(events@), call_id@) == Some(e@),
            None => result_of(json::items_view(events@), call_id@) is None,
        },
{
    let ghost all = json::items_view(events@);
    let mut i: usize = 0;
    proof {
        assert(all.skip(0) =~= all);
    }
    while i < events.len()
        invariant
            i <= events@.len(),
            all == json::items_view(events@),
            result_of(all.skip(i as int), call_id@) == result_of(all, call_id@),
        decreases events@.len() - i,
    {
        proof {
            assert(all.skip(i as int)[0] == events@[i as int]@);
            assert(all.skip(i as int).drop_first() =~= all.skip(i + 1));
        }
        let same = match events[i].str_at("id") {
            Some(id) => text::str_eq(id, call_id),
            None => false,
        };
        if same && of_kind(&events[i], "tool_result") {
            return Some(&events[i]);
        }
        i += 1;
    }
    None
}

/// The text of a field of an event that may be missing; `default`, where there is none.
pub open spec fn field_or(e: Option<JsonView>, key: Seq<char>, default: Seq<char>) -> Seq<char> {
    match e {
        Some(v) => v.str_or(key, default),
        None => default,
    }
}

/// The number in a field of an event that may be missing; zero, where there is none.
pub open spec fn count_in(e: Option<JsonView>, key: Seq<char>) -> u64 {
    match e {
        Some(v) => v.u64_or(key, 0),
        None => 0,
    }
}

/// The name of the task that a run started with.
pub open spec fn task_name(start: Option<JsonView>) -> Seq<char> {
    match start {
        Some(v) => match v.str_at("name"@) {
            Some(s) => s,
            None => v.str_or("task"@, "unnamed"@),
        },
        None => "unnamed"@,
    }
}

fn text_of<'a>(e: Option<&'a Json>, key: &str, default: &'a str) -> (r: &'a str)
    ensures
        r@ == field_or(
            match e {
                Some(v) => Some(v@),
                None => None,
            },
            key@,
            default@,
        ),
{
    match e {
        Some(v) => v.str_or(key, default),
        None => default,
    }
}

/// The highest iteration that an event names; zero, where none does.
pub open spec fn last_iteration(events: Seq<JsonView>) -> u64
    decreases events.len(),
{
    if events.len() == 0 {
        0
    } else {
        let before = last_iteration(events.drop_last());
        match events.last().u64_at("iteration"@) {
            Some(n) => if n > before {
                n
            } else {
                before
            },
            None => before,
        }
    }
}

fn max_iteration(events: &Vec<Json>) -> (r: u64)
    ensures
        r == last_iteration(json::items_view(events@)),
{
    let ghost all = json::items_view(events@);
    let mut i: usize = 0;
    let mut max: u64 = 0;
    while i < events.len()
        invariant
            i <= events@.len(),
            all == json::items_view(events@),
            max == last_iteration(all.take(i as int)),
        decreases events@.len() - i,
    {
        proof {
            assert(all.take(i + 1).drop_last() =~= all.take(i as int));
            assert(all.take(i + 1).last() == events@[i as int]@);
        }
        match events[i].u64_at("iteration") {
            Some(n) => if n > max {
                max = n;
            },
            None => {},
        }
        i += 1;
    }
    proof {
        assert(all.take(i as int) =~= all);
    }
    max
}

/// What the report says of an event in an iteration, if it is reasoning.
pub open spec fn reasoning_line(e: JsonView, iteration: u64) -> Seq<char> {
    if is_kind_in(e, "reasoning"@, iteration) && e.str_at("content"@) is Some {
        "*Reasoning:* "@ + text::clipped(e.str_at("content"@)->0, 500, "..."@) + "\n\n"@
    } else {
        Seq::empty()
    }
}

/// The reasoning of an iteration.
pub open spec fn reasoning_part(events: Seq<JsonView>, iteration: u64) -> Seq<char>
    decreases events.len(),
{
    if events.len() == 0 {
        Seq::empty()
    } else {
        reasoning_part(events.drop_last(), iteration) + reasoning_line(events.last(), iteration)
    }
}

/// What a call gave back, as far as the events say.
pub open spec fn call_result(events: Seq<JsonView>, call: JsonView) -> Seq<char> {
    field_or(result_of(events, call.str_or("id"@, ""@)), "content"@, "(no result)"@)
}

/// What the report says of an event in an iteration, if it is a tool call.
pub open spec fn call_line(events: Seq<JsonView>, e: JsonView, iteration: u64) -> Seq<char> {
    if is_kind_in(e, "tool_call"@, iteration) {
        "- `"@ + e.str_or("name"@, "?"@) + "` → `"@ + text::clipped(
            call_result(events, e),
            200,
            "..."@,
        ) + "`\n"@
    } else {
        Seq::empty()
    }
}

/// The tool calls among the first events of a run.
pub open spec fn call_part(events: Seq<JsonView>, front: Seq<JsonView>, iteration: u64) -> Seq<char>
    decreases front.len(),
{
    if front.len() == 0 {
        Seq::empty()
    } else {
        call_part(events, front.drop_last(), iteration) + call_line(events, front.last(), iteration)
    }
}

/// What an iteration did: its tool calls; where it made none, its final answer.
pub open spec fn action_part(events: Seq<JsonView>, iteration: u64) -> Seq<char> {
    if first_in(events, "tool_call"@, iteration) is Some {
        call_part(events, events, iteration) + "\n"@
    } else {
        match first_in(events, "final_answer"@, iteration) {
            Some(e) => "*Final answer:* "@ + e.str_or("content"@, ""@) + "\n\n"@,
            None => Seq::empty(),
        }
    }
}

/// The part of the report on one iteration.
pub open spec fn iteration_part(events: Seq<JsonView>, iteration: u64) -> Seq<char> {
    "### Iteration "@ + text::decimal(iteration as nat) + "\n\n"@ + reasoning_part(
        events,
        iteration,
    ) + action_part(events, iteration)
}

/// The parts of the report on the iterations from the first up to `last`.
pub open spec fn trace_part(events: Seq<JsonView>, last: nat) -> Seq<char>
    decreases last,
{
    if last == 0 {
        Seq::empty()
    } else {
        trace_part(events, (last - 1) as nat) + iteration_part(events, last as u64)
    }
}

/// The line on the task, where there is one.
pub open spec fn prompt_part(prompt: Seq<char>) -> Seq<char> {
    if prompt.len() > 0 {
        "**Task:** "@ + prompt + "\n\n"@
    } else {
        Seq::empty()
    }
}

/// The head of the report.
pub open spec fn head_part(events: Seq<JsonView>) -> Seq<char> {
    let start = first_of(events, "run_start"@);
    let end = first_of(events, "run_end"@);
    "# Run: "@ + task_name(start) + " — "@ + field_or(start, "ts"@, "unknown"@) + "\n\n**Model:** "@
        + field_or(start, "model"@, "unknown"@) + " | **Duration:** "@ + text::decimal(
        count_in(end, "duration_ms"@) as nat,
    ) + "ms | **Tokens:** "@ + text::decimal(count_in(end, "total_tokens"@) as nat) + "\n\n"@
        + prompt_part(field_or(start, "user_prompt"@, ""@))
}

/// The whole report.
pub open spec fn report_of(events: Seq<JsonView>) -> Seq<char> {
    head_part(events) + "---\n\n## Final Answer\n\n"@ + field_or(
        first_of(events, "final_answer"@),
        "content"@,
        "(no answer)"@,
    ) + "\n\n---\n\n## Trace ("@ + text::decimal(last_iteration(events) as nat)
        + " iterations)\n\n"@ + trace_part(events, last_iteration(events) as nat) + "---\n"@
}

/// Whether every long text of an iteration has a character's end where it is cut.
pub open spec fn event_cuttable(events: Seq<JsonView>, e: JsonView) -> bool {
    match e.u64_at("iteration"@) {
        Some(n) => n > 0 ==> {
            &&& is_kind(e, "reasoning"@) && e.str_at("content"@) is Some ==> text::can_cut(
                e.str_at("content"@)->0,
                500,
            )
            &&& is_kind(e, "tool_call"@) ==> text::can_cut(call_result(events, e), 200)
        },
        None => true,
    }
}

/// Whether every long text of the run has a character's end where the report cuts it.
pub open spec fn cuttable(events: Seq<JsonView>) -> bool {
    forall|i: int| 0 <= i < events.len() ==> event_cuttable(events, #[trigger] events[i])
}

fn reasoning(events: &Vec<Json>, iteration: u64) -> (r: String)
    requires
        cuttable(json::items_view(events@)),
        iteration > 0,
    ensures
        r@ == reasoning_part(json::items_view(events@), iteration),
{
    let ghost all = json::items_view(events@);
    let mut out = String::new();
    let mut i: usize = 0;
    while i < events.len()
        invariant
            i <= events@.len(),
            iteration > 0,
            all == json::items_view(events@),
            cuttable(all),
            out@ == reasoning_part(all.take(i as int), iteration),
        decreases events@.len() - i,
    {
        proof {
            assert(all.take(i + 1).drop_last() =~= all.take(i as int));
            assert(all.take(i + 1).last() == events@[i as int]@);
            assert(event_cuttable(all, all[i as int]));
            assert(out@ + Seq::empty() =~= out@);
        }
        if of_kind_in(&events[i], "reasoning", iteration) {
            match events[i].str_at("content") {
                Some(t) => {
                    let cut = text::clip(t, 500, "...");
                    let line = text::cat3("*Reasoning:* ", cut.as_str(), "\n\n");
                    out.push_str(line.as_str());
                },
                None => {},
            }
        }
        i += 1;
    }
    proof {
        assert(all.take(i as int) =~= all);
    }
    out
}

fn calls(events: &Vec<Json>, iteration: u64) -> (r: String)
    requires
        cuttable(json::items_view(events@)),
        iteration > 0,
    ensures
        r@ == call_part(json::items_view(events@), json::items_view(events@), iteration),
{
    let ghost all = json::items_view(events@);
    let mut out = String::new();
    let mut i: usize = 0;
    while i < events.len()
        invariant
            i <= events@.len(),
            iteration > 0,
            all == json::items_view(events@),
            cuttable(all),
            out@ == call_part(all, all.take(i as int), iteration),
        decreases events@.len() - i,
    {
        proof {
            assert(all.take(i + 1).drop_last() =~= all.take(i as int));
            assert(all.take(i + 1).last() == events@[i as int]@);
            assert(event_cuttable(all, all[i as int]));
            assert(out@ + Seq::empty() =~= out@);
        }
        if of_kind_in(&events[i], "tool_call", iteration) {
            let name = events[i].str_or("name", "?");
            let call_id = events[i].str_or("id", "");
            let result = text_of(find_result(events, call_id), "content", "(no result)");
            let cut = text::clip(result, 200, "...");
            let line = text::cat5("- `", name, "` → `", cut.as_str(), "`\n");
            out.push_str(line.as_str());
        }
        i += 1;
    }
    proof {
        assert(all.take(i as int) =~= all);
    }
    out
}

fn action(events: &Vec<Json>, iteration: u64) -> (r: String)
    requires
        cuttable(json::items_view(events@)),
        iteration > 0,
    ensures
        r@ == action_part(json::items_view(events@), iteration),
{
    if find_first_in(events, "tool_call", iteration).is_some() {
        text::cat2(calls(events, iteration).as_str(), "\n")
    } else {
        match find_first_in(events, "final_answer", iteration) {
            Some(e) => text::cat3("*Final answer:* ", e.str_or("content", ""), "\n\n"),
            None => String::new(),
        }
    }
}

fn trace(events: &Vec<Json>, last: u64) -> (r: String)
    requires
        cuttable(json::items_view(events@)),
    ensures
        r@ == trace_part(json::items_view(events@), last as nat),
{
    let ghost all = json::items_view(events@);
    let mut out = String::new();
    let mut i: u64 = 0;
    while i < last
        invariant
            i <= last,
            all == json::items_view(events@),
            cuttable(all),
            out@ == trace_part(all, i as nat),
        decreases last - i,
    {
        i += 1;
        let part = text::cat5(
            "### Iteration ",
            text::number(i).as_str(),
            "\n\n",
            reasoning(events, i).as_str(),
            action(events, i).as_str(),
        );
        out.push_str(part.as_str());
    }
    out
}

fn head(events: &Vec<Json>) -> (r: String)
    ensures
        r@ == head_part(json::items_view(events@)),
{
    let start = find_first(events, "run_start");
    let end = find_first(events, "run_end");
    let name: &str = match start {
        Some(e) => match e.str_at("name") {
            Some(s) => s,
            None => e.str_or("task", "unnamed"),
        },
        None => "unnamed",
    };
    let duration: u64 = match end {
        Some(e) => e.u64_or("duration_ms", 0),
        None => 0,
    };
    let tokens: u64 = match end {
        Some(e) => e.u64_or("total_tokens", 0),
        None => 0,
    };
    let mut out = text::cat7(
        "# Run: ",
        name,
        " — ",
        text_of(start, "ts", "unknown"),
        "\n\n**Model:** ",
        text_of(start, "model", "unknown"),
        " | **Duration:** ",
    );
    out.push_str(text::number(duration).as_str());
    out.push_str("ms | **Tokens:** ");
    out.push_str(text::number(tokens).as_str());
    out.push_str("\n\n");
    let prompt = text_of(start, "user_prompt", "");
    if prompt.is_empty() {
        proof {
            assert(out@ + Seq::empty() =~= out@);
        }
        out
    } else {
        let line = text::cat3("**Task:** ", prompt, "\n\n");
        out.push_str(line.as_str());
        out
    }
}

/// The report of a run with these events.
pub fn compose_events(events: &Vec<Json>) -> (r: String)
    requires
        cuttable(json::items_view(events@)),
    ensures
        r@ == report_of(json::items_view(events@)),
{
    let last = max_iteration(events);
    let mut out = text::cat7(
        head(events).as_str(),
        "---\n\n## Final Answer\n\n",
        text_of(find_first(events, "final_answer"), "content", "(no answer)"),
        "\n\n---\n\n## Trace (",
        text::number(last).as_str(),
        " iterations)\n\n",
        trace(events, last).as_str(),
    );
    out.push_str("---\n");
    out
}

/// Whether every long text of the run has a character's end where the report cuts it.
pub fn is_cuttable(events: &Vec<Json>) -> (r: bool)
    ensures
        r == cuttable(json::items_view(events@)),
{
    let ghost all = json::items_view(events@);
    let mut i: usize = 0;
    while i < events.len()
        invariant
            i <= events@.len(),
            all == json::items_view(events@),
            forall|j: int| 0 <= j < i ==> event_cuttable(all, #[trigger] all[j]),
        decreases events@.len() - i,
    {
        let e = &events[i];
        proof {
            assert(all[i as int] == e@);
        }
        let numbered = match e.u64_at("iteration") {
            Some(n) => n > 0,
            None => false,
        };
        if numbered {
            if of_kind(e, "reasoning") {
                match e.str_at("content") {
                    Some(t) => if !text::is_cuttable(t, 500) {
                        return false;
                    },
                    None => {},
                }
            }
            if of_kind(e, "tool_call") {
                let result = text_of(
                    find_result(events, e.str_or("id", "")),
                    "content",
                    "(no result)",
                );
                if !text::is_cuttable(result, 200) {
                    return false;
                }
            }
        }
        i += 1;
    }
    true
}

/// The report of a run that logged these lines.
pub fn compose_report(lines: &Vec<String>) -> (r: String)
    requires
        cuttable(parsed_lines(text::texts(lines@))),
    ensures
        r@ == report_of(parsed_lines(text::texts(lines@))),
{
    compose_events(&parse_lines(lines))
}

/// The report of a run that logged these lines; none, where a long text has no character's
/// end where the report cuts it.
pub fn try_compose_report(lines: &Vec<String>) -> (r: Option<String>)
    ensures
        match r {
            Some(report) => {
                &&& cuttable(parsed_lines(text::texts(lines@)))
                &&& report@ == report_of(parsed_lines(text::texts(lines@)))
            },
            None => !cuttable(parsed_lines(text::texts(lines@))),
        },
{
    let events = parse_lines(lines);
    if is_cuttable(&events) {
        Some(compose_report(lines))
    } else {
        None
    }
}

/// No event names an iteration beyond the last one that the report traces.
pub proof fn law_last_iteration_is_the_last(events: Seq<JsonView>, i: int)
    requires
        0 <= i < events.len(),
        events[i].u64_at("iteration"@) is Some,
    ensures
        events[i].u64_at("iteration"@)->0 <= last_iteration(events),
    decreases events.len(),
{
    if i < events.len() - 1 {
        law_last_iteration_is_the_last(events.drop_last(), i);
        assert(events.drop_last()[i] == events[i]);
    }
}

proof fn lemma_trace_holds(events: Seq<JsonView>, last: nat, n: nat)
    requires
        1 <= n <= last <= u64::MAX,
    ensures
        text::contains_text(trace_part(events, last), iteration_part(events, n as u64)),
    decreases last,
{
    let front = trace_part(events, (last - 1) as nat);
    let part = iteration_part(events, last as u64);
    if n == last {
        assert(part.subrange(0, part.len() as int) =~= part);
        assert(text::occurs_at(part, part, 0));
        text::lemma_contains_in_whole(front, part, Seq::empty(), part);
        assert(front + part + Seq::empty() =~= front + part);
    } else {
        lemma_trace_holds(events, (last - 1) as nat, n);
        text::lemma_contains_in_whole(
            Seq::empty(),
            front,
            part,
            iteration_part(events, n as u64),
        );
        assert(Seq::empty() + front + part =~= front + part);
    }
}

/// The report has a part on every iteration from the first to the last.
pub proof fn law_report_holds_every_iteration(events: Seq<JsonView>, n: u64)
    requires
        1 <= n <= last_iteration(events),
    ensures
        text::contains_text(report_of(events), iteration_part(events, n)),
{
    let last = last_iteration(events) as nat;
    lemma_trace_holds(events, last, n as nat);
    let front = head_part(events) + "---\n\n## Final Answer\n\n"@ + field_or(
        first_of(events, "final_answer"@),
        "content"@,
        "(no answer)"@,
    ) + "\n\n---\n\n## Trace ("@ + text::decimal(last) + " iterations)\n\n"@;
    text::lemma_contains_in_whole(
        front,
        trace_part(events, last),
        "---\n"@,
        iteration_part(events, n),
    );
}

/// The final answer of the first event that holds one stands in the report.
pub proof fn law_report_holds_the_answer(
    logged: Seq<JsonView>,
    i: int,
    ts: Seq<char>,
    iteration: u32,
    answer: Seq<char>,
)
    requires
        0 <= i < logged.len(),
        ({
            let entry = agent::content_entry("final_answer"@, iteration, answer);
            logged[i] == events::event_json(ts, entry.kind, entry.data->Object_0)
        }),
        forall|j: int| 0 <= j < i ==> !is_kind(#[trigger] logged[j], "final_answer"@),
    ensures
        field_or(first_of(logged, "final_answer"@), "content"@, "(no answer)"@) == answer,
        text::contains_text(report_of(logged), answer),
{
    reveal_strlit("ts");
    reveal_strlit("kind");
    reveal_strlit("iteration");
    reveal_strlit("content");
    let data = agent::content_entry("final_answer"@, iteration, answer).data->Object_0;
    let first = json::no_members().push(("iteration"@, JsonView::Uint(iteration as u64)));
    assert(data == first.push(("content"@, JsonView::Str(answer))));
    assert(data.drop_last() =~= first);
    assert(first.drop_last() =~= json::no_members());
    assert("iteration"@.len() == 9 && "content"@.len() == 7);
    assert("ts"@.len() == 2 && "kind"@.len() == 4);
    assert(json::member(json::no_members(), "ts"@) is None);
    assert(json::member(first, "ts"@) is None);
    assert(json::member(json::no_members(), "kind"@) is None);
    assert(json::member(first, "kind"@) is None);
    events::law_event_can_be_read(ts, "final_answer"@, data, "content"@);
    lemma_first_of(logged, "final_answer"@, i);
    let front = head_part(logged) + "---\n\n## Final Answer\n\n"@;
    let back = "\n\n---\n\n## Trace ("@ + (text::decimal(last_iteration(logged) as nat)
        + " iterations)\n\n"@ + trace_part(logged, last_iteration(logged) as nat) + "---\n"@);
    assert(report_of(logged) =~= front + answer + back);
    assert(answer.subrange(0, answer.len() as int) =~= answer);
    assert(text::occurs_at(answer, answer, 0));
    text::lemma_contains_in_whole(front, answer, back, answer);
}

proof fn lemma_first_of(events: Seq<JsonView>, kind: Seq<char>, i: int)
    requires
        0 <= i < events.len(),
        is_kind(events[i], kind),
        forall|j: int| 0 <= j < i ==> !is_kind(#[trigger] events[j], kind),
    ensures
        first_of(events, kind) == Some(events[i]),
    decreases events.len(),
{
    if i > 0 {
        assert(!is_kind(events[0], kind));
        assert forall|j: int| 0 <= j < i - 1 implies !is_kind(
            #[trigger] events.drop_first()[j],
            kind,
        ) by {
            assert(events.drop_first()[j] == events[j + 1]);
        }
        lemma_first_of(events.drop_first(), kind, i - 1);
    }
}

proof fn lemma_parsed_in_two(a: Seq<Seq<char>>, b: Seq<Seq<char>>)
    ensures
        parsed_lines(a + b) == parsed_lines(a) + parsed_lines(b),
    decreases b.len(),
{
    if b.len() == 0 {
        assert(a + b =~= a);
        assert(parsed_lines(a) + parsed_lines(b) =~= parsed_lines(a));
    } else {
        assert((a + b).drop_last() =~= a + b.drop_last());
        lemma_parsed_in_two(a, b.drop_last());
        assert(parsed_lines(a + b) =~= parsed_lines(a) + parsed_lines(b));
    }
}

/// A line that is no JSON makes no difference to a report, wherever it stands in the log.
pub proof fn law_other_lines_make_no_difference(
    front: Seq<Seq<char>>,
    line: Seq<char>,
    back: Seq<Seq<char>>,
)
    requires
        json::json_parse(line) is Err,
    ensures
        parsed_lines(front.push(line) + back) == parsed_lines(front + back),
        report_of(parsed_lines(front.push(line) + back)) == report_of(parsed_lines(front + back)),
{
    lemma_parsed_in_two(front.push(line), back);
    lemma_parsed_in_two(front, back);
    assert(front.push(line).drop_last() =~= front);
}

/// Whether `places` are the places, in their order, of the events of a kind that name an
/// iteration.
pub open spec fn places_of(
    events: Seq<JsonView>,
    kind: Seq<char>,
    n: u64,
    places: Seq<int>,
) -> bool {
    &&& forall|j: int, k: int| 0 <= j < k < places.len() ==> places[j] < places[k]
    &&& forall|k: int|
        0 <= k < places.len() ==> 0 <= #[trigger] places[k] < events.len() && events[places[k]].get(
            "kind"@,
        ) == Some(JsonView::Str(kind)) && events[places[k]].u64_at("iteration"@) == Some(n)
    &&& forall|i: int|
        0 <= i < events.len() && (#[trigger] events[i]).get("kind"@) == Some(JsonView::Str(kind))
            && events[i].u64_at("iteration"@) == Some(n) ==> places.contains(i)
}

/// Whether `given` is what the first result for a call holds, or says that there is none.
pub open spec fn gives_back(events: Seq<JsonView>, id: Seq<char>, given: Seq<char>) -> bool {
    let answers = |e: JsonView|
        e.get("kind"@) == Some(JsonView::Str("tool_result"@)) && e.get("id"@) == Some(
            JsonView::Str(id),
        );
    ||| exists|j: int|
        0 <= j < events.len() && answers(#[trigger] events[j]) && (forall|k: int|
            0 <= k < j ==> !answers(#[trigger] events[k])) && given == (match events[j].get(
            "content"@,
        ) {
            Some(JsonView::Str(s)) => s,
            _ => "(no result)"@,
        })
    ||| (forall|k: int| 0 <= k < events.len() ==> !answers(#[trigger] events[k])) && given
        == "(no result)"@
}

proof fn lemma_gives_back(events: Seq<JsonView>, id: Seq<char>, given: Seq<char>)
    requires
        gives_back(events, id, given),
    ensures
        field_or(result_of(events, id), "content"@, "(no result)"@) == given,
    decreases events.len(),
{
    let answers = |e: JsonView|
        e.get("kind"@) == Some(JsonView::Str("tool_result"@)) && e.get("id"@) == Some(
            JsonView::Str(id),
        );
    assert forall|k: int| 0 <= k < events.len() implies answers(#[trigger] events[k])
        == is_result_of(events[k], id) by {}
    if events.len() > 0 && !is_result_of(events[0], id) {
        let rest = events.drop_first();
        assert(!answers(events[0]));
        assert(gives_back(rest, id, given)) by {
            if exists|j: int|
                0 <= j < events.len() && answers(#[trigger] events[j]) && (forall|k: int|
                    0 <= k < j ==> !answers(#[trigger] events[k])) && given == (match events[j].get(
                    "content"@,
                ) {
                    Some(JsonView::Str(s)) => s,
                    _ => "(no result)"@,
                }) {
                let j = choose|j: int|
                    0 <= j < events.len() && answers(#[trigger] events[j]) && (forall|k: int|
                        0 <= k < j ==> !answers(#[trigger] events[k])) && given == (
                    match events[j].get("content"@) {
                        Some(JsonView::Str(s)) => s,
                        _ => "(no result)"@,
                    });
                assert(answers(events[j]));
                assert(j > 0);
                assert(rest[j - 1] == events[j]);
                assert forall|k: int| 0 <= k < j - 1 implies !answers(#[trigger] rest[k]) by {
                    assert(rest[k] == events[k + 1]);
                }
            } else {
                assert forall|k: int| 0 <= k < rest.len() implies !answers(#[trigger] rest[k]) by {
                    assert(rest[k] == events[k + 1]);
                }
            }
        }
        lemma_gives_back(rest, id, given);
    } else if events.len() > 0 {
        assert(answers(events[0]));
    }
}

/// Whether `lines` say of each of the calls at `places` what it was and what it gave back.
pub open spec fn say_calls(
    events: Seq<JsonView>,
    places: Seq<int>,
    given: Seq<Seq<char>>,
    lines: Seq<Seq<char>>,
) -> bool {
    &&& lines.len() == places.len() == given.len()
    &&& forall|k: int|
        0 <= k < places.len() ==> gives_back(
            events,
            events[#[trigger] places[k]].str_or("id"@, ""@),
            given[k],
        ) && lines[k] == "- `"@ + events[places[k]].str_or("name"@, "?"@) + "` → `"@
            + text::clipped(given[k], 200, "..."@) + "`\n"@
}

/// Whether `lines` give the reasoning of each of the events at `places`.
pub open spec fn say_reasoning(
    events: Seq<JsonView>,
    places: Seq<int>,
    lines: Seq<Seq<char>>,
) -> bool {
    &&& lines.len() == places.len()
    &&& forall|k: int|
        0 <= k < places.len() ==> #[trigger] lines[k] == (match events[places[k]].get("content"@) {
            Some(JsonView::Str(s)) => "*Reasoning:* "@ + text::clipped(s, 500, "..."@) + "\n\n"@,
            _ => ""@,
        })
}

proof fn lemma_places_of_front(events: Seq<JsonView>, kind: Seq<char>, n: u64, places: Seq<int>)
    requires
        places_of(events, kind, n, places),
        events.len() > 0,
    ensures
        is_kind_in(events.last(), kind, n) ==> places.len() > 0 && places.last() == events.len() - 1
            && places_of(events.drop_last(), kind, n, places.drop_last()),
        !is_kind_in(events.last(), kind, n) ==> places_of(events.drop_last(), kind, n, places),
{
    let m = events.len() - 1;
    let front = events.drop_last();
    assert forall|i: int| 0 <= i < front.len() implies front[i] == events[i] by {}
    if is_kind_in(events.last(), kind, n) {
        assert(events[m].get("kind"@) == Some(JsonView::Str(kind)));
        assert(places.contains(m));
        let k = choose|k: int| 0 <= k < places.len() && places[k] == m;
        if k < places.len() - 1 {
            assert(places[k] < places[k + 1]);
        }
        let less = places.drop_last();
        assert forall|j: int| 0 <= j < less.len() implies 0 <= #[trigger] less[j] < front.len()
            && front[less[j]].get("kind"@) == Some(JsonView::Str(kind))
                && front[less[j]].u64_at("iteration"@) == Some(n) by {
            assert(places[j] < places[k]);
        }
        assert forall|i: int|
            0 <= i < front.len() && (#[trigger] front[i]).get("kind"@) == Some(JsonView::Str(kind))
                && front[i].u64_at("iteration"@) == Some(n) implies less.contains(
            i,
        ) by {
            assert(events[i] == front[i]);
            assert(places.contains(i));
            let j = choose|j: int| 0 <= j < places.len() && places[j] == i;
            assert(less[j] == i);
        }
    } else {
        assert forall|j: int| 0 <= j < places.len() implies 0 <= #[trigger] places[j] < front.len()
            && front[places[j]].get("kind"@) == Some(JsonView::Str(kind))
                && front[places[j]].u64_at("iteration"@) == Some(n) by {
            assert(events[places[j]].get("kind"@) == Some(JsonView::Str(kind)));
            assert(places[j] != m);
        }
        assert forall|i: int|
            0 <= i < front.len() && (#[trigger] front[i]).get("kind"@) == Some(JsonView::Str(kind))
                && front[i].u64_at("iteration"@) == Some(n) implies places.contains(
            i,
        ) by {
            assert(events[i] == front[i]);
        }
    }
}

proof fn lemma_joined_grows(parts: Seq<Seq<char>>)
    requires
        parts.len() > 0,
    ensures
        text::joined(parts, ""@) == text::joined(parts.drop_last(), ""@) + parts.last(),
{
    reveal_strlit("");
    assert(text::joined(parts, ""@) =~= text::joined(parts.drop_last(), ""@) + parts.last());
}

proof fn lemma_joined_in_three(parts: Seq<Seq<char>>, k: int)
    requires
        0 <= k < parts.len(),
    ensures
        exists|back: Seq<char>|
            text::joined(parts, ""@) == #[trigger] (text::joined(parts.take(k), ""@) + parts[k]
                + back),
    decreases parts.len(),
{
    lemma_joined_grows(parts);
    let less = parts.drop_last();
    if k == parts.len() - 1 {
        assert(parts.take(k) =~= less);
        assert(text::joined(parts, ""@) =~= text::joined(parts.take(k), ""@) + parts[k]
            + Seq::<char>::empty());
    } else {
        lemma_joined_in_three(less, k);
        let back = choose|back: Seq<char>|
            text::joined(less, ""@) == #[trigger] (text::joined(less.take(k), ""@) + less[k]
                + back);
        assert(less.take(k) =~= parts.take(k));
        assert(text::joined(parts, ""@) =~= text::joined(parts.take(k), ""@) + parts[k] + (back
            + parts.last()));
    }
}

proof fn lemma_calls_are_said(
    events: Seq<JsonView>,
    front: Seq<JsonView>,
    n: u64,
    places: Seq<int>,
    given: Seq<Seq<char>>,
    lines: Seq<Seq<char>>,
)
    requires
        front.len() <= events.len(),
        front == events.take(front.len() as int),
        places_of(front, "tool_call"@, n, places),
        say_calls(events, places, given, lines),
    ensures
        call_part(events, front, n) == text::joined(lines, ""@),
    decreases front.len(),
{
    if front.len() == 0 {
        if places.len() > 0 {
            assert(0 <= places[0] < front.len());
        }
    } else {
        lemma_places_of_front(front, "tool_call"@, n, places);
        assert(front.drop_last() =~= events.take(front.len() - 1));
        assert(front.last() == events[front.len() - 1]);
        if is_kind_in(front.last(), "tool_call"@, n) {
            let k = places.len() - 1;
            assert forall|j: int| 0 <= j < places.drop_last().len() implies gives_back(
                events,
                events[#[trigger] places.drop_last()[j]].str_or("id"@, ""@),
                given.drop_last()[j],
            ) && lines.drop_last()[j] == "- `"@ + events[places.drop_last()[j]].str_or(
                "name"@,
                "?"@,
            ) + "` → `"@ + text::clipped(given.drop_last()[j], 200, "..."@) + "`\n"@ by {
                assert(places[j] == places.drop_last()[j]);
            }
            lemma_calls_are_said(
                events,
                front.drop_last(),
                n,
                places.drop_last(),
                given.drop_last(),
                lines.drop_last(),
            );
            assert(places[k] == front.len() - 1);
            lemma_gives_back(events, events[places[k]].str_or("id"@, ""@), given[k]);
            lemma_joined_grows(lines);
        } else {
            lemma_calls_are_said(events, front.drop_last(), n, places, given, lines);
            assert(call_part(events, front, n) =~= text::joined(lines, ""@));
        }
    }
}

proof fn lemma_reasoning_is_said(
    events: Seq<JsonView>,
    n: u64,
    places: Seq<int>,
    lines: Seq<Seq<char>>,
)
    requires
        places_of(events, "reasoning"@, n, places),
        say_reasoning(events, places, lines),
    ensures
        reasoning_part(events, n) == text::joined(lines, ""@),
    decreases events.len(),
{
    reveal_strlit("");
    if events.len() == 0 {
        if places.len() > 0 {
            assert(0 <= places[0] < events.len());
        }
    } else {
        lemma_places_of_front(events, "reasoning"@, n, places);
        if is_kind_in(events.last(), "reasoning"@, n) {
            let k = places.len() - 1;
            assert(lines[k] == lines.last());
            assert(""@ =~= Seq::<char>::empty());
            assert(lines.last() == reasoning_line(events.last(), n));
            assert forall|j: int| 0 <= j < places.drop_last().len()
                implies #[trigger] lines.drop_last()[j]
                == (match events.drop_last()[places.drop_last()[j]].get("content"@) {
                Some(JsonView::Str(s)) => "*Reasoning:* "@ + text::clipped(s, 500, "..."@)
                    + "\n\n"@,
                _ => ""@,
            }) by {
                assert(lines[j] == lines.drop_last()[j]);
                assert(0 <= places.drop_last()[j] < events.drop_last().len());
            }
            lemma_reasoning_is_said(
                events.drop_last(),
                n,
                places.drop_last(),
                lines.drop_last(),
            );
            lemma_joined_grows(lines);
        } else {
            assert forall|j: int| 0 <= j < places.len() implies #[trigger] lines[j] == (
            match events.drop_last()[places[j]].get("content"@) {
                Some(JsonView::Str(s)) => "*Reasoning:* "@ + text::clipped(s, 500, "..."@)
                    + "\n\n"@,
                _ => ""@,
            }) by {
                assert(0 <= places[j] < events.drop_last().len());
            }
            lemma_reasoning_is_said(events.drop_last(), n, places, lines);
            assert(reasoning_part(events, n) =~= text::joined(lines, ""@));
        }
    }
}

/// Whether a text opens with the heading of an iteration.
pub open spec fn opens_with_heading(s: Seq<char>, n: nat) -> bool {
    exists|rest: Seq<char>|
        s == #[trigger] ("### Iteration "@ + text::decimal(n) + "\n\n"@ + rest)
}

proof fn lemma_trace_around(events: Seq<JsonView>, last: nat, n: nat)
    requires
        1 <= n <= last <= u64::MAX,
    ensures
        exists|rest: Seq<char>|
            trace_part(events, last) == #[trigger] (trace_part(events, (n - 1) as nat)
                + iteration_part(events, n as u64) + rest) && (n == last ==> rest.len() == 0) && (n
                < last ==> opens_with_heading(rest, n + 1)),
    decreases last,
{
    let front = trace_part(events, (last - 1) as nat);
    let part = iteration_part(events, last as u64);
    if n == last {
        assert(front + part =~= front + part + Seq::<char>::empty());
    } else {
        lemma_trace_around(events, (last - 1) as nat, n);
        let before = trace_part(events, (n - 1) as nat);
        let here = iteration_part(events, n as u64);
        let rest = choose|rest: Seq<char>|
            front == #[trigger] (before + here + rest) && (n == last - 1 ==> rest.len() == 0) && (n
                < last - 1 ==> opens_with_heading(rest, n + 1));
        assert(front + part =~= before + here + (rest + part));
        let heading = "### Iteration "@ + text::decimal(n + 1) + "\n\n"@;
        if n == last - 1 {
            let tail = reasoning_part(events, last as u64) + action_part(events, last as u64);
            assert(rest + part =~= heading + tail);
        } else {
            let more = choose|more: Seq<char>|
                rest == #[trigger] ("### Iteration "@ + text::decimal(n + 1) + "\n\n"@ + more);
            assert(rest + part =~= heading + (more + part));
        }
    }
}

/// What the report says before its trace.
pub open spec fn lead(events: Seq<JsonView>) -> Seq<char> {
    head_part(events) + "---\n\n## Final Answer\n\n"@ + field_or(
        first_of(events, "final_answer"@),
        "content"@,
        "(no answer)"@,
    ) + "\n\n---\n\n## Trace ("@ + text::decimal(last_iteration(events) as nat)
        + " iterations)\n\n"@
}

proof fn lemma_report_around(events: Seq<JsonView>, n: u64)
    requires
        1 <= n <= last_iteration(events),
    ensures
        exists|rest: Seq<char>|
            report_of(events) == #[trigger] (lead(events) + trace_part(events, (n - 1) as nat)
                + iteration_part(events, n) + rest) && (n == last_iteration(events) ==> rest
                == "---\n"@) && (n < last_iteration(events) ==> opens_with_heading(
                rest,
                (n + 1) as nat,
            )),
{
    let last = last_iteration(events) as nat;
    lemma_trace_around(events, last, n as nat);
    let before = trace_part(events, (n - 1) as nat);
    let here = iteration_part(events, n);
    let rest = choose|rest: Seq<char>|
        trace_part(events, last) == #[trigger] (before + here + rest) && (n == last ==> rest.len()
            == 0) && (n < last ==> opens_with_heading(rest, (n + 1) as nat));
    assert(report_of(events) =~= lead(events) + before + here + (rest + "---\n"@));
    if n == last {
        assert(rest + "---\n"@ =~= "---\n"@);
    } else {
        let more = choose|more: Seq<char>|
            rest == #[trigger] ("### Iteration "@ + text::decimal((n + 1) as nat) + "\n\n"@ + more);
        assert(rest + "---\n"@ =~= "### Iteration "@ + text::decimal((n + 1) as nat) + "\n\n"@ + (
        more + "---\n"@));
    }
}

proof fn lemma_first_in(events: Seq<JsonView>, kind: Seq<char>, n: u64, places: Seq<int>)
    requires
        places_of(events, kind, n, places),
    ensures
        places.len() > 0 ==> first_in(events, kind, n) == Some(events[places[0]]),
        places.len() == 0 ==> first_in(events, kind, n) is None,
    decreases events.len(),
{
    if events.len() == 0 {
        if places.len() > 0 {
            assert(0 <= places[0] < events.len());
        }
    } else {
        let rest = events.drop_first();
        assert forall|i: int| 0 <= i < rest.len() implies rest[i] == events[i + 1] by {}
        if is_kind_in(events[0], kind, n) {
            assert(events[0].get("kind"@) == Some(JsonView::Str(kind)));
            assert(places.contains(0));
            let k = choose|k: int| 0 <= k < places.len() && places[k] == 0;
            if k > 0 {
                assert(0 <= places[0] < places[k]);
            }
        } else {
            let less = Seq::new(places.len(), |k: int| places[k] - 1);
            assert forall|k: int| 0 <= k < less.len() implies 0 <= #[trigger] less[k] < rest.len()
                && rest[less[k]].get("kind"@) == Some(JsonView::Str(kind))
                    && rest[less[k]].u64_at("iteration"@) == Some(n) by {
                assert(0 <= places[k] < events.len());
                assert(places[k] != 0);
                assert(rest[less[k]] == events[places[k]]);
            }
            assert forall|i: int|
                0 <= i < rest.len() && (#[trigger] rest[i]).get("kind"@) == Some(
                    JsonView::Str(kind),
                ) && rest[i].u64_at("iteration"@) == Some(n) implies less.contains(
                i,
            ) by {
                assert(events[i + 1] == rest[i]);
                assert(places.contains(i + 1));
                let k = choose|k: int| 0 <= k < places.len() && places[k] == i + 1;
                assert(less[k] == i);
            }
            lemma_first_in(rest, kind, n, less);
            if places.len() > 0 {
                assert(0 <= less[0] < rest.len());
                assert(rest[less[0]] == events[places[0]]);
            }
        }
    }
}

/// The part of the report on an iteration stands between its heading and the next one, or the
/// report's end. It holds the reasoning of the iteration and behind it a line for each of its
/// calls, in their order, with the name of the call and the beginning of what the first result
/// for it holds. It holds nothing else.
pub proof fn law_report_shows_an_iteration_with_calls(
    events: Seq<JsonView>,
    n: u64,
    said: Seq<int>,
    thoughts: Seq<Seq<char>>,
    called: Seq<int>,
    given: Seq<Seq<char>>,
    lines: Seq<Seq<char>>,
)
    requires
        1 <= n <= last_iteration(events),
        places_of(events, "reasoning"@, n, said),
        say_reasoning(events, said, thoughts),
        places_of(events, "tool_call"@, n, called),
        called.len() > 0,
        say_calls(events, called, given, lines),
    ensures
        exists|before: Seq<char>, rest: Seq<char>|
            report_of(events) == #[trigger] (before + ("### Iteration "@ + text::decimal(n as nat)
                + "\n\n"@ + text::joined(thoughts, ""@) + text::joined(lines, ""@) + "\n"@) + rest)
                && (n == last_iteration(events) ==> rest == "---\n"@) && (n < last_iteration(events)
                ==> opens_with_heading(rest, (n + 1) as nat)),
{
    lemma_report_around(events, n);
    lemma_reasoning_is_said(events, n, said, thoughts);
    assert(events.take(events.len() as int) =~= events);
    lemma_calls_are_said(events, events, n, called, given, lines);
    lemma_first_in(events, "tool_call"@, n, called);
    let before = lead(events) + trace_part(events, (n - 1) as nat);
    assert(iteration_part(events, n) =~= "### Iteration "@ + text::decimal(n as nat) + "\n\n"@
        + text::joined(thoughts, ""@) + text::joined(lines, ""@) + "\n"@);
    let rest = choose|rest: Seq<char>|
        report_of(events) == #[trigger] (before + iteration_part(events, n) + rest) && (n
            == last_iteration(events) ==> rest == "---\n"@) && (n < last_iteration(events)
            ==> opens_with_heading(rest, (n + 1) as nat));
}

/// Where an iteration makes no call, its part of the report holds its reasoning and, behind it,
/// the whole of its first answer where it has one.
pub proof fn law_report_shows_an_iteration_without_calls(
    events: Seq<JsonView>,
    n: u64,
    said: Seq<int>,
    thoughts: Seq<Seq<char>>,
    answered: Seq<int>,
    answer: Seq<char>,
)
    requires
        1 <= n <= last_iteration(events),
        places_of(events, "reasoning"@, n, said),
        say_reasoning(events, said, thoughts),
        places_of(events, "tool_call"@, n, Seq::empty()),
        places_of(events, "final_answer"@, n, answered),
        answered.len() > 0 ==> answer == "*Final answer:* "@ + events[answered[0]].str_or(
            "content"@,
            ""@,
        ) + "\n\n"@,
        answered.len() == 0 ==> answer == ""@,
    ensures
            exists|before: Seq<char>, rest: Seq<char>|
                report_of(events) == #[trigger] (before + ("### Iteration "@ + text::decimal(
                    n as nat,
                ) + "\n\n"@ + text::joined(thoughts, ""@) + answer) + rest) && (n
                    == last_iteration(events) ==> rest == "---\n"@) && (n < last_iteration(events)
                    ==> opens_with_heading(rest, (n + 1) as nat)),
{
    reveal_strlit("");
    lemma_report_around(events, n);
    lemma_reasoning_is_said(events, n, said, thoughts);
    lemma_first_in(events, "tool_call"@, n, Seq::empty());
    lemma_first_in(events, "final_answer"@, n, answered);
    let before = lead(events) + trace_part(events, (n - 1) as nat);
    assert(iteration_part(events, n) =~= "### Iteration "@ + text::decimal(n as nat) + "\n\n"@
        + text::joined(thoughts, ""@) + answer);
    let rest = choose|rest: Seq<char>|
        report_of(events) == #[trigger] (before + iteration_part(events, n) + rest) && (n
            == last_iteration(events) ==> rest == "---\n"@) && (n < last_iteration(events)
            ==> opens_with_heading(rest, (n + 1) as nat));
}

proof fn lemma_call_is_among(events: Seq<JsonView>, front: Seq<JsonView>, i: int, n: u64)
    requires
        0 <= i < front.len(),
        is_kind_in(front[i], "tool_call"@, n),
    ensures
        exists|a: Seq<char>, b: Seq<char>|
            call_part(events, front, n) == #[trigger] (a + call_line(events, front[i], n) + b),
    decreases front.len(),
{
    let less = front.drop_last();
    let line = call_line(events, front[i], n);
    if i == front.len() - 1 {
        assert(call_part(events, front, n) =~= call_part(events, less, n) + line
            + Seq::<char>::empty());
    } else {
        lemma_call_is_among(events, less, i, n);
        let (a, b) = choose|a: Seq<char>, b: Seq<char>|
            call_part(events, less, n) == #[trigger] (a + call_line(events, less[i], n) + b);
        assert(call_part(events, front, n) =~= a + line + (b + call_line(
            events,
            front.last(),
            n,
        )));
    }
}

/// Every call that names an iteration stands in the report, between the heading of that
/// iteration and the next heading or the report's end, in a line with the call's name and the
/// beginning of what the first result for the call holds.
pub proof fn law_report_shows_every_call(
    events: Seq<JsonView>,
    i: int,
    n: u64,
    name: Seq<char>,
    id: Seq<char>,
    given: Seq<char>,
)
    requires
        0 <= i < events.len(),
        events[i].get("kind"@) == Some(JsonView::Str("tool_call"@)),
        events[i].u64_at("iteration"@) == Some(n),
        events[i].get("name"@) == Some(JsonView::Str(name)),
        events[i].get("id"@) == Some(JsonView::Str(id)),
        gives_back(events, id, given),
        n >= 1,
    ensures
        exists|before: Seq<char>, within: Seq<char>, behind: Seq<char>, rest: Seq<char>|
            report_of(events) == #[trigger] (before + ("### Iteration "@ + text::decimal(n as nat)
                + "\n\n"@ + within + ("- `"@ + name + "` → `"@ + text::clipped(given, 200, "..."@)
                + "`\n"@) + behind) + rest) && (rest == "---\n"@ || opens_with_heading(
                rest,
                (n + 1) as nat,
            )),
{
    law_last_iteration_is_the_last(events, i);
    lemma_report_around(events, n);
    lemma_call_is_among(events, events, i, n);
    lemma_gives_back(events, id, given);
    lemma_is_there(events, "tool_call"@, n, i);
    let line = "- `"@ + name + "` → `"@ + text::clipped(given, 200, "..."@) + "`\n"@;
    assert(call_line(events, events[i], n) == line);
    let (a, b) = choose|a: Seq<char>, b: Seq<char>|
        call_part(events, events, n) == #[trigger] (a + call_line(events, events[i], n) + b);
    let before = lead(events) + trace_part(events, (n - 1) as nat);
    let within = reasoning_part(events, n) + a;
    let behind = b + "\n"@;
    assert(iteration_part(events, n) =~= "### Iteration "@ + text::decimal(n as nat) + "\n\n"@
        + within + line + behind);
    let rest = choose|rest: Seq<char>|
        report_of(events) == #[trigger] (before + iteration_part(events, n) + rest) && (n
            == last_iteration(events) ==> rest == "---\n"@) && (n < last_iteration(events)
            ==> opens_with_heading(rest, (n + 1) as nat));
}

proof fn lemma_is_there(events: Seq<JsonView>, kind: Seq<char>, n: u64, i: int)
    requires
        0 <= i < events.len(),
        is_kind_in(events[i], kind, n),
    ensures
        first_in(events, kind, n) is Some,
    decreases events.len(),
{
    if !is_kind_in(events[0], kind, n) {
        assert(events.drop_first()[i - 1] == events[i]);
        lemma_is_there(events.drop_first(), kind, n, i - 1);
    }
}

/// The report traces as many iterations as the highest number that an event names.
pub proof fn law_report_counts_iterations(events: Seq<JsonView>, n: u64)
    requires
        forall|i: int|
            0 <= i < events.len()
                ==> ((#[trigger] events[i]).u64_at("iteration"@) matches Some(m) ==> m <= n),
        n == 0 || exists|i: int|
            0 <= i < events.len() && (#[trigger] events[i]).u64_at("iteration"@) == Some(n),
    ensures
        last_iteration(events) == n,
{
    lemma_last_is_at_most(events, n);
    if n > 0 {
        let i = choose|i: int|
            0 <= i < events.len() && (#[trigger] events[i]).u64_at("iteration"@) == Some(n);
        law_last_iteration_is_the_last(events, i);
    }
}

proof fn lemma_last_is_at_most(events: Seq<JsonView>, n: u64)
    requires
        forall|i: int|
            0 <= i < events.len()
                ==> ((#[trigger] events[i]).u64_at("iteration"@) matches Some(m) ==> m <= n),
    ensures
        last_iteration(events) <= n,
    decreases events.len(),
{
    if events.len() > 0 {
        let less = events.drop_last();
        assert forall|i: int| 0 <= i < less.len()
            implies ((#[trigger] less[i]).u64_at("iteration"@) matches Some(m) ==> m <= n) by {
            assert(less[i] == events[i]);
        }
        lemma_last_is_at_most(less, n);
        assert(events.last() == events[events.len() - 1]);
    }
}

/// Whether an event is the first of its kind.
pub open spec fn stands_first(events: Seq<JsonView>, kind: Seq<char>, i: int) -> bool {
    &&& 0 <= i < events.len()
    &&& events[i].get("kind"@) == Some(JsonView::Str(kind))
    &&& forall|j: int|
        0 <= j < i ==> (#[trigger] events[j]).get("kind"@) != Some(JsonView::Str(kind))
}

/// The report opens with what the first event of a run's start says of its name, its time and its
/// model, with what the first event of its end says of its duration and its tokens, and with the
/// task where there is one.
pub proof fn law_report_opens_with_the_run(
    events: Seq<JsonView>,
    s: int,
    e: int,
    name: Seq<char>,
    ts: Seq<char>,
    model: Seq<char>,
    prompt: Seq<char>,
    task: Seq<char>,
    duration: u64,
    tokens: u64,
)
    requires
        stands_first(events, "run_start"@, s),
        stands_first(events, "run_end"@, e),
        events[s].get("name"@) == Some(JsonView::Str(name))
            || !(events[s].get("name"@) matches Some(
            JsonView::Str(_),
        )) && events[s].get("task"@) == Some(JsonView::Str(name)),
        events[s].get("ts"@) == Some(JsonView::Str(ts)),
        events[s].get("model"@) == Some(JsonView::Str(model)),
        events[s].get("user_prompt"@) == Some(JsonView::Str(prompt)),
        prompt.len() > 0 ==> task == "**Task:** "@ + prompt + "\n\n"@,
        prompt.len() == 0 ==> task == ""@,
        events[e].u64_at("duration_ms"@) == Some(duration),
        events[e].u64_at("total_tokens"@) == Some(tokens),
    ensures
            exists|rest: Seq<char>|
                report_of(events) == #[trigger] ("# Run: "@ + name + " — "@ + ts
                    + "\n\n**Model:** "@ + model + " | **Duration:** "@ + text::decimal(
                    duration as nat,
                ) + "ms | **Tokens:** "@ + text::decimal(tokens as nat) + "\n\n"@ + task
                    + "---\n\n## Final Answer\n\n"@ + rest),
{
    reveal_strlit("");
    lemma_first_of(events, "run_start"@, s);
    lemma_first_of(events, "run_end"@, e);
    let head = "# Run: "@ + name + " — "@ + ts + "\n\n**Model:** "@ + model + " | **Duration:** "@
        + text::decimal(duration as nat) + "ms | **Tokens:** "@ + text::decimal(tokens as nat)
        + "\n\n"@ + task;
    assert(head_part(events) =~= head);
    let rest = field_or(first_of(events, "final_answer"@), "content"@, "(no answer)"@)
        + "\n\n---\n\n## Trace ("@ + text::decimal(last_iteration(events) as nat)
        + " iterations)\n\n"@ + trace_part(events, last_iteration(events) as nat) + "---\n"@;
    assert(report_of(events) =~= head + "---\n\n## Final Answer\n\n"@ + rest);
}

/// Between the head and the trace stands the answer that the run gave first, whole.
pub proof fn law_report_gives_the_answer(events: Seq<JsonView>, i: int, answer: Seq<char>)
    requires
        stands_first(events, "final_answer"@, i) && events[i].get("content"@) == Some(
            JsonView::Str(answer),
        ) || (forall|j: int|
            0 <= j < events.len() ==> (#[trigger] events[j]).get("kind"@) != Some(
                JsonView::Str("final_answer"@),
            )) && answer == "(no answer)"@,
    ensures
        exists|before: Seq<char>, rest: Seq<char>|
            report_of(events) == #[trigger] (before + ("---\n\n## Final Answer\n\n"@ + answer
                + "\n\n---\n\n## Trace ("@ + text::decimal(last_iteration(events) as nat)
                + " iterations)\n\n"@) + rest),
{
    if stands_first(events, "final_answer"@, i) {
        lemma_first_of(events, "final_answer"@, i);
    } else {
        lemma_none_of(events, "final_answer"@);
    }
    let rest = trace_part(events, last_iteration(events) as nat) + "---\n"@;
    assert(report_of(events) =~= head_part(events) + ("---\n\n## Final Answer\n\n"@ + answer
        + "\n\n---\n\n## Trace ("@ + text::decimal(last_iteration(events) as nat)
        + " iterations)\n\n"@) + rest);
}

proof fn lemma_none_of(events: Seq<JsonView>, kind: Seq<char>)
    requires
        forall|j: int|
            0 <= j < events.len() ==> (#[trigger] events[j]).get("kind"@) != Some(
                JsonView::Str(kind),
            ),
    ensures
        first_of(events, kind) is None,
    decreases events.len(),
{
    if events.len() > 0 {
        let rest = events.drop_first();
        assert forall|j: int| 0 <= j < rest.len() implies (#[trigger] rest[j]).get("kind"@) != Some(
            JsonView::Str(kind),
        ) by {
            assert(rest[j] == events[j + 1]);
        }
        assert(events[0].get("kind"@) != Some(JsonView::Str(kind)));
        lemma_none_of(rest, kind);
    }
}

/// Every line of a log that is JSON is read, in the order of the lines.
pub proof fn law_every_line_of_json_is_read(lines: Seq<Seq<char>>, line: Seq<char>)
    ensures
        parsed_lines(Seq::empty()) == Seq::<JsonView>::empty(),
        json::json_parse(line) matches Ok(v) ==> parsed_lines(lines.push(line)) == parsed_lines(
            lines,
        ).push(v),
{
    assert(lines.push(line).drop_last() =~= lines);
}

/// A report can be made if every reasoning and every result that it shows can be cut where it is
/// cut; so it always can where none of them is longer than what is shown of it.
pub proof fn law_report_of_short_texts_can_be_made(
    events: Seq<JsonView>,
)
    ensures
        (forall|i: int, t: Seq<char>|
            0 <= i < events.len() && #[trigger] events[i].get("content"@) == Some(JsonView::Str(t))
                ==> #[trigger] text::byte_len(t) <= 200) ==> cuttable(events),
{
    if forall|i: int, t: Seq<char>|
        0 <= i < events.len() && #[trigger] events[i].get("content"@) == Some(JsonView::Str(t))
            ==> #[trigger] text::byte_len(t) <= 200 {
        assert forall|i: int| 0 <= i < events.len() implies event_cuttable(
            events,
            #[trigger] events[i],
        ) by {
            let e = events[i];
            if e.str_at("content"@) is Some {
                let t = e.str_at("content"@)->0;
                assert(events[i].get("content"@) == Some(JsonView::Str(t)));
                assert(text::byte_len(t) <= 200);
            }
            lemma_result_is_short(events, e.str_or("id"@, ""@));
        }
    }
}

proof fn lemma_result_is_short(events: Seq<JsonView>, id: Seq<char>)
    requires
        forall|i: int, t: Seq<char>|
            0 <= i < events.len() && #[trigger] events[i].get("content"@) == Some(JsonView::Str(t))
                ==> #[trigger] text::byte_len(t) <= 200,
    ensures
        text::byte_len(field_or(result_of(events, id), "content"@, "(no result)"@)) <= 200,
    decreases events.len(),
{
    if events.len() == 0 || is_result_of(events[0], id) {
        reveal_strlit("(no result)");
        lemma_plain_bytes("(no result)"@);
        if events.len() > 0 && events[0].str_at("content"@) is Some {
            let t = events[0].str_at("content"@)->0;
            assert(events[0].get("content"@) == Some(JsonView::Str(t)));
            assert(text::byte_len(t) <= 200);
        }
    } else {
        let rest = events.drop_first();
        assert forall|i: int, t: Seq<char>|
            0 <= i < rest.len() && #[trigger] rest[i].get("content"@) == Some(
                JsonView::Str(t),
            ) implies #[trigger] text::byte_len(t) <= 200 by {
            assert(events[i + 1].get("content"@) == Some(JsonView::Str(t)));
        }
        lemma_result_is_short(rest, id);
    }
}

proof fn lemma_plain_bytes(s: Seq<char>)
    requires
        forall|i: int| 0 <= i < s.len() ==> s[i] <= '\x7f',
    ensures
        text::byte_len(s) == s.len(),
    decreases s.len(),
{
    if s.len() > 0 {
        lemma_plain_bytes(s.drop_last());
        text::lemma_ascii_is_one_byte(s.last());
        text::lemma_bytes_add(s.drop_last(), seq![s.last()]);
        assert(s =~= s.drop_last() + seq![s.last()]);
    }
}

} // verus!
