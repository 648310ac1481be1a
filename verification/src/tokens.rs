//! How many tokens a text is likely to take: one for every three and a half characters, as
//! single-precision arithmetic counts them.

use vstd::prelude::*;

use crate::json;
use crate::json::{Json, JsonView, Members};
use crate::openai;
use crate::openai::{CallView, Message, MessageView, ToolCall};
use crate::text;

verus! {

/// The whole number nearest to `p / q`, the even one of two that are equally near.
pub open spec fn nearest(p: nat, q: nat) -> nat {
    let d = p / q;
    let r = p % q;
    if 2 * r < q {
        d
    } else if 2 * r > q {
        d + 1
    } else {
        d + d % 2
    }
}

/// `q`, doubled as often as it takes for `p / q` to have a whole part of at most 24 binary
/// places, which is what a single-precision number holds.
pub open spec fn scaled(p: nat, q: nat) -> nat
    decreases p - q,
{
    if q == 0 || p < q * 0x100_0000 {
        q
    } else {
        scaled(p, 2 * q)
    }
}

/// The single-precision number nearest to `n`.
pub open spec fn single(n: nat) -> nat {
    nearest(n, scaled(n, 1)) * scaled(n, 1)
}

/// The single-precision number nearest to `2 * m / 7`, rounded up to a whole one. Below `2^22`
/// a single-precision number has two binary places or more behind the point, and no seventh
/// part of a number is rounded to a whole number there; below `2^23` it has one, and from there
/// on none.
pub open spec fn sevenths_up(m: nat) -> nat {
    if 2 * m < 7 * 0x40_0000 {
        (2 * m + 6) / 7
    } else if 2 * m < 7 * 0x80_0000 {
        (nearest(4 * m, 7) + 1) / 2
    } else {
        nearest(2 * m, scaled(2 * m, 7)) * (scaled(2 * m, 7) / 7)
    }
}

/// How many tokens so many characters are likely to take.
pub open spec fn estimate(n: nat) -> nat {
    let tokens = sevenths_up(single(n));
    if tokens <= usize::MAX {
        tokens
    } else {
        usize::MAX as nat
    }
}

fn nearest_to(p: u128, q: u128) -> (r: u128)
    requires
        0 < q < 0x1_0000_0000_0000_0000_0000,
        p < 0x1_0000_0000_0000_0000_0000,
    ensures
        r == nearest(p as nat, q as nat),
        r <= p + 1,
{
    let d: u128 = p / q;
    let rest: u128 = p % q;
    proof {
        assert(p / q <= p) by (nonlinear_arith)
            requires
                q > 0,
        ;
    }
    if 2 * rest < q {
        d
    } else if 2 * rest > q {
        d + 1
    } else {
        d + d % 2
    }
}

fn scale_for(p: u128, q: u128) -> (r: u128)
    requires
        0 < q < 0x100,
        p < 0x1_0000_0000_0000_0000_0000,
    ensures
        r == scaled(p as nat, q as nat),
        0 < r < 0x1_0000_0000_0000_0000_0000,
        r == q || r <= p,
{
    let mut s: u128 = q;
    while p >= s * 0x100_0000
        invariant
            0 < s,
            s == q || s <= p,
            q < 0x100,
            s < 0x1_0000_0000_0000_0000_0000,
            p < 0x1_0000_0000_0000_0000_0000,
            scaled(p as nat, s as nat) == scaled(p as nat, q as nat),
        decreases p - s,
    {
        s = 2 * s;
    }
    s
}

/// How many tokens so many characters are likely to take.
pub fn estimate_count(n: usize) -> (r: usize)
    ensures
        r == estimate(n as nat),
{
    let p: u128 = n as u128;
    let s: u128 = scale_for(p, 1);
    let near: u128 = nearest_to(p, s);
    proof {
        lemma_nearest_times(p as nat, s as nat);
    }
    let m: u128 = near * s;
    let tokens: u128 = if 2 * m < 7 * 0x40_0000 {
        (2 * m + 6) / 7
    } else if 2 * m < 7 * 0x80_0000 {
        (nearest_to(4 * m, 7) + 1) / 2
    } else {
        let t: u128 = scale_for(2 * m, 7);
        let near: u128 = nearest_to(2 * m, t);
        proof {
            lemma_nearest_times((2 * m) as nat, t as nat);
            assert(near * (t / 7) <= near * t) by (nonlinear_arith)
                requires
                    near >= 0,
                    t > 0,
            ;
        }
        near * (t / 7)
    };
    if tokens <= usize::MAX as u128 {
        tokens as usize
    } else {
        usize::MAX
    }
}

proof fn lemma_nearest_times(p: nat, q: nat)
    requires
        q > 0,
    ensures
        nearest(p, q) * q <= p + q,
{
    let d = p / q;
    assert(d * q <= p && (d + 1) * q <= p + q) by (nonlinear_arith)
        requires
            d == p / q,
            q > 0,
    ;
    assert((d + d % 2) * q <= (d + 1) * q) by (nonlinear_arith)
        requires
            q > 0,
            d >= 0,
    ;
}

/// How many tokens a text is likely to take.
pub fn estimate_tokens(s: &str) -> (r: usize)
    ensures
        r == estimate(s@.len()),
{
    estimate_count(text::to_chars(s).len())
}

/// A call of a tool in JSON.
pub open spec fn call_json(call: CallView) -> JsonView {
    JsonView::Object(
        json::no_members().push(("id"@, JsonView::Str(call.id))).push(
            ("type"@, JsonView::Str(call.call_type)),
        ).push(
            (
                "function"@,
                JsonView::Object(
                    json::no_members().push(("name"@, JsonView::Str(call.name))).push(
                        ("arguments"@, JsonView::Str(call.arguments)),
                    ),
                ),
            ),
        ),
    )
}

/// Calls of tools in JSON.
pub open spec fn calls_json(calls: Seq<CallView>) -> JsonView {
    JsonView::Array(Seq::new(calls.len(), |i: int| call_json(calls[i])))
}

/// Calls of tools in JSON.
pub fn calls_value(calls: &Vec<ToolCall>) -> (r: Json)
    ensures
        r@ == calls_json(openai::calls_view(calls@)),
{
    let mut items: Vec<Json> = Vec::new();
    let mut i: usize = 0;
    while i < calls.len()
        invariant
            i <= calls@.len(),
            items@.len() == i,
            forall|j: int| 0 <= j < i ==> (#[trigger] items@[j])@ == call_json(calls@[j]@),
        decreases calls@.len() - i,
    {
        let call = &calls[i];
        let function = Members::new().with("name", json::string(call.function.name.as_str())).with(
            "arguments",
            json::string(call.function.arguments.as_str()),
        ).object();
        items.push(
            Members::new().with("id", json::string(call.id.as_str())).with(
                "type",
                json::string(call.call_type.as_str()),
            ).with("function", function).object(),
        );
        i += 1;
    }
    proof {
        assert(json::items_view(items@) =~= calls_json(openai::calls_view(calls@))->Array_0);
    }
    json::array(items)
}

/// The calls of a message as they are written; nothing, where there are none.
pub open spec fn calls_text(calls: Option<Seq<CallView>>) -> Seq<char> {
    match calls {
        Some(c) => json::json_compact(calls_json(c)),
        None => ""@,
    }
}

/// How many tokens a message is likely to take: its text and its calls.
pub open spec fn message_estimate(m: MessageView) -> nat {
    let content = match m.content {
        Some(c) => c,
        None => ""@,
    };
    estimate(content.len()) + estimate(calls_text(m.tool_calls).len())
}

/// How many tokens messages are likely to take together.
pub open spec fn history_estimate(messages: Seq<MessageView>) -> nat
    decreases messages.len(),
{
    if messages.len() == 0 {
        0
    } else {
        history_estimate(messages.drop_last()) + message_estimate(messages.last())
    }
}

/// How many tokens messages are likely to take together, if that is a number that fits.
pub fn try_estimate_history_tokens(messages: &Vec<Message>) -> (r: Option<usize>)
    ensures
        match r {
            Some(n) => n == history_estimate(openai::messages_view(messages@)),
            None => history_estimate(openai::messages_view(messages@)) > usize::MAX,
        },
{
    let ghost all = openai::messages_view(messages@);
    let mut sum: usize = 0;
    let mut i: usize = 0;
    proof {
        assert(all.take(0) =~= Seq::empty());
    }
    while i < messages.len()
        invariant
            i <= messages@.len(),
            all == openai::messages_view(messages@),
            sum == history_estimate(all.take(i as int)),
        decreases messages@.len() - i,
    {
        proof {
            assert(all.take(i + 1).drop_last() =~= all.take(i as int));
            lemma_history_grows(all, i + 1);
        }
        let content: usize = match &messages[i].content {
            Some(c) => estimate_tokens(c.as_str()),
            None => estimate_tokens(""),
        };
        let calls: usize = match &messages[i].tool_calls {
            Some(c) => estimate_tokens(json::compact(&calls_value(c)).as_str()),
            None => estimate_tokens(""),
        };
        match add_estimates(sum, content, calls) {
            Some(n) => {
                sum = n;
            },
            None => {
                return None;
            },
        }
        i += 1;
    }
    proof {
        assert(all.take(i as int) =~= all);
    }
    Some(sum)
}

/// What was counted with the tokens of a message's text and of its calls, if that is a number
/// that fits.
pub fn add_estimates(sum: usize, content: usize, calls: usize) -> (r: Option<usize>)
    ensures
        match r {
            Some(n) => n == sum + content + calls,
            None => sum + content + calls > usize::MAX,
        },
{
    match sum.checked_add(content) {
        Some(n) => n.checked_add(calls),
        None => None,
    }
}

/// How many tokens messages are likely to take together.
pub fn estimate_history_tokens(messages: &Vec<Message>) -> (r: usize)
    requires
        history_estimate(openai::messages_view(messages@)) <= usize::MAX,
    ensures
        r == history_estimate(openai::messages_view(messages@)),
{
    match try_estimate_history_tokens(messages) {
        Some(n) => n,
        None => 0,
    }
}

proof fn lemma_history_grows(messages: Seq<MessageView>, i: int)
    requires
        0 <= i <= messages.len(),
    ensures
        history_estimate(messages.take(i)) <= history_estimate(messages),
    decreases messages.len() - i,
{
    if i < messages.len() {
        assert(messages.take(i + 1).drop_last() =~= messages.take(i));
        lemma_history_grows(messages, i + 1);
    } else {
        assert(messages.take(i) =~= messages);
    }
}

/// Up to some fourteen million characters nothing is lost to rounding: the estimate is the number
/// of characters over three and a half, rounded up.
pub proof fn law_small_estimates_are_exact(n: nat)
    requires
        n < 14_680_064,
    ensures
        estimate(n) == (2 * n + 6) / 7,
{
    assert(scaled(n, 1) == 1);
    assert(single(n) == n);
}

/// One more message takes what it takes alone, on top of what the others take.
pub proof fn law_history_adds_up(messages: Seq<MessageView>, more: Seq<MessageView>)
    ensures
        history_estimate(messages + more) == history_estimate(messages) + history_estimate(more),
    decreases more.len(),
{
    if more.len() == 0 {
        assert(messages + more =~= messages);
    } else {
        assert((messages + more).drop_last() =~= messages + more.drop_last());
        law_history_adds_up(messages, more.drop_last());
    }
}

proof fn lemma_words()
    ensures
        text::shape("id"@) == 100100100100105002,
        text::shape("type"@) == 101112101112116004,
        text::shape("function"@) == 111116110116102008,
        text::shape("name"@) == 101109101109110004,
        text::shape("arguments"@) == 110109115101097009,
{
    reveal_strlit("id");
    assert(text::shape("id"@) == 100100100100105002);
    reveal_strlit("type");
    assert(text::shape("type"@) == 101112101112116004);
    reveal_strlit("function");
    assert(text::shape("function"@) == 111116110116102008);
    reveal_strlit("name");
    assert(text::shape("name"@) == 101109101109110004);
    reveal_strlit("arguments");
    assert(text::shape("arguments"@) == 110109115101097009);
}

/// A tool call is written with its identifier, its type, its name and its arguments, and several in
/// their order.
pub proof fn law_calls_are_written_in_order(
    calls: Seq<CallView>,
    i: int,
)
    requires
        0 <= i < calls.len(),
    ensures
        calls_json(calls) is Array && calls_json(calls)->Array_0.len() == calls.len(),
        ({
            let v = calls_json(calls)->Array_0[i];
            &&& v is Object && v->Object_0.len() == 3
            &&& v.get("id"@) == Some(JsonView::Str(calls[i].id))
            &&& v.get("type"@) == Some(JsonView::Str(calls[i].call_type))
            &&& v.get("function"@) is Some && v.get("function"@)->0 is Object
            &&& v.get("function"@)->0->Object_0.len() == 2
            &&& v.get("function"@)->0.get("name"@) == Some(JsonView::Str(calls[i].name))
            &&& v.get("function"@)->0.get("arguments"@) == Some(JsonView::Str(calls[i].arguments))
        }),
{
    broadcast use json::lemma_member_push;

    lemma_words();
}

/// The estimate for a message is the one for its text and the one for its calls as they are written
/// together; what is not there counts nothing.
pub proof fn law_message_counts_text_and_calls(
    m: MessageView,
    content: Seq<char>,
    calls: Seq<CallView>,
)
    ensures
        m.content == Some(content) && m.tool_calls is None ==> message_estimate(m) == estimate(
            content.len(),
        ),
        m.content == Some(content)
            && m.tool_calls == Some(calls) ==> message_estimate(m) == estimate(
            content.len(),
        ) + estimate(json::json_compact(calls_json(calls)).len()),
        m.content is None && m.tool_calls == Some(calls) ==> message_estimate(m) == estimate(
            json::json_compact(calls_json(calls)).len(),
        ),
        m.content is None && m.tool_calls is None ==> message_estimate(m) == 0,
{
    reveal_strlit("");
    law_small_estimates_are_exact(0);
}

/// A quotient is rounded to the nearest whole number, and to the even one where two are as near.
pub proof fn law_nearest_is_nearest(
    p: nat,
    q: nat,
)
    requires
        q > 0,
    ensures
        2 * (q * nearest(p, q) - p) <= q,
        2 * (p - q * nearest(p, q)) <= q,
        2 * (q * nearest(p, q) - p) == q || 2 * (p - q * nearest(p, q)) == q
            ==> nearest(p, q) % 2 == 0,
{
    let d = p / q;
    let r = p % q;
    assert(p == q * d + r) by (nonlinear_arith)
        requires
            d == p / q,
            r == p % q,
            q > 0,
    ;
    assert(q * (d + 1) == q * d + q) by (nonlinear_arith);
    assert(d % 2 == 0 || d % 2 == 1);
}

proof fn lemma_scaled(p: nat, q: nat)
    requires
        q > 0,
    ensures
        scaled(p, q) >= q,
        scaled(p, q) % q == 0,
        p < scaled(p, q) * 0x100_0000,
        scaled(p, q) > q ==> scaled(p, q) % 2 == 0 && p >= (scaled(p, q) / 2) * 0x100_0000,
    decreases p - q,
{
    if p < q * 0x100_0000 {
        assert(q % q == 0) by (nonlinear_arith)
            requires
                q > 0,
        ;
    } else {
        lemma_scaled(p, 2 * q);
        let s = scaled(p, q);
        assert(s % q == 0) by (nonlinear_arith)
            requires
                s % (2 * q) == 0,
                q > 0,
        {
            let k = s / (2 * q);
            assert(s == (2 * q) * k);
            assert(s == q * (2 * k));
        }
        if s == 2 * q {
            assert(s / 2 == q);
        }
    }
}

/// A number is brought to single precision by rounding it to the nearest multiple of a power of
/// two, the lowest of which 2^24 or fewer are needed; one below 2^24 stays as it is.
pub proof fn law_single_precision_is_near(
    n: nat,
)
    ensures
        n < 0x100_0000 ==> single(n) == n,
        2 * (single(n) - n) <= scaled(n, 1),
        2 * (n - single(n)) <= scaled(n, 1),
        n < scaled(n, 1) * 0x100_0000,
        scaled(n, 1) > 1 ==> n >= (scaled(n, 1) / 2) * 0x100_0000,
{
    lemma_scaled(n, 1);
    let s = scaled(n, 1);
    law_nearest_is_nearest(n, s);
    assert(s * nearest(n, s) == nearest(n, s) * s) by (nonlinear_arith);
    if n < 0x100_0000 {
        assert(s == 1);
        assert(n / 1 == n && n % 1 == 0);
    }
}

/// Two sevenths of a number are taken upwards; where single precision cannot tell the halves
/// apart, they are what is nearest in it.
pub proof fn law_sevenths_are_near(
    m: nat,
)
    ensures
        2 * m < 7 * 0x40_0000 ==> 7 * sevenths_up(m) >= 2 * m && 7 * sevenths_up(m) < 2 * m + 7,
        7 * 0x40_0000 <= 2 * m < 7 * 0x80_0000 ==> 7 * sevenths_up(m) >= 2 * m - 1
            && 7 * sevenths_up(m)
            <= 2 * m + 5,
        2 * m >= 7 * 0x80_0000 ==> {
            let s = scaled(2 * m, 7);
            &&& 2 * (7 * sevenths_up(m) - 2 * m) <= s
            &&& 2 * (2 * m - 7 * sevenths_up(m)) <= s
            &&& s > 7 ==> 2 * m >= (s / 2) * 0x100_0000
        },
{
    law_nearest_is_nearest(4 * m, 7);
    if 2 * m >= 7 * 0x80_0000 {
        lemma_scaled(2 * m, 7);
        let s = scaled(2 * m, 7);
        law_nearest_is_nearest(2 * m, s);
        let k = nearest(2 * m, s);
        let v = k * (s / 7);
        assert(s == 7 * (s / 7));
        assert(7 * v == s * k) by (nonlinear_arith)
            requires
                v == k * (s / 7),
                s == 7 * (s / 7),
        ;
    }
}

/// The estimate is two sevenths of the number of characters, each of the two steps in single
/// precision, and no more than the highest count there is.
pub proof fn law_estimate_is_two_sevenths(
    n: nat,
)
    ensures
        sevenths_up(single(n)) <= usize::MAX ==> estimate(n) == sevenths_up(single(n)),
        sevenths_up(single(n)) > usize::MAX ==> estimate(n) == usize::MAX,
        estimate(n) <= usize::MAX,
{
}

} // verus!
