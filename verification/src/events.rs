//! What a run logs.

use vstd::prelude::*;

use crate::clock;
use crate::json;
use crate::json::{Json, JsonView};
use crate::text;

verus! {

/// Something that happened, and when.
#[derive(Debug, PartialEq)]
pub struct Event {
    pub ts: String,
    pub kind: String,
    pub data: Json,
}

/// Something to be logged.
#[derive(Debug, PartialEq)]
pub struct Entry {
    pub kind: String,
    pub data: Json,
}

/// What is to be logged, over texts.
pub struct EntryView {
    pub kind: Seq<char>,
    pub data: JsonView,
}

impl Entry {
    pub open spec fn view(&self) -> EntryView {
        EntryView { kind: self.kind@, data: self.data@ }
    }
}

/// Something to be logged.
pub fn entry(kind: &str, data: Json) -> (r: Entry)
    ensures
        r@ == (EntryView { kind: kind@, data: data@ }),
{
    Entry { kind: text::copy(kind), data }
}

/// What is to be logged, in order.
pub open spec fn entries_view(entries: Seq<Entry>) -> Seq<EntryView> {
    Seq::new(entries.len(), |i: int| entries[i]@)
}

/// The value that an event's line is to be read as: its moment, its kind, and the members of its
/// data beside them.
pub open spec fn event_json(
    ts: Seq<char>,
    kind: Seq<char>,
    data: Seq<(Seq<char>, JsonView)>,
) -> JsonView {
    JsonView::Object(
        json::no_members().push(("ts"@, JsonView::Str(ts))).push(("kind"@, JsonView::Str(kind)))
            + data,
    )
}

impl Event {
    /// An event of the moment `ts`.
    pub fn at(ts: String, kind: &str, data: Json) -> (r: Event)
        ensures
            r.ts@ == ts@,
            r.kind@ == kind@,
            r.data@ == data@,
    {
        Event { ts, kind: text::copy(kind), data }
    }

    /// An event of the present moment. The moment is left open: it depends on when the call
    /// is made.
    pub fn now(kind: &str, data: Json) -> (r: Event)
        ensures
            r.kind@ == kind@,
            r.data@ == data@,
    {
        Event::at(clock::now_rfc3339(), kind, data)
    }

    /// The line that the event is written down in: its moment, its kind, and then its data; none,
    /// where its data is neither an object nor null. Null data adds nothing.
    pub fn line(&self) -> (r: Option<String>)
        ensures
            match r {
                Some(line) => (self.data@ is Object || self.data@ is Null) && line@ == line_text(
                    json::json_compact(JsonView::Str(self.ts@)),
                    json::json_compact(JsonView::Str(self.kind@)),
                    data_text(self.data@),
                ),
                None => !(self.data@ is Object) && !(self.data@ is Null),
            },
    {
        let data: String = match &self.data {
            Json::Object(members) => {
                proof {
                    json::lemma_object_view(*members);
                }
                json::compact(&self.data)
            },
            Json::Null => text::copy("{}"),
            _ => {
                return None;
            },
        };
        Some(
            line_of(
                json::compact(&json::string(self.ts.as_str())).as_str(),
                json::compact(&json::string(self.kind.as_str())).as_str(),
                data.as_str(),
            ),
        )
    }
}

/// The data of an event as it is written: null is written as no members.
pub open spec fn data_text(data: JsonView) -> Seq<char> {
    if data is Null {
        "{}"@
    } else {
        json::json_compact(data)
    }
}

/// The line of an event whose moment, kind and data are written so: one object with the members
/// of the data behind the other two.
pub open spec fn line_text(ts: Seq<char>, kind: Seq<char>, data: Seq<char>) -> Seq<char> {
    let head = "{\"ts\":"@ + ts + ",\"kind\":"@ + kind;
    if data == "{}"@ {
        head + "}"@
    } else if text::has_prefix(data, "{"@) {
        head + ","@ + data.skip("{"@.len() as int)
    } else {
        head + ","@ + data
    }
}

/// The line of an event whose moment, kind and data are written so.
pub fn line_of(ts: &str, kind: &str, data: &str) -> (r: String)
    ensures
        r@ == line_text(ts@, kind@, data@),
{
    let head = text::cat4("{\"ts\":", ts, ",\"kind\":", kind);
    if text::str_eq(data, "{}") {
        return text::cat2(head.as_str(), "}");
    }
    match text::strip_prefix(data, "{") {
        Some(rest) => text::cat3(head.as_str(), ",", rest.as_str()),
        None => text::cat3(head.as_str(), ",", data),
    }
}

proof fn lemma_member_in_two(
    a: Seq<(Seq<char>, JsonView)>,
    b: Seq<(Seq<char>, JsonView)>,
    key: Seq<char>,
)
    ensures
        json::member(a + b, key) == (match json::member(b, key) {
            Some(v) => Some(v),
            None => json::member(a, key),
        }),
    decreases b.len(),
{
    if b.len() == 0 {
        assert(a + b =~= a);
    } else {
        assert((a + b).drop_last() =~= a + b.drop_last());
        lemma_member_in_two(a, b.drop_last(), key);
    }
}

/// The value of an event holds its moment, its kind, and every member of its data, as long as none
/// of these is called like the first two.
pub proof fn law_event_can_be_read(
    ts: Seq<char>,
    kind: Seq<char>,
    data: Seq<(Seq<char>, JsonView)>,
    key: Seq<char>,
)
    requires
        json::member(data, "ts"@) is None,
        json::member(data, "kind"@) is None,
    ensures
        event_json(ts, kind, data).get("ts"@) == Some(JsonView::Str(ts)),
        event_json(ts, kind, data).get("kind"@) == Some(JsonView::Str(kind)),
        key != "ts"@ && key != "kind"@ ==> event_json(ts, kind, data).get(key) == json::member(
            data,
            key,
        ),
{
    reveal_strlit("ts");
    reveal_strlit("kind");
    let first = json::no_members().push(("ts"@, JsonView::Str(ts)));
    let front = first.push(("kind"@, JsonView::Str(kind)));
    lemma_member_in_two(front, data, "ts"@);
    lemma_member_in_two(front, data, "kind"@);
    lemma_member_in_two(front, data, key);
    assert(front.drop_last() =~= first);
    assert(first.drop_last() =~= json::no_members());
    assert("ts"@.len() != "kind"@.len());
    assert(json::member(first, "ts"@) == Some(JsonView::Str(ts)));
    assert(json::member(front, "ts"@) == json::member(first, "ts"@));
    if key != "ts"@ && key != "kind"@ {
        assert(json::member(json::no_members(), key) is None);
        assert(json::member(first, key) is None);
    }
}

/// A line of a log gives the moment and the kind first and then the members of the data, in one
/// object; there are none where the data is nothing.
pub proof fn law_line_gives_moment_kind_and_data(
    ts: Seq<char>,
    kind: Seq<char>,
    rest: Seq<char>,
    data: JsonView,
)
    requires
        rest != "}"@,
    ensures
        line_text(ts, kind, "{}"@) == "{\"ts\":"@ + ts + ",\"kind\":"@ + kind + "}"@,
        line_text(ts, kind, "{"@ + rest) == "{\"ts\":"@ + ts + ",\"kind\":"@ + kind + ","@ + rest,
        data_text(JsonView::Null) == "{}"@,
        !(data is Null) ==> data_text(data) == json::json_compact(data),
{
    reveal_strlit("{");
    reveal_strlit("}");
    reveal_strlit("{}");
    let data = "{"@ + rest;
    assert(data.subrange(0, 1) =~= "{"@);
    assert(data.take(1) =~= "{"@);
    assert(data.skip(1) =~= rest);
    assert("{}"@ =~= "{"@ + "}"@);
    if data == "{}"@ {
        assert("{}"@.skip(1) =~= "}"@);
    }
}

} // verus!
