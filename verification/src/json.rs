//! JSON values, what is read from them, and the texts they are written as.

use vstd::prelude::*;

use crate::text;

verus! {

/// A JSON number of `serde_json` that is no 64-bit integer. It is carried, never read.
#[verifier::external_type_specification]
#[verifier::external_body]
pub struct ExNumber(serde_json::Number);

/// A JSON value of `serde_json`, on its way to or from that crate.
#[verifier::external_type_specification]
#[verifier::external_body]
pub struct ExValue(serde_json::Value);

/// A JSON value. An object holds its members in order; of two members with one name the
/// later counts.
#[derive(Debug, PartialEq)]
pub enum Json {
    Null,
    Bool(bool),
    Uint(u64),
    Int(i64),
    Other(serde_json::Number),
    Str(String),
    Array(Vec<Json>),
    Object(Vec<(String, Json)>),
}

/// What a JSON value is, over texts and sequences.
pub enum JsonView {
    Null,
    Bool(bool),
    Uint(u64),
    Int(i64),
    Other(serde_json::Number),
    Str(Seq<char>),
    Array(Seq<JsonView>),
    Object(Seq<(Seq<char>, JsonView)>),
}

impl Json {
    pub open spec fn view(&self) -> JsonView
        decreases self,
    {
        match *self {
            Json::Null => JsonView::Null,
            Json::Bool(b) => JsonView::Bool(b),
            Json::Uint(n) => JsonView::Uint(n),
            Json::Int(n) => JsonView::Int(n),
            Json::Other(n) => JsonView::Other(n),
            Json::Str(s) => JsonView::Str(s@),
            Json::Array(items) => JsonView::Array(
                Seq::new(
                    items@.len(),
                    |i: int|
                        if 0 <= i < items@.len() {
                            items@[i].view()
                        } else {
                            JsonView::Null
                        },
                ),
            ),
            Json::Object(members) => JsonView::Object(
                Seq::new(
                    members@.len(),
                    |i: int|
                        if 0 <= i < members@.len() {
                            (members@[i].0@, members@[i].1.view())
                        } else {
                            (Seq::empty(), JsonView::Null)
                        },
                ),
            ),
        }
    }
}

/// What the items of an array are.
pub open spec fn items_view(items: Seq<Json>) -> Seq<JsonView> {
    Seq::new(items.len(), |i: int| items[i]@)
}

/// What the members of an object are.
pub open spec fn members_view(members: Seq<(String, Json)>) -> Seq<(Seq<char>, JsonView)> {
    Seq::new(members.len(), |i: int| (members[i].0@, members[i].1@))
}

/// An array is its items.
pub proof fn lemma_array_view(items: Vec<Json>)
    ensures
        Json::Array(items)@ == JsonView::Array(items_view(items@)),
{
    assert(Json::Array(items)@->Array_0 =~= items_view(items@));
}

/// An object is its members.
pub proof fn lemma_object_view(members: Vec<(String, Json)>)
    ensures
        Json::Object(members)@ == JsonView::Object(members_view(members@)),
{
    assert(Json::Object(members)@->Object_0 =~= members_view(members@));
}

impl Clone for Json {
    /// The clone is the same value.
    fn clone(&self) -> (r: Self)
        ensures
            r@ == self@,
    {
        self.copy()
    }
}

impl Json {
    /// The same value again.
    pub fn copy(&self) -> (r: Json)
        ensures
            r@ == self@,
        decreases self,
    {
        match self {
            Json::Null => Json::Null,
            Json::Bool(b) => Json::Bool(*b),
            Json::Uint(n) => Json::Uint(*n),
            Json::Int(n) => Json::Int(*n),
            Json::Other(n) => Json::Other(clone_number(n)),
            Json::Str(s) => Json::Str(s.clone()),
            Json::Array(items) => {
                let mut out: Vec<Json> = Vec::new();
                let mut i: usize = 0;
                while i < items.len()
                    invariant
                        i <= items@.len(),
                        *self == Json::Array(*items),
                        items_view(out@) == items_view(items@).take(i as int),
                    decreases items@.len() - i,
                {
                    proof {
                        assert(decreases_to!(*self => self->Array_0));
                        assert(decreases_to!(*items => items@));
                        assert(decreases_to!(items@ => items@[i as int]));
                    }
                    let item = items[i].copy();
                    let ghost before = out@;
                    out.push(item);
                    proof {
                        assert(items_view(out@) =~= items_view(before).push(item@));
                        assert(items_view(out@) =~= items_view(items@).take(i + 1));
                    }
                    i += 1;
                }
                proof {
                    assert(items_view(items@).take(i as int) =~= items_view(items@));
                    lemma_array_view(out);
                    lemma_array_view(*items);
                }
                Json::Array(out)
            },
            Json::Object(members) => {
                let mut out: Vec<(String, Json)> = Vec::new();
                let mut i: usize = 0;
                while i < members.len()
                    invariant
                        i <= members@.len(),
                        *self == Json::Object(*members),
                        members_view(out@) == members_view(members@).take(i as int),
                    decreases members@.len() - i,
                {
                    proof {
                        assert(decreases_to!(*self => self->Object_0));
                        assert(decreases_to!(*members => members@));
                        assert(decreases_to!(members@ => members@[i as int]));
                        assert(decreases_to!(members@[i as int] => members@[i as int].1));
                    }
                    let value = members[i].1.copy();
                    let name = members[i].0.clone();
                    let ghost before = out@;
                    out.push((name, value));
                    proof {
                        assert(members_view(out@) =~= members_view(before).push((name@, value@)));
                        assert(members_view(out@) =~= members_view(members@).take(i + 1));
                    }
                    i += 1;
                }
                proof {
                    assert(members_view(members@).take(i as int) =~= members_view(members@));
                    lemma_object_view(out);
                    lemma_object_view(*members);
                }
                Json::Object(out)
            },
        }
    }
}

/// `<serde_json::Number as Clone>::clone`: a clone is the number itself.
#[verifier::external_body]
fn clone_number(n: &serde_json::Number) -> (r: serde_json::Number)
    ensures
        r == *n,
{
    n.clone()
}

/// The value of the last member with the name `key`.
pub open spec fn member(members: Seq<(Seq<char>, JsonView)>, key: Seq<char>) -> Option<JsonView>
    decreases members.len(),
{
    if members.len() == 0 {
        None
    } else if members.last().0 == key {
        Some(members.last().1)
    } else {
        member(members.drop_last(), key)
    }
}

/// The items that are strings, in order.
pub open spec fn strings(items: Seq<JsonView>) -> Seq<Seq<char>>
    decreases items.len(),
{
    if items.len() == 0 {
        Seq::empty()
    } else {
        match items.last().as_str() {
            Some(s) => strings(items.drop_last()).push(s),
            None => strings(items.drop_last()),
        }
    }
}

impl JsonView {
    /// The member of an object with the name `key`.
    pub open spec fn get(self, key: Seq<char>) -> Option<JsonView> {
        match self {
            JsonView::Object(members) => member(members, key),
            _ => None,
        }
    }

    /// The text of a string.
    pub open spec fn as_str(self) -> Option<Seq<char>> {
        match self {
            JsonView::Str(s) => Some(s),
            _ => None,
        }
    }

    /// A number that is an integer of 64 bits without a sign.
    pub open spec fn as_u64(self) -> Option<u64> {
        match self {
            JsonView::Uint(n) => Some(n),
            JsonView::Int(n) => if n >= 0 {
                Some(n as u64)
            } else {
                None
            },
            _ => None,
        }
    }

    /// A truth value.
    pub open spec fn as_bool(self) -> Option<bool> {
        match self {
            JsonView::Bool(b) => Some(b),
            _ => None,
        }
    }

    /// The items of an array.
    pub open spec fn as_array(self) -> Option<Seq<JsonView>> {
        match self {
            JsonView::Array(items) => Some(items),
            _ => None,
        }
    }

    /// The text of the member `key`, if it is a string.
    pub open spec fn str_at(self, key: Seq<char>) -> Option<Seq<char>> {
        match self.get(key) {
            Some(v) => v.as_str(),
            None => None,
        }
    }

    /// The number of the member `key`, if it is an unsigned integer.
    pub open spec fn u64_at(self, key: Seq<char>) -> Option<u64> {
        match self.get(key) {
            Some(v) => v.as_u64(),
            None => None,
        }
    }

    /// The truth value of the member `key`, if it is one.
    pub open spec fn bool_at(self, key: Seq<char>) -> Option<bool> {
        match self.get(key) {
            Some(v) => v.as_bool(),
            None => None,
        }
    }

    /// The items of the member `key`, if it is an array.
    pub open spec fn array_at(self, key: Seq<char>) -> Option<Seq<JsonView>> {
        match self.get(key) {
            Some(v) => v.as_array(),
            None => None,
        }
    }

    /// The text of the member `key`; `default`, where it is no string.
    pub open spec fn str_or(self, key: Seq<char>, default: Seq<char>) -> Seq<char> {
        match self.str_at(key) {
            Some(s) => s,
            None => default,
        }
    }

    /// The number of the member `key`; `default`, where it is no unsigned integer.
    pub open spec fn u64_or(self, key: Seq<char>, default: u64) -> u64 {
        match self.u64_at(key) {
            Some(n) => n,
            None => default,
        }
    }

    /// Whether the member `key` is true.
    pub open spec fn flag(self, key: Seq<char>) -> bool {
        self.bool_at(key) == Some(true)
    }

    /// The strings in the array of the member `key`.
    pub open spec fn strings_at(self, key: Seq<char>) -> Seq<Seq<char>> {
        match self.array_at(key) {
            Some(items) => strings(items),
            None => Seq::empty(),
        }
    }
}

impl Json {
    /// The member of an object with the name `key`.
    pub fn get(&self, key: &str) -> (r: Option<&Json>)
        ensures
            match r {
                Some(v) => self@.get(key@) == Some(v@),
                None => self@.get(key@) is None,
            },
    {
        match self {
            Json::Object(members) => {
                proof {
                    lemma_object_view(*members);
                    assert(members_view(members@).take(members@.len() as int) =~= members_view(
                        members@,
                    ));
                }
                let mut i: usize = members.len();
                while i > 0
                    invariant
                        i <= members@.len(),
                        self@ == JsonView::Object(members_view(members@)),
                        member(members_view(members@).take(i as int), key@) == self@.get(key@),
                    decreases i,
                {
                    proof {
                        let front = members_view(members@).take(i as int);
                        assert(front.drop_last() =~= members_view(members@).take(i - 1));
                        assert(front.last() == members_view(members@)[i - 1]);
                    }
                    i -= 1;
                    if text::str_eq(members[i].0.as_str(), key) {
                        return Some(&members[i].1);
                    }
                }
                None
            },
            _ => None,
        }
    }

    /// The text of a string.
    pub fn as_str(&self) -> (r: Option<&str>)
        ensures
            match r {
                Some(s) => self@.as_str() == Some(s@),
                None => self@.as_str() is None,
            },
    {
        match self {
            Json::Str(s) => Some(s.as_str()),
            _ => None,
        }
    }

    /// A number that is an integer of 64 bits without a sign.
    pub fn as_u64(&self) -> (r: Option<u64>)
        ensures
            r == self@.as_u64(),
    {
        match self {
            Json::Uint(n) => Some(*n),
            Json::Int(n) => if *n >= 0 {
                Some(*n as u64)
            } else {
                None
            },
            _ => None,
        }
    }

    /// A truth value.
    pub fn as_bool(&self) -> (r: Option<bool>)
        ensures
            r == self@.as_bool(),
    {
        match self {
            Json::Bool(b) => Some(*b),
            _ => None,
        }
    }

    /// The items of an array.
    pub fn as_array(&self) -> (r: Option<&Vec<Json>>)
        ensures
            match r {
                Some(v) => self@.as_array() == Some(items_view(v@)),
                None => self@.as_array() is None,
            },
    {
        match self {
            Json::Array(items) => {
                proof {
                    lemma_array_view(*items);
                }
                Some(items)
            },
            _ => None,
        }
    }

    /// The text of the member `key`, if it is a string.
    pub fn str_at(&self, key: &str) -> (r: Option<&str>)
        ensures
            match r {
                Some(s) => self@.str_at(key@) == Some(s@),
                None => self@.str_at(key@) is None,
            },
    {
        match self.get(key) {
            Some(v) => v.as_str(),
            None => None,
        }
    }

    /// The number of the member `key`, if it is an unsigned integer.
    pub fn u64_at(&self, key: &str) -> (r: Option<u64>)
        ensures
            r == self@.u64_at(key@),
    {
        match self.get(key) {
            Some(v) => v.as_u64(),
            None => None,
        }
    }

    /// The truth value of the member `key`, if it is one.
    pub fn bool_at(&self, key: &str) -> (r: Option<bool>)
        ensures
            r == self@.bool_at(key@),
    {
        match self.get(key) {
            Some(v) => v.as_bool(),
            None => None,
        }
    }

    /// The text of the member `key`; `default`, where it is no string.
    pub fn str_or<'a>(&'a self, key: &str, default: &'a str) -> (r: &'a str)
        ensures
            r@ == self@.str_or(key@, default@),
    {
        match self.str_at(key) {
            Some(s) => s,
            None => default,
        }
    }

    /// The text of the member `key`, if it is a string.
    pub fn string_at(&self, key: &str) -> (r: Option<String>)
        ensures
            text::opt_text(r) == self@.str_at(key@),
    {
        match self.str_at(key) {
            Some(s) => Some(text::copy(s)),
            None => None,
        }
    }

    /// The number of the member `key`; `default`, where it is no unsigned integer.
    pub fn u64_or(&self, key: &str, default: u64) -> (r: u64)
        ensures
            r == self@.u64_or(key@, default),
    {
        match self.u64_at(key) {
            Some(n) => n,
            None => default,
        }
    }

    /// Whether the member `key` is true.
    pub fn flag(&self, key: &str) -> (r: bool)
        ensures
            r == self@.flag(key@),
    {
        match self.bool_at(key) {
            Some(b) => b,
            None => false,
        }
    }

    /// The strings in the array of the member `key`.
    pub fn strings_at(&self, key: &str) -> (r: Vec<String>)
        ensures
            text::texts(r@) == self@.strings_at(key@),
    {
        let mut out: Vec<String> = Vec::new();
        let items: &Vec<Json> = match self.get(key) {
            Some(v) => match v.as_array() {
                Some(items) => items,
                None => {
                    proof {
                        assert(text::texts(out@) =~= Seq::empty());
                    }
                    return out;
                },
            },
            None => {
                proof {
                    assert(text::texts(out@) =~= Seq::empty());
                }
                return out;
            },
        };
        let mut i: usize = 0;
        proof {
            assert(text::texts(out@) =~= strings(items_view(items@).take(0)));
        }
        while i < items.len()
            invariant
                i <= items@.len(),
                text::texts(out@) == strings(items_view(items@).take(i as int)),
            decreases items@.len() - i,
        {
            proof {
                let next = items_view(items@).take(i + 1);
                assert(next.drop_last() =~= items_view(items@).take(i as int));
                assert(next.last() == items@[i as int]@);
            }
            match items[i].as_str() {
                Some(s) => {
                    let ghost before = out@;
                    let item = text::copy(s);
                    out.push(item);
                    proof {
                        text::lemma_texts_push(before, item);
                    }
                },
                None => {},
            }
            i += 1;
        }
        proof {
            assert(items_view(items@).take(i as int) =~= items_view(items@));
        }
        out
    }
}

/// An object's members before the first.
pub open spec fn no_members() -> Seq<(Seq<char>, JsonView)> {
    Seq::empty()
}

/// A JSON string.
pub fn string(s: &str) -> (r: Json)
    ensures
        r@ == JsonView::Str(s@),
{
    Json::Str(text::copy(s))
}

/// An unsigned number as JSON.
pub fn size(n: usize) -> (r: Json)
    ensures
        r@ == JsonView::Uint(n as u64),
{
    Json::Uint(n as u64)
}

/// A text as a JSON string, no text as null.
pub open spec fn opt_str_view(s: Option<Seq<char>>) -> JsonView {
    match s {
        Some(t) => JsonView::Str(t),
        None => JsonView::Null,
    }
}

/// A text as a JSON string, no text as null.
pub fn opt_string(s: &Option<String>) -> (r: Json)
    ensures
        r@ == opt_str_view(text::opt_text(*s)),
{
    match s {
        Some(t) => string(t.as_str()),
        None => Json::Null,
    }
}

/// An array of JSON values.
pub fn array(items: Vec<Json>) -> (r: Json)
    ensures
        r@ == JsonView::Array(items_view(items@)),
{
    proof {
        lemma_array_view(items);
    }
    Json::Array(items)
}

/// Texts as an array of JSON strings.
pub open spec fn str_array_view(s: Seq<Seq<char>>) -> JsonView {
    JsonView::Array(Seq::new(s.len(), |i: int| JsonView::Str(s[i])))
}

/// Texts as an array of JSON strings.
pub fn string_array(s: &Vec<String>) -> (r: Json)
    ensures
        r@ == str_array_view(text::texts(s@)),
{
    let mut items: Vec<Json> = Vec::new();
    let mut i: usize = 0;
    while i < s.len()
        invariant
            i <= s@.len(),
            items@.len() == i,
            forall|j: int| 0 <= j < i ==> (#[trigger] items@[j])@ == JsonView::Str(s@[j]@),
        decreases s@.len() - i,
    {
        items.push(string(s[i].as_str()));
        i += 1;
    }
    proof {
        assert(items_view(items@) =~= str_array_view(text::texts(s@))->Array_0);
    }
    array(items)
}

/// An object in the making.
pub struct Members {
    members: Vec<(String, Json)>,
}

impl Members {
    /// The members so far.
    pub closed spec fn view(&self) -> Seq<(Seq<char>, JsonView)> {
        members_view(self.members@)
    }

    /// No members.
    pub fn new() -> (r: Members)
        ensures
            r@ == no_members(),
    {
        let r = Members { members: Vec::new() };
        proof {
            assert(r@ =~= Seq::empty());
        }
        r
    }

    /// One member more, at the end.
    pub fn with(self, key: &str, value: Json) -> (r: Members)
        ensures
            r@ == self@.push((key@, value@)),
    {
        let mut members = self.members;
        members.push((text::copy(key), value));
        let r = Members { members };
        proof {
            assert(r@ =~= self@.push((key@, value@)));
        }
        r
    }

    /// The object with these members.
    pub fn object(self) -> (r: Json)
        ensures
            r@ == JsonView::Object(self@),
    {
        proof {
            lemma_object_view(self.members);
        }
        Json::Object(self.members)
    }
}

/// What `serde_json::to_string_pretty` writes for a value.
pub uninterp spec fn json_pretty(value: JsonView) -> Seq<char>;

/// What `serde_json::to_string` writes for a value.
pub uninterp spec fn json_compact(value: JsonView) -> Seq<char>;

/// What `serde_json::from_str` reads from a text: the value, or the words of its error.
pub uninterp spec fn json_parse(input: Seq<char>) -> Result<JsonView, Seq<char>>;

/// What `serde_json::from_slice` reads from bytes: the value, or the words of its error.
pub uninterp spec fn json_parse_bytes(input: Seq<u8>) -> Result<JsonView, Seq<char>>;

/// The value as `serde_json` has it.
#[verifier::external_body]
fn value_of(json: &Json) -> serde_json::Value {
    match json {
        Json::Null => serde_json::Value::Null,
        Json::Bool(b) => serde_json::Value::Bool(*b),
        Json::Uint(n) => serde_json::Value::from(*n),
        Json::Int(n) => serde_json::Value::from(*n),
        Json::Other(n) => serde_json::Value::Number(n.clone()),
        Json::Str(s) => serde_json::Value::String(s.clone()),
        Json::Array(v) => v.iter().map(value_of).collect(),
        Json::Object(m) => m.iter().map(|e| (e.0.clone(), value_of(&e.1))).collect(),
    }
}

/// The value of `serde_json` as the library has it.
#[verifier::external_body]
fn json_of(value: serde_json::Value) -> Json {
    match value {
        serde_json::Value::Null => Json::Null,
        serde_json::Value::Bool(b) => Json::Bool(b),
        serde_json::Value::Number(n) => match (n.as_u64(), n.as_i64()) {
            (Some(u), _) => Json::Uint(u),
            (None, Some(i)) => Json::Int(i),
            (None, None) => Json::Other(n),
        },
        serde_json::Value::String(s) => Json::Str(s),
        serde_json::Value::Array(v) => Json::Array(v.into_iter().map(json_of).collect()),
        serde_json::Value::Object(m) => Json::Object(m.into_iter().map(|e| (e.0, json_of(e.1))).collect()),
    }
}

/// `serde_json::to_string_pretty`: the text is a function of the value alone. The call does
/// not fail on a JSON value; were it to, the text would be empty.
#[verifier::external_body]
pub(crate) fn pretty(value: &Json) -> (r: String)
    ensures
        r@ == json_pretty(value@),
{
    serde_json::to_string_pretty(&value_of(value)).unwrap_or_default()
}

/// `serde_json::to_string`: the text is a function of the value alone. The call does not
/// fail on a JSON value; were it to, the text would be empty.
#[verifier::external_body]
pub(crate) fn compact(value: &Json) -> (r: String)
    ensures
        r@ == json_compact(value@),
{
    serde_json::to_string(&value_of(value)).unwrap_or_default()
}

/// What reading a value gave, over texts.
pub open spec fn parse_view(r: Result<Json, String>) -> Result<JsonView, Seq<char>> {
    match r {
        Ok(v) => Ok(v@),
        Err(e) => Err(e@),
    }
}

/// `serde_json::from_str` into a JSON value: the value, or the words of the error, is a
/// function of the text alone.
#[verifier::external_body]
pub(crate) fn parse(input: &str) -> (r: Result<Json, String>)
    ensures
        parse_view(r) == json_parse(input@),
{
    serde_json::from_str::<serde_json::Value>(input).map(json_of).map_err(|e| e.to_string())
}

/// `serde_json::from_slice` into a JSON value: the value, or the words of the error, is a
/// function of the bytes alone.
#[verifier::external_body]
pub(crate) fn parse_bytes(input: &[u8]) -> (r: Result<Json, String>)
    ensures
        parse_view(r) == json_parse_bytes(input@),
{
    serde_json::from_slice::<serde_json::Value>(input).map(json_of).map_err(|e| e.to_string())
}

/// One member more is found under its name; under every other name is found what was found.
pub broadcast proof fn lemma_member_push(
    members: Seq<(Seq<char>, JsonView)>,
    name: Seq<char>,
    value: JsonView,
    key: Seq<char>,
)
    ensures
        #[trigger] member(members.push((name, value)), key) == (if name == key {
            Some(value)
        } else {
            member(members, key)
        }),
{
    assert(members.push((name, value)).drop_last() =~= members);
}

/// Under a name the last member with that name is found, and nothing where there is none.
pub proof fn law_last_of_a_name_is_found(
    members: Seq<(Seq<char>, JsonView)>,
    i: int,
    key: Seq<char>,
)
    ensures
        0 <= i < members.len() && members[i].0 == key && (forall|j: int|
            i < j < members.len() ==> (#[trigger] members[j]).0 != key) ==> JsonView::Object(
            members,
        ).get(key) == Some(members[i].1),
        (forall|j: int| 0 <= j < members.len() ==> (#[trigger] members[j]).0 != key)
            ==> JsonView::Object(members).get(key) is None,
    decreases members.len(),
{
    if members.len() > 0 && members.last().0 != key {
        let front = members.drop_last();
        law_last_of_a_name_is_found(front, i, key);
        if 0 <= i < members.len() && members[i].0 == key && (forall|j: int|
            i < j < members.len() ==> (#[trigger] members[j]).0 != key) {
            assert forall|j: int| i < j < front.len() implies (#[trigger] front[j]).0 != key by {
                assert(members[j].0 != key);
            }
        }
        if forall|j: int| 0 <= j < members.len() ==> (#[trigger] members[j]).0 != key {
            assert forall|j: int| 0 <= j < front.len() implies (#[trigger] front[j]).0 != key by {
                assert(members[j].0 != key);
            }
        }
    } else if members.len() > 0 {
        assert(members[members.len() - 1].0 == key);
    }
}

/// A value is read as what it is and as nothing else: a string as a text, a truth value as one,
/// a list as its items, and an integer as a number where it is not negative. Only an object has
/// members.
pub proof fn law_values_are_read_as_what_they_are(v: JsonView, key: Seq<char>)
    ensures
        forall|s: Seq<char>| v.as_str() == Some(s) <==> v == JsonView::Str(s),
        forall|b: bool| v.as_bool() == Some(b) <==> v == JsonView::Bool(b),
        forall|items: Seq<JsonView>| v.as_array() == Some(items) <==> v == JsonView::Array(items),
        forall|n: u64|
            v.as_u64() == Some(n) <==> v == JsonView::Uint(n) || (v is Int && v->Int_0 == n),
        !(v is Object) ==> v.get(key) is None,
{
}

/// What a call says under a name is what the member of that name is, if it is of the wanted sort;
/// where it is not, the default holds.
pub proof fn law_members_are_read_under_their_names(
    v: JsonView,
    key: Seq<char>,
    text: Seq<char>,
    number: u64,
)
    ensures
        forall|s: Seq<char>| v.str_at(key) == Some(s) <==> v.get(key) == Some(JsonView::Str(s)),
        forall|b: bool| v.bool_at(key) == Some(b) <==> v.get(key) == Some(JsonView::Bool(b)),
        forall|items: Seq<JsonView>|
            v.array_at(key) == Some(items) <==> v.get(key) == Some(JsonView::Array(items)),
        v.u64_at(key) == (match v.get(key) {
            Some(JsonView::Uint(n)) => Some(n),
            Some(JsonView::Int(n)) => if n >= 0 {
                Some(n as u64)
            } else {
                None
            },
            _ => None,
        }),
        v.str_or(key, text) == (match v.get(key) {
            Some(JsonView::Str(s)) => s,
            _ => text,
        }),
        v.u64_at(key) is None ==> v.u64_or(key, number) == number,
        v.u64_at(key) is Some ==> v.u64_or(key, number) == v.u64_at(key)->0,
        v.flag(key) <==> v.get(key) == Some(JsonView::Bool(true)),
        v.get(key) matches Some(JsonView::Array(items)) ==> v.strings_at(key) == strings(items),
        !(v.get(key) matches Some(JsonView::Array(_))) ==> v.strings_at(key) == Seq::<
            Seq<char>,
        >::empty(),
{
}

/// The strings of a list are its items that are strings, in order and with nothing left out.
pub proof fn law_strings_of_a_list(items: Seq<JsonView>, item: JsonView)
    ensures
        strings(Seq::empty()) == Seq::<Seq<char>>::empty(),
        item is Str ==> strings(items.push(item)) == strings(items).push(item->Str_0),
        !(item is Str) ==> strings(items.push(item)) == strings(items),
{
    assert(items.push(item).drop_last() =~= items);
}

} // verus!
