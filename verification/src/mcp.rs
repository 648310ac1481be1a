//! Tools and the results of tool calls.

use vstd::prelude::*;

use crate::json::{Json, JsonView};
use crate::text;

verus! {

/// A tool: its name, what it does, and the schema of its arguments.
#[derive(Debug, PartialEq)]
pub struct McpTool {
    pub name: String,
    pub description: Option<String>,
    pub input_schema: Json,
}

/// A tool, over texts.
pub struct McpToolView {
    pub name: Seq<char>,
    pub description: Option<Seq<char>>,
    pub input_schema: JsonView,
}

impl McpTool {
    pub open spec fn view(&self) -> McpToolView {
        McpToolView {
            name: self.name@,
            description: text::opt_text(self.description),
            input_schema: self.input_schema@,
        }
    }
}

/// Tools, over texts.
pub open spec fn tool_views(tools: Seq<McpTool>) -> Seq<McpToolView> {
    Seq::new(tools.len(), |i: int| tools[i]@)
}

/// One part of a tool's result.
#[derive(Debug, Clone, PartialEq, Eq)]
pub struct ContentPart {
    pub part_type: String,
    pub text: Option<String>,
}

/// What a tool gave back.
#[derive(Debug, Clone, PartialEq, Eq)]
pub struct ToolCallResult {
    pub content: Vec<ContentPart>,
    pub is_error: bool,
}

/// What a part is, over texts.
pub struct PartView {
    pub part_type: Seq<char>,
    pub text: Option<Seq<char>>,
}

/// What a result is, over texts.
pub struct ResultView {
    pub content: Seq<PartView>,
    pub is_error: bool,
}

impl ContentPart {
    pub open spec fn view(&self) -> PartView {
        PartView { part_type: self.part_type@, text: text::opt_text(self.text) }
    }
}

impl ToolCallResult {
    pub open spec fn view(&self) -> ResultView {
        ResultView {
            content: Seq::new(self.content@.len(), |i: int| self.content@[i]@),
            is_error: self.is_error,
        }
    }
}

/// The texts of the parts that are of type `text` and have one, in order.
pub open spec fn part_texts(content: Seq<PartView>) -> Seq<Seq<char>>
    decreases content.len(),
{
    if content.len() == 0 {
        Seq::empty()
    } else {
        let front = part_texts(content.drop_last());
        let part = content.last();
        if part.part_type == "text"@ && part.text is Some {
            front.push(part.text->0)
        } else {
            front
        }
    }
}

impl ResultView {
    /// The texts of a result, one below the other.
    pub open spec fn text_content(self) -> Seq<char> {
        text::joined(part_texts(self.content), "\n"@)
    }
}

/// A result that is one text.
pub open spec fn one_text(t: Seq<char>, is_error: bool) -> ResultView {
    ResultView {
        content: seq![PartView { part_type: "text"@, text: Some(t) }],
        is_error,
    }
}

/// A successful result that is one text.
pub open spec fn text_view(t: Seq<char>) -> ResultView {
    one_text(t, false)
}

/// A failure that is one text.
pub open spec fn error_view(t: Seq<char>) -> ResultView {
    one_text(t, true)
}

impl ToolCallResult {
    /// The texts of the parts of type `text`, one below the other.
    pub fn text_content(&self) -> (r: String)
        ensures
            r@ == self@.text_content(),
    {
        let mut found: Vec<String> = Vec::new();
        let mut i: usize = 0;
        proof {
            assert(text::texts(found@) =~= part_texts(self@.content.take(0)));
        }
        while i < self.content.len()
            invariant
                i <= self.content@.len(),
                text::texts(found@) == part_texts(self@.content.take(i as int)),
            decreases self.content@.len() - i,
        {
            proof {
                let next = self@.content.take(i + 1);
                assert(next.drop_last() =~= self@.content.take(i as int));
                assert(next.last() == self.content@[i as int]@);
            }
            let part = &self.content[i];
            if text::str_eq(part.part_type.as_str(), "text") {
                if let Some(t) = &part.text {
                    let ghost before = found@;
                    let item = text::copy(t.as_str());
                    found.push(item);
                    proof {
                        text::lemma_texts_push(before, item);
                    }
                }
            }
            i += 1;
        }
        proof {
            assert(self@.content.take(i as int) =~= self@.content);
        }
        text::join(&found, "\n")
    }
}

fn single(t: &str, is_error: bool) -> (r: ToolCallResult)
    ensures
        r@ == one_text(t@, is_error),
{
    let part = ContentPart { part_type: text::copy("text"), text: Some(text::copy(t)) };
    let mut content: Vec<ContentPart> = Vec::new();
    content.push(part);
    let r = ToolCallResult { content, is_error };
    proof {
        assert(r@.content =~= one_text(t@, is_error).content);
    }
    r
}

/// A successful result that is one text.
pub fn text_result(t: &str) -> (r: ToolCallResult)
    ensures
        r@ == text_view(t@),
{
    single(t, false)
}

/// A failure that is one text.
pub fn error_result(t: &str) -> (r: ToolCallResult)
    ensures
        r@ == error_view(t@),
{
    single(t, true)
}

/// The text of a result that is one text is that text.
pub proof fn law_text_content_of_one_text(t: Seq<char>, is_error: bool)
    ensures
        one_text(t, is_error).text_content() == t,
{
    let content = one_text(t, is_error).content;
    assert(content.drop_last().len() == 0);
    reveal_with_fuel(part_texts, 2);
    assert(part_texts(content) =~= seq![t]);
}

/// A result's text is made of the texts of its parts of the type `text`, in order; a part of
/// another type, or without a text, adds nothing.
pub proof fn law_text_content_joins_the_text_parts(content: Seq<PartView>, part: PartView)
    ensures
        part_texts(Seq::empty()) == Seq::<Seq<char>>::empty(),
        part.part_type == "text"@ && part.text is Some ==> part_texts(content.push(part))
            == part_texts(content).push(part.text->0),
        part.part_type != "text"@ || part.text is None ==> part_texts(content.push(part))
            == part_texts(content),
        (ResultView { content, is_error: false }).text_content() == text::joined(
            part_texts(content),
            "\n"@,
        ),
{
    assert(content.push(part).drop_last() =~= content);
}

/// A success is no error and a failure is one, and each says what it is given to say.
pub proof fn law_answers_say_what_they_are_given(t: Seq<char>)
    ensures
        !text_view(t).is_error,
        error_view(t).is_error,
        text_view(t).text_content() == t,
        error_view(t).text_content() == t,
        text_view(t).content.len() == 1,
        error_view(t).content.len() == 1,
{
    law_text_content_of_one_text(t, false);
    law_text_content_of_one_text(t, true);
}

} // verus!
