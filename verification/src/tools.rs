//! Tools as a model is told of them.

use vstd::prelude::*;

use crate::mcp::{McpTool, McpToolView};
use crate::openai::{OpenAIFunction, OpenAITool, ToolView};
use crate::text;

verus! {

/// A tool as a model is told of it, under the name `name`. One without a description has an
/// empty one.
pub open spec fn openai_view(name: Seq<char>, tool: McpToolView) -> ToolView {
    ToolView {
        tool_type: "function"@,
        name,
        description: match tool.description {
            Some(d) => d,
            None => ""@,
        },
        parameters: tool.input_schema,
    }
}

/// A tool as a model is told of it, under the name `name`.
pub fn mcp_tool_to_openai(name: &str, tool: &McpTool) -> (r: OpenAITool)
    ensures
        r@ == openai_view(name@, tool@),
{
    OpenAITool {
        tool_type: text::copy("function"),
        function: OpenAIFunction {
            name: text::copy(name),
            description: match &tool.description {
                Some(d) => text::copy(d.as_str()),
                None => text::copy(""),
            },
            parameters: tool.input_schema.copy(),
        },
    }
}

/// The longest description that is printed whole, in bytes.
pub const MAX_DESCRIPTION: usize = 80;

/// What is printed of a tool where it has no description.
pub open spec fn description_of(tool: McpToolView) -> Seq<char> {
    match tool.description {
        Some(d) => d,
        None => "(no description)"@,
    }
}

/// The line of a tool in a printed list.
pub open spec fn listing_line(tool: McpToolView) -> Seq<char> {
    "  "@ + tool.name + " - "@ + text::clipped(
        description_of(tool),
        MAX_DESCRIPTION as nat,
        "..."@,
    )
}

fn description(tool: &McpTool) -> (r: &str)
    ensures
        r@ == description_of(tool@),
{
    match &tool.description {
        Some(d) => d.as_str(),
        None => "(no description)",
    }
}

/// Whether a tool's description can be cut where it is cut.
pub fn is_listable(tool: &McpTool) -> (r: bool)
    ensures
        r == text::can_cut(description_of(tool@), MAX_DESCRIPTION as nat),
{
    text::is_cuttable(description(tool), MAX_DESCRIPTION)
}

/// The line of a tool in a printed list.
pub fn list_line(tool: &McpTool) -> (r: String)
    requires
        text::can_cut(description_of(tool@), MAX_DESCRIPTION as nat),
    ensures
        r@ == listing_line(tool@),
{
    text::cat4(
        "  ",
        tool.name.as_str(),
        " - ",
        text::clip(description(tool), MAX_DESCRIPTION, "...").as_str(),
    )
}

/// A model is told of a tool as a function, under the name that it is offered by, with its
/// description and its schema; no description is an empty one.
pub proof fn law_model_is_told_of_a_tool(
    name: Seq<char>,
    tool: McpToolView,
)
    ensures
        openai_view(name, tool).tool_type == "function"@,
        openai_view(name, tool).name == name,
        openai_view(name, tool).parameters == tool.input_schema,
        tool.description matches Some(d) ==> openai_view(name, tool).description == d,
        tool.description is None ==> openai_view(name, tool).description == ""@,
{
}

/// A tool is printed with its name and the first eighty bytes of its description, or the words
/// that it has none.
pub proof fn law_tool_is_printed(
    tool: McpToolView,
)
    ensures
        tool.description matches Some(d) ==> listing_line(tool) == "  "@ + tool.name + " - "@
            + text::clipped(d, 80, "..."@),
        tool.description is None
            ==> listing_line(tool) == "  "@ + tool.name + " - (no description)"@,
{
    reveal_strlit(" - ");
    reveal_strlit("(no description)");
    reveal_strlit(" - (no description)");
    let none = "(no description)"@;
    assert(text::byte_len(none) == 16) by {
        lemma_plain_bytes(none);
    }
    assert("  "@ + tool.name + " - "@ + none =~= "  "@ + tool.name + " - (no description)"@);
}

proof fn lemma_plain_bytes(s: Seq<char>)
    requires
        forall|i: int| 0 <= i < s.len() ==> s[i] <= '\x7f',
    ensures
        text::byte_len(s) == s.len(),
    decreases s.len(),
{
    if s.len() > 0 {
        lemma_plain_bytes(s.drop_last());
        text::lemma_ascii_is_one_byte(s.last());
        text::lemma_bytes_add(s.drop_last(), seq![s.last()]);
        assert(s =~= s.drop_last() + seq![s.last()]);
    }
}

} // verus!
