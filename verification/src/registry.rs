//! The tools that a model may call: under which name each is offered, and which server a call
//! goes to.

use vstd::prelude::*;

use crate::actions::{ActionView, ToolAction};
use crate::driver_tools;
use crate::driver_tools::{DriverTools, DriverToolsView};
use crate::json::{Json, JsonView};
use crate::mcp;
use crate::mcp::{McpTool, McpToolView};
use crate::openai;
use crate::openai::OpenAITool;
use crate::order;
use crate::text;
use crate::tool_defs;
use crate::tools;
use crate::tools::mcp_tool_to_openai;

verus! {

/// The name under which the driver's own tools are kept.
pub const DRIVER_SERVER: &'static str = "driver";

/// A tool on offer: the name it is offered under, the server it belongs to, and the tool.
pub struct Offer {
    pub name: String,
    pub owner: String,
    pub tool: McpTool,
}

/// A tool on offer, over texts.
pub struct OfferView {
    pub name: Seq<char>,
    pub owner: Seq<char>,
    pub tool: McpToolView,
}

impl Offer {
    pub open spec fn view(&self) -> OfferView {
        OfferView { name: self.name@, owner: self.owner@, tool: self.tool@ }
    }
}

/// Tools on offer, over texts.
pub open spec fn offers_view(offers: Seq<Offer>) -> Seq<OfferView> {
    Seq::new(offers.len(), |i: int| offers[i]@)
}

/// Where the tool with a name stands; the number of tools, where there is none.
pub open spec fn offer_at(offers: Seq<OfferView>, name: Seq<char>) -> nat
    decreases offers.len(),
{
    if offers.len() == 0 || offers[0].name == name {
        0
    } else {
        1 + offer_at(offers.skip(1), name)
    }
}

/// Whether a tool is on offer under a name.
pub open spec fn is_offered(offers: Seq<OfferView>, name: Seq<char>) -> bool {
    offer_at(offers, name) < offers.len()
}

/// Whether no two tools are on offer under one name.
pub open spec fn distinct_offers(offers: Seq<OfferView>) -> bool {
    forall|i: int, j: int|
        0 <= i < j < offers.len() ==> (#[trigger] offers[i]).name != (#[trigger] offers[j]).name
}

/// The tool with a name is the first one that has it.
pub proof fn lemma_offer_at(offers: Seq<OfferView>, name: Seq<char>, i: int)
    requires
        0 <= i <= offers.len(),
        i < offers.len() ==> offers[i].name == name,
        forall|j: int| 0 <= j < i ==> (#[trigger] offers[j]).name != name,
    ensures
        offer_at(offers, name) == i,
    decreases offers.len(),
{
    if i > 0 {
        assert(offers[0].name != name);
        assert forall|j: int| 0 <= j < i - 1 implies (#[trigger] offers.skip(1)[j]).name
            != name by {
            assert(offers.skip(1)[j] == offers[j + 1]);
        }
        lemma_offer_at(offers.skip(1), name, i - 1);
    }
}

/// What `offer_at` gives is the first place with the name.
pub proof fn lemma_offer_at_is_first(offers: Seq<OfferView>, name: Seq<char>)
    ensures
        offer_at(offers, name) <= offers.len(),
        is_offered(offers, name) ==> offers[offer_at(offers, name) as int].name == name,
        forall|j: int|
            0 <= j < offer_at(offers, name) && j < offers.len() ==> (#[trigger] offers[j]).name
                != name,
    decreases offers.len(),
{
    if offers.len() > 0 && offers[0].name != name {
        lemma_offer_at_is_first(offers.skip(1), name);
        assert forall|j: int|
            0 <= j < offer_at(offers, name) && j < offers.len() implies (#[trigger] offers[j]).name
            != name by {
            if j > 0 {
                assert(offers.skip(1)[j - 1] == offers[j]);
            }
        }
    }
}

/// The tools with one more; it takes the place of one with its name.
pub open spec fn with_offer(offers: Seq<OfferView>, o: OfferView) -> Seq<OfferView> {
    if is_offered(offers, o.name) {
        offers.update(offer_at(offers, o.name) as int, o)
    } else {
        offers.push(o)
    }
}

/// The tools without the one with a name.
pub open spec fn without_offer(offers: Seq<OfferView>, name: Seq<char>) -> Seq<OfferView> {
    if is_offered(offers, name) {
        offers.remove(offer_at(offers, name) as int)
    } else {
        offers
    }
}

/// A tool's name with its server's name in front.
pub open spec fn prefixed(server: Seq<char>, name: Seq<char>) -> Seq<char> {
    server + "__"@ + name
}

/// The tools on offer once a server's tool was taken in. Where its name is taken, both that
/// tool and the new one are offered with their servers' names in front, and the bare name is
/// free again.
pub open spec fn after_register(
    offers: Seq<OfferView>,
    server: Seq<char>,
    tool: McpToolView,
) -> Seq<OfferView> {
    let bare = tool.name;
    if is_offered(offers, bare) {
        let old = offers[offer_at(offers, bare) as int];
        let moved = OfferView { name: prefixed(old.owner, bare), ..old };
        let new = OfferView { name: prefixed(server, bare), owner: server, tool };
        with_offer(with_offer(without_offer(offers, bare), moved), new)
    } else {
        offers.push(OfferView { name: bare, owner: server, tool })
    }
}

/// The tools on offer once a server's tools were taken in, in order.
pub open spec fn after_register_all(
    offers: Seq<OfferView>,
    server: Seq<char>,
    more: Seq<McpToolView>,
) -> Seq<OfferView>
    decreases more.len(),
{
    if more.len() == 0 {
        offers
    } else {
        after_register(after_register_all(offers, server, more.drop_last()), server, more.last())
    }
}

/// What `globset` says of a name and a pattern: whether the pattern is one, can be compiled, and
/// matches the name.
pub uninterp spec fn glob_matches(pattern: Seq<char>, name: Seq<char>) -> bool;

/// `globset::GlobBuilder::build` with `Glob::compile_matcher` and `GlobMatcher::is_match`, where
/// a `*` also stands for slashes. Whether the name matches is a function of the pattern and the
/// name alone, on systems where a backslash in a pattern takes the next character as it is; what
/// is no pattern matches nothing. `compile_matcher` panics on a pattern whose regular expression
/// is too large or too deep to be compiled. So the expression is compiled first by
/// `regex::bytes::RegexBuilder::build`, which has the same limits and gives an error there: such
/// a pattern matches nothing either.
#[verifier::external_body]
fn glob_match(pattern: &str, name: &str) -> (r: bool)
    ensures
        r == glob_matches(pattern@, name@),
{
    match globset::GlobBuilder::new(pattern).literal_separator(false).build() {
        Ok(g) => regex::bytes::RegexBuilder::new(g.regex()).dot_matches_new_line(true).build().is_ok()
            && g.compile_matcher().is_match(name),
        Err(_) => false,
    }
}

/// Whether a name passes a filter: one of the patterns matches it, or there are none.
pub open spec fn passes(filter: Seq<Seq<char>>, name: Seq<char>) -> bool {
    filter.len() == 0 || exists|i: int|
        0 <= i < filter.len() && glob_matches(#[trigger] filter[i], name)
}

/// Whether a name passes a filter.
fn is_passing(filter: &Vec<String>, name: &str) -> (r: bool)
    ensures
        r == passes(text::texts(filter@), name@),
{
    if filter.len() == 0 {
        return true;
    }
    let ghost patterns = text::texts(filter@);
    let mut i: usize = 0;
    while i < filter.len()
        invariant
            i <= filter@.len(),
            patterns == text::texts(filter@),
            filter@.len() > 0,
            forall|j: int| 0 <= j < i ==> !glob_matches(#[trigger] patterns[j], name@),
        decreases filter@.len() - i,
    {
        proof {
            assert(patterns[i as int] == filter@[i as int]@);
        }
        if glob_match(filter[i].as_str(), name) {
            return true;
        }
        i += 1;
    }
    false
}

/// The tools of which `kept` holds, in order.
pub open spec fn selected(all: Seq<McpToolView>, kept: Seq<bool>) -> Seq<McpToolView>
    decreases all.len(),
{
    if all.len() == 0 {
        Seq::empty()
    } else {
        let front = selected(all.drop_last(), kept);
        if kept[all.len() - 1] {
            front.push(all.last())
        } else {
            front
        }
    }
}

/// Which tools pass a filter.
pub open spec fn passing(all: Seq<McpToolView>, filter: Seq<Seq<char>>) -> Seq<bool> {
    Seq::new(all.len(), |i: int| passes(filter, all[i].name))
}

/// Where a call of a tool goes.
#[derive(Debug, Clone, PartialEq, Eq)]
pub enum Step {
    /// It is for the driver itself, and asks for this.
    Driver(ToolAction),
    /// It is for the tool `tool` of a server.
    Call { server: String, tool: String },
}

/// Where a call of a tool goes, over texts.
pub enum StepView {
    Driver(ActionView),
    Call { server: Seq<char>, tool: Seq<char> },
}

/// Where a call goes, or why nowhere, over texts.
pub open spec fn step_view(r: Result<Step, String>) -> Result<StepView, Seq<char>> {
    match r {
        Ok(Step::Driver(a)) => Ok(StepView::Driver(a@)),
        Ok(Step::Call { server, tool }) => Ok(
            StepView::Call { server: server@, tool: tool@ },
        ),
        Err(e) => Err(e@),
    }
}

/// A tool's name as its own server has it: without the server's name in front.
pub open spec fn own_name(owner: Seq<char>, name: Seq<char>) -> Seq<char> {
    let prefix = owner + "__"@;
    if text::contains_text(name, "__"@) && text::has_prefix(name, prefix) {
        name.skip(prefix.len() as int)
    } else {
        name
    }
}

/// The server and the tool that a call of a name is for.
pub open spec fn target_of(offers: Seq<OfferView>, name: Seq<char>) -> Option<
    (Seq<char>, Seq<char>),
> {
    if is_offered(offers, name) {
        let owner = offers[offer_at(offers, name) as int].owner;
        Some((owner, own_name(owner, name)))
    } else {
        None
    }
}

/// The tools that a model may call.
pub struct ToolRegistry {
    pub driver: DriverTools,
    pub offers: Vec<Offer>,
    pub servers: Vec<String>,
}

/// The tools that a model may call, over texts.
pub struct RegistryView {
    pub driver: DriverToolsView,
    pub offers: Seq<OfferView>,
    pub servers: Seq<Seq<char>>,
}

/// Where a call of a tool goes. The line that ends a session's output holds `token`.
pub open spec fn dispatch_step(
    reg: RegistryView,
    name: Seq<char>,
    args: JsonView,
    token: Seq<char>,
) -> Result<StepView, Seq<char>> {
    match target_of(reg.offers, name) {
        None => Err("unknown tool: "@ + name),
        Some((owner, tool)) => if owner == DRIVER_SERVER@ {
            Ok(StepView::Driver(driver_tools::driver_action(reg.driver, tool, args, token)))
        } else if reg.servers.contains(owner) {
            Ok(StepView::Call { server: owner, tool })
        } else {
            Err("no client for server: "@ + owner)
        },
    }
}

/// The tools once a call was taken.
pub open spec fn after_dispatch(reg: RegistryView, name: Seq<char>, args: JsonView) -> RegistryView {
    match target_of(reg.offers, name) {
        Some((owner, tool)) => if owner == DRIVER_SERVER@ {
            RegistryView { driver: driver_tools::after_call(reg.driver, tool, args), ..reg }
        } else {
            reg
        },
        None => reg,
    }
}

/// Whether a call can be taken: one for the driver has to be one that the driver can take.
pub open spec fn can_dispatch(reg: RegistryView, name: Seq<char>, args: JsonView) -> bool {
    match target_of(reg.offers, name) {
        Some((owner, tool)) => owner == DRIVER_SERVER@ ==> driver_tools::can_take(
            reg.driver,
            tool,
            args,
        ),
        None => true,
    }
}

/// The names of the tools of a server, in the order in which they are kept.
pub open spec fn names_of(offers: Seq<OfferView>, owner: Seq<char>) -> Seq<Seq<char>>
    decreases offers.len(),
{
    if offers.len() == 0 {
        Seq::empty()
    } else {
        let front = names_of(offers.drop_last(), owner);
        if offers.last().owner == owner {
            front.push(offers.last().name)
        } else {
            front
        }
    }
}

/// The names of all tools, in the order in which they are kept.
pub open spec fn all_names(offers: Seq<OfferView>) -> Seq<Seq<char>> {
    Seq::new(offers.len(), |i: int| offers[i].name)
}

/// Where the tool with a name stands.
fn find_offer(offers: &Vec<Offer>, name: &str) -> (r: Option<usize>)
    ensures
        match r {
            Some(i) => i < offers@.len() && i == offer_at(offers_view(offers@), name@),
            None => !is_offered(offers_view(offers@), name@),
        },
{
    let mut i: usize = 0;
    while i < offers.len()
        invariant
            i <= offers@.len(),
            forall|j: int| 0 <= j < i ==> (#[trigger] offers_view(offers@)[j]).name != name@,
        decreases offers@.len() - i,
    {
        if text::str_eq(offers[i].name.as_str(), name) {
            proof {
                lemma_offer_at(offers_view(offers@), name@, i as int);
            }
            return Some(i);
        }
        i += 1;
    }
    proof {
        lemma_offer_at(offers_view(offers@), name@, offers@.len() as int);
    }
    None
}

/// Puts a tool on offer, in the place of one with its name.
fn put_offer(offers: &mut Vec<Offer>, o: Offer)
    ensures
        offers_view(final(offers)@) == with_offer(offers_view(old(offers)@), o@),
{
    let ghost before = offers_view(offers@);
    match find_offer(offers, o.name.as_str()) {
        Some(i) => {
            let _ = offers.remove(i);
            offers.insert(i, o);
            proof {
                assert(offers_view(offers@) =~= before.update(i as int, o@));
            }
        },
        None => {
            offers.push(o);
            proof {
                assert(offers_view(offers@) =~= before.push(o@));
            }
        },
    }
}

/// Whether a text is among texts.
fn is_among(names: &Vec<String>, name: &str) -> (r: bool)
    ensures
        r == text::texts(names@).contains(name@),
{
    let ghost all = text::texts(names@);
    let mut i: usize = 0;
    while i < names.len()
        invariant
            i <= names@.len(),
            all == text::texts(names@),
            forall|j: int| 0 <= j < i ==> (#[trigger] all[j]) != name@,
        decreases names@.len() - i,
    {
        if text::str_eq(names[i].as_str(), name) {
            proof {
                assert(all[i as int] == name@);
            }
            return true;
        }
        i += 1;
    }
    false
}

impl ToolRegistry {
    pub open spec fn view(&self) -> RegistryView {
        RegistryView {
            driver: self.driver@,
            offers: offers_view(self.offers@),
            servers: text::texts(self.servers@),
        }
    }

    /// No tools and no servers; records below `log_dir`.
    pub fn new(log_dir: &str) -> (r: ToolRegistry)
        ensures
            r@.offers == Seq::<OfferView>::empty(),
            r@.servers == Seq::<Seq<char>>::empty(),
            r@.driver.sessions == Seq::<crate::sessions::SessionView>::empty(),
            r@.driver.breadcrumbs.active_dir@ == crate::paths::path_join(
                crate::paths::path_join(log_dir@, "breadcrumbs"@),
                "active"@,
            ),
            r@.driver.breadcrumbs.completed_base@ == crate::paths::path_join(
                crate::paths::path_join(log_dir@, "breadcrumbs"@),
                "completed"@,
            ),
            r@.driver.loafs.loaves_dir@ == crate::paths::path_join(log_dir@, "loaves"@),
            r@.driver.loafs.archive_dir@ == crate::paths::path_join(
                crate::paths::path_join(log_dir@, "loaves"@),
                "archive"@,
            ),
    {
        let r = ToolRegistry {
            driver: DriverTools::new(log_dir),
            offers: Vec::new(),
            servers: Vec::new(),
        };
        proof {
            assert(r@.offers =~= Seq::empty());
            assert(r@.servers =~= Seq::empty());
        }
        r
    }

    /// Takes in a server's tool.
    pub fn register_tool(&mut self, server_name: &str, tool: McpTool)
        ensures
            final(self)@ == (RegistryView {
                offers: after_register(old(self)@.offers, server_name@, tool@),
                ..old(self)@
            }),
    {
        let ghost before = offers_view(self.offers@);
        match find_offer(&self.offers, tool.name.as_str()) {
            Some(i) => {
                let old_offer = self.offers.remove(i);
                let ghost old_view = before[i as int];
                proof {
                    assert(offers_view(self.offers@) =~= before.remove(i as int));
                }
                let moved = Offer {
                    name: text::cat3(old_offer.owner.as_str(), "__", tool.name.as_str()),
                    owner: old_offer.owner,
                    tool: old_offer.tool,
                };
                proof {
                    assert(moved@ == (OfferView {
                        name: prefixed(old_view.owner, tool@.name),
                        ..old_view
                    }));
                }
                put_offer(&mut self.offers, moved);
                let new_offer = Offer {
                    name: text::cat3(server_name, "__", tool.name.as_str()),
                    owner: text::copy(server_name),
                    tool,
                };
                put_offer(&mut self.offers, new_offer);
            },
            None => {
                let new_offer = Offer {
                    name: text::copy(tool.name.as_str()),
                    owner: text::copy(server_name),
                    tool,
                };
                self.offers.push(new_offer);
                proof {
                    assert(offers_view(self.offers@) =~= before.push(new_offer@));
                }
            },
        }
    }

    /// Takes in a server's tools, in order.
    pub fn register_all(&mut self, server_name: &str, more: Vec<McpTool>)
        ensures
            final(self)@ == (RegistryView {
                offers: after_register_all(
                    old(self)@.offers,
                    server_name@,
                    mcp::tool_views(more@),
                ),
                ..old(self)@
            }),
    {
        let ghost all = mcp::tool_views(more@);
        let ghost given = more@;
        let mut rest = more;
        let ghost mut done: int = 0;
        proof {
            assert(all.take(0) =~= Seq::empty());
            assert(given.skip(0) =~= given);
        }
        while rest.len() > 0
            invariant
                0 <= done,
                done + rest@.len() == given.len(),
                all == mcp::tool_views(given),
                rest@ == given.skip(done),
                self@ == (RegistryView {
                    offers: after_register_all(
                        old(self)@.offers,
                        server_name@,
                        all.take(done),
                    ),
                    ..old(self)@
                }),
            decreases rest@.len(),
        {
            let tool = rest.remove(0);
            proof {
                assert(tool == given[done]);
                assert(all.take(done + 1).drop_last() =~= all.take(done));
                assert(rest@ =~= given.skip(done + 1));
            }
            self.register_tool(server_name, tool);
            proof {
                done = done + 1;
            }
        }
        proof {
            assert(all.take(done) =~= all);
        }
    }

    /// Takes in the driver's own tools.
    pub fn register_driver_tools(&mut self)
        ensures
            final(self)@ == (RegistryView {
                offers: after_register_all(
                    old(self)@.offers,
                    DRIVER_SERVER@,
                    tool_defs::all_tool_views(),
                ),
                ..old(self)@
            }),
    {
        self.register_all(DRIVER_SERVER, DriverTools::tool_definitions());
    }

    /// Takes in a server with those of its tools of which `kept` holds.
    pub fn add_selected(&mut self, name: &str, all_tools: Vec<McpTool>, kept: &Vec<bool>)
        requires
            kept@.len() == all_tools@.len(),
        ensures
            final(self)@.driver == old(self)@.driver,
            final(self)@.offers == after_register_all(
                old(self)@.offers,
                name@,
                selected(mcp::tool_views(all_tools@), kept@),
            ),
            final(self)@.servers == (if old(self)@.servers.contains(name@) {
                old(self)@.servers
            } else {
                old(self)@.servers.push(name@)
            }),
    {
        let ghost given = all_tools@;
        let ghost all = mcp::tool_views(given);
        let ghost n = given.len() as int;
        let mut rest = all_tools;
        let mut out: Vec<McpTool> = Vec::new();
        let mut done: usize = 0;
        proof {
            assert(mcp::tool_views(out@) =~= selected(all.take(0), kept@));
            assert(given.skip(0) =~= given);
        }
        while rest.len() > 0
            invariant
                done + rest@.len() == n,
                n == given.len(),
                kept.len() == n,
                all == mcp::tool_views(given),
                rest@ == given.skip(done as int),
                mcp::tool_views(out@) == selected(all.take(done as int), kept@),
            decreases rest@.len(),
        {
            let tool = rest.remove(0);
            proof {
                assert(tool == given[done as int]);
                assert(all.take(done + 1).drop_last() =~= all.take(done as int));
                assert(rest@ =~= given.skip(done + 1));
            }
            if kept[done] {
                let ghost before = mcp::tool_views(out@);
                out.push(tool);
                proof {
                    assert(mcp::tool_views(out@) =~= before.push(tool@));
                }
            }
            done += 1;
        }
        proof {
            assert(all.take(done as int) =~= all);
        }
        self.register_all(name, out);
        if !is_among(&self.servers, name) {
            let owned = text::copy(name);
            let ghost before = self.servers@;
            self.servers.push(owned);
            proof {
                text::lemma_texts_push(before, owned);
            }
        }
    }

    /// Takes in a server with those of its tools that pass a filter.
    pub fn add_server(&mut self, name: &str, all_tools: Vec<McpTool>, filter: &Vec<String>)
        ensures
            final(self)@.driver == old(self)@.driver,
            final(self)@.offers == after_register_all(
                old(self)@.offers,
                name@,
                selected(
                    mcp::tool_views(all_tools@),
                    passing(mcp::tool_views(all_tools@), text::texts(filter@)),
                ),
            ),
            final(self)@.servers == (if old(self)@.servers.contains(name@) {
                old(self)@.servers
            } else {
                old(self)@.servers.push(name@)
            }),
    {
        let ghost all = mcp::tool_views(all_tools@);
        let mut kept: Vec<bool> = Vec::new();
        let mut i: usize = 0;
        while i < all_tools.len()
            invariant
                i <= all_tools@.len(),
                all == mcp::tool_views(all_tools@),
                kept@.len() == i,
                forall|j: int|
                    0 <= j < i ==> (#[trigger] kept@[j]) == passes(
                        text::texts(filter@),
                        all[j].name,
                    ),
            decreases all_tools@.len() - i,
        {
            kept.push(is_passing(filter, all_tools[i].name.as_str()));
            i += 1;
        }
        proof {
            assert(kept@ =~= passing(all, text::texts(filter@)));
        }
        self.add_selected(name, all_tools, &kept);
    }

    /// All tools as a model is told of them, in the order in which they are kept.
    pub fn to_openai_tools(&self) -> (r: Vec<OpenAITool>)
        ensures
            openai::tools_view(r@) == Seq::new(
                self@.offers.len(),
                |i: int| tools::openai_view(self@.offers[i].name, self@.offers[i].tool),
            ),
    {
        let mut out: Vec<OpenAITool> = Vec::new();
        let mut i: usize = 0;
        while i < self.offers.len()
            invariant
                i <= self.offers@.len(),
                out@.len() == i,
                forall|j: int|
                    0 <= j < i ==> (#[trigger] out@[j])@ == tools::openai_view(
                        self.offers@[j]@.name,
                        self.offers@[j]@.tool,
                    ),
            decreases self.offers@.len() - i,
        {
            out.push(mcp_tool_to_openai(self.offers[i].name.as_str(), &self.offers[i].tool));
            i += 1;
        }
        proof {
            assert(openai::tools_view(out@) =~= Seq::new(
                self@.offers.len(),
                |i: int| tools::openai_view(self@.offers[i].name, self@.offers[i].tool),
            ));
        }
        out
    }

    /// The server and the tool that a call of a name is for.
    fn target(&self, tool_name: &str) -> (r: Option<(String, String)>)
        ensures
            match r {
                Some((owner, tool)) => target_of(self@.offers, tool_name@) == Some(
                    (owner@, tool@),
                ),
                None => target_of(self@.offers, tool_name@) is None,
            },
    {
        match find_offer(&self.offers, tool_name) {
            None => None,
            Some(i) => {
                let owner = text::copy(self.offers[i].owner.as_str());
                let tool: String = if text::contains(tool_name, "__") {
                    let prefix = text::cat2(owner.as_str(), "__");
                    match text::strip_prefix(tool_name, prefix.as_str()) {
                        Some(rest) => rest,
                        None => text::copy(tool_name),
                    }
                } else {
                    text::copy(tool_name)
                };
                Some((owner, tool))
            },
        }
    }

    /// Whether a call can be taken.
    pub fn is_dispatchable(&self, tool_name: &str, arguments: &Json) -> (r: bool)
        ensures
            r == can_dispatch(self@, tool_name@, arguments@),
    {
        match self.target(tool_name) {
            Some((owner, tool)) => !text::str_eq(owner.as_str(), DRIVER_SERVER)
                || self.driver.is_takeable(tool.as_str(), arguments),
            None => true,
        }
    }

    /// Takes a call of a tool. The line that ends a session's output holds `token`.
    pub fn dispatch_with(&mut self, tool_name: &str, arguments: &Json, token: &str) -> (r: Result<
        Step,
        String,
    >)
        requires
            can_dispatch(old(self)@, tool_name@, arguments@),
        ensures
            step_view(r) == dispatch_step(old(self)@, tool_name@, arguments@, token@),
            final(self)@ == after_dispatch(old(self)@, tool_name@, arguments@),
    {
        match self.target(tool_name) {
            None => Err(text::cat2("unknown tool: ", tool_name)),
            Some((owner, tool)) => {
                if text::str_eq(owner.as_str(), DRIVER_SERVER) {
                    Ok(Step::Driver(self.driver.dispatch_with(tool.as_str(), arguments, token)))
                } else if is_among(&self.servers, owner.as_str()) {
                    Ok(Step::Call { server: owner, tool })
                } else {
                    Err(text::cat2("no client for server: ", owner.as_str()))
                }
            },
        }
    }

    /// Takes a call of a tool.
    pub fn dispatch(&mut self, tool_name: &str, arguments: &Json) -> (r: Result<Step, String>)
        requires
            can_dispatch(old(self)@, tool_name@, arguments@),
        ensures
            exists|token: Seq<char>|
                step_view(r) == #[trigger] dispatch_step(
                    old(self)@,
                    tool_name@,
                    arguments@,
                    token,
                ),
            final(self)@ == after_dispatch(old(self)@, tool_name@, arguments@),
    {
        let token = crate::clock::new_uuid();
        self.dispatch_with(tool_name, arguments, token.as_str())
    }

    /// How many tools there are.
    pub fn tool_count(&self) -> (r: usize)
        ensures
            r == self@.offers.len(),
    {
        self.offers.len()
    }

    /// The names of all tools, in order.
    pub fn tool_names(&self) -> (r: Vec<String>)
        ensures
            order::in_order(text::texts(r@)),
            text::texts(r@).to_multiset() == all_names(self@.offers).to_multiset(),
    {
        let mut names: Vec<String> = Vec::new();
        let mut i: usize = 0;
        while i < self.offers.len()
            invariant
                i <= self.offers@.len(),
                names@.len() == i,
                forall|j: int| 0 <= j < i ==> (#[trigger] names@[j])@ == self.offers@[j]@.name,
            decreases self.offers@.len() - i,
        {
            names.push(text::copy(self.offers[i].name.as_str()));
            i += 1;
        }
        proof {
            assert(text::texts(names@) =~= all_names(self@.offers));
        }
        order::sort(names)
    }

    /// The names of the tools of a server, in the order in which they are kept.
    fn server_tool_names(&self, owner: &str) -> (r: Vec<String>)
        ensures
            text::texts(r@) == names_of(self@.offers, owner@),
    {
        let ghost all = self@.offers;
        let mut names: Vec<String> = Vec::new();
        let mut i: usize = 0;
        proof {
            assert(text::texts(names@) =~= names_of(all.take(0), owner@));
        }
        while i < self.offers.len()
            invariant
                i <= self.offers@.len(),
                all == offers_view(self.offers@),
                text::texts(names@) == names_of(all.take(i as int), owner@),
            decreases self.offers@.len() - i,
        {
            proof {
                assert(all.take(i + 1).drop_last() =~= all.take(i as int));
            }
            if text::str_eq(self.offers[i].owner.as_str(), owner) {
                let name = text::copy(self.offers[i].name.as_str());
                let ghost before = names@;
                names.push(name);
                proof {
                    text::lemma_texts_push(before, name);
                }
            }
            i += 1;
        }
        proof {
            assert(all.take(i as int) =~= all);
        }
        names
    }

    /// The names of the driver's own tools, in the order in which they are kept.
    pub fn driver_tool_names(&self) -> (r: Vec<String>)
        ensures
            text::texts(r@) == names_of(self@.offers, DRIVER_SERVER@),
    {
        self.server_tool_names(DRIVER_SERVER)
    }

    /// The servers other than the driver itself that have tools, each once, with the names of
    /// their tools in order.
    pub fn mcp_server_tools(&self) -> (r: Vec<(String, Vec<String>)>)
        ensures
            forall|i: int, j: int| 0 <= i < j < r@.len() ==> (#[trigger] r@[i]).0@ != (
            #[trigger] r@[j]).0@,
            forall|i: int|
                0 <= i < r@.len() ==> {
                    &&& (#[trigger] r@[i]).0@ != DRIVER_SERVER@
                    &&& order::in_order(text::texts(r@[i].1@))
                    &&& text::texts(r@[i].1@).to_multiset() == names_of(
                        self@.offers,
                        r@[i].0@,
                    ).to_multiset()
                    &&& exists|k: int|
                        0 <= k < self@.offers.len() && (#[trigger] self@.offers[k]).owner
                            == r@[i].0@
                },
            forall|k: int|
                0 <= k < self@.offers.len() && (#[trigger] self@.offers[k]).owner != DRIVER_SERVER@
                    ==> exists|i: int|
                    0 <= i < r@.len() && (#[trigger] r@[i]).0@ == self@.offers[k].owner,
    {
        let mut out: Vec<(String, Vec<String>)> = Vec::new();
        let mut seen: Vec<String> = Vec::new();
        let mut k: usize = 0;
        while k < self.offers.len()
            invariant
                k <= self.offers@.len(),
                seen@.len() == out@.len(),
                forall|i: int| 0 <= i < out@.len() ==> (#[trigger] out@[i]).0@ == seen@[i]@,
                forall|i: int, j: int| 0 <= i < j < out@.len() ==> (#[trigger] out@[i]).0@ != (
                #[trigger] out@[j]).0@,
                forall|i: int|
                    0 <= i < out@.len() ==> {
                        &&& (#[trigger] out@[i]).0@ != DRIVER_SERVER@
                        &&& order::in_order(text::texts(out@[i].1@))
                        &&& text::texts(out@[i].1@).to_multiset() == names_of(
                            self@.offers,
                            out@[i].0@,
                        ).to_multiset()
                        &&& exists|k: int|
                            0 <= k < self@.offers.len() && (#[trigger] self@.offers[k]).owner
                                == out@[i].0@
                    },
                forall|j: int|
                    0 <= j < k && (#[trigger] self@.offers[j]).owner != DRIVER_SERVER@
                        ==> exists|i: int|
                        0 <= i < out@.len() && (#[trigger] out@[i]).0@ == self@.offers[j].owner,
            decreases self.offers@.len() - k,
        {
            let owner = self.offers[k].owner.as_str();
            proof {
                assert(self@.offers[k as int].owner == owner@);
            }
            let known = is_among(&seen, owner);
            if known {
                proof {
                    let at = choose|i: int|
                        0 <= i < text::texts(seen@).len() && text::texts(seen@)[i] == owner@;
                    assert(out@[at].0@ == owner@);
                }
            } else if !text::str_eq(owner, DRIVER_SERVER) {
                let names = order::sort(self.server_tool_names(owner));
                let ghost before = out@;
                proof {
                    assert forall|i: int| 0 <= i < before.len() implies (#[trigger] before[i]).0@
                        != owner@ by {
                        assert(text::texts(seen@)[i] == before[i].0@);
                    }
                }
                out.push((text::copy(owner), names));
                seen.push(text::copy(owner));
                proof {
                    assert(out@[before.len() as int].0@ == owner@);
                    assert forall|j: int|
                        0 <= j < k + 1 && (#[trigger] self@.offers[j]).owner
                            != DRIVER_SERVER@ implies exists|i: int|
                        0 <= i < out@.len() && (#[trigger] out@[i]).0@ == self@.offers[j].owner by {
                        if j < k {
                            let i = choose|i: int|
                                0 <= i < before.len() && (#[trigger] before[i]).0@
                                    == self@.offers[j].owner;
                            assert(out@[i].0@ == self@.offers[j].owner);
                        }
                    }
                }
            }
            k += 1;
        }
        out
    }
}

/// Taking in a tool leaves the names on offer distinct.
pub proof fn law_offers_stay_distinct(
    offers: Seq<OfferView>,
    server: Seq<char>,
    tool: McpToolView,
)
    requires
        distinct_offers(offers),
    ensures
        distinct_offers(after_register(offers, server, tool)),
{
    let bare = tool.name;
    lemma_offer_at_is_first(offers, bare);
    if is_offered(offers, bare) {
        let old = offers[offer_at(offers, bare) as int];
        let moved = OfferView { name: prefixed(old.owner, bare), ..old };
        let new = OfferView { name: prefixed(server, bare), owner: server, tool };
        let freed = without_offer(offers, bare);
        lemma_offer_at_is_first(freed, moved.name);
        lemma_with_offer_distinct(freed, moved);
        lemma_with_offer_distinct(with_offer(freed, moved), new);
    }
}

proof fn lemma_with_offer_distinct(offers: Seq<OfferView>, o: OfferView)
    requires
        distinct_offers(offers),
    ensures
        distinct_offers(with_offer(offers, o)),
{
    lemma_offer_at_is_first(offers, o.name);
}

/// A tool that was put on offer is found under its name; every other name finds what it found.
proof fn lemma_with_offer_found(offers: Seq<OfferView>, o: OfferView, name: Seq<char>)
    requires
        distinct_offers(offers),
    ensures
        is_offered(with_offer(offers, o), o.name),
        with_offer(offers, o)[offer_at(with_offer(offers, o), o.name) as int] == o,
        name != o.name ==> is_offered(with_offer(offers, o), name) == is_offered(offers, name),
        name != o.name && is_offered(offers, name) ==> with_offer(
            offers,
            o,
        )[offer_at(with_offer(offers, o), name) as int] == offers[offer_at(offers, name) as int],
{
    lemma_offer_at_is_first(offers, o.name);
    lemma_offer_at_is_first(offers, name);
    let after = with_offer(offers, o);
    lemma_with_offer_distinct(offers, o);
    lemma_offer_at_is_first(after, o.name);
    lemma_offer_at_is_first(after, name);
    let at = offer_at(offers, o.name) as int;
    assert(after[at] == o);
    lemma_offer_at(after, o.name, at);
    if name != o.name {
        let i = offer_at(offers, name) as int;
        if i < offers.len() {
            assert(after[i] == offers[i]);
            assert forall|j: int| 0 <= j < i implies (#[trigger] after[j]).name != name by {
                if j != at {
                    assert(after[j] == offers[j]);
                }
            }
            lemma_offer_at(after, name, i);
        } else {
            assert forall|j: int| 0 <= j < after.len() implies (#[trigger] after[j]).name
                != name by {
                if j != at {
                    assert(after[j] == offers[j]);
                }
            }
            lemma_offer_at(after, name, after.len() as int);
        }
    }
}

/// The tool that a name stands for.
pub open spec fn offered(offers: Seq<OfferView>, name: Seq<char>) -> Option<OfferView> {
    if is_offered(offers, name) {
        Some(offers[offer_at(offers, name) as int])
    } else {
        None
    }
}

/// A tool whose name is free is offered under that name, and every other name stands for what it
/// stood for.
pub proof fn law_free_name_is_kept(
    offers: Seq<OfferView>,
    server: Seq<char>,
    tool: McpToolView,
    name: Seq<char>,
)
    requires
        distinct_offers(offers),
        !is_offered(offers, tool.name),
    ensures
        offered(after_register(offers, server, tool), tool.name) == Some(
            OfferView { name: tool.name, owner: server, tool },
        ),
        name != tool.name ==> offered(after_register(offers, server, tool), name) == offered(
            offers,
            name,
        ),
{
    let new = OfferView { name: tool.name, owner: server, tool };
    lemma_with_offer_found(offers, new, name);
}

/// Where two servers have a tool of one name, both are offered with their servers' names in
/// front, and the bare name stands for neither.
pub proof fn law_taken_name_is_split(
    offers: Seq<OfferView>,
    server: Seq<char>,
    tool: McpToolView,
)
    requires
        distinct_offers(offers),
        is_offered(offers, tool.name),
        offered(offers, tool.name)->0.owner != server,
    ensures
        ({
            let old = offered(offers, tool.name)->0;
            let after = after_register(offers, server, tool);
            &&& !is_offered(after, tool.name)
            &&& offered(after, prefixed(old.owner, tool.name)) == Some(
                OfferView { name: prefixed(old.owner, tool.name), ..old },
            )
            &&& offered(after, prefixed(server, tool.name)) == Some(
                OfferView { name: prefixed(server, tool.name), owner: server, tool },
            )
        }),
{
    reveal_strlit("__");
    let bare = tool.name;
    let at = offer_at(offers, bare) as int;
    lemma_offer_at_is_first(offers, bare);
    let old = offers[at];
    let moved = OfferView { name: prefixed(old.owner, bare), ..old };
    let new = OfferView { name: prefixed(server, bare), owner: server, tool };
    assert(moved.name != new.name) by {
        if moved.name == new.name {
            assert(old.owner.len() == server.len());
            assert(moved.name.take(server.len() as int) =~= old.owner);
            assert(new.name.take(server.len() as int) =~= server);
        }
    }
    assert(moved.name.len() > bare.len());
    assert(new.name.len() > bare.len());
    let freed = without_offer(offers, bare);
    assert(!is_offered(freed, bare)) by {
        lemma_offer_at(freed, bare, freed.len() as int);
    }
    lemma_with_offer_distinct(freed, moved);
    lemma_with_offer_found(freed, moved, bare);
    lemma_with_offer_found(with_offer(freed, moved), new, bare);
    lemma_with_offer_found(with_offer(freed, moved), new, moved.name);
}

/// Whether a tool is offered under its own name, or under that name with its server's in front,
/// and its own name has no double underscore in it.
pub open spec fn well_named(o: OfferView) -> bool {
    &&& o.name == o.tool.name || o.name == prefixed(o.owner, o.tool.name)
    &&& !text::contains_text(o.tool.name, "__"@)
}

/// Whether all tools are well named.
pub open spec fn all_well_named(offers: Seq<OfferView>) -> bool {
    forall|i: int| 0 <= i < offers.len() ==> well_named(#[trigger] offers[i])
}

proof fn lemma_prefixed_has_underscores(server: Seq<char>, name: Seq<char>)
    ensures
        text::contains_text(prefixed(server, name), "__"@),
        text::has_prefix(prefixed(server, name), server + "__"@),
        prefixed(server, name).skip((server + "__"@).len() as int) == name,
{
    reveal_strlit("__");
    let whole = prefixed(server, name);
    let at = server.len() as int;
    assert(whole.subrange(at, at + "__"@.len()) =~= "__"@);
    assert(text::occurs_at(whole, "__"@, at));
    assert(whole.subrange(0, (server + "__"@).len() as int) =~= server + "__"@);
    assert(whole.skip((server + "__"@).len() as int) =~= name);
}

/// Taking in a tool whose name has no double underscore in it leaves all tools well named.
pub proof fn law_tools_stay_well_named(
    offers: Seq<OfferView>,
    server: Seq<char>,
    tool: McpToolView,
)
    requires
        all_well_named(offers),
        !text::contains_text(tool.name, "__"@),
    ensures
        all_well_named(after_register(offers, server, tool)),
{
    lemma_offer_at_is_first(offers, tool.name);
    if is_offered(offers, tool.name) {
        let old = offers[offer_at(offers, tool.name) as int];
        assert(well_named(old));
        lemma_prefixed_has_underscores(old.owner, old.tool.name);
        let moved = OfferView { name: prefixed(old.owner, tool.name), ..old };
        let freed = without_offer(offers, tool.name);
        lemma_offer_at_is_first(freed, moved.name);
    }
}

/// A call of a well-named tool goes to the server it belongs to, under the name that it has
/// there.
pub proof fn law_call_reaches_its_tool(offers: Seq<OfferView>, i: int)
    requires
        distinct_offers(offers),
        all_well_named(offers),
        0 <= i < offers.len(),
    ensures
        target_of(offers, offers[i].name) == Some((offers[i].owner, offers[i].tool.name)),
{
    let o = offers[i];
    assert(well_named(o));
    lemma_offer_at(offers, o.name, i);
    lemma_prefixed_has_underscores(o.owner, o.tool.name);
}

/// Taking in a server's tools, however many, leaves the names on offer distinct; where none of
/// their names has a double underscore in it, it leaves all tools well named too.
pub proof fn law_servers_keep_the_offers_in_order(
    offers: Seq<OfferView>,
    server: Seq<char>,
    more: Seq<McpToolView>,
)
    requires
        distinct_offers(offers),
    ensures
        distinct_offers(after_register_all(offers, server, more)),
        all_well_named(offers) && (forall|i: int|
            0 <= i < more.len() ==> !text::contains_text((#[trigger] more[i]).name, "__"@))
            ==> all_well_named(after_register_all(offers, server, more)),
    decreases more.len(),
{
    if more.len() > 0 {
        let front = more.drop_last();
        law_servers_keep_the_offers_in_order(offers, server, front);
        let before = after_register_all(offers, server, front);
        law_offers_stay_distinct(before, server, more.last());
        if all_well_named(offers) && (forall|i: int|
            0 <= i < more.len() ==> !text::contains_text((#[trigger] more[i]).name, "__"@)) {
            assert forall|i: int| 0 <= i < front.len() implies !text::contains_text(
                (#[trigger] front[i]).name,
                "__"@,
            ) by {
                assert(front[i] == more[i]);
            }
            assert(more.last() == more[more.len() - 1]);
            law_tools_stay_well_named(before, server, more.last());
        }
    }
}

/// The names of the tools of several servers, one server's behind the other's.
pub open spec fn names_of_all(offers: Seq<OfferView>, owners: Seq<Seq<char>>) -> Seq<Seq<char>>
    decreases owners.len(),
{
    if owners.len() == 0 {
        Seq::empty()
    } else {
        names_of_all(offers, owners.drop_last()) + names_of(offers, owners.last())
    }
}

/// How often a text stands among texts.
pub open spec fn times(all: Seq<Seq<char>>, name: Seq<char>) -> nat {
    all.to_multiset().count(name)
}

proof fn lemma_times_in_two(a: Seq<Seq<char>>, b: Seq<Seq<char>>, name: Seq<char>)
    ensures
        times(a + b, name) == times(a, name) + times(b, name),
{
    vstd::seq_lib::lemma_multiset_commutative(a, b);
}

proof fn lemma_names_with_one_more(
    offers: Seq<OfferView>,
    o: OfferView,
    owners: Seq<Seq<char>>,
    name: Seq<char>,
)
    requires
        owners.no_duplicates(),
    ensures
        times(names_of_all(offers.push(o), owners), name) == times(
            names_of_all(offers, owners),
            name,
        ) + (if owners.contains(o.owner) && o.name == name {
            1nat
        } else {
            0nat
        }),
    decreases owners.len(),
{
    let more = offers.push(o);
    if owners.len() > 0 {
        let front = owners.drop_last();
        let last = owners.last();
        assert(front.no_duplicates());
        lemma_names_with_one_more(offers, o, front, name);
        lemma_times_in_two(names_of_all(more, front), names_of(more, last), name);
        lemma_times_in_two(names_of_all(offers, front), names_of(offers, last), name);
        assert(more.drop_last() =~= offers);
        assert(names_of(more, last) == if o.owner == last {
            names_of(offers, last).push(o.name)
        } else {
            names_of(offers, last)
        });
        vstd::seq_lib::to_multiset_build(names_of(offers, last), o.name);
        assert(owners =~= front.push(last));
        if owners.contains(o.owner) {
            let i = choose|i: int| 0 <= i < owners.len() && owners[i] == o.owner;
            if i < front.len() {
                assert(front[i] == o.owner);
                assert(owners[owners.len() - 1] == last);
            }
        }
        if front.contains(o.owner) {
            let i = choose|i: int| 0 <= i < front.len() && front[i] == o.owner;
            assert(owners[i] == o.owner);
            assert(owners[owners.len() - 1] == last);
        }
        if o.owner == last {
            assert(owners[owners.len() - 1] == o.owner);
        }
    }
}

/// The lists of tools of distinct servers, with every server that has a tool among them, hold
/// together all the names on offer, each as often as it is on offer.
proof fn lemma_names_together(offers: Seq<OfferView>, owners: Seq<Seq<char>>, name: Seq<char>)
    requires
        owners.no_duplicates(),
        forall|i: int| 0 <= i < offers.len() ==> owners.contains((#[trigger] offers[i]).owner),
    ensures
        times(names_of_all(offers, owners), name) == times(all_names(offers), name),
    decreases offers.len(),
{
    if offers.len() == 0 {
        lemma_no_names(offers, owners);
        assert(all_names(offers) =~= Seq::empty());
    } else {
        let front = offers.drop_last();
        let o = offers.last();
        assert(offers =~= front.push(o));
        assert forall|i: int| 0 <= i < front.len() implies owners.contains(
            (#[trigger] front[i]).owner,
        ) by {
            assert(front[i] == offers[i]);
        }
        assert(owners.contains(offers[offers.len() - 1].owner));
        lemma_names_together(front, owners, name);
        lemma_names_with_one_more(front, o, owners, name);
        assert(all_names(offers) =~= all_names(front).push(o.name));
        vstd::seq_lib::to_multiset_build(all_names(front), o.name);
    }
}

proof fn lemma_no_names(offers: Seq<OfferView>, owners: Seq<Seq<char>>)
    requires
        offers.len() == 0,
    ensures
        names_of_all(offers, owners) == Seq::<Seq<char>>::empty(),
    decreases owners.len(),
{
    if owners.len() > 0 {
        lemma_no_names(offers, owners.drop_last());
        assert(names_of_all(offers, owners) =~= Seq::empty());
    }
}

/// The driver's own names and the lists of the other servers hold together all the names on
/// offer, each once.
pub proof fn law_lists_hold_every_name_once(offers: Seq<OfferView>, servers: Seq<Seq<char>>)
    requires
        distinct_offers(offers),
        servers.no_duplicates(),
        !servers.contains(DRIVER_SERVER@),
        forall|i: int|
            0 <= i < offers.len() && (#[trigger] offers[i]).owner != DRIVER_SERVER@
                ==> servers.contains(offers[i].owner),
    ensures
        (names_of(offers, DRIVER_SERVER@) + names_of_all(offers, servers)).to_multiset()
            == all_names(offers).to_multiset(),
        all_names(offers).no_duplicates(),
        (names_of(offers, DRIVER_SERVER@) + names_of_all(offers, servers)).no_duplicates(),
{
    let owners = servers.push(DRIVER_SERVER@);
    let own = names_of(offers, DRIVER_SERVER@);
    let others = names_of_all(offers, servers);
    let listed = own + others;
    assert(owners.no_duplicates());
    assert forall|i: int| 0 <= i < offers.len() implies owners.contains(
        (#[trigger] offers[i]).owner,
    ) by {
        if offers[i].owner == DRIVER_SERVER@ {
            assert(owners[owners.len() - 1] == DRIVER_SERVER@);
        } else {
            let k = choose|k: int| 0 <= k < servers.len() && servers[k] == offers[i].owner;
            assert(owners[k] == offers[i].owner);
        }
    }
    assert(owners.drop_last() =~= servers);
    assert forall|name: Seq<char>| #[trigger] times(listed, name) == times(
        all_names(offers),
        name,
    ) by {
        lemma_names_together(offers, owners, name);
        lemma_times_in_two(own, others, name);
        lemma_times_in_two(others, own, name);
    }
    assert forall|name: Seq<char>| #[trigger]
        listed.to_multiset().count(name) == all_names(offers).to_multiset().count(name) by {
        assert(times(listed, name) == times(all_names(offers), name));
    }
    assert(listed.to_multiset() =~= all_names(offers).to_multiset());
    assert forall|i: int, j: int| 0 <= i < j < all_names(offers).len() implies all_names(
        offers,
    )[i] != all_names(offers)[j] by {
        assert(offers[i].name != offers[j].name);
    }
    assert(all_names(offers).no_duplicates());
    all_names(offers).lemma_multiset_has_no_duplicates();
    listed.lemma_multiset_has_no_duplicates_conv();
}

proof fn lemma_selected_front(all: Seq<McpToolView>, a: Seq<bool>, b: Seq<bool>)
    requires
        forall|i: int| 0 <= i < all.len() ==> a[i] == b[i],
    ensures
        selected(all, a) == selected(all, b),
    decreases all.len(),
{
    if all.len() > 0 {
        lemma_selected_front(all.drop_last(), a, b);
    }
}

/// Of a server's tools those are taken whose name one of the patterns matches, in their order,
/// and all of them where there is no pattern.
pub proof fn law_tools_that_match_are_taken(
    all: Seq<McpToolView>,
    tool: McpToolView,
    filter: Seq<Seq<char>>,
)
    ensures
        ({
            let before = selected(all, passing(all, filter));
            let after = selected(all.push(tool), passing(all.push(tool), filter));
            &&& filter.len() == 0 ==> after == before.push(tool)
            &&& (exists|i: int| 0 <= i < filter.len()
                && glob_matches(#[trigger] filter[i], tool.name))
                ==> after == before.push(tool)
            &&& filter.len() > 0 && (forall|i: int|
                0 <= i < filter.len() ==> !glob_matches(#[trigger] filter[i], tool.name)) ==> after
                == before
        }),
        selected(Seq::empty(), passing(Seq::empty(), filter)).len() == 0,
{
    let more = all.push(tool);
    assert(more.drop_last() =~= all);
    lemma_selected_front(all, passing(all, filter), passing(more, filter));
}

/// A name with its server's in front is the server's own name for the tool with that taken away;
/// a name without a double underscore, or with another server's in front, stays.
pub proof fn law_own_name_is_without_the_server(
    owner: Seq<char>,
    name: Seq<char>,
)
    ensures
        own_name(owner, owner + "__"@ + name) == name,
        !text::contains_text(name, "__"@) ==> own_name(owner, name) == name,
        (forall|rest: Seq<char>| name != #[trigger] (owner + "__"@ + rest))
            ==> own_name(owner, name)
            == name,
{
    lemma_prefixed_has_underscores(owner, name);
    let prefix = owner + "__"@;
    if text::has_prefix(name, prefix) {
        let rest = name.skip(prefix.len() as int);
        assert(name =~= prefix + rest);
    }
}

/// A call of a tool that is offered is for the one that offers it: the driver does what its own
/// tool of that name does, and a server that is there is called by the name that it knows the
/// tool by. A name that is not offered is unknown.
pub proof fn law_call_goes_to_the_owner(
    reg: RegistryView,
    i: int,
    name: Seq<char>,
    args: JsonView,
    token: Seq<char>,
)
    requires
        distinct_offers(reg.offers),
        all_well_named(reg.offers),
        0 <= i < reg.offers.len(),
    ensures
        reg.offers[i].owner == "driver"@
            ==> dispatch_step(reg, reg.offers[i].name, args, token) == Ok::<
            StepView,
            Seq<char>,
        >(
            StepView::Driver(
                driver_tools::driver_action(reg.driver, reg.offers[i].tool.name, args, token),
            ),
        ),
        reg.offers[i].owner != "driver"@
            && reg.servers.contains(reg.offers[i].owner) ==> dispatch_step(
            reg,
            reg.offers[i].name,
            args,
            token,
        ) == Ok::<StepView, Seq<char>>(
            StepView::Call { server: reg.offers[i].owner, tool: reg.offers[i].tool.name },
        ),
        reg.offers[i].owner != "driver"@
            && !reg.servers.contains(reg.offers[i].owner) ==> dispatch_step(
            reg,
            reg.offers[i].name,
            args,
            token,
        ) == Err::<StepView, Seq<char>>("no client for server: "@ + reg.offers[i].owner),
        (forall|j: int| 0 <= j < reg.offers.len() ==> (#[trigger] reg.offers[j]).name != name)
            ==> dispatch_step(reg, name, args, token) == Err::<StepView, Seq<char>>(
            "unknown tool: "@ + name,
        ),
{
    law_call_reaches_its_tool(reg.offers, i);
    if forall|j: int| 0 <= j < reg.offers.len() ==> (#[trigger] reg.offers[j]).name != name {
        lemma_offer_at(reg.offers, name, reg.offers.len() as int);
    }
}

/// A call of a server's tool, or of none, changes nothing here; one of the driver's own changes
/// what that tool changes, and what is offered stays.
pub proof fn law_call_keeps_the_offers(
    reg: RegistryView,
    i: int,
    name: Seq<char>,
    args: JsonView,
)
    requires
        distinct_offers(reg.offers),
        all_well_named(reg.offers),
        0 <= i < reg.offers.len(),
    ensures
        after_dispatch(reg, name, args).offers == reg.offers,
        after_dispatch(reg, name, args).servers == reg.servers,
        reg.offers[i].owner != "driver"@ ==> after_dispatch(reg, reg.offers[i].name, args) == reg,
        reg.offers[i].owner == "driver"@ ==> after_dispatch(reg, reg.offers[i].name, args).driver
            == driver_tools::after_call(reg.driver, reg.offers[i].tool.name, args),
{
    law_call_reaches_its_tool(reg.offers, i);
}

/// Where a server offers a tool of a name that is taken, what is offered under other names than
/// the two new ones and the bare one stays as it was; where the server had offered a tool of that
/// name itself, the new one is offered with the server's name in front.
pub proof fn law_other_offers_stay(
    offers: Seq<OfferView>,
    server: Seq<char>,
    tool: McpToolView,
    name: Seq<char>,
)
    requires
        distinct_offers(offers),
        is_offered(offers, tool.name),
    ensures
        name != tool.name && name != server + "__"@ + tool.name && name != offered(
            offers,
            tool.name,
        )->0.owner + "__"@ + tool.name ==> offered(after_register(offers, server, tool), name)
            == offered(offers, name),
        offered(after_register(offers, server, tool), server + "__"@ + tool.name) == Some(
            OfferView { name: server + "__"@ + tool.name, owner: server, tool },
        ),
{
    reveal_strlit("__");
    let bare = tool.name;
    let at = offer_at(offers, bare) as int;
    lemma_offer_at_is_first(offers, bare);
    let old = offers[at];
    let moved = OfferView { name: prefixed(old.owner, bare), ..old };
    let new = OfferView { name: prefixed(server, bare), owner: server, tool };
    let freed = without_offer(offers, bare);
    lemma_with_offer_distinct(freed, moved);
    lemma_with_offer_found(freed, moved, name);
    lemma_with_offer_found(with_offer(freed, moved), new, name);
    if name != bare {
        lemma_offer_at_is_first(offers, name);
        let i = offer_at(offers, name) as int;
        let k = if i > at {
            i - 1
        } else {
            i
        };
        assert forall|j: int| 0 <= j < k implies (#[trigger] freed[j]).name != name by {
            assert(freed[j] == offers[if j < at {
                j
            } else {
                j + 1
            }]);
        }
        if i < offers.len() {
            assert(freed[k] == offers[i]);
        }
        lemma_offer_at(freed, name, k);
    }
}

/// The tools of a server are registered one after the other, and the names of a server's tools
/// are those of the offers that it owns, in their order.
pub proof fn law_tools_are_registered_in_order(
    offers: Seq<OfferView>,
    server: Seq<char>,
    more: Seq<McpToolView>,
    tool: McpToolView,
    o: OfferView,
)
    ensures
        after_register_all(offers, server, Seq::empty()) == offers,
        after_register_all(offers, server, more.push(tool)) == after_register(
            after_register_all(offers, server, more),
            server,
            tool,
        ),
        names_of(Seq::empty(), server).len() == 0,
        o.owner == server
            ==> names_of(offers.push(o), server) == names_of(offers, server).push(o.name),
        o.owner != server ==> names_of(offers.push(o), server) == names_of(offers, server),
{
    assert(more.push(tool).drop_last() =~= more);
    assert(offers.push(o).drop_last() =~= offers);
}

/// Every call can be dispatched that is not for the driver's own list of what was run in a session.
pub proof fn law_calls_can_be_dispatched(
    reg: RegistryView,
    i: int,
    name: Seq<char>,
    args: JsonView,
)
    requires
        distinct_offers(reg.offers),
        all_well_named(reg.offers),
        0 <= i < reg.offers.len(),
    ensures
        reg.offers[i].owner != "driver"@ || reg.offers[i].tool.name != "session_history"@
            ==> can_dispatch(
            reg,
            reg.offers[i].name,
            args,
        ),
        !is_offered(reg.offers, name) ==> can_dispatch(reg, name, args),
{
    law_call_reaches_its_tool(reg.offers, i);
}

} // verus!
