//! The tools of a session: which are mounted, what wraps them, and the browser
//! suites the user switches on and off.

use crate::approval::ApprovalGatedTool;
use crate::mcp::tool::{tool_id, tool_id_of};
use crate::plan_mode::PROPOSE_PLAN;
use crate::text::{contains_str, str_eq, str_refs, strs};
use crate::tools::{ASK_USER_QUESTION, CREATE_GOAL, ENTER_WORKTREE, EXIT_WORKTREE, UPDATE_PLAN};
use vstd::prelude::*;

verus! {

/// An opt-in browser tool suite.
#[derive(Debug, Clone, Copy, PartialEq, Eq, Structural)]
pub enum BrowserSuite {
    ChromeUse,
    WebExplore,
}

impl DeepView for BrowserSuite {
    type V = BrowserSuite;

    open spec fn deep_view(&self) -> BrowserSuite {
        *self
    }
}

/// A tool of a session.
#[derive(Debug, PartialEq, Eq)]
pub struct MountedTool {
    pub name: String,
    /// The permission policy around it; none where its calls run ungated.
    pub gate: Option<ApprovalGatedTool>,
}

/// The mathematical value of a [`MountedTool`].
#[verifier::ext_equal]
pub struct MountedToolView {
    pub name: Seq<char>,
    pub gate: Option<ApprovalGatedTool>,
}

impl DeepView for MountedTool {
    type V = MountedToolView;

    open spec fn deep_view(&self) -> MountedToolView {
        MountedToolView { name: self.name@, gate: self.gate }
    }
}

/// The tools that a connected MCP server advertises.
#[derive(Debug, PartialEq, Eq)]
pub struct McpServerTools {
    pub server: String,
    pub tools: Vec<String>,
}

/// The mathematical value of a [`McpServerTools`].
#[verifier::ext_equal]
pub struct McpServerToolsView {
    pub server: Seq<char>,
    pub tools: Seq<Seq<char>>,
}

impl DeepView for McpServerTools {
    type V = McpServerToolsView;

    open spec fn deep_view(&self) -> McpServerToolsView {
        McpServerToolsView {
            server: self.server@,
            tools: self.tools.deep_view(),
        }
    }
}

impl Clone for McpServerTools {
    fn clone(&self) -> (r: Self)
        ensures
            r.deep_view() == self.deep_view(),
    {
        let r = McpServerTools {
            server: self.server.clone(),
            tools: self.tools.clone(),
        };
        assert(r.tools.deep_view() =~= self.tools.deep_view());
        r
    }
}

/// ChromeUse tool names: opt-in, never in the default active set, and never
/// offered to subagents.
pub const CHROMEUSE_TOOL_NAMES: [&'static str; 15] = [
    "ChromeUseOpen",
    "ChromeUseNavigate",
    "ChromeUseHover",
    "ChromeUseClick",
    "ChromeUseType",
    "ChromeUsePressKey",
    "ChromeUseSelectOption",
    "ChromeUseScroll",
    "ChromeUseSnapshot",
    "ChromeUseWaitFor",
    "ChromeUseScreenshot",
    "ChromeUseTabs",
    "ChromeUseEvaluate",
    "ChromeUseClose",
    "ChromeUseFindChromiumExecutable",
];

/// WebExplore tool names: opt-in, not default, and never offered to subagents.
pub const WEBEXPLORE_TOOL_NAMES: [&'static str; 10] = [
    "WebExploreOpen",
    "WebExploreNavigate",
    "WebExploreReadText",
    "WebExploreReadDom",
    "WebExploreClick",
    "WebExploreType",
    "WebExploreScroll",
    "WebExploreScreenshot",
    "WebExploreYield",
    "WebExploreClose",
];

impl BrowserSuite {
    pub open spec fn names(self) -> Seq<Seq<char>> {
        match self {
            BrowserSuite::ChromeUse => str_refs(CHROMEUSE_TOOL_NAMES@),
            BrowserSuite::WebExplore => str_refs(WEBEXPLORE_TOOL_NAMES@),
        }
    }

    /// The tool names belonging to this suite.
    pub fn tool_names(self) -> (r: &'static [&'static str])
        ensures
            str_refs(r@) == self.names(),
    {
        match self {
            BrowserSuite::ChromeUse => &CHROMEUSE_TOOL_NAMES,
            BrowserSuite::WebExplore => &WEBEXPLORE_TOOL_NAMES,
        }
    }
}

/// Whether a tool belongs to a browser suite.
pub open spec fn is_browser_tool(name: Seq<char>) -> bool {
    BrowserSuite::ChromeUse.names().contains(name) || BrowserSuite::WebExplore.names().contains(name)
}

pub open spec fn not_browser() -> spec_fn(Seq<char>) -> bool {
    |n: Seq<char>| !is_browser_tool(n)
}

fn in_names(names: &[&str], x: &str) -> (r: bool)
    ensures
        r == str_refs(names@).contains(x@),
{
    for i in 0..names.len()
        invariant
            forall|k: int| 0 <= k < i ==> str_refs(names@)[k] != x@,
    {
        if str_eq(names[i], x) {
            assert(str_refs(names@)[i as int] == x@);
            return true;
        }
    }
    false
}

/// The default active tool subset: every mounted tool except the browser tool
/// suites, which stay dormant until the user opts in.
pub fn default_active_tool_names(tools: &Vec<String>) -> (r: Vec<String>)
    ensures
        strs(r@) == strs(tools@).filter(not_browser()),
{
    let mut out: Vec<String> = Vec::new();
    let ghost all = strs(tools@);
    let ghost keep = not_browser();
    assert(strs(out@) =~= all.take(0).filter(keep)) by {
        reveal(Seq::filter);
    }
    for i in 0..tools.len()
        invariant
            all == strs(tools@),
            keep == not_browser(),
            strs(out@) == all.take(i as int).filter(keep),
    {
        let name = tools[i].as_str();
        let ghost before = strs(out@);
        assert(all.take(i + 1).drop_last() =~= all.take(i as int));
        assert(all.take(i + 1).last() == name@);
        reveal(Seq::filter);
        let browser = in_names(BrowserSuite::ChromeUse.tool_names(), name) || in_names(
            BrowserSuite::WebExplore.tool_names(),
            name,
        );
        if !browser {
            out.push(name.to_owned());
            assert(strs(out@) =~= before.push(name@));
        }
    }
    assert(all.take(all.len() as int) =~= all);
    out
}

// ---------------------------------------------------------------------------
// Toggling a suite
// ---------------------------------------------------------------------------

/// `names`, then each name of `extra` that is not there yet.
pub open spec fn with_missing(names: Seq<Seq<char>>, extra: Seq<Seq<char>>) -> Seq<Seq<char>>
    decreases extra.len(),
{
    if extra.len() == 0 {
        names
    } else {
        let before = with_missing(names, extra.drop_last());
        if before.contains(extra.last()) {
            before
        } else {
            before.push(extra.last())
        }
    }
}

/// `names` without those in `gone`.
pub open spec fn without_names(names: Seq<Seq<char>>, gone: Seq<Seq<char>>) -> Seq<Seq<char>> {
    names.filter(not_in(gone))
}

pub open spec fn not_in(gone: Seq<Seq<char>>) -> spec_fn(Seq<char>) -> bool {
    |n: Seq<char>| !gone.contains(n)
}

pub open spec fn toggled(names: Seq<Seq<char>>, suite: Seq<Seq<char>>, enable: bool) -> Seq<
    Seq<char>,
> {
    if enable {
        with_missing(names, suite)
    } else {
        without_names(names, suite)
    }
}

/// Merge or strip a browser suite's tool names into an active-tool set: `enable`
/// appends the suite's names that are missing, disable removes them.
pub fn toggle_browser_suite_names(
    names: Vec<String>,
    suite_names: &[&str],
    enable: bool,
) -> (r: Vec<String>)
    ensures
        strs(r@) == toggled(strs(names@), str_refs(suite_names@), enable),
{
    let ghost suite = str_refs(suite_names@);
    if enable {
        let ghost start = strs(names@);
        let mut names = names;
        assert(suite.take(0) =~= seq![]);
        for i in 0..suite_names.len()
            invariant
                suite == str_refs(suite_names@),
                strs(names@) == with_missing(start, suite.take(i as int)),
        {
            assert(suite.take(i + 1).drop_last() =~= suite.take(i as int));
            let ghost before = strs(names@);
            if !contains_str(&names, suite_names[i]) {
                names.push(suite_names[i].to_owned());
                assert(strs(names@) =~= before.push(suite[i as int]));
            }
        }
        assert(suite.take(suite.len() as int) =~= suite);
        names
    } else {
        let mut out: Vec<String> = Vec::new();
        let ghost all = strs(names@);
        let ghost keep = not_in(suite);
        assert(strs(out@) =~= all.take(0).filter(keep)) by {
            reveal(Seq::filter);
        }
        for i in 0..names.len()
            invariant
                suite == str_refs(suite_names@),
                all == strs(names@),
                keep == not_in(suite),
                strs(out@) == all.take(i as int).filter(keep),
        {
            let name = names[i].as_str();
            let ghost before = strs(out@);
            assert(all.take(i + 1).drop_last() =~= all.take(i as int));
            assert(all.take(i + 1).last() == name@);
            reveal(Seq::filter);
            if !in_names(suite_names, name) {
                out.push(name.to_owned());
                assert(strs(out@) =~= before.push(name@));
            }
        }
        assert(all.take(all.len() as int) =~= all);
        out
    }
}

proof fn lemma_with_missing(names: Seq<Seq<char>>, extra: Seq<Seq<char>>)
    ensures
        names.is_prefix_of(with_missing(names, extra)),
        forall|n: Seq<char>|
            with_missing(names, extra).contains(n) <==> names.contains(n) || extra.contains(n),
    decreases extra.len(),
{
    if extra.len() > 0 {
        let rest = extra.drop_last();
        let before = with_missing(names, rest);
        let after = with_missing(names, extra);
        lemma_with_missing(names, rest);
        assert forall|n: Seq<char>| after.contains(n) <==> names.contains(n) || extra.contains(
            n,
        ) by {
            if rest.contains(n) {
                let k = choose|k: int| 0 <= k < rest.len() && rest[k] == n;
                assert(extra[k] == n);
            }
            if extra.contains(n) && !rest.contains(n) {
                let k = choose|k: int| 0 <= k < extra.len() && extra[k] == n;
                assert(k == extra.len() - 1) by {
                    if k < extra.len() - 1 {
                        assert(rest[k] == n);
                    }
                }
            }
            assert(extra.contains(extra.last())) by {
                assert(extra[extra.len() - 1] == extra.last());
            }
            if before.contains(n) {
                let k = choose|k: int| 0 <= k < before.len() && before[k] == n;
                assert(after[k] == n);
            }
            if !before.contains(extra.last()) {
                assert(after[after.len() - 1] == extra.last());
                if after.contains(n) {
                    let k = choose|k: int| 0 <= k < after.len() && after[k] == n;
                    if k < before.len() {
                        assert(before[k] == n);
                    }
                }
            }
        }
    } else {
        assert(with_missing(names, extra) =~= names);
    }
}

/// Enabling a suite keeps every active tool in its place and adds exactly the
/// suite's names.
pub proof fn enabling_keeps_and_adds(names: Seq<Seq<char>>, suite: Seq<Seq<char>>)
    ensures
        names.is_prefix_of(toggled(names, suite, true)),
        forall|n: Seq<char>|
            toggled(names, suite, true).contains(n) <==> names.contains(n) || suite.contains(n),
{
    lemma_with_missing(names, suite);
}

proof fn lemma_nothing_missing(names: Seq<Seq<char>>, extra: Seq<Seq<char>>)
    requires
        forall|n: Seq<char>| extra.contains(n) ==> names.contains(n),
    ensures
        with_missing(names, extra) == names,
    decreases extra.len(),
{
    if extra.len() > 0 {
        let rest = extra.drop_last();
        assert forall|n: Seq<char>| rest.contains(n) implies names.contains(n) by {
            let k = choose|k: int| 0 <= k < rest.len() && rest[k] == n;
            assert(extra[k] == n);
        }
        lemma_nothing_missing(names, rest);
        assert(extra[extra.len() - 1] == extra.last());
        assert(extra.contains(extra.last()));
    }
}

/// Enabling an enabled suite again changes nothing.
pub proof fn enabling_is_idempotent(names: Seq<Seq<char>>, suite: Seq<Seq<char>>)
    ensures
        toggled(toggled(names, suite, true), suite, true) == toggled(names, suite, true),
{
    lemma_with_missing(names, suite);
    lemma_nothing_missing(with_missing(names, suite), suite);
}

proof fn lemma_filter_members(names: Seq<Seq<char>>, keep: spec_fn(Seq<char>) -> bool)
    ensures
        forall|n: Seq<char>| names.filter(keep).contains(n) <==> names.contains(n) && keep(n),
{
    broadcast use vstd::seq_lib::group_filter_ensures;

    assert forall|n: Seq<char>| names.filter(keep).contains(n) implies names.contains(n) && keep(
        n,
    ) by {
        names.lemma_filter_contains_rev(keep, n);
        let f = names.filter(keep);
        let k = choose|k: int| 0 <= k < f.len() && f[k] == n;
        names.lemma_filter_pred(keep, k);
    }
    assert forall|n: Seq<char>| names.contains(n) && keep(n) implies names.filter(keep).contains(
        n,
    ) by {
        let k = choose|k: int| 0 <= k < names.len() && names[k] == n;
        names.lemma_filter_contains(keep, k);
    }
}

/// Disabling a suite removes its tools and no other.
pub proof fn disabling_strips_only_that_suite(names: Seq<Seq<char>>, suite: Seq<Seq<char>>)
    ensures
        forall|n: Seq<char>|
            toggled(names, suite, false).contains(n) <==> names.contains(n) && !suite.contains(n),
{
    lemma_filter_members(names, not_in(suite));
}

/// Whether every name of the suite is active.
pub open spec fn suite_active(active: Seq<Seq<char>>, suite: BrowserSuite) -> bool {
    forall|n: Seq<char>| suite.names().contains(n) ==> active.contains(n)
}

/// The suites that are fully active, in a fixed order.
pub open spec fn active_suites(active: Seq<Seq<char>>) -> Seq<BrowserSuite> {
    (if suite_active(active, BrowserSuite::ChromeUse) {
        seq![BrowserSuite::ChromeUse]
    } else {
        seq![]
    }) + (if suite_active(active, BrowserSuite::WebExplore) {
        seq![BrowserSuite::WebExplore]
    } else {
        seq![]
    })
}

fn is_suite_active(active: &Vec<String>, suite: BrowserSuite) -> (r: bool)
    ensures
        r == suite_active(strs(active@), suite),
{
    let names = suite.tool_names();
    for i in 0..names.len()
        invariant
            str_refs(names@) == suite.names(),
            forall|k: int| 0 <= k < i ==> strs(active@).contains(suite.names()[k]),
    {
        if !contains_str(active, names[i]) {
            assert(suite.names()[i as int] == names@[i as int]@);
            assert(suite.names().contains(names@[i as int]@));
            return false;
        }
        assert(suite.names()[i as int] == names@[i as int]@);
    }
    true
}

/// The opt-in suites whose tool names are all present in a resolved active-tool
/// set; a suite is active only when fully selected.
pub fn project_browser_suites(active: &Vec<String>) -> (r: Vec<BrowserSuite>)
    ensures
        r@ == active_suites(strs(active@)),
{
    let mut out: Vec<BrowserSuite> = Vec::new();
    if is_suite_active(active, BrowserSuite::ChromeUse) {
        out.push(BrowserSuite::ChromeUse);
    }
    if is_suite_active(active, BrowserSuite::WebExplore) {
        out.push(BrowserSuite::WebExplore);
    }
    assert(out@ =~= active_suites(strs(active@)));
    out
}

/// A suite is active after it was enabled, and a suite of at least one tool is
/// not after it was disabled.
pub proof fn toggling_decides_the_projection(names: Seq<Seq<char>>, suite: BrowserSuite)
    ensures
        suite_active(toggled(names, suite.names(), true), suite),
        !suite_active(toggled(names, suite.names(), false), suite),
{
    enabling_keeps_and_adds(names, suite.names());
    disabling_strips_only_that_suite(names, suite.names());
    let first = suite.names()[0];
    assert(suite.names().contains(first));
}

// ---------------------------------------------------------------------------
// The toolset of a session
// ---------------------------------------------------------------------------

/// A tool that runs without passing the approval gate.
pub open spec fn ungated(name: Seq<char>) -> MountedToolView {
    MountedToolView { name, gate: None }
}

/// A gated tool; `plan_policy` tells whether plan files are exempt.
pub open spec fn gated(name: Seq<char>, plan_policy: bool) -> MountedToolView {
    MountedToolView {
        name,
        gate: Some(
            ApprovalGatedTool {
                plan_policy,
                auto_allow: false,
                escalation: false,
                worktree_roots: false,
            },
        ),
    }
}

/// A gated file or shell tool: Bash and Monitor are let through where a sandbox
/// confines them, Write and Edit may ask for a wider mode.
pub open spec fn core_tool(name: Seq<char>, sandbox: bool) -> MountedToolView {
    MountedToolView {
        name,
        gate: Some(
            ApprovalGatedTool {
                plan_policy: true,
                auto_allow: sandbox && (name == "Bash"@ || name == "Monitor"@),
                escalation: name == "Write"@ || name == "Edit"@,
                worktree_roots: true,
            },
        ),
    }
}

pub open spec fn core_tools(sandbox: bool) -> Seq<MountedToolView> {
    seq![
        core_tool("Read"@, sandbox),
        core_tool("Write"@, sandbox),
        core_tool("Edit"@, sandbox),
        core_tool("Grep"@, sandbox),
        core_tool("Glob"@, sandbox),
        core_tool("Ls"@, sandbox),
        core_tool("Bash"@, sandbox),
        core_tool("Monitor"@, sandbox),
        core_tool("BashOutput"@, sandbox),
        core_tool("TaskStop"@, sandbox),
        core_tool("WebFetch"@, sandbox),
    ]
}

/// Asking the user, proposing a plan and publishing progress are themselves the
/// interaction; the task list is gated like any mutating tool.
pub open spec fn session_tools() -> Seq<MountedToolView> {
    seq![
        ungated(ASK_USER_QUESTION@),
        ungated(PROPOSE_PLAN@),
        ungated(UPDATE_PLAN@),
        gated("TaskCreate"@, true),
        gated("TaskList"@, true),
        gated("TaskUpdate"@, true),
        gated("TaskGet"@, true),
    ]
}

pub open spec fn goal_tools(available: bool) -> Seq<MountedToolView> {
    if available {
        seq![ungated("GetGoal"@), ungated(CREATE_GOAL@), ungated("UpdateGoal"@)]
    } else {
        seq![]
    }
}

/// The web view's reads are ungated, its writes gated.
pub open spec fn web_explore_tools() -> Seq<MountedToolView> {
    seq![
        ungated("WebExploreReadText"@),
        ungated("WebExploreReadDom"@),
        ungated("WebExploreScreenshot"@),
        gated("WebExploreOpen"@, true),
        gated("WebExploreNavigate"@, true),
        gated("WebExploreClick"@, true),
        gated("WebExploreType"@, true),
        gated("WebExploreScroll"@, true),
        gated("WebExploreYield"@, true),
        gated("WebExploreClose"@, true),
    ]
}

/// The same trust axes as the web view, where the engine is linked in.
pub open spec fn chrome_use_tools(linked: bool) -> Seq<MountedToolView> {
    if linked {
        seq![
            ungated("ChromeUseSnapshot"@),
            ungated("ChromeUseWaitFor"@),
            ungated("ChromeUseScreenshot"@),
            ungated("ChromeUseFindChromiumExecutable"@),
            gated("ChromeUseOpen"@, true),
            gated("ChromeUseNavigate"@, true),
            gated("ChromeUseHover"@, true),
            gated("ChromeUseClick"@, true),
            gated("ChromeUseType"@, true),
            gated("ChromeUsePressKey"@, true),
            gated("ChromeUseSelectOption"@, true),
            gated("ChromeUseScroll"@, true),
            gated("ChromeUseTabs"@, true),
            gated("ChromeUseEvaluate"@, true),
            gated("ChromeUseClose"@, true),
        ]
    } else {
        seq![]
    }
}

pub open spec fn worktree_tools() -> Seq<MountedToolView> {
    seq![gated(ENTER_WORKTREE@, true), gated(EXIT_WORKTREE@, true)]
}

/// Code-intelligence tools only read, so they are ungated.
pub open spec fn lsp_tools(names: Seq<Seq<char>>) -> Seq<MountedToolView> {
    Seq::new(names.len(), |i: int| ungated(names[i]))
}

/// The tools of one server: remote calls are gated, and no plan file is exempt.
pub open spec fn server_tools(server: Seq<char>, tools: Seq<Seq<char>>) -> Seq<MountedToolView> {
    Seq::new(tools.len(), |i: int| gated(tool_id_of(server, tools[i]), false))
}

pub open spec fn mcp_tools(servers: Seq<McpServerToolsView>) -> Seq<MountedToolView>
    decreases servers.len(),
{
    if servers.len() == 0 {
        seq![]
    } else {
        mcp_tools(servers.drop_last()) + server_tools(servers.last().server, servers.last().tools)
    }
}

/// Messages to running agents and their health.
pub open spec fn bus_tools() -> Seq<MountedToolView> {
    seq![ungated("Steer"@), ungated("SubagentStatus"@)]
}

/// What the host offers to a session.
pub struct ToolsetHost {
    /// A sandbox confines shell commands.
    pub sandbox: bool,
    /// The goal store is available.
    pub goals: bool,
    /// The ChromeUse engine is linked in.
    pub chrome_use: bool,
    /// The code-intelligence tools, none where no language server is available.
    pub lsp: Vec<String>,
    pub mcp: Vec<McpServerTools>,
}

/// The full toolset in the order it is mounted.
pub open spec fn toolset(
    sandbox: bool,
    goals: bool,
    chrome_use: bool,
    lsp: Seq<Seq<char>>,
    mcp: Seq<McpServerToolsView>,
) -> Seq<MountedToolView> {
    core_tools(sandbox) + session_tools() + goal_tools(goals) + web_explore_tools()
        + chrome_use_tools(chrome_use) + worktree_tools() + lsp_tools(lsp) + mcp_tools(mcp)
        + bus_tools()
}

fn mount_ungated(out: &mut Vec<MountedTool>, name: &str)
    ensures
        final(out).deep_view() == old(out).deep_view().push(ungated(name@)),
{
    out.push(MountedTool { name: name.to_owned(), gate: None });
    assert(out.deep_view() =~= old(out).deep_view().push(ungated(name@)));
}

fn mount_gated(out: &mut Vec<MountedTool>, name: &str, plan_policy: bool)
    ensures
        final(out).deep_view() == old(out).deep_view().push(gated(name@, plan_policy)),
{
    let mut gate = ApprovalGatedTool::new();
    if plan_policy {
        gate = gate.with_plan_policy();
    }
    out.push(MountedTool { name: name.to_owned(), gate: Some(gate) });
    assert(out.deep_view() =~= old(out).deep_view().push(gated(name@, plan_policy)));
}

fn mount_core(out: &mut Vec<MountedTool>, name: &str, sandbox: bool)
    ensures
        final(out).deep_view() == old(out).deep_view().push(core_tool(name@, sandbox)),
{
    let mut gate = ApprovalGatedTool::new().with_plan_policy().with_worktree_roots();
    if sandbox && (str_eq(name, "Bash") || str_eq(name, "Monitor")) {
        gate = gate.with_auto_allow();
    }
    if str_eq(name, "Write") || str_eq(name, "Edit") {
        gate = gate.with_escalation();
    }
    out.push(MountedTool { name: name.to_owned(), gate: Some(gate) });
    assert(out.deep_view() =~= old(out).deep_view().push(core_tool(name@, sandbox)));
}

fn mount_built_in(host: &ToolsetHost) -> (r: Vec<MountedTool>)
    ensures
        r.deep_view() == core_tools(host.sandbox) + session_tools() + goal_tools(host.goals)
            + web_explore_tools(),
{
    let mut out: Vec<MountedTool> = Vec::new();
    assert(out.deep_view() =~= seq![]);
    let sandbox = host.sandbox;
    mount_core(&mut out, "Read", sandbox);
    mount_core(&mut out, "Write", sandbox);
    mount_core(&mut out, "Edit", sandbox);
    mount_core(&mut out, "Grep", sandbox);
    mount_core(&mut out, "Glob", sandbox);
    mount_core(&mut out, "Ls", sandbox);
    mount_core(&mut out, "Bash", sandbox);
    mount_core(&mut out, "Monitor", sandbox);
    mount_core(&mut out, "BashOutput", sandbox);
    mount_core(&mut out, "TaskStop", sandbox);
    mount_core(&mut out, "WebFetch", sandbox);
    assert(out.deep_view() =~= core_tools(sandbox));
    mount_ungated(&mut out, ASK_USER_QUESTION);
    mount_ungated(&mut out, PROPOSE_PLAN);
    mount_ungated(&mut out, UPDATE_PLAN);
    mount_gated(&mut out, "TaskCreate", true);
    mount_gated(&mut out, "TaskList", true);
    mount_gated(&mut out, "TaskUpdate", true);
    mount_gated(&mut out, "TaskGet", true);
    assert(out.deep_view() =~= core_tools(sandbox) + session_tools());
    if host.goals {
        mount_ungated(&mut out, "GetGoal");
        mount_ungated(&mut out, CREATE_GOAL);
        mount_ungated(&mut out, "UpdateGoal");
    }
    let ghost head = core_tools(sandbox) + session_tools() + goal_tools(host.goals);
    assert(out.deep_view() =~= head);
    mount_ungated(&mut out, "WebExploreReadText");
    mount_ungated(&mut out, "WebExploreReadDom");
    mount_ungated(&mut out, "WebExploreScreenshot");
    mount_gated(&mut out, "WebExploreOpen", true);
    mount_gated(&mut out, "WebExploreNavigate", true);
    mount_gated(&mut out, "WebExploreClick", true);
    mount_gated(&mut out, "WebExploreType", true);
    mount_gated(&mut out, "WebExploreScroll", true);
    mount_gated(&mut out, "WebExploreYield", true);
    mount_gated(&mut out, "WebExploreClose", true);
    assert(out.deep_view() =~= head + web_explore_tools());
    out
}

fn mount_chrome_use(out: &mut Vec<MountedTool>, linked: bool)
    ensures
        final(out).deep_view() == old(out).deep_view() + chrome_use_tools(linked),
{
    if linked {
        mount_ungated(out, "ChromeUseSnapshot");
        mount_ungated(out, "ChromeUseWaitFor");
        mount_ungated(out, "ChromeUseScreenshot");
        mount_ungated(out, "ChromeUseFindChromiumExecutable");
        mount_gated(out, "ChromeUseOpen", true);
        mount_gated(out, "ChromeUseNavigate", true);
        mount_gated(out, "ChromeUseHover", true);
        mount_gated(out, "ChromeUseClick", true);
        mount_gated(out, "ChromeUseType", true);
        mount_gated(out, "ChromeUsePressKey", true);
        mount_gated(out, "ChromeUseSelectOption", true);
        mount_gated(out, "ChromeUseScroll", true);
        mount_gated(out, "ChromeUseTabs", true);
        mount_gated(out, "ChromeUseEvaluate", true);
        mount_gated(out, "ChromeUseClose", true);
    }
    assert(out.deep_view() =~= old(out).deep_view() + chrome_use_tools(linked));
}

fn mount_lsp(out: &mut Vec<MountedTool>, names: &Vec<String>)
    ensures
        final(out).deep_view() == old(out).deep_view() + lsp_tools(names.deep_view()),
{
    let ghost start = out.deep_view();
    let ghost added = lsp_tools(names.deep_view());
    assert(start + added.take(0) =~= start);
    for i in 0..names.len()
        invariant
            added == lsp_tools(names.deep_view()),
            out.deep_view() == start + added.take(i as int),
    {
        mount_ungated(out, names[i].as_str());
        assert(out.deep_view() =~= start + added.take(i + 1));
    }
    assert(added.take(added.len() as int) =~= added);
}

fn mount_mcp(out: &mut Vec<MountedTool>, servers: &Vec<McpServerTools>)
    ensures
        final(out).deep_view() == old(out).deep_view() + mcp_tools(servers.deep_view()),
{
    let ghost start = out.deep_view();
    let ghost all = servers.deep_view();
    assert(start + mcp_tools(all.take(0)) =~= start);
    for i in 0..servers.len()
        invariant
            all == servers.deep_view(),
            out.deep_view() == start + mcp_tools(all.take(i as int)),
    {
        assert(all.take(i + 1).drop_last() =~= all.take(i as int));
        let server = &servers[i];
        let ghost added = server_tools(server.server@, server.tools.deep_view());
        assert(all.take(i + 1).last() == server.deep_view());
        let ghost before = out.deep_view();
        assert(before + added.take(0) =~= before);
        for j in 0..server.tools.len()
            invariant
                added == server_tools(server.server@, server.tools.deep_view()),
                out.deep_view() == before + added.take(j as int),
        {
            let id = tool_id(server.server.as_str(), server.tools[j].as_str());
            mount_gated(out, id.as_str(), false);
            assert(out.deep_view() =~= before + added.take(j + 1));
        }
        assert(added.take(added.len() as int) =~= added);
        assert(out.deep_view() =~= start + mcp_tools(all.take(i + 1)));
    }
    assert(all.take(all.len() as int) =~= all);
}

/// The full toolset of a session, each tool with the wrappers around it. Every
/// mutating tool rides behind the host's gate.
pub fn build_tools(host: &ToolsetHost) -> (r: Vec<MountedTool>)
    ensures
        r.deep_view() == toolset(
            host.sandbox,
            host.goals,
            host.chrome_use,
            host.lsp.deep_view(),
            host.mcp.deep_view(),
        ),
{
    let mut out = mount_built_in(host);
    mount_chrome_use(&mut out, host.chrome_use);
    let ghost head = out.deep_view();
    mount_gated(&mut out, ENTER_WORKTREE, true);
    mount_gated(&mut out, EXIT_WORKTREE, true);
    assert(out.deep_view() =~= head + worktree_tools());
    mount_lsp(&mut out, &host.lsp);
    mount_mcp(&mut out, &host.mcp);
    let ghost head = out.deep_view();
    mount_ungated(&mut out, "Steer");
    mount_ungated(&mut out, "SubagentStatus");
    assert(out.deep_view() =~= head + bus_tools());
    out
}

/// The built-in tools that run without passing the approval gate: they ask the user,
/// keep the goal, or only read.
pub open spec fn runs_ungated(name: Seq<char>) -> bool {
    ||| name == ASK_USER_QUESTION@ || name == PROPOSE_PLAN@ || name == UPDATE_PLAN@
    ||| name == "GetGoal"@ || name == CREATE_GOAL@ || name == "UpdateGoal"@
    ||| name == "WebExploreReadText"@ || name == "WebExploreReadDom"@
    ||| name == "WebExploreScreenshot"@
    ||| name == "ChromeUseSnapshot"@ || name == "ChromeUseWaitFor"@
    ||| name == "ChromeUseScreenshot"@ || name == "ChromeUseFindChromiumExecutable"@
    ||| name == "Steer"@ || name == "SubagentStatus"@
}

/// Every tool of a session passes the approval gate, but for the built-in ones that run
/// ungated and the code-intelligence tools.
pub proof fn every_other_tool_is_gated(
    sandbox: bool,
    goals: bool,
    chrome_use: bool,
    lsp: Seq<Seq<char>>,
    mcp: Seq<McpServerToolsView>,
    i: int,
)
    requires
        0 <= i < toolset(sandbox, goals, chrome_use, lsp, mcp).len(),
    ensures
        ({
            let t = toolset(sandbox, goals, chrome_use, lsp, mcp)[i];
            t.gate is Some || runs_ungated(t.name) || lsp.contains(t.name)
        }),
{
    lemma_mcp_gated(mcp);
    let head = core_tools(sandbox) + session_tools() + goal_tools(goals) + web_explore_tools()
        + chrome_use_tools(chrome_use) + worktree_tools();
    assert(forall|k: int|
        0 <= k < head.len() ==> (#[trigger] head[k]).gate is Some || runs_ungated(head[k].name)) by {
        lemma_head_gated(sandbox, goals, chrome_use);
    }
    let all = toolset(sandbox, goals, chrome_use, lsp, mcp);
    let a = head.len();
    let b = a + lsp.len();
    if i < a {
        assert(all[i] == head[i]);
    } else if i < b {
        assert(all[i] == ungated(lsp[i - a]));
    } else if i < b + mcp_tools(mcp).len() {
        assert(all[i] == mcp_tools(mcp)[i - b]);
    } else {
        assert(all[i] == bus_tools()[i - b - mcp_tools(mcp).len()]);
    }
}

proof fn lemma_head_gated(sandbox: bool, goals: bool, chrome_use: bool)
    ensures
        ({
            let head = core_tools(sandbox) + session_tools() + goal_tools(goals)
                + web_explore_tools() + chrome_use_tools(chrome_use) + worktree_tools();
            forall|k: int|
                0 <= k < head.len() ==> (#[trigger] head[k]).gate is Some || runs_ungated(head[k].name)
        }),
{
}

proof fn lemma_mcp_gated(mcp: Seq<McpServerToolsView>)
    ensures
        forall|i: int| 0 <= i < mcp_tools(mcp).len() ==> (#[trigger] mcp_tools(mcp)[i]).gate is Some,
    decreases mcp.len(),
{
    if mcp.len() > 0 {
        let rest = mcp.drop_last();
        lemma_mcp_gated(rest);
        let all = mcp_tools(mcp);
        assert forall|i: int| 0 <= i < all.len() implies (#[trigger] all[i]).gate is Some by {
            if i < mcp_tools(rest).len() {
                assert(all[i] == mcp_tools(rest)[i]);
            }
        }
    }
}

/// No browser tool is in the default active set, whatever is mounted.
pub proof fn default_set_has_no_browser_tool(mounted: Seq<Seq<char>>)
    ensures
        forall|n: Seq<char>| mounted.filter(not_browser()).contains(n) ==> !is_browser_tool(n),
{
    lemma_filter_members(mounted, not_browser());
}

// ---------------------------------------------------------------------------
// What is mounted
// ---------------------------------------------------------------------------

/// The tools of the two browser suites.
pub proof fn the_suites_hold_their_tools()
    ensures
        BrowserSuite::ChromeUse.names() =~= seq![
            "ChromeUseOpen"@,
            "ChromeUseNavigate"@,
            "ChromeUseHover"@,
            "ChromeUseClick"@,
            "ChromeUseType"@,
            "ChromeUsePressKey"@,
            "ChromeUseSelectOption"@,
            "ChromeUseScroll"@,
            "ChromeUseSnapshot"@,
            "ChromeUseWaitFor"@,
            "ChromeUseScreenshot"@,
            "ChromeUseTabs"@,
            "ChromeUseEvaluate"@,
            "ChromeUseClose"@,
            "ChromeUseFindChromiumExecutable"@,
        ],
        BrowserSuite::WebExplore.names() =~= seq![
            "WebExploreOpen"@,
            "WebExploreNavigate"@,
            "WebExploreReadText"@,
            "WebExploreReadDom"@,
            "WebExploreClick"@,
            "WebExploreType"@,
            "WebExploreScroll"@,
            "WebExploreScreenshot"@,
            "WebExploreYield"@,
            "WebExploreClose"@,
        ],
{
}

/// A suite counts as active just where each of its tools is, and the suites are told in
/// one order.
pub proof fn a_suite_is_active_with_all_its_tools(active: Seq<Seq<char>>)
    ensures
        active_suites(active).contains(BrowserSuite::ChromeUse) <==> forall|i: int|
            0 <= i < BrowserSuite::ChromeUse.names().len() ==> active.contains(
                #[trigger] BrowserSuite::ChromeUse.names()[i],
            ),
        active_suites(active).contains(BrowserSuite::WebExplore) <==> forall|i: int|
            0 <= i < BrowserSuite::WebExplore.names().len() ==> active.contains(
                #[trigger] BrowserSuite::WebExplore.names()[i],
            ),
        active_suites(active).len() == 2 ==> active_suites(active) == seq![
            BrowserSuite::ChromeUse,
            BrowserSuite::WebExplore,
        ],
        active_suites(active).len() <= 2,
{
    lemma_suite_active(active, BrowserSuite::ChromeUse);
    lemma_suite_active(active, BrowserSuite::WebExplore);
    let on = active_suites(active);
    if suite_active(active, BrowserSuite::ChromeUse) {
        assert(on[0] == BrowserSuite::ChromeUse);
    }
    if suite_active(active, BrowserSuite::WebExplore) {
        assert(on.last() == BrowserSuite::WebExplore);
    }
}

proof fn lemma_suite_active(active: Seq<Seq<char>>, suite: BrowserSuite)
    ensures
        suite_active(active, suite) <==> forall|i: int|
            0 <= i < suite.names().len() ==> active.contains(#[trigger] suite.names()[i]),
{
    let names = suite.names();
    if suite_active(active, suite) {
        assert forall|i: int| 0 <= i < names.len() implies active.contains(
            #[trigger] names[i],
        ) by {
            assert(names.contains(names[i]));
        }
    }
    if forall|i: int| 0 <= i < names.len() ==> active.contains(#[trigger] names[i]) {
        assert forall|n: Seq<char>| names.contains(n) implies active.contains(n) by {
            let i = choose|i: int| 0 <= i < names.len() && names[i] == n;
            assert(active.contains(names[i]));
        }
    }
}

/// The tools of the core come first and are all gated, exempt for plan files and free to
/// write in a worktree. The sandbox lets shell commands and monitors through, and only
/// the tools that write files may ask for a wider mode.
pub proof fn core_tools_are_gated(
    sandbox: bool,
    goals: bool,
    chrome_use: bool,
    lsp: Seq<Seq<char>>,
    mcp: Seq<McpServerToolsView>,
    i: int,
)
    ensures
        ({
            let tools = toolset(sandbox, goals, chrome_use, lsp, mcp);
            &&& tools.len() >= 11
            &&& tools[0].name == "Read"@ && tools[1].name == "Write"@ && tools[2].name == "Edit"@
            &&& tools[3].name == "Grep"@ && tools[4].name == "Glob"@ && tools[5].name == "Ls"@
            &&& tools[6].name == "Bash"@ && tools[7].name == "Monitor"@ && tools[8].name
                == "BashOutput"@
            &&& tools[9].name == "TaskStop"@ && tools[10].name == "WebFetch"@
            &&& 0 <= i < 11 ==> tools[i].gate == Some(
                ApprovalGatedTool {
                    plan_policy: true,
                    auto_allow: sandbox && (i == 6 || i == 7),
                    escalation: i == 1 || i == 2,
                    worktree_roots: true,
                },
            )
        }),
{
    reveal_strlit("Read");
    reveal_strlit("Write");
    reveal_strlit("Edit");
    reveal_strlit("Grep");
    reveal_strlit("Glob");
    reveal_strlit("Ls");
    reveal_strlit("Bash");
    reveal_strlit("Monitor");
    reveal_strlit("BashOutput");
    reveal_strlit("TaskStop");
    reveal_strlit("WebFetch");
    assert("Read"@[0] == 'R' && "Write"@.len() == 5 && "Edit"@[0] == 'E' && "Grep"@[0] == 'G'
        && "Glob"@[0] == 'G' && "Ls"@.len() == 2 && "Bash"@[0] == 'B' && "Monitor"@.len() == 7
        && "BashOutput"@.len() == 10 && "TaskStop"@.len() == 8 && "WebFetch"@.len() == 8);
    let tools = toolset(sandbox, goals, chrome_use, lsp, mcp);
    assert forall|k: int| 0 <= k < 11 implies tools[k] == #[trigger] core_tools(sandbox)[k] by {}
    assert(tools[0] == core_tools(sandbox)[0] && tools[1] == core_tools(sandbox)[1]);
    assert(tools[2] == core_tools(sandbox)[2] && tools[3] == core_tools(sandbox)[3]);
    assert(tools[4] == core_tools(sandbox)[4] && tools[5] == core_tools(sandbox)[5]);
    assert(tools[6] == core_tools(sandbox)[6] && tools[7] == core_tools(sandbox)[7]);
    assert(tools[8] == core_tools(sandbox)[8] && tools[9] == core_tools(sandbox)[9]);
    assert(tools[10] == core_tools(sandbox)[10]);
}

/// Behind the core come the tools of the session: the question, the plan tools and the
/// task list, and with goals available those of the goal.
pub proof fn session_tools_follow(
    sandbox: bool,
    chrome_use: bool,
    lsp: Seq<Seq<char>>,
    mcp: Seq<McpServerToolsView>,
)
    ensures
        ({
            let tools = toolset(sandbox, true, chrome_use, lsp, mcp);
            let plain = ApprovalGatedTool {
                plan_policy: true,
                auto_allow: false,
                escalation: false,
                worktree_roots: false,
            };
            &&& tools.len() >= 21
            &&& tools[11] == MountedToolView { name: "AskUserQuestion"@, gate: None }
            &&& tools[12] == MountedToolView { name: "ProposePlan"@, gate: None }
            &&& tools[13] == MountedToolView { name: "UpdatePlan"@, gate: None }
            &&& tools[14] == MountedToolView { name: "TaskCreate"@, gate: Some(plain) }
            &&& tools[15] == MountedToolView { name: "TaskList"@, gate: Some(plain) }
            &&& tools[16] == MountedToolView { name: "TaskUpdate"@, gate: Some(plain) }
            &&& tools[17] == MountedToolView { name: "TaskGet"@, gate: Some(plain) }
            &&& tools[18] == MountedToolView { name: "GetGoal"@, gate: None }
            &&& tools[19] == MountedToolView { name: "CreateGoal"@, gate: None }
            &&& tools[20] == MountedToolView { name: "UpdateGoal"@, gate: None }
            &&& toolset(sandbox, false, chrome_use, lsp, mcp) == tools.take(18) + tools.skip(21)
        }),
{
    let with = toolset(sandbox, true, chrome_use, lsp, mcp);
    let without = toolset(sandbox, false, chrome_use, lsp, mcp);
    assert(without =~= with.take(18) + with.skip(21));
}

/// The browser tools, the way in and out of a worktree, the tools of the language
/// servers and those of the other servers come at the end, before the two that watch
/// subagents. The tools of Chrome are mounted only where it is linked.
pub proof fn linked_tools_are_mounted(
    sandbox: bool,
    goals: bool,
    lsp: Seq<Seq<char>>,
    mcp: Seq<McpServerToolsView>,
    i: int,
)
    ensures
        ({
            let plain = ApprovalGatedTool {
                plan_policy: true,
                auto_allow: false,
                escalation: false,
                worktree_roots: false,
            };
            let with = toolset(sandbox, goals, true, lsp, mcp);
            let without = toolset(sandbox, goals, false, lsp, mcp);
            let at: int = if goals { 31 } else { 28 };
            &&& with.len() == without.len() + 15
            &&& without == with.take(at) + with.skip(at + 15)
            &&& without[at] == MountedToolView { name: "EnterWorktree"@, gate: Some(plain) }
            &&& without[at + 1] == MountedToolView { name: "ExitWorktree"@, gate: Some(plain) }
            &&& 0 <= i < lsp.len() ==> without[at + 2 + i] == MountedToolView {
                name: lsp[i],
                gate: None,
            }
            &&& without.len() == at + 2 + lsp.len() + mcp_tools(mcp).len() + 2
            &&& 0 <= i < mcp_tools(mcp).len() ==> without[at + 2 + lsp.len() + i] == mcp_tools(
                mcp,
            )[i]
            &&& without[without.len() - 2] == MountedToolView { name: "Steer"@, gate: None }
            &&& without.last() == MountedToolView { name: "SubagentStatus"@, gate: None }
        }),
{
    let with = toolset(sandbox, goals, true, lsp, mcp);
    let without = toolset(sandbox, goals, false, lsp, mcp);
    let at: int = if goals { 31 } else { 28 };
    assert(without =~= with.take(at) + with.skip(at + 15));
}

/// The browser tools that only look run ungated; every other one is gated.
pub proof fn browser_tools_that_act_are_gated(i: int)
    ensures
        web_explore_tools().len() == 10,
        chrome_use_tools(true).len() == 15,
        0 <= i < 10 ==> (web_explore_tools()[i].gate is None <==> i < 3),
        0 <= i < 15 ==> (chrome_use_tools(true)[i].gate is None <==> i < 4),
        web_explore_tools()[0].name == "WebExploreReadText"@ && web_explore_tools()[1].name
            == "WebExploreReadDom"@ && web_explore_tools()[2].name == "WebExploreScreenshot"@,
        chrome_use_tools(true)[0].name == "ChromeUseSnapshot"@ && chrome_use_tools(true)[1].name
            == "ChromeUseWaitFor"@ && chrome_use_tools(true)[2].name == "ChromeUseScreenshot"@
            && chrome_use_tools(true)[3].name == "ChromeUseFindChromiumExecutable"@,
{
}

/// Each tool of a connected server is mounted under the name that tells the server, and
/// gated without the exemption for plan files; servers come in order.
pub proof fn server_tools_are_gated(
    servers: Seq<McpServerToolsView>,
    next: McpServerToolsView,
    i: int,
)
    ensures
        mcp_tools(Seq::<McpServerToolsView>::empty()).len() == 0,
        mcp_tools(servers.push(next)).len() == mcp_tools(servers).len() + next.tools.len(),
        mcp_tools(servers.push(next)).take(mcp_tools(servers).len() as int) == mcp_tools(servers),
        0 <= i < next.tools.len() ==> mcp_tools(servers.push(next))[mcp_tools(servers).len() + i]
            == (MountedToolView {
            name: tool_id_of(next.server, next.tools[i]),
            gate: Some(
                ApprovalGatedTool {
                    plan_policy: false,
                    auto_allow: false,
                    escalation: false,
                    worktree_roots: false,
                },
            ),
        }),
{
    assert(servers.push(next).drop_last() =~= servers);
    assert(mcp_tools(servers.push(next)).take(mcp_tools(servers).len() as int) =~= mcp_tools(
        servers,
    ));
}

/// The view of a [`MountedTool`] is made of all its parts, each as it is.
pub proof fn mounted_tool_is_viewed_whole(x: &MountedTool)
    ensures
        x.deep_view() == (MountedToolView { name: x.name@, gate: x.gate }),
{
}

/// The view of a [`McpServerTools`] is made of all its parts, each as it is.
pub proof fn mcp_server_tools_is_viewed_whole(x: &McpServerTools)
    ensures
        x.deep_view() == (McpServerToolsView {
            server: x.server@,
            tools: x.tools.deep_view(),
        }),
{
}

} // verus!
