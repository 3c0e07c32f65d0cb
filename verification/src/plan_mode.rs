//! Plan mode: research without writing, and a plan file submitted for approval.
//!
//! The model researches read-only, writes the plan to a file in the plans
//! directory, and submits it for the user's verdict. While plan mode is active
//! every mutating tool is blocked, but for writes to plan files.

use crate::approval::ToolError;
use crate::harness::{AgentMessage, AgentMessageView, ContentBlock, ContentBlockView};
use crate::json::{entry_models, jobj, jstr, Json, JsonView};
use crate::outside::{debug_quote, debug_quoted};
use crate::pathname::{is_name, join_path, joined, CleanPath, CleanPathView};
use crate::schema::{object_of, object_schema, typed, typed_schema};
use crate::text::{
    blank, char_count, chars_of, clone_opt_string, is_blank, is_digit, lines, opt_str_view,
    or_empty, str_eq, str_lines, str_or_empty, str_refs, str_trim, str_trim_start, string_of_range,
    strs, trim, trim_start,
};
use crate::thread::{ThreadEvent, ThreadEventView};
use crate::tools::{AGENT, ASK_USER_QUESTION, EDIT, WRITE};
use vstd::prelude::*;

verus! {

/// Tool name that the model calls to submit a plan for review.
pub const PROPOSE_PLAN: &'static str = "ProposePlan";

/// What stays available while plan mode is active: research, questions and the
/// submission of the plan.
pub open spec fn always_allowed(tool: Seq<char>) -> bool {
    ||| tool == "Read"@
    ||| tool == "Grep"@
    ||| tool == "Glob"@
    ||| tool == "Ls"@
    ||| tool == "BashOutput"@
    ||| tool == ASK_USER_QUESTION@
    ||| tool == PROPOSE_PLAN@
}

fn is_always_allowed(tool: &str) -> (r: bool)
    ensures
        r == always_allowed(tool@),
{
    str_eq(tool, "Read") || str_eq(tool, "Grep") || str_eq(tool, "Glob") || str_eq(tool, "Ls")
        || str_eq(tool, "BashOutput") || str_eq(tool, ASK_USER_QUESTION) || str_eq(
        tool,
        PROPOSE_PLAN,
    )
}

/// What is allowed only on files in the plans directory.
pub open spec fn path_gated(tool: Seq<char>) -> bool {
    tool == WRITE@ || tool == EDIT@
}

fn is_path_gated(tool: &str) -> (r: bool)
    ensures
        r == path_gated(tool@),
{
    str_eq(tool, WRITE) || str_eq(tool, EDIT)
}

// ---------------------------------------------------------------------------
// State
// ---------------------------------------------------------------------------

/// Plan-mode state of one session: whether it is on, the last proposed plan
/// file, and the instructions injected on every turn while it is on.
#[derive(Debug, PartialEq, Eq)]
pub struct PlanSessionState {
    pub enabled: bool,
    pub plan_file: Option<String>,
    pub active_instructions: Option<String>,
}

/// The mathematical value of a [`PlanSessionState`].
#[verifier::ext_equal]
pub struct PlanSessionStateView {
    pub enabled: bool,
    pub plan_file: Option<Seq<char>>,
    pub active_instructions: Option<Seq<char>>,
}

impl DeepView for PlanSessionState {
    type V = PlanSessionStateView;

    open spec fn deep_view(&self) -> PlanSessionStateView {
        PlanSessionStateView {
            enabled: self.enabled,
            plan_file: self.plan_file.deep_view(),
            active_instructions: self.active_instructions.deep_view(),
        }
    }
}

impl PlanSessionStateView {
    /// The state after entering or leaving plan mode: leaving drops the
    /// instructions.
    pub open spec fn switched(
        self,
        enabled: bool,
        plan_file: Option<Seq<char>>,
    ) -> PlanSessionStateView {
        PlanSessionStateView {
            enabled,
            plan_file,
            active_instructions: if enabled {
                self.active_instructions
            } else {
                None
            },
        }
    }

    /// The instructions to inject at the start of a turn.
    pub open spec fn injected(self) -> Option<Seq<char>> {
        if self.enabled {
            self.active_instructions
        } else {
            None
        }
    }
}

impl PlanSessionState {
    pub fn new() -> (r: Self)
        ensures
            r.deep_view() == (PlanSessionStateView {
                enabled: false,
                plan_file: None,
                active_instructions: None,
            }),
    {
        PlanSessionState { enabled: false, plan_file: None, active_instructions: None }
    }

    pub fn enabled(&self) -> (r: bool)
        ensures
            r == self.deep_view().enabled,
    {
        self.enabled
    }

    pub fn plan_file(&self) -> (r: Option<String>)
        ensures
            r.deep_view() == self.deep_view().plan_file,
    {
        clone_opt_string(&self.plan_file)
    }

    /// Replaces the full state on entering or leaving plan mode.
    pub fn set(&mut self, enabled: bool, plan_file: Option<String>)
        ensures
            final(self).deep_view() == old(self).deep_view().switched(
                enabled,
                plan_file.deep_view(),
            ),
    {
        self.enabled = enabled;
        self.plan_file = plan_file;
        if !enabled {
            self.active_instructions = None;
        }
    }

    pub fn set_plan_file(&mut self, plan_file: Option<String>)
        ensures
            final(self).deep_view() == (PlanSessionStateView {
                plan_file: plan_file.deep_view(),
                ..old(self).deep_view()
            }),
    {
        self.plan_file = plan_file;
    }

    pub fn active_instructions(&self) -> (r: Option<String>)
        ensures
            r.deep_view() == self.deep_view().active_instructions,
    {
        clone_opt_string(&self.active_instructions)
    }

    pub fn set_active_instructions(&mut self, text: Option<String>)
        ensures
            final(self).deep_view() == (PlanSessionStateView {
                active_instructions: text.deep_view(),
                ..old(self).deep_view()
            }),
    {
        self.active_instructions = text;
    }
}

/// Leaving plan mode ends the injection, and coming back alone does not bring
/// it back: the instructions have to be set again.
pub proof fn leaving_ends_the_injection(
    state: PlanSessionStateView,
    plan_file: Option<Seq<char>>,
    next_file: Option<Seq<char>>,
)
    ensures
        state.switched(false, plan_file).injected() is None,
        state.switched(false, plan_file).active_instructions is None,
        state.switched(false, plan_file).switched(true, next_file).injected() is None,
{
}

// ---------------------------------------------------------------------------
// Plan files
// ---------------------------------------------------------------------------

/// A character that may stand in a slug.
pub open spec fn is_slug_char(c: char) -> bool {
    is_digit(c) || 'a' <= c <= 'z' || 'A' <= c <= 'Z' || c == '_' || c == '-'
}

pub open spec fn is_slug(s: Seq<char>) -> bool {
    s.len() > 0 && forall|i: int| 0 <= i < s.len() ==> is_slug_char(#[trigger] s[i])
}

/// The complaint about a bad slug; `quoted` is the slug between quotes.
pub open spec fn bad_slug(quoted: Seq<char>) -> Seq<char> {
    "slug "@ + quoted + " may contain only letters, numbers, underscores, and hyphens"@
}

/// What is wrong with a slug, if anything.
pub open spec fn slug_problem(slug: Seq<char>) -> Option<Seq<char>> {
    if slug.len() == 0 {
        Some("slug must not be empty"@)
    } else if is_slug(slug) {
        None
    } else {
        Some(bad_slug(debug_quoted(slug)))
    }
}

/// The complaint about a bad slug.
pub fn bad_slug_error(quoted: &str) -> (r: String)
    ensures
        r@ == bad_slug(quoted@),
{
    let mut e = "slug ".to_owned();
    e.append(quoted);
    e.append(" may contain only letters, numbers, underscores, and hyphens");
    e
}

fn has_only_slug_chars(s: &str) -> (r: bool)
    ensures
        r == (forall|i: int| 0 <= i < s@.len() ==> is_slug_char(#[trigger] s@[i])),
{
    let v = chars_of(s);
    for i in 0..v.len()
        invariant
            v@ == s@,
            forall|k: int| 0 <= k < i ==> is_slug_char(#[trigger] s@[k]),
    {
        let c = v[i];
        if !(('0' <= c && c <= '9') || ('a' <= c && c <= 'z') || ('A' <= c && c <= 'Z') || c == '_'
            || c == '-') {
            assert(!is_slug_char(s@[i as int]));
            return false;
        }
    }
    true
}

/// Validates a plan slug: letters, digits, underscores and hyphens only. The
/// slug becomes a file name, so no separators and no dot segments.
pub fn validate_slug(slug: &str) -> (r: Result<(), String>)
    ensures
        match r {
            Ok(_) => slug_problem(slug@) is None,
            Err(e) => slug_problem(slug@) == Some(e@),
        },
{
    if char_count(slug) == 0 {
        return Err("slug must not be empty".to_owned());
    }
    if has_only_slug_chars(slug) {
        Ok(())
    } else {
        Err(bad_slug_error(debug_quote(slug).as_str()))
    }
}

pub open spec fn plan_file_name(slug: Seq<char>) -> Seq<char> {
    slug + "-plan.md"@
}

/// The plan file for a slug under the plans directory.
pub fn plan_file_path(plans_dir: &str, slug: &str) -> (r: String)
    ensures
        r@ == joined(plans_dir@, plan_file_name(slug@)),
{
    let mut name = slug.to_owned();
    name.append("-plan.md");
    join_path(plans_dir, name.as_str())
}

/// The plan file of a valid slug is a single name directly in the plans
/// directory: no separator, no dot segment, no absolute path.
pub proof fn a_valid_slug_stays_in_the_plans_directory(plans_dir: Seq<char>, slug: Seq<char>)
    requires
        slug_problem(slug) is None,
    ensures
        is_name(plan_file_name(slug)),
        joined(plans_dir, plan_file_name(slug)) == plans_dir + plan_file_name(slug) || joined(
            plans_dir,
            plan_file_name(slug),
        ) == plans_dir + "/"@ + plan_file_name(slug),
{
    reveal_strlit("-plan.md");
    reveal_strlit(".");
    reveal_strlit("..");
    let name = plan_file_name(slug);
    assert(name.len() > 2);
    assert(is_slug_char(slug[0]));
    assert(name[0] == slug[0]);
    if name.contains('/') {
        let i = choose|i: int| 0 <= i < name.len() && name[i] == '/';
        if i < slug.len() {
            assert(is_slug_char(slug[i]));
            assert(name[i] == slug[i]);
        } else {
            assert(name[i] == "-plan.md"@[i - slug.len()]);
        }
    }
}

/// The text without the hash signs in front.
pub open spec fn without_hashes(s: Seq<char>) -> Seq<char>
    decreases s.len(),
{
    if s.len() > 0 && s[0] == '#' {
        without_hashes(s.skip(1))
    } else {
        s
    }
}

fn strip_hashes(s: &str) -> (r: String)
    ensures
        r@ == without_hashes(s@),
{
    let v = chars_of(s);
    let mut i: usize = 0;
    assert(v@.skip(0) =~= v@);
    while i < v.len() && v[i] == '#'
        invariant
            i <= v@.len(),
            v@ == s@,
            without_hashes(s@) == without_hashes(v@.skip(i as int)),
        decreases v@.len() - i,
    {
        assert(v@.skip(i as int).skip(1) =~= v@.skip(i + 1));
        i += 1;
    }
    assert(v@.skip(i as int) =~= v@.subrange(i as int, v@.len() as int));
    string_of_range(&v, i, v.len())
}

/// The text of a Markdown heading; `None` for any other line and for a heading
/// without text.
pub open spec fn heading(line: Seq<char>) -> Option<Seq<char>> {
    let text = trim(without_hashes(trim(line)));
    let start = trim_start(line);
    if start.len() > 0 && start[0] == '#' && text.len() > 0 {
        Some(text)
    } else {
        None
    }
}

fn heading_text(line: &str) -> (r: Option<String>)
    ensures
        r.deep_view() == heading(line@),
{
    let text = str_trim(strip_hashes(str_trim(line).as_str()).as_str());
    let start = chars_of(str_trim_start(line).as_str());
    if start.len() > 0 && start[0] == '#' && char_count(text.as_str()) > 0 {
        Some(text)
    } else {
        None
    }
}

/// The first heading at or behind line `i`.
pub open spec fn first_heading(ls: Seq<Seq<char>>, i: int) -> Option<Seq<char>>
    decreases ls.len() - i,
{
    if i >= ls.len() {
        None
    } else {
        match heading(ls[i]) {
            Some(h) => Some(h),
            None => first_heading(ls, i + 1),
        }
    }
}

/// The title given, else the first heading, else the slug.
pub open spec fn plan_title(
    supplied: Option<Seq<char>>,
    content: Seq<char>,
    slug: Seq<char>,
) -> Seq<char> {
    if supplied is Some && trim(supplied->0).len() > 0 {
        trim(supplied->0)
    } else {
        match first_heading(lines(content), 0) {
            Some(h) => h,
            None => slug,
        }
    }
}

/// The title of a plan: the one supplied, the first Markdown heading in the
/// plan file, or the slug.
pub fn resolve_plan_title(supplied: Option<&str>, content: &str, slug: &str) -> (r: String)
    ensures
        r@ == plan_title(opt_str_view(supplied), content@, slug@),
{
    match supplied {
        Some(t) => {
            let t = str_trim(t);
            if char_count(t.as_str()) > 0 {
                return t;
            }
        },
        None => {},
    }
    let ls = str_lines(content);
    let ghost all = lines(content@);
    for i in 0..ls.len()
        invariant
            strs(ls@) == all,
            all == lines(content@),
            first_heading(all, 0) == first_heading(all, i as int),
            !(supplied is Some && trim(supplied->0@).len() > 0),
    {
        assert(all[i as int] == ls@[i as int]@);
        match heading_text(ls[i].as_str()) {
            Some(h) => {
                return h;
            },
            None => {},
        }
    }
    slug.to_owned()
}

// ---------------------------------------------------------------------------
// What is allowed
// ---------------------------------------------------------------------------

/// The file that a write targets, below the working directory unless absolute.
pub open spec fn write_target(params: JsonView, cwd: Seq<char>) -> Option<Seq<char>> {
    match params.str_at("path"@) {
        Some(p) => Some(joined(cwd, p)),
        None => None,
    }
}

/// The file that a write targets, for resolution on disk.
pub fn plan_write_target(params: &Json, cwd: &str) -> (r: Option<String>)
    ensures
        r.deep_view() == write_target(params.model(), cwd@),
{
    match params.str_at("path") {
        Some(p) => Some(join_path(cwd, p)),
        None => None,
    }
}

/// Whether a call writes inside the plans directory. `target` is where the file
/// named by the call is, `root` where the plans directory is, both with links
/// resolved.
pub open spec fn in_plans_dir(params: JsonView, target: CleanPathView, root: CleanPathView) -> bool {
    params.str_at("path"@) is Some && target.under(root)
}

/// Whether a call writes inside the plans directory. Containment is checked on
/// resolved paths, so that a linked directory cannot smuggle a write out of the
/// plans directory or into it.
pub fn is_plan_dir_path_param(params: &Json, target: &CleanPath, root: &CleanPath) -> (r: bool)
    ensures
        r == in_plans_dir(params.model(), target.deep_view(), root.deep_view()),
{
    match params.str_at("path") {
        Some(_) => target.starts_with(root),
        None => false,
    }
}

/// Where the plans directory is, for deciding which calls the approval gate
/// lets through.
#[derive(Debug)]
pub struct PlanGatePolicy {
    pub plans_root: CleanPath,
}

impl PlanGatePolicy {
    /// Whether a call writes a plan file during plan mode, which needs no
    /// approval.
    pub fn is_exempt(
        &self,
        state: &PlanSessionState,
        tool_name: &str,
        params: &Json,
        target: &CleanPath,
    ) -> (r: bool)
        ensures
            r == (state.deep_view().enabled && path_gated(tool_name@) && in_plans_dir(
                params.model(),
                target.deep_view(),
                self.plans_root.deep_view(),
            )),
    {
        state.enabled && is_path_gated(tool_name) && is_plan_dir_path_param(
            params,
            target,
            &self.plans_root,
        )
    }
}

/// Whether a call dispatches a read-only subagent in the same working tree.
/// `read_only` says whether the subagent type that the call names is read-only.
pub open spec fn read_only_dispatch(args: JsonView, read_only: bool) -> bool {
    &&& args.str_at("subagent_type"@) is Some
    &&& args.str_at("isolation"@) != Some("worktree"@)
    &&& read_only
}

/// Whether a call dispatches a read-only subagent without a worktree of its
/// own: creating one is a write to the working tree.
pub fn is_read_only_subagent_dispatch(args: &Json, read_only: bool) -> (r: bool)
    ensures
        r == read_only_dispatch(args.model(), read_only),
{
    match args.str_at("subagent_type") {
        None => false,
        Some(_) => match args.str_at("isolation") {
            Some(i) => !str_eq(i, "worktree") && read_only,
            None => read_only,
        },
    }
}

/// What the host knows of a call: where its target file is, where the plans
/// directory is, and whether the subagent type it names is read-only.
#[derive(Debug)]
pub struct CallFacts {
    pub target: CleanPath,
    pub plans_root: CleanPath,
    pub read_only_subagent: bool,
}

/// The arguments in the data of a tool call.
pub open spec fn call_args(data: JsonView) -> JsonView {
    match data.get("args"@) {
        Some(a) => a,
        None => JsonView::Null,
    }
}

/// Whether a call may run while planning.
pub open spec fn allowed_while_planning(data: JsonView, facts: CallFacts) -> bool {
    let tool = or_empty(data.str_at("tool_name"@));
    let args = call_args(data);
    ||| always_allowed(tool)
    ||| path_gated(tool) && in_plans_dir(
        args,
        facts.target.deep_view(),
        facts.plans_root.deep_view(),
    )
    ||| tool == AGENT@ && read_only_dispatch(args, facts.read_only_subagent)
}

pub open spec fn block_reason(plans_dir: Seq<char>) -> Seq<char> {
    "Plan mode is active: the working tree is read-only while planning. Only the plan file under "@
        + plans_dir
        + " may be written (Write/Edit); research with Read/Grep/Glob/Ls or a read-only `Explore` subagent (no worktree isolation), ask with AskUserQuestion, and submit the plan with ProposePlan."@
}

/// Keeps the working tree untouched while planning: the reason for which a tool
/// call is blocked, if it is. Research, questions and the submission pass,
/// writes pass on plan files only, a subagent only if it is read-only and needs
/// no worktree; every other tool is blocked.
pub fn gate_handler(
    state: &PlanSessionState,
    data: &Json,
    plans_dir: &str,
    facts: &CallFacts,
) -> (r: Option<String>)
    ensures
        r.deep_view() == if state.deep_view().enabled && !allowed_while_planning(
            data.model(),
            *facts,
        ) {
            Some(block_reason(plans_dir@))
        } else {
            None
        },
{
    if !state.enabled {
        return None;
    }
    let tool = str_or_empty(data.str_at("tool_name"));
    let null = Json::Null;
    let args = match data.get("args") {
        Some(a) => a,
        None => &null,
    };
    let allowed = is_always_allowed(tool.as_str()) || (is_path_gated(tool.as_str())
        && is_plan_dir_path_param(args, &facts.target, &facts.plans_root)) || (str_eq(
        tool.as_str(),
        AGENT,
    ) && is_read_only_subagent_dispatch(args, facts.read_only_subagent));
    if allowed {
        None
    } else {
        let mut e =
            "Plan mode is active: the working tree is read-only while planning. Only the plan file under ".to_owned();
        e.append(plans_dir);
        e.append(
            " may be written (Write/Edit); research with Read/Grep/Glob/Ls or a read-only `Explore` subagent (no worktree isolation), ask with AskUserQuestion, and submit the plan with ProposePlan.",
        );
        Some(e)
    }
}

/// While planning, a write passes only if its file lies in the plans directory,
/// and no tool passes but research, questions, the submission, writes and
/// subagents.
pub proof fn planning_leaves_the_tree_alone(data: JsonView, facts: CallFacts)
    requires
        allowed_while_planning(data, facts),
    ensures
        ({
            let tool = or_empty(data.str_at("tool_name"@));
            &&& always_allowed(tool) || path_gated(tool) || tool == AGENT@
            &&& path_gated(tool) ==> facts.target.deep_view().under(facts.plans_root.deep_view())
            &&& tool == AGENT@ ==> facts.read_only_subagent && call_args(data).str_at(
                "isolation"@,
            ) != Some("worktree"@)
        }),
{
    reveal_strlit("Write");
    reveal_strlit("Edit");
    reveal_strlit("Agent");
    reveal_strlit("Read");
    reveal_strlit("Grep");
    reveal_strlit("Glob");
    reveal_strlit("Ls");
    reveal_strlit("BashOutput");
    reveal_strlit("AskUserQuestion");
    reveal_strlit("ProposePlan");
    let tool = or_empty(data.str_at("tool_name"@));
    assert(WRITE@[0] == 'W' && WRITE@.len() == 5);
    assert(EDIT@[0] == 'E' && EDIT@.len() == 4);
    assert(AGENT@[0] == 'A' && AGENT@.len() == 5);
    assert("Read"@[0] == 'R');
    assert("Grep"@[0] == 'G');
    assert("Glob"@[0] == 'G');
    assert("Ls"@[0] == 'L');
    assert("BashOutput"@[0] == 'B');
    assert(ASK_USER_QUESTION@.len() == 15);
    assert(PROPOSE_PLAN@[0] == 'P');
}

/// The message injected at the start of a turn, if any: the instructions, while
/// plan mode is active.
pub fn injection_handler(state: &PlanSessionState) -> (r: Option<AgentMessage>)
    ensures
        r.deep_view() == match state.deep_view().injected() {
            Some(text) => Some(
                AgentMessageView::User {
                    content: seq![ContentBlockView::Text { text, signature: None }],
                },
            ),
            None => None,
        },
{
    if !state.enabled {
        return None;
    }
    match &state.active_instructions {
        Some(text) => {
            let mut content: Vec<ContentBlock> = Vec::new();
            content.push(ContentBlock::Text { text: text.clone(), signature: None });
            assert(content.deep_view() =~= seq![
                ContentBlockView::Text { text: text@, signature: None },
            ]);
            Some(AgentMessage::User { content })
        },
        None => None,
    }
}

// ---------------------------------------------------------------------------
// Submission
// ---------------------------------------------------------------------------

pub open spec fn proposal_properties() -> Seq<(Seq<char>, JsonView)> {
    seq![
        (
            "slug"@,
            typed(
                "string"@,
                "Slug of the plan file (<slug>-plan.md) in the plans directory"@,
            ),
        ),
        (
            "title"@,
            typed(
                "string"@,
                "Optional short plan title; defaults to the plan's first heading"@,
            ),
        ),
    ]
}

pub open spec fn proposal_schema() -> JsonView {
    object_of(proposal_properties(), seq!["slug"@])
}

/// The plan that a call names.
#[derive(Debug, PartialEq, Eq)]
pub struct Proposal {
    pub slug: String,
    pub title: Option<String>,
    /// The plan file to read.
    pub path: String,
}

/// A submitted plan.
#[derive(Debug)]
pub struct Submission {
    /// Puts the review card up.
    pub event: ThreadEvent,
    /// The result of the call.
    pub text: String,
    pub details: Json,
    /// Whether the turn ends at the proposal, so that the review card stays the
    /// last item of the conversation.
    pub terminate: bool,
}

pub open spec fn proposal_slug(params: JsonView) -> Seq<char> {
    trim(or_empty(params.str_at("slug"@)))
}

pub open spec fn missing_plan(path: Seq<char>) -> Seq<char> {
    "plan file not found at "@ + path
        + " — write the plan to that file first, then call ProposePlan again with the same slug"@
}

pub open spec fn empty_plan(path: Seq<char>) -> Seq<char> {
    "plan file "@ + path + " is empty — fill in the plan before proposing it"@
}

pub open spec fn submitted_text(title: Seq<char>, path: Seq<char>) -> Seq<char> {
    "Plan submitted for review: "@ + title + " ("@ + path
        + "). The turn ends here; wait for the user's verdict and do not implement before approval."@
}

/// The tool through which the model submits a plan.
pub struct ProposePlanTool;

impl ProposePlanTool {
    pub fn name() -> (r: &'static str)
        ensures
            r@ == PROPOSE_PLAN@,
    {
        PROPOSE_PLAN
    }

    pub fn description() -> (r: &'static str)
        ensures
            r@
                == "Submit the finished plan for the user's approval verdict. Call only after the plan file is complete and decision-complete: pass the <slug> of your <slug>-plan.md in the plans directory (and optionally a title). The user then chooses an execution option; do not start implementing before approval. Never use this tool to ask questions — use AskUserQuestion for that."@,
    {
        "Submit the finished plan for the user's approval verdict. Call only after the plan file is complete and decision-complete: pass the <slug> of your <slug>-plan.md in the plans directory (and optionally a title). The user then chooses an execution option; do not start implementing before approval. Never use this tool to ask questions — use AskUserQuestion for that."
    }

    pub fn parameters_schema() -> (r: Json)
        ensures
            r.model() == proposal_schema(),
    {
        let mut properties: Vec<(String, Json)> = Vec::new();
        properties.push(
            (
                "slug".to_owned(),
                typed_schema(
                    "string",
                    "Slug of the plan file (<slug>-plan.md) in the plans directory",
                ),
            ),
        );
        properties.push(
            (
                "title".to_owned(),
                typed_schema(
                    "string",
                    "Optional short plan title; defaults to the plan's first heading",
                ),
            ),
        );
        assert(entry_models(properties@) =~= proposal_properties());
        assert(str_refs(["slug"]@) =~= seq!["slug"@]);
        object_schema(properties, &["slug"])
    }

    pub fn is_read_only() -> (r: bool)
        ensures
            r,
    {
        true
    }

    /// Reads a call: the slug has to be valid.
    pub fn proposal(params: &Json, plans_dir: &str) -> (r: Result<Proposal, ToolError>)
        ensures
            match slug_problem(proposal_slug(params.model())) {
                Some(e) => r matches Err(ToolError::InvalidArguments(m)) && m@ == e,
                None => {
                    &&& r matches Ok(p)
                    &&& p.slug@ == proposal_slug(params.model())
                    &&& p.title.deep_view() == params.model().str_at("title"@)
                    &&& p.path@ == joined(plans_dir@, plan_file_name(p.slug@))
                },
            },
    {
        let slug = str_trim(str_or_empty(params.str_at("slug")).as_str());
        match validate_slug(slug.as_str()) {
            Err(e) => {
                return Err(ToolError::InvalidArguments(e));
            },
            Ok(_) => {},
        }
        let title = match params.str_at("title") {
            Some(t) => Some(t.to_owned()),
            None => None,
        };
        let path = plan_file_path(plans_dir, slug.as_str());
        Ok(Proposal { slug, title, path })
    }

    /// Submits the plan whose file has the given content (`None` where it could
    /// not be read): records the plan file and asks for the review.
    pub fn submit(
        state: &mut PlanSessionState,
        proposal: &Proposal,
        content: Option<&str>,
    ) -> (r: Result<Submission, ToolError>)
        ensures
            match content {
                None => {
                    &&& r matches Err(ToolError::ExecutionFailed(e))
                    &&& e@ == missing_plan(proposal.path@)
                    &&& final(state).deep_view() == old(state).deep_view()
                },
                Some(content) => if blank(content@) {
                    &&& r matches Err(ToolError::ExecutionFailed(e))
                    &&& e@ == empty_plan(proposal.path@)
                    &&& final(state).deep_view() == old(state).deep_view()
                } else {
                    let title = plan_title(
                        proposal.title.deep_view(),
                        content@,
                        proposal.slug@,
                    );
                    &&& r matches Ok(s)
                    &&& s.event.deep_view() == (ThreadEventView::PlanReady {
                        plan_file: proposal.path@,
                        title,
                    })
                    &&& s.text@ == submitted_text(title, proposal.path@)
                    &&& s.details.model() == JsonView::Object(
                        seq![
                            ("plan_file"@, JsonView::Str(proposal.path@)),
                            ("title"@, JsonView::Str(title)),
                        ],
                    )
                    &&& s.terminate
                    &&& final(state).deep_view() == (PlanSessionStateView {
                        plan_file: Some(proposal.path@),
                        ..old(state).deep_view()
                    })
                },
            },
    {
        let content = match content {
            None => {
                let mut e = "plan file not found at ".to_owned();
                e.append(proposal.path.as_str());
                e.append(
                    " — write the plan to that file first, then call ProposePlan again with the same slug",
                );
                return Err(ToolError::ExecutionFailed(e));
            },
            Some(c) => c,
        };
        if is_blank(content) {
            let mut e = "plan file ".to_owned();
            e.append(proposal.path.as_str());
            e.append(" is empty — fill in the plan before proposing it");
            return Err(ToolError::ExecutionFailed(e));
        }
        let supplied = match &proposal.title {
            Some(t) => Some(t.as_str()),
            None => None,
        };
        let title = resolve_plan_title(supplied, content, proposal.slug.as_str());
        state.set_plan_file(Some(proposal.path.clone()));
        let mut text = "Plan submitted for review: ".to_owned();
        text.append(title.as_str());
        text.append(" (");
        text.append(proposal.path.as_str());
        text.append(
            "). The turn ends here; wait for the user's verdict and do not implement before approval.",
        );
        let mut members: Vec<(String, Json)> = Vec::new();
        members.push(("plan_file".to_owned(), jstr(proposal.path.as_str())));
        members.push(("title".to_owned(), jstr(title.as_str())));
        assert(entry_models(members@) =~= seq![
            ("plan_file"@, JsonView::Str(proposal.path@)),
            ("title"@, JsonView::Str(title@)),
        ]);
        let details = jobj(members);
        let event = ThreadEvent::PlanReady { plan_file: proposal.path.clone(), title };
        Ok(Submission { event, text, details, terminate: true })
    }
}

// ---------------------------------------------------------------------------
// What planning lets through
// ---------------------------------------------------------------------------

/// While planning, research, questions and the submission pass, whatever they are
/// given.
pub proof fn research_passes_while_planning(data: JsonView, facts: CallFacts)
    requires
        data.str_at("tool_name"@) == Some("Read"@) || data.str_at("tool_name"@) == Some("Grep"@)
            || data.str_at("tool_name"@) == Some("Glob"@) || data.str_at("tool_name"@) == Some(
            "Ls"@,
        ) || data.str_at("tool_name"@) == Some("BashOutput"@) || data.str_at("tool_name"@) == Some(
            "AskUserQuestion"@,
        ) || data.str_at("tool_name"@) == Some("ProposePlan"@),
    ensures
        allowed_while_planning(data, facts),
{
}

/// While planning, a call of a tool that writes files passes just where it names a path
/// and the file lies in the plans directory.
pub proof fn writes_pass_only_on_plan_files(data: JsonView, args: JsonView, facts: CallFacts)
    requires
        data.str_at("tool_name"@) == Some("Write"@) || data.str_at("tool_name"@) == Some("Edit"@),
        data.get("args"@) == Some(args),
    ensures
        allowed_while_planning(data, facts) <==> args.str_at("path"@) is Some
            && facts.target.deep_view().absolute == facts.plans_root.deep_view().absolute
            && facts.plans_root.deep_view().names.is_prefix_of(facts.target.deep_view().names),
{
    reveal_strlit("Write");
    reveal_strlit("Edit");
    reveal_strlit("Agent");
    reveal_strlit("Read");
    reveal_strlit("Grep");
    reveal_strlit("Glob");
    reveal_strlit("Ls");
    reveal_strlit("BashOutput");
    reveal_strlit("AskUserQuestion");
    reveal_strlit("ProposePlan");
    assert("Edit"@[0] == 'E' && "Write"@[0] == 'W' && "Write"@.len() == 5);
    assert("Read"@[0] == 'R' && "Grep"@[0] == 'G' && "Glob"@[0] == 'G' && "Ls"@.len() == 2);
    assert("Agent"@[0] == 'A' && "BashOutput"@.len() == 10);
    assert("AskUserQuestion"@.len() == 15 && "ProposePlan"@.len() == 11);
}

/// While planning, a subagent passes just where its type is named and read-only and it
/// wants no worktree of its own.
pub proof fn only_read_only_subagents_pass(data: JsonView, args: JsonView, facts: CallFacts)
    requires
        data.str_at("tool_name"@) == Some("Agent"@),
        data.get("args"@) == Some(args),
    ensures
        allowed_while_planning(data, facts) <==> args.str_at("subagent_type"@) is Some
            && facts.read_only_subagent && args.str_at("isolation"@) != Some("worktree"@),
{
    reveal_strlit("Write");
    reveal_strlit("Edit");
    reveal_strlit("Agent");
    reveal_strlit("Read");
    reveal_strlit("Grep");
    reveal_strlit("Glob");
    reveal_strlit("Ls");
    reveal_strlit("BashOutput");
    reveal_strlit("AskUserQuestion");
    reveal_strlit("ProposePlan");
    assert("Agent"@.len() == 5 && "Agent"@[0] == 'A');
    assert("Write"@[0] == 'W' && "Edit"@.len() == 4 && "Read"@.len() == 4 && "Grep"@.len() == 4
        && "Glob"@.len() == 4 && "Ls"@.len() == 2);
    assert("BashOutput"@.len() == 10 && "AskUserQuestion"@.len() == 15 && "ProposePlan"@.len()
        == 11);
}

/// While planning no other tool passes, a shell command as little as a call without a
/// name.
pub proof fn no_other_tool_passes_while_planning(data: JsonView, facts: CallFacts, tool: Seq<char>)
    requires
        data.str_at("tool_name"@) == Some(tool) || (data.str_at("tool_name"@) is None && tool.len()
            == 0),
        tool != "Read"@ && tool != "Grep"@ && tool != "Glob"@ && tool != "Ls"@ && tool
            != "BashOutput"@ && tool != "AskUserQuestion"@ && tool != "ProposePlan"@,
        tool != "Write"@ && tool != "Edit"@ && tool != "Agent"@,
    ensures
        !allowed_while_planning(data, facts),
{
    assert(or_empty(data.str_at("tool_name"@)) =~= tool);
}

/// The refusal says where the plan file goes.
pub proof fn the_refusal_names_the_plans_directory(plans_dir: Seq<char>)
    ensures
        block_reason(plans_dir)
            == "Plan mode is active: the working tree is read-only while planning. Only the plan file under "@
            + plans_dir
            + " may be written (Write/Edit); research with Read/Grep/Glob/Ls or a read-only `Explore` subagent (no worktree isolation), ask with AskUserQuestion, and submit the plan with ProposePlan."@,
{
}

/// Only a write or an edit of a file in the plans directory drafts a plan.
pub proof fn drafting_is_writing_a_plan_file(
    tool: Seq<char>,
    params: JsonView,
    target: CleanPathView,
    root: CleanPathView,
)
    ensures
        path_gated(tool) <==> tool == "Write"@ || tool == "Edit"@,
        in_plans_dir(params, target, root) <==> params.str_at("path"@) is Some && target.absolute
            == root.absolute && root.names.is_prefix_of(target.names),
{
}

/// Entering plan mode keeps the instructions that are set, and they are injected on
/// every turn while it is on.
pub proof fn instructions_are_injected_while_planning(
    state: PlanSessionStateView,
    plan_file: Option<Seq<char>>,
)
    ensures
        state.switched(true, plan_file).enabled,
        !state.switched(false, plan_file).enabled,
        state.switched(true, plan_file).plan_file == plan_file,
        state.switched(false, plan_file).plan_file == plan_file,
        state.switched(true, plan_file).active_instructions == state.active_instructions,
        state.enabled ==> state.injected() == state.active_instructions,
        !state.enabled ==> state.injected() is None,
{
}

/// A slug is one or more letters, digits, underscores and hyphens, and nothing else is
/// one.
pub proof fn slugs_are_plain(slug: Seq<char>, i: int)
    ensures
        slug_problem(slug) is None ==> slug.len() > 0,
        slug_problem(slug) is None && 0 <= i < slug.len() ==> '0' <= slug[i] <= '9' || 'a'
            <= slug[i] <= 'z' || 'A' <= slug[i] <= 'Z' || slug[i] == '_' || slug[i] == '-',
        slug.len() > 0 && (forall|k: int|
            0 <= k < slug.len() ==> '0' <= #[trigger] slug[k] <= '9' || 'a' <= slug[k] <= 'z'
                || 'A' <= slug[k] <= 'Z' || slug[k] == '_' || slug[k] == '-') ==> slug_problem(slug)
            is None,
        slug.len() == 0 ==> slug_problem(slug) == Some("slug must not be empty"@),
        slug.len() > 0 && slug_problem(slug) is Some ==> slug_problem(slug) == Some(
            "slug "@ + debug_quoted(slug)
                + " may contain only letters, numbers, underscores, and hyphens"@,
        ),
        plan_file_name(slug) == slug + "-plan.md"@,
{
    if slug.len() > 0 && (forall|k: int|
        0 <= k < slug.len() ==> '0' <= #[trigger] slug[k] <= '9' || 'a' <= slug[k] <= 'z' || 'A'
            <= slug[k] <= 'Z' || slug[k] == '_' || slug[k] == '-') {
        assert(is_slug(slug));
    }
}

/// A title that is given counts, without white space around it; without one the first
/// heading of the plan is its title, and without a heading the slug.
pub proof fn the_title_given_counts_first(
    given: Seq<char>,
    content: Seq<char>,
    slug: Seq<char>,
)
    ensures
        !blank(given) ==> plan_title(Some(given), content, slug) == trim(given),
        blank(given) ==> plan_title(Some(given), content, slug) == plan_title(None, content, slug),
        (forall|i: int|
            0 <= i < lines(content).len() ==> heading(#[trigger] lines(content)[i]) is None)
            ==> plan_title(None, content, slug) == slug,
{
    if forall|i: int|
        0 <= i < lines(content).len() ==> heading(#[trigger] lines(content)[i]) is None {
        lemma_no_heading(lines(content), 0);
    }
}

proof fn lemma_no_heading(ls: Seq<Seq<char>>, at: int)
    requires
        0 <= at <= ls.len(),
        forall|i: int| 0 <= i < ls.len() ==> heading(#[trigger] ls[i]) is None,
    ensures
        first_heading(ls, at) is None,
    decreases ls.len() - at,
{
    if at < ls.len() {
        lemma_no_heading(ls, at + 1);
    }
}

/// The first line that is a heading gives the title.
pub proof fn the_first_heading_is_the_title(content: Seq<char>, slug: Seq<char>, at: int)
    requires
        0 <= at < lines(content).len(),
        forall|i: int| 0 <= i < at ==> heading(#[trigger] lines(content)[i]) is None,
        heading(lines(content)[at]) is Some,
    ensures
        plan_title(None, content, slug) == heading(lines(content)[at])->0,
{
    lemma_heading_found(lines(content), 0, at);
}

proof fn lemma_heading_found(ls: Seq<Seq<char>>, from: int, at: int)
    requires
        0 <= from <= at < ls.len(),
        forall|i: int| 0 <= i < at ==> heading(#[trigger] ls[i]) is None,
        heading(ls[at]) is Some,
    ensures
        first_heading(ls, from) == heading(ls[at]),
    decreases at - from,
{
    if from < at {
        assert(heading(ls[from]) is None);
        lemma_heading_found(ls, from + 1, at);
    }
}

/// A heading is a line that begins with a hash sign; its text is what stands behind the
/// signs, without white space around it.
pub proof fn headings_begin_with_hashes(text: Seq<char>, line: Seq<char>)
    requires
        text.len() > 0,
        text[0] != '#',
        trim(text) == text,
    ensures
        heading(seq!['#', ' '] + text) == Some(text),
        heading(seq!['#', '#', ' '] + text) == Some(text),
        heading(text) is None,
{
    crate::text::trim_is_idempotent(text);
    assert(!crate::text::is_space(text[0]) && !crate::text::is_space(text.last()));
    let one = seq!['#', ' '] + text;
    let two = seq!['#', '#', ' '] + text;
    assert(one.last() == text.last() && two.last() == text.last());
    assert(trim_start(one) == one && trim_start(two) == two && trim_start(text) == text);
    assert(trim(one) == one && trim(two) == two);
    let spaced = seq![' '] + text;
    assert(one.skip(1) =~= spaced);
    assert(two.skip(1) =~= one);
    assert(spaced.skip(1) =~= text);
    reveal_with_fuel(without_hashes, 4);
    assert(without_hashes(one) == spaced);
    assert(without_hashes(two) == spaced);
    reveal_with_fuel(trim_start, 3);
    assert(trim_start(spaced) == text);
    assert(trim(spaced) == trim(text));
}

/// A submission is answered with the title and the file of the plan; a file that cannot
/// be read, or that is empty, is named.
pub proof fn submissions_name_the_plan_file(params: JsonView, title: Seq<char>, path: Seq<char>)
    ensures
        submitted_text(title, path) == "Plan submitted for review: "@ + title + " ("@ + path
            + "). The turn ends here; wait for the user's verdict and do not implement before approval."@,
        missing_plan(path) == "plan file not found at "@ + path
            + " — write the plan to that file first, then call ProposePlan again with the same slug"@,
        empty_plan(path) == "plan file "@ + path
            + " is empty — fill in the plan before proposing it"@,
        params.str_at("slug"@) matches Some(s) ==> proposal_slug(params) == trim(s),
        params.str_at("slug"@) is None ==> proposal_slug(params).len() == 0,
{
    if params.str_at("slug"@) is None {
        assert(trim_start(Seq::<char>::empty()) == Seq::<char>::empty());
    }
}

/// The file of a write is the path it names, taken from the working directory.
pub proof fn a_write_names_its_file(params: JsonView, cwd: Seq<char>)
    ensures
        params.str_at("path"@) matches Some(p) ==> {
            &&& p.len() > 0 && p[0] == '/' ==> write_target(params, cwd) == Some(p)
            &&& !(p.len() > 0 && p[0] == '/') ==> (write_target(params, cwd) matches Some(t)
                && p.is_suffix_of(t) && cwd.is_prefix_of(t))
        },
        params.str_at("path"@) is None ==> write_target(params, cwd) is None,
{
    match params.str_at("path"@) {
        Some(p) => {
            let t = joined(cwd, p);
            if !(p.len() > 0 && p[0] == '/') {
                assert(p =~= t.subrange(t.len() - p.len(), t.len() as int));
                assert(cwd =~= t.subrange(0, cwd.len() as int));
            }
        },
        None => {},
    }
}

/// The view of a [`PlanSessionState`] is made of all its parts, each as it is.
pub proof fn plan_session_state_is_viewed_whole(x: &PlanSessionState)
    ensures
        x.deep_view() == (PlanSessionStateView {
            enabled: x.enabled,
            plan_file: x.plan_file.deep_view(),
            active_instructions: x.active_instructions.deep_view(),
        }),
{
}

} // verus!
