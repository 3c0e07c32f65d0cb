//! Subagents: what they can do, and the shell that they get.
//!
//! A subagent runs beside the session that dispatched it, so that its shell
//! neither starts background tasks nor asks for wider permissions.

use crate::json::{
    clone_entries, jobj, lemma_model_of_object, lookup, remove_member,
    removing_a_member_removes_only_it, set_member, setting_a_member_sets_only_it, with_member,
    without_member, Json, JsonView,
};
use crate::pathname::{CleanPath, CleanPathView};
use crate::text::{clone_strings, contains_str, str_eq, strs};
use crate::thread::PermissionMode;
use crate::tools::{BASH, EDIT, GLOB, GREP, LS, READ, TASK_STOP, WRITE};
use vstd::prelude::*;

verus! {

/// The capability of a subagent with these tools; no tools stand for all.
pub open spec fn capability_of(tools: Seq<Seq<char>>) -> Seq<char> {
    let writes = tools.contains(WRITE@) || tools.contains(EDIT@);
    let runs = tools.contains(BASH@);
    if tools.len() == 0 || (writes && runs) {
        "write+bash"@
    } else if writes {
        "write"@
    } else if runs {
        "bash"@
    } else {
        "read-only"@
    }
}

/// A tag that says what a subagent can do, by the tools that its definition
/// allows.
pub fn subagent_capability(tools: &Vec<String>) -> (r: &'static str)
    ensures
        r@ == capability_of(strs(tools@)),
{
    if tools.len() == 0 {
        return "write+bash";
    }
    let writes = contains_str(tools, WRITE) || contains_str(tools, EDIT);
    let runs = contains_str(tools, BASH);
    if writes && runs {
        "write+bash"
    } else if writes {
        "write"
    } else if runs {
        "bash"
    } else {
        "read-only"
    }
}

/// Whether a kind of subagent only reads; an unknown kind, `None`, does not count
/// as one.
pub fn is_read_only_subagent(tools: Option<&Vec<String>>) -> (r: bool)
    ensures
        r == (tools matches Some(ts) && capability_of(strs(ts@)) == "read-only"@),
{
    match tools {
        Some(ts) => str_eq(subagent_capability(ts), "read-only"),
        None => false,
    }
}

/// A subagent that may neither write nor run commands is one that only reads, and
/// no other is.
pub proof fn reading_is_all_the_rest(tools: Seq<Seq<char>>)
    ensures
        capability_of(tools) == "read-only"@ <==> tools.len() > 0 && !tools.contains(WRITE@)
            && !tools.contains(EDIT@) && !tools.contains(BASH@),
{
    reveal_strlit("read-only");
    reveal_strlit("write+bash");
    reveal_strlit("write");
    reveal_strlit("bash");
    assert("read-only"@.len() == 9);
    assert("write+bash"@.len() == 10);
    assert("write"@.len() == 5);
    assert("bash"@.len() == 4);
}

/// The tools that a subagent can be given, in order.
pub open spec fn snapshot_names() -> Seq<Seq<char>> {
    seq![READ@, GREP@, GLOB@, LS@, BASH@, WRITE@, EDIT@]
}

/// The names of the tools that a subagent can be given.
pub fn subagent_tool_names() -> (r: Vec<String>)
    ensures
        strs(r@) == snapshot_names(),
{
    let mut out: Vec<String> = Vec::new();
    out.push(READ.to_owned());
    out.push(GREP.to_owned());
    out.push(GLOB.to_owned());
    out.push(LS.to_owned());
    out.push(BASH.to_owned());
    out.push(WRITE.to_owned());
    out.push(EDIT.to_owned());
    assert(strs(out@) =~= snapshot_names());
    out
}

// ---------------------------------------------------------------------------
// The shell
// ---------------------------------------------------------------------------

pub const SUBAGENT_BASH_DESCRIPTION: &'static str =
    "Execute a shell command. Each call runs in a fresh one-shot shell at the current cwd (no persistent cwd/vars across calls), under the same backend as the Captain (seatbelt-confined where the host has one). `run_in_background` is not available inside a subagent — the subagent itself is the async primitive, so run long commands in the foreground. Use `head_lines`/`tail_lines` to keep a selection of output instead of piping through `head`/`tail`.";

pub const NO_BACKGROUND: &'static str =
    "`run_in_background` is not available inside a subagent session — the subagent itself is the async primitive. Run the command in the foreground instead.";

/// The shell of a subagent.
pub struct SubagentBashTool;

/// The properties without those that a subagent cannot use.
pub open spec fn foreground_properties(es: Seq<(Seq<char>, JsonView)>) -> Seq<(Seq<char>, JsonView)> {
    without_member(
        without_member(without_member(es, "run_in_background"@), "sandbox_permissions"@),
        "justification"@,
    )
}

/// The schema of the shell as a subagent sees it.
pub open spec fn foreground_schema(schema: JsonView) -> JsonView {
    match (schema, schema.get("properties"@)) {
        (JsonView::Object(es), Some(JsonView::Object(props))) => JsonView::Object(
            with_member(es, "properties"@, JsonView::Object(foreground_properties(props))),
        ),
        _ => schema,
    }
}

impl SubagentBashTool {
    pub fn name() -> (r: &'static str)
        ensures
            r@ == BASH@,
    {
        BASH
    }

    pub fn description() -> (r: &'static str)
        ensures
            r@ == SUBAGENT_BASH_DESCRIPTION@,
    {
        SUBAGENT_BASH_DESCRIPTION
    }

    pub fn is_read_only() -> (r: bool)
        ensures
            !r,
    {
        false
    }

    /// The schema of the shell, without background runs and wider permissions.
    pub fn parameters_schema(schema: Json) -> (r: Json)
        ensures
            r.model() == foreground_schema(schema.model()),
    {
        let props = match schema.get("properties") {
            Some(Json::Object(props)) => {
                proof {
                    lemma_model_of_object(*props);
                }
                Some(clone_entries(props))
            },
            _ => None,
        };
        match schema {
            Json::Object(es) => {
                proof {
                    lemma_model_of_object(es);
                }
                match props {
                    Some(props) => {
                        let mut props = props;
                        let mut es = es;
                        remove_member(&mut props, "run_in_background");
                        remove_member(&mut props, "sandbox_permissions");
                        remove_member(&mut props, "justification");
                        set_member(&mut es, "properties", jobj(props));
                        jobj(es)
                    },
                    None => Json::Object(es),
                }
            },
            other => other,
        }
    }

    /// Refuses a call that asks for a background run; any other goes to the shell.
    pub fn check(params: &Json) -> (r: Result<(), String>)
        ensures
            match r {
                Ok(_) => params.model().get("run_in_background"@) != Some(JsonView::Bool(true)),
                Err(e) => params.model().get("run_in_background"@) == Some(JsonView::Bool(true))
                    && e@ == NO_BACKGROUND@,
            },
    {
        match params.get("run_in_background") {
            Some(Json::Bool(b)) => if *b {
                Err(NO_BACKGROUND.to_owned())
            } else {
                Ok(())
            },
            _ => Ok(()),
        }
    }
}

// ---------------------------------------------------------------------------
// Stopping tasks
// ---------------------------------------------------------------------------

pub const TASKSTOP_DESCRIPTION: &'static str =
    "Stop a background task by id — a background bash, a monitor, or an asynchronously-dispatched Sailor subagent (`sailor_id`). Cancels the task's token; the task settles to Stopped. Idempotent for an already-terminal task.";

/// Who stops a task.
#[derive(Debug, PartialEq, Eq)]
pub enum StopStep {
    /// The registry of subagents.
    Subagent(String),
    /// The registry of shells and monitors.
    Delegate,
}

/// Stops tasks of every kind: subagents first, then shells and monitors.
pub struct TaskStop;

impl TaskStop {
    pub fn name() -> (r: &'static str)
        ensures
            r@ == TASK_STOP@,
    {
        TASK_STOP
    }

    pub fn description() -> (r: &'static str)
        ensures
            r@ == TASKSTOP_DESCRIPTION@,
    {
        TASKSTOP_DESCRIPTION
    }

    pub fn is_read_only() -> (r: bool)
        ensures
            !r,
    {
        false
    }

    /// Who stops the task that a call names; `subagents` are the ids of the
    /// subagents that run.
    pub fn route(params: &Json, subagents: &Vec<String>) -> (r: StopStep)
        ensures
            match params.model().str_at("task_id"@) {
                Some(id) => if strs(subagents@).contains(id) {
                    r matches StopStep::Subagent(s) && s@ == id
                } else {
                    r == StopStep::Delegate
                },
                None => r == StopStep::Delegate,
            },
    {
        match params.str_at("task_id") {
            Some(id) => if contains_str(subagents, id) {
                StopStep::Subagent(id.to_owned())
            } else {
                StopStep::Delegate
            },
            None => StopStep::Delegate,
        }
    }

    /// The answer once a subagent has stopped.
    pub fn stopped(id: &str) -> (r: String)
        ensures
            r@ == "Stopped background task `"@ + id@ + "`"@,
    {
        let mut out = "Stopped background task `".to_owned();
        out.append(id);
        out.append("`");
        out
    }
}

// ---------------------------------------------------------------------------
// The sandbox
// ---------------------------------------------------------------------------

/// The mode of one call: an approved grant, or the mode of the session.
pub fn effective_mode(grant: Option<PermissionMode>, standing: PermissionMode) -> (r: PermissionMode)
    ensures
        r == (match grant {
            Some(g) => g,
            None => standing,
        }),
{
    match grant {
        Some(g) => g,
        None => standing,
    }
}

/// A worktree that the session entered.
pub struct WorktreeGrant {
    /// Where it lies.
    pub path: CleanPath,
    /// What it makes writable: itself, its git directory and the project it was
    /// entered from.
    pub roots: Vec<String>,
}

pub open spec fn extra_roots(cwd: CleanPathView, worktree: Option<WorktreeGrant>) -> Seq<Seq<char>> {
    match worktree {
        Some(w) => if cwd == w.path.deep_view() {
            strs(w.roots@)
        } else {
            seq![]
        },
        None => seq![],
    }
}

/// The roots that are writable besides the workspace: those of the worktree that
/// the session runs in.
pub fn worktree_policy(cwd: &CleanPath, worktree: &Option<WorktreeGrant>) -> (r: Vec<String>)
    ensures
        strs(r@) == extra_roots(cwd.deep_view(), *worktree),
{
    match worktree {
        Some(w) => if cwd.is_same(&w.path) {
            clone_strings(&w.roots)
        } else {
            let out: Vec<String> = Vec::new();
            assert(strs(out@) =~= seq![]);
            out
        },
        None => {
            let out: Vec<String> = Vec::new();
            assert(strs(out@) =~= seq![]);
            out
        },
    }
}

/// What a subagent can do goes by its tools: writing files, running commands, both, or
/// neither. One without a list of tools has them all.
pub proof fn capabilities_go_by_tools(tools: Seq<Seq<char>>)
    ensures
        tools.len() == 0 ==> capability_of(tools) == "write+bash"@,
        tools.len() > 0 && (tools.contains("Write"@) || tools.contains("Edit"@))
            && tools.contains("Bash"@) ==> capability_of(tools) == "write+bash"@,
        tools.len() > 0 && (tools.contains("Write"@) || tools.contains("Edit"@))
            && !tools.contains("Bash"@) ==> capability_of(tools) == "write"@,
        tools.len() > 0 && !tools.contains("Write"@) && !tools.contains("Edit"@)
            && tools.contains("Bash"@) ==> capability_of(tools) == "bash"@,
        tools.len() > 0 && !tools.contains("Write"@) && !tools.contains("Edit"@)
            && !tools.contains("Bash"@) ==> capability_of(tools) == "read-only"@,
{
}

/// The tools that a subagent is given.
pub proof fn the_tools_of_a_subagent()
    ensures
        snapshot_names() =~= seq![
            "Read"@,
            "Grep"@,
            "Glob"@,
            "Ls"@,
            "Bash"@,
            "Write"@,
            "Edit"@,
        ],
{
}

/// The shell of a subagent takes neither the background flag nor the escalation fields;
/// its other parameters stay.
pub proof fn a_subagent_shell_runs_in_the_foreground(
    es: Seq<(Seq<char>, JsonView)>,
    props: Seq<(Seq<char>, JsonView)>,
    other: Seq<char>,
)
    requires
        lookup(es, "properties"@) == Some(JsonView::Object(props)),
    ensures
        ({
            let after = foreground_schema(JsonView::Object(es));
            &&& after.get("properties"@) matches Some(JsonView::Object(kept))
            &&& lookup(kept, "run_in_background"@) is None
            &&& lookup(kept, "sandbox_permissions"@) is None
            &&& lookup(kept, "justification"@) is None
            &&& other != "run_in_background"@ && other != "sandbox_permissions"@ && other
                != "justification"@ ==> lookup(kept, other) == lookup(props, other)
            &&& other != "properties"@ ==> after.get(other) == lookup(es, other)
        }),
{
    reveal_strlit("run_in_background");
    reveal_strlit("sandbox_permissions");
    reveal_strlit("justification");
    assert("run_in_background"@.len() == 17 && "sandbox_permissions"@.len() == 19
        && "justification"@.len() == 13);
    let a = without_member(props, "run_in_background"@);
    let b = without_member(a, "sandbox_permissions"@);
    let kept = without_member(b, "justification"@);
    removing_a_member_removes_only_it(props, "run_in_background"@, other);
    removing_a_member_removes_only_it(a, "sandbox_permissions"@, other);
    removing_a_member_removes_only_it(a, "sandbox_permissions"@, "run_in_background"@);
    removing_a_member_removes_only_it(b, "justification"@, other);
    removing_a_member_removes_only_it(b, "justification"@, "run_in_background"@);
    removing_a_member_removes_only_it(b, "justification"@, "sandbox_permissions"@);
    setting_a_member_sets_only_it(es, "properties"@, JsonView::Object(kept), other);
}

/// The roots of a worktree are granted to the session that runs in it, and to no other.
pub proof fn worktree_roots_go_to_their_session(cwd: CleanPathView, grant: WorktreeGrant)
    ensures
        extra_roots(cwd, None).len() == 0,
        cwd != grant.path.deep_view() ==> extra_roots(cwd, Some(grant)).len() == 0,
        cwd == grant.path.deep_view() ==> extra_roots(cwd, Some(grant)) == strs(grant.roots@),
{
}

} // verus!
