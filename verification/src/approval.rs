//! Permission gating of tool calls: pure mode-based allow and deny.
//!
//! - `DangerFullAccess` runs every gated call.
//! - `WorkspaceWrite` runs a gated call when its target is provably inside the
//!   writable roots; anything that cannot be classified is denied.
//! - `ReadOnly` denies every gated call.
//!
//! The only round trips to the user are questions and requests for a wider
//! mode.

use crate::json::{
    clone_entries, entry_models, jarr, jobj, jstr, lemma_model_of_object, lookup, models,
    set_member, setting_a_member_sets_only_it, with_member, Json, JsonView,
};
use crate::path_policy::{is_under_any, under_any};
use crate::pathname::{is_absolute, join_path, joined, CleanPath, CleanPathView};
use crate::permission::{
    PendingAuthMeta, PendingAuthMetaView, PermissionDecision, ToolAuthorizationResponse,
};
use crate::schema::{
    array_of, array_schema, object_of, object_schema, str_models, typed, typed_schema,
};
use crate::table::Table;
use crate::text::{dec, push_dec, str_eq, str_refs, strs};
use crate::thread::{PermissionMode, ThreadEvent, ThreadEventView, ToolCallStatus};
use crate::tools::{ASK_USER_QUESTION, EDIT, ENTER_WORKTREE, EXIT_WORKTREE, WRITE};
use vstd::prelude::*;

verus! {

/// Shown to the model when read-only mode refuses a mutation.
pub const DENY_READ_ONLY: &'static str = "[sandbox: file access denied under read-only mode]";

/// Shown to the model when a mutation is not provably inside the writable
/// roots.
pub const DENY_OUT_OF_WORKSPACE: &'static str =
    "[sandbox: file access denied under workspace-write mode]";

/// What the model is told of the tool that asks the user.
pub const ASK_USER_QUESTION_DESCRIPTION: &'static str =
    "Ask the user clarifying questions when multiple valid approaches exist and the answer changes what you do next. Use only for decisions that are genuinely the user's to make — not for facts you can verify yourself. Each call carries 1–3 questions, each with 2–3 options; mark the recommended default with recommended=true when one exists. The user may also type a supplemental note. Do not use this tool to ask for plan approval or to confirm obvious defaults.";

/// Why a tool call did not run.
#[derive(Debug, PartialEq, Eq)]
pub enum ToolError {
    InvalidArguments(String),
    ExecutionFailed(String),
    Other(String),
    Aborted,
}

// ---------------------------------------------------------------------------
// The approval gate
// ---------------------------------------------------------------------------

/// Shared permission state of one thread: the mode and the interactions that
/// wait for the user.
#[derive(Debug)]
pub struct ApprovalGate {
    pub mode: PermissionMode,
    pub pending: Table<PendingAuthMeta>,
}

impl ApprovalGate {
    pub fn new() -> (r: Self)
        ensures
            r.mode == PermissionMode::WorkspaceWrite,
            r.pending@ == Map::<Seq<char>, PendingAuthMetaView>::empty(),
    {
        ApprovalGate { mode: PermissionMode::WorkspaceWrite, pending: Table::new() }
    }

    pub fn mode(&self) -> (r: PermissionMode)
        ensures
            r == self.mode,
    {
        self.mode
    }

    pub fn set_mode(&mut self, mode: PermissionMode)
        ensures
            final(self).mode == mode,
            final(self).pending == old(self).pending,
    {
        self.mode = mode;
    }

    /// Park a new interaction.
    pub fn register(&mut self, id: String, meta: PendingAuthMeta)
        ensures
            final(self).pending@ == old(self).pending@.insert(id@, meta.deep_view()),
            final(self).mode == old(self).mode,
    {
        self.pending.insert(id, meta);
    }

    /// Drop a pending interaction without answering.
    pub fn discard(&mut self, id: &str)
        ensures
            final(self).pending@ == old(self).pending@.remove(id@),
            final(self).mode == old(self).mode,
    {
        self.pending.remove(id);
    }

    /// Take the user's answer: it is handed on where the interaction is still
    /// pending, and dropped where it is settled.
    pub fn respond(&mut self, id: &str, response: ToolAuthorizationResponse) -> (r: Option<
        ToolAuthorizationResponse,
    >)
        ensures
            r == (if old(self).pending@.contains_key(id@) {
                Some(response)
            } else {
                None
            }),
            final(self).pending@ == old(self).pending@.remove(id@),
            final(self).mode == old(self).mode,
    {
        let known = self.pending.contains_key(id);
        self.pending.remove(id);
        if known {
            Some(response)
        } else {
            None
        }
    }

    /// Snapshot of the pending interactions by id, for showing their cards
    /// again.
    pub fn pending_entries(&self) -> (r: Vec<(String, PendingAuthMeta)>)
        ensures
            r.deep_view() == pending_list(self.pending),
    {
        let mut out: Vec<(String, PendingAuthMeta)> = Vec::new();
        let n: usize = self.pending.len();
        let ghost wanted = pending_list(self.pending);
        for i in 0..n
            invariant
                n == self.pending.keys().len(),
                wanted == pending_list(self.pending),
                out.deep_view() == wanted.take(i as int),
        {
            let ghost before = out.deep_view();
            let entry = (self.pending.key_at(i).to_owned(), self.pending.value_at(i).clone());
            out.push(entry);
            assert(out.deep_view() =~= before.push(wanted[i as int]));
            assert(out.deep_view() =~= wanted.take(i + 1));
        }
        assert(out.deep_view() =~= wanted);
        out
    }
}

/// The pending interactions in the order of their ids.
pub open spec fn pending_list(pending: Table<PendingAuthMeta>) -> Seq<
    (Seq<char>, PendingAuthMetaView),
> {
    Seq::new(pending.keys().len(), |i: int| (pending.keys()[i], pending@[pending.keys()[i]]))
}

/// An answer settles its interaction: a second answer to the same id is
/// ignored, and so is one to an unknown id.
pub proof fn an_answer_is_taken_once(
    pending: Map<Seq<char>, PendingAuthMetaView>,
    id: Seq<char>,
    meta: PendingAuthMetaView,
)
    ensures
        pending.insert(id, meta).contains_key(id),
        !pending.insert(id, meta).remove(id).contains_key(id),
        !pending.contains_key(id) ==> pending.remove(id) == pending,
{
    assert(!pending.contains_key(id) ==> pending.remove(id) =~= pending);
}

// ---------------------------------------------------------------------------
// The verdict on a call
// ---------------------------------------------------------------------------

/// A refused mutation: the marker and the hint that it can be retried with a
/// wider mode.
pub open spec fn denial(marker: Seq<char>, hint: Seq<char>) -> Seq<char> {
    marker + "\n"@ + hint
}

fn fs_denial(marker: &str, hint: &str) -> (r: ToolError)
    ensures
        r matches ToolError::Other(text) && text@ == denial(marker@, hint@),
{
    let mut text = marker.to_owned();
    text.append("\n");
    text.append(hint);
    ToolError::Other(text)
}

/// The host's permission policy around one tool: which exemptions and grants its
/// calls can have.
#[derive(Debug, Clone, Copy, PartialEq, Eq, Structural)]
pub struct ApprovalGatedTool {
    /// Writes to plan files are exempt while planning.
    pub plan_policy: bool,
    /// Calls that the operating system confines are let through.
    pub auto_allow: bool,
    /// A call may ask for a wider permission mode.
    pub escalation: bool,
    /// The roots of the active worktree may be written.
    pub worktree_roots: bool,
}

impl ApprovalGatedTool {
    /// The plain policy: every mutation is decided by the mode alone.
    pub fn new() -> (r: Self)
        ensures
            !r.plan_policy && !r.auto_allow && !r.escalation && !r.worktree_roots,
    {
        ApprovalGatedTool {
            plan_policy: false,
            auto_allow: false,
            escalation: false,
            worktree_roots: false,
        }
    }

    pub fn with_plan_policy(self) -> (r: Self)
        ensures
            r == (ApprovalGatedTool { plan_policy: true, ..self }),
    {
        ApprovalGatedTool { plan_policy: true, ..self }
    }

    pub fn with_auto_allow(self) -> (r: Self)
        ensures
            r == (ApprovalGatedTool { auto_allow: true, ..self }),
    {
        ApprovalGatedTool { auto_allow: true, ..self }
    }

    pub fn with_escalation(self) -> (r: Self)
        ensures
            r == (ApprovalGatedTool { escalation: true, ..self }),
    {
        ApprovalGatedTool { escalation: true, ..self }
    }

    pub fn with_worktree_roots(self) -> (r: Self)
        ensures
            r == (ApprovalGatedTool { worktree_roots: true, ..self }),
    {
        ApprovalGatedTool { worktree_roots: true, ..self }
    }

    /// Whether a call passes the approval gate: mutating calls and those that the
    /// tool itself marks do, unless the policy exempts one that drafts a plan file
    /// or lets one through that the sandbox confines.
    pub fn needs_gate(
        &self,
        drafts_plan: bool,
        confined: bool,
        requires_approval: bool,
        read_only: bool,
    ) -> (r: bool)
        ensures
            r == (!(self.plan_policy && drafts_plan) && !(self.auto_allow && confined) && (
            requires_approval || !read_only)),
    {
        if self.plan_policy && drafts_plan {
            return false;
        }
        if self.auto_allow && confined {
            return false;
        }
        requires_approval || !read_only
    }
}

/// Calls that the operating system confines: every shell command, and a monitor
/// that runs one.
pub open spec fn is_confined(name: Seq<char>, params: JsonView) -> bool {
    ||| name == "Bash"@
    ||| name == "Monitor"@ && (params.str_at("command"@) matches Some(c) && !crate::text::blank(c))
}

/// Whether the approval gate lets a call through because the sandbox confines it.
pub fn confined_auto_allow(name: &str, params: &Json) -> (r: bool)
    ensures
        r == is_confined(name@, params.model()),
{
    if str_eq(name, "Bash") {
        return true;
    }
    if str_eq(name, "Monitor") {
        match params.str_at("command") {
            Some(c) => !crate::text::is_blank(c),
            None => false,
        }
    } else {
        false
    }
}

/// What the mode says of a gated call.
#[derive(Debug, PartialEq, Eq)]
pub enum GateVerdict {
    Run,
    /// The call runs if its targets are inside the workspace.
    CheckWorkspace,
    Deny(ToolError),
}

/// Decide a call by the mode: the standing one, unless the user granted a wider
/// one for this very call.
pub fn gate_verdict(
    gated: bool,
    standing: PermissionMode,
    grant: Option<PermissionMode>,
    hint: &str,
) -> (r: GateVerdict)
    ensures
        ({
            let mode = match grant {
                Some(m) => m,
                None => standing,
            };
            if !gated {
                r is Run
            } else {
                match mode {
                    PermissionMode::DangerFullAccess => r is Run,
                    PermissionMode::WorkspaceWrite => r is CheckWorkspace,
                    PermissionMode::ReadOnly => r matches GateVerdict::Deny(ToolError::Other(text))
                        && text@ == denial(DENY_READ_ONLY@, hint@),
                }
            }
        }),
{
    if !gated {
        return GateVerdict::Run;
    }
    let mode = match grant {
        Some(m) => m,
        None => standing,
    };
    match mode {
        PermissionMode::DangerFullAccess => GateVerdict::Run,
        PermissionMode::WorkspaceWrite => GateVerdict::CheckWorkspace,
        PermissionMode::ReadOnly => GateVerdict::Deny(fs_denial(DENY_READ_ONLY, hint)),
    }
}

/// What a gated call writes to.
#[derive(Debug, PartialEq, Eq)]
pub enum WriteTargets {
    /// Nothing outside the session: the call is admitted.
    SessionScoped,
    /// These files, as paths from the working directory.
    Files(Vec<String>),
    /// Nothing that could be proved.
    Unknown,
}

/// Tools that coordinate the session or the repository.
pub open spec fn is_session_scoped(name: Seq<char>) -> bool {
    name == ENTER_WORKTREE@ || name == EXIT_WORKTREE@ || name == "TaskCreate"@ || name
        == "TaskList"@ || name == "TaskUpdate"@ || name == "TaskGet"@
}

pub open spec fn joined_all(cwd: Seq<char>, paths: Seq<Seq<char>>) -> Seq<Seq<char>> {
    Seq::new(paths.len(), |i: int| joined(cwd, paths[i]))
}

/// The targets of a call: the path of a write, the files of an edit's patch.
/// `None` stands for what cannot be proved, an empty list for a call without
/// targets.
pub open spec fn targets_of(
    name: Seq<char>,
    params: JsonView,
    cwd: Seq<char>,
    patch_files: Option<Seq<Seq<char>>>,
) -> Option<Seq<Seq<char>>> {
    if name == WRITE@ {
        match params.str_at("path"@) {
            Some(path) => Some(seq![joined(cwd, path)]),
            None => None,
        }
    } else if name == EDIT@ {
        match params.str_at("patch"@) {
            Some(_) => match patch_files {
                Some(files) => Some(joined_all(cwd, files)),
                None => None,
            },
            None => None,
        }
    } else if is_session_scoped(name) {
        Some(seq![])
    } else {
        None
    }
}

fn target_path(cwd: &str, path: &str) -> (r: String)
    ensures
        r@ == joined(cwd@, path@),
{
    if is_absolute(path) {
        path.to_owned()
    } else {
        join_path(cwd, path)
    }
}

pub open spec fn targets_view(t: WriteTargets) -> Option<Seq<Seq<char>>> {
    match t {
        WriteTargets::SessionScoped => Some(seq![]),
        WriteTargets::Files(files) => Some(strs(files@)),
        WriteTargets::Unknown => None,
    }
}

/// The targets of a gated call. `patch_files` are the files of the edit's patch,
/// none where it cannot be parsed.
pub fn write_targets(
    name: &str,
    params: &Json,
    cwd: &str,
    patch_files: &Option<Vec<String>>,
) -> (r: WriteTargets)
    ensures
        targets_view(r) == targets_of(name@, params.model(), cwd@, patch_files.deep_view()),
{
    if str_eq(name, WRITE) {
        match params.str_at("path") {
            Some(path) => {
                let mut files: Vec<String> = Vec::new();
                files.push(target_path(cwd, path));
                assert(strs(files@) =~= seq![joined(cwd@, path@)]);
                WriteTargets::Files(files)
            },
            None => WriteTargets::Unknown,
        }
    } else if str_eq(name, EDIT) {
        match params.str_at("patch") {
            Some(_) => match patch_files {
                Some(paths) => {
                    let ghost given = paths.deep_view();
                    let mut files: Vec<String> = Vec::new();
                    for i in 0..paths.len()
                        invariant
                            given == paths.deep_view(),
                            strs(files@) == joined_all(cwd@, given).take(i as int),
                    {
                        let ghost before = strs(files@);
                        files.push(target_path(cwd, paths[i].as_str()));
                        assert(strs(files@) =~= before.push(joined(cwd@, given[i as int])));
                        assert(strs(files@) =~= joined_all(cwd@, given).take(i + 1));
                    }
                    assert(strs(files@) =~= joined_all(cwd@, given));
                    WriteTargets::Files(files)
                },
                None => WriteTargets::Unknown,
            },
            None => WriteTargets::Unknown,
        }
    } else if str_eq(name, ENTER_WORKTREE) || str_eq(name, EXIT_WORKTREE) || str_eq(
        name,
        "TaskCreate",
    ) || str_eq(name, "TaskList") || str_eq(name, "TaskUpdate") || str_eq(name, "TaskGet") {
        WriteTargets::SessionScoped
    } else {
        WriteTargets::Unknown
    }
}

/// Whether every target lies under a writable root.
pub open spec fn all_contained(canon: Seq<CleanPathView>, roots: Seq<CleanPathView>) -> bool {
    forall|i: int| 0 <= i < canon.len() ==> under_any(#[trigger] canon[i], roots)
}

/// The verdict on a gated call in workspace-write mode, by the canonical forms
/// of its targets: admitted where each lies under a writable root. A call that
/// cannot be classified is denied.
pub fn workspace_write_verdict(
    targets: &WriteTargets,
    canon: &Vec<CleanPath>,
    roots: &Vec<CleanPath>,
    hint: &str,
) -> (r: Result<(), ToolError>)
    requires
        targets matches WriteTargets::Files(files) ==> files@.len() == canon@.len(),
    ensures
        match *targets {
            WriteTargets::SessionScoped => r is Ok,
            WriteTargets::Unknown => r is Err,
            WriteTargets::Files(_) => r is Ok <==> all_contained(
                canon.deep_view(),
                roots.deep_view(),
            ),
        },
        r matches Err(e) ==> (e matches ToolError::Other(text) && text@ == denial(
            DENY_OUT_OF_WORKSPACE@,
            hint@,
        )),
{
    match targets {
        WriteTargets::SessionScoped => Ok(()),
        WriteTargets::Unknown => Err(fs_denial(DENY_OUT_OF_WORKSPACE, hint)),
        WriteTargets::Files(_) => {
            for i in 0..canon.len()
                invariant
                    targets is Files,
                    forall|k: int|
                        0 <= k < i ==> under_any(
                            #[trigger] canon.deep_view()[k],
                            roots.deep_view(),
                        ),
            {
                if !is_under_any(&canon[i], roots) {
                    assert(!under_any(canon.deep_view()[i as int], roots.deep_view()));
                    return Err(fs_denial(DENY_OUT_OF_WORKSPACE, hint));
                }
            }
            Ok(())
        },
    }
}

/// What is known of a call before it runs.
#[derive(Debug)]
pub struct GatedCall {
    /// Whether it drafts a plan file while planning.
    pub drafts_plan: bool,
    /// Whether the sandbox confines it.
    pub confined: bool,
    pub requires_approval: bool,
    pub read_only: bool,
    /// The mode of the session.
    pub standing: PermissionMode,
    pub targets: WriteTargets,
    /// Where the target files are, with links resolved.
    pub canon: Vec<CleanPath>,
    /// The directories that may be written.
    pub roots: Vec<CleanPath>,
    /// The directories that the active worktree adds.
    pub worktree: Vec<CleanPath>,
}

impl GatedCall {
    /// Every target file is resolved.
    pub open spec fn wf(self) -> bool {
        self.targets matches WriteTargets::Files(files) ==> files@.len() == self.canon@.len()
    }

    pub open spec fn gated(self, tool: ApprovalGatedTool) -> bool {
        !(tool.plan_policy && self.drafts_plan) && !(tool.auto_allow && self.confined) && (
        self.requires_approval || !self.read_only)
    }

    /// The mode that decides: a grant for this call, else that of the session.
    pub open spec fn mode(self, grant: Option<PermissionMode>) -> PermissionMode {
        match grant {
            Some(m) => m,
            None => self.standing,
        }
    }

    /// The directories that the call may write under.
    pub open spec fn writable(self, tool: ApprovalGatedTool) -> Seq<CleanPathView> {
        if tool.worktree_roots {
            self.roots.deep_view() + self.worktree.deep_view()
        } else {
            self.roots.deep_view()
        }
    }

    /// Whether what the call writes lies inside the workspace.
    pub open spec fn stays_inside(self, tool: ApprovalGatedTool) -> bool {
        match self.targets {
            WriteTargets::SessionScoped => true,
            WriteTargets::Unknown => false,
            WriteTargets::Files(_) => all_contained(self.canon.deep_view(), self.writable(tool)),
        }
    }

    /// Whether the call runs.
    pub open spec fn runs(self, tool: ApprovalGatedTool, grant: Option<PermissionMode>) -> bool {
        !self.gated(tool) || match self.mode(grant) {
            PermissionMode::DangerFullAccess => true,
            PermissionMode::WorkspaceWrite => self.stays_inside(tool),
            PermissionMode::ReadOnly => false,
        }
    }
}

impl ApprovalGatedTool {
    fn writable_roots(&self, call: &GatedCall) -> (r: Vec<CleanPath>)
        ensures
            r.deep_view() == call.writable(*self),
    {
        let mut roots: Vec<CleanPath> = Vec::new();
        for i in 0..call.roots.len()
            invariant
                roots.deep_view() == call.roots.deep_view().take(i as int),
        {
            let ghost before = roots.deep_view();
            roots.push(call.roots[i].clone());
            assert(roots.deep_view() =~= before.push(call.roots.deep_view()[i as int]));
            assert(roots.deep_view() =~= call.roots.deep_view().take(i + 1));
        }
        assert(roots.deep_view() =~= call.roots.deep_view());
        if self.worktree_roots {
            let ghost start = roots.deep_view();
            assert(start + call.worktree.deep_view().take(0) =~= start);
            for i in 0..call.worktree.len()
                invariant
                    roots.deep_view() == start + call.worktree.deep_view().take(i as int),
            {
                let ghost before = roots.deep_view();
                roots.push(call.worktree[i].clone());
                assert(roots.deep_view() =~= before.push(call.worktree.deep_view()[i as int]));
                assert(roots.deep_view() =~= start + call.worktree.deep_view().take(i + 1));
            }
            assert(roots.deep_view() =~= start + call.worktree.deep_view());
        }
        roots
    }

    /// Decides a call: one that the approval gate does not concern runs, any other
    /// by the mode, and in workspace-write mode by what it writes to. `grant` is the
    /// mode that the user granted for this very call.
    pub fn run_gated(
        &self,
        call: &GatedCall,
        grant: Option<PermissionMode>,
        hint: &str,
    ) -> (r: Result<(), ToolError>)
        requires
            call.wf(),
        ensures
            r is Ok <==> call.runs(*self, grant),
            r matches Err(e) ==> (e matches ToolError::Other(text) && text@ == denial(
                if call.mode(grant) == PermissionMode::ReadOnly {
                    DENY_READ_ONLY@
                } else {
                    DENY_OUT_OF_WORKSPACE@
                },
                hint@,
            )),
    {
        let gated = self.needs_gate(
            call.drafts_plan,
            call.confined,
            call.requires_approval,
            call.read_only,
        );
        match gate_verdict(gated, call.standing, grant, hint) {
            GateVerdict::Run => Ok(()),
            GateVerdict::CheckWorkspace => {
                let roots = self.writable_roots(call);
                workspace_write_verdict(&call.targets, &call.canon, &roots, hint)
            },
            GateVerdict::Deny(e) => Err(e),
        }
    }
}

/// In read-only mode no call that the approval gate concerns runs, unless the user
/// granted a wider mode for it.
pub proof fn read_only_mode_runs_no_mutation(tool: ApprovalGatedTool, call: GatedCall)
    requires
        call.gated(tool),
        call.standing == PermissionMode::ReadOnly,
    ensures
        !call.runs(tool, None),
        !call.runs(tool, Some(PermissionMode::ReadOnly)),
{
}

/// In workspace-write mode a write that runs stays under the writable roots, and a
/// call whose targets are unknown does not run.
pub proof fn workspace_writes_stay_inside(
    tool: ApprovalGatedTool,
    call: GatedCall,
    grant: Option<PermissionMode>,
)
    requires
        call.gated(tool),
        call.mode(grant) == PermissionMode::WorkspaceWrite,
        call.runs(tool, grant),
    ensures
        call.targets !is Unknown,
        call.targets is Files ==> forall|i: int|
            0 <= i < call.canon@.len() ==> under_any(
                (#[trigger] call.canon@[i]).deep_view(),
                call.writable(tool),
            ),
{
    if call.targets is Files {
        assert forall|i: int| 0 <= i < call.canon@.len() implies under_any(
            (#[trigger] call.canon@[i]).deep_view(),
            call.writable(tool),
        ) by {
            assert(call.canon.deep_view()[i] == call.canon@[i].deep_view());
        }
    }
}

// ---------------------------------------------------------------------------
// Wider modes
// ---------------------------------------------------------------------------

/// A request for a wider mode, for one call.
#[derive(Debug, PartialEq, Eq)]
pub struct EscalationRequest {
    pub requested_mode: PermissionMode,
    pub justification: String,
    pub effective_mode: PermissionMode,
    pub tool_name: String,
    pub call_id: String,
}

/// What a call asks for.
#[derive(Debug, PartialEq, Eq)]
pub enum EscalationStep {
    /// No wider mode.
    NotRequested,
    Refuse(ToolError),
    Ask(EscalationRequest),
}

pub open spec fn mode_of_wire(s: Seq<char>) -> Option<PermissionMode> {
    if s == "read-only"@ {
        Some(PermissionMode::ReadOnly)
    } else if s == "workspace-write"@ {
        Some(PermissionMode::WorkspaceWrite)
    } else if s == "danger-full-access"@ {
        Some(PermissionMode::DangerFullAccess)
    } else {
        None
    }
}

pub fn mode_from_wire(s: &str) -> (r: Option<PermissionMode>)
    ensures
        r == mode_of_wire(s@),
{
    if str_eq(s, "read-only") {
        Some(PermissionMode::ReadOnly)
    } else if str_eq(s, "workspace-write") {
        Some(PermissionMode::WorkspaceWrite)
    } else if str_eq(s, "danger-full-access") {
        Some(PermissionMode::DangerFullAccess)
    } else {
        None
    }
}

/// The names of the modes that a call may ask for, separated by commas.
pub open spec fn mode_names(modes: Seq<PermissionMode>) -> Seq<Seq<char>> {
    Seq::new(modes.len(), |i: int| modes[i].wire())
}

fn wire_names(modes: &Vec<PermissionMode>) -> (r: Vec<String>)
    ensures
        strs(r@) == mode_names(modes@),
{
    let mut out: Vec<String> = Vec::new();
    for i in 0..modes.len()
        invariant
            strs(out@) == mode_names(modes@).take(i as int),
    {
        let ghost before = strs(out@);
        out.push(modes[i].wire_value().to_owned());
        assert(strs(out@) =~= before.push(mode_names(modes@)[i as int]));
        assert(strs(out@) =~= mode_names(modes@).take(i + 1));
    }
    assert(strs(out@) =~= mode_names(modes@));
    out
}

impl ApprovalGatedTool {
    /// What the escalation fields of a call ask for. `pairing` is the verdict on the
    /// two fields together, `targets` are the modes that may be asked for.
    pub fn resolve_escalation(
        &self,
        pairing: Result<(), String>,
        params: &Json,
        targets: &Vec<PermissionMode>,
        standing: PermissionMode,
        tool_name: &str,
        call_id: &str,
    ) -> (r: EscalationStep)
        ensures
            match pairing {
                Err(why) => r == EscalationStep::Refuse(ToolError::InvalidArguments(why)),
                Ok(_) => match params.model().str_at("sandbox_permissions"@) {
                    None => r is NotRequested,
                    Some(requested) => if !self.escalation {
                        r matches EscalationStep::Refuse(ToolError::Other(text)) && text@
                            == "sandbox escalation requires approval, but no approval service is composed"@
                    } else {
                        match mode_of_wire(requested) {
                            None => r matches EscalationStep::Refuse(ToolError::InvalidArguments(text))
                                && text@ == "sandbox_permissions must be one of: "@ + crate::text::join(
                                mode_names(targets@),
                                ", "@,
                            ),
                            Some(mode) => r matches EscalationStep::Ask(req) && req.requested_mode
                                == mode && req.justification@ == crate::text::or_empty(
                                params.model().str_at("justification"@),
                            ) && req.effective_mode == standing && req.tool_name@ == tool_name@
                                && req.call_id@ == call_id@,
                        }
                    },
                },
            },
    {
        match pairing {
            Err(why) => EscalationStep::Refuse(ToolError::InvalidArguments(why)),
            Ok(_) => match params.str_at("sandbox_permissions") {
                None => EscalationStep::NotRequested,
                Some(requested) => {
                    if !self.escalation {
                        return EscalationStep::Refuse(
                            ToolError::Other(
                                "sandbox escalation requires approval, but no approval service is composed".to_owned(),
                            ),
                        );
                    }
                    match mode_from_wire(requested) {
                        None => {
                            let mut text = "sandbox_permissions must be one of: ".to_owned();
                            let names = crate::text::join_strings(&wire_names(targets), ", ");
                            text.append(names.as_str());
                            EscalationStep::Refuse(ToolError::InvalidArguments(text))
                        },
                        Some(mode) => EscalationStep::Ask(
                            EscalationRequest {
                                requested_mode: mode,
                                justification: crate::text::str_or_empty(
                                    params.str_at("justification"),
                                ),
                                effective_mode: standing,
                                tool_name: tool_name.to_owned(),
                                call_id: call_id.to_owned(),
                            },
                        ),
                    }
                },
            },
        }
    }
}

/// How a request for a wider mode ended.
#[derive(Debug, Clone, Copy, PartialEq, Eq, Structural)]
pub enum EscalationOutcome {
    AllowedOnce,
    Rejected,
    Cancelled,
}

pub open spec fn escalation_summary(mode: PermissionMode, justification: Seq<char>) -> Seq<char> {
    "escalate sandbox to "@ + mode.wire() + ": "@ + justification
}

pub open spec fn escalation_input(mode: PermissionMode, justification: Seq<char>) -> JsonView {
    JsonView::Object(
        seq![
            ("sandbox_permissions"@, JsonView::Str(mode.wire())),
            ("justification"@, JsonView::Str(justification)),
        ],
    )
}

fn escalation_json(mode: PermissionMode, justification: &str) -> (r: Json)
    ensures
        r.model() == escalation_input(mode, justification@),
{
    let mut es: Vec<(String, Json)> = Vec::new();
    es.push(("sandbox_permissions".to_owned(), jstr(mode.wire_value())));
    es.push(("justification".to_owned(), jstr(justification)));
    assert(entry_models(es@) =~= escalation_input(mode, justification@)->Object_0);
    jobj(es)
}

/// Park a request for a wider mode on the user: the approval gate remembers it, and the
/// event shows the card.
pub fn request_escalation(gate: &mut ApprovalGate, req: &EscalationRequest) -> (r: ThreadEvent)
    ensures
        final(gate).pending@ == old(gate).pending@.insert(
            req.call_id@,
            PendingAuthMetaView {
                tool_name: req.tool_name@,
                summary: escalation_summary(req.requested_mode, req.justification@),
                input: escalation_input(req.requested_mode, req.justification@),
            },
        ),
        final(gate).mode == old(gate).mode,
        r.deep_view() == (ThreadEventView::ToolCallAuthorization {
            id: req.call_id@,
            tool_name: req.tool_name@,
            summary: escalation_summary(req.requested_mode, req.justification@),
            input: escalation_input(req.requested_mode, req.justification@),
        }),
{
    let mut summary = "escalate sandbox to ".to_owned();
    summary.append(req.requested_mode.wire_value());
    summary.append(": ");
    summary.append(req.justification.as_str());
    let meta = PendingAuthMeta {
        tool_name: req.tool_name.clone(),
        summary: summary.clone(),
        input: escalation_json(req.requested_mode, req.justification.as_str()),
    };
    gate.register(req.call_id.clone(), meta);
    ThreadEvent::ToolCallAuthorization {
        id: req.call_id.clone(),
        tool_name: req.tool_name.clone(),
        summary,
        input: escalation_json(req.requested_mode, req.justification.as_str()),
    }
}

/// What ended the wait for the user.
#[derive(Debug)]
pub enum Answer {
    Response(ToolAuthorizationResponse),
    /// The approval gate went away without an answer.
    Dropped,
    /// The turn was cancelled.
    Cancelled,
}

/// Settle a request for a wider mode: only an explicit allow grants it.
pub fn settle_escalation(gate: &mut ApprovalGate, call_id: &str, answer: Answer) -> (r: EscalationOutcome)
    ensures
        final(gate).pending@ == old(gate).pending@.remove(call_id@),
        final(gate).mode == old(gate).mode,
        r == (match answer {
            Answer::Cancelled => EscalationOutcome::Cancelled,
            Answer::Response(
                ToolAuthorizationResponse::Decision(PermissionDecision::AllowOnce),
            ) => EscalationOutcome::AllowedOnce,
            _ => EscalationOutcome::Rejected,
        }),
{
    gate.discard(call_id);
    match answer {
        Answer::Cancelled => EscalationOutcome::Cancelled,
        Answer::Response(
            ToolAuthorizationResponse::Decision(PermissionDecision::AllowOnce),
        ) => EscalationOutcome::AllowedOnce,
        _ => EscalationOutcome::Rejected,
    }
}

pub open spec fn permissions_field(targets: Seq<PermissionMode>) -> JsonView {
    JsonView::Object(
        seq![
            ("type"@, JsonView::Str("string"@)),
            ("enum"@, JsonView::Array(str_models(mode_names(targets)))),
            (
                "description"@,
                JsonView::Str(
                    "The wider sandbox mode this file operation needs. Only valid as a one-shot retry of an operation the sandbox just denied; requires justification and user approval."@,
                ),
            ),
        ],
    )
}

pub open spec fn justification_field() -> JsonView {
    typed(
        "string"@,
        "Required with sandbox_permissions: one sentence for the user explaining why this exact file operation needs the wider access."@,
    )
}

/// The schema with the escalation fields among its properties.
pub open spec fn with_escalation_fields(schema: JsonView, targets: Seq<PermissionMode>) -> JsonView {
    match schema {
        JsonView::Object(es) => match lookup(es, "properties"@) {
            Some(JsonView::Object(props)) => JsonView::Object(
                with_member(
                    es,
                    "properties"@,
                    JsonView::Object(
                        with_member(
                            with_member(props, "sandbox_permissions"@, permissions_field(targets)),
                            "justification"@,
                            justification_field(),
                        ),
                    ),
                ),
            ),
            _ => schema,
        },
        _ => schema,
    }
}

fn permissions_json(targets: &Vec<PermissionMode>) -> (r: Json)
    ensures
        r.model() == permissions_field(targets@),
{
    let names = wire_names(targets);
    let mut list: Vec<Json> = Vec::new();
    let ghost wanted = str_models(mode_names(targets@));
    for i in 0..names.len()
        invariant
            strs(names@) == mode_names(targets@),
            wanted == str_models(mode_names(targets@)),
            models(list@) == wanted.take(i as int),
    {
        let ghost before = models(list@);
        assert(strs(names@)[i as int] == names@[i as int]@);
        list.push(jstr(names[i].as_str()));
        assert(models(list@) =~= before.push(wanted[i as int]));
        assert(models(list@) =~= wanted.take(i + 1));
    }
    assert(models(list@) =~= wanted);
    let mut es: Vec<(String, Json)> = Vec::new();
    es.push(("type".to_owned(), jstr("string")));
    es.push(("enum".to_owned(), jarr(list)));
    es.push(
        (
            "description".to_owned(),
            jstr(
                "The wider sandbox mode this file operation needs. Only valid as a one-shot retry of an operation the sandbox just denied; requires justification and user approval.",
            ),
        ),
    );
    assert(entry_models(es@) =~= permissions_field(targets@)->Object_0);
    jobj(es)
}

impl ApprovalGatedTool {
    /// The schema of the tool, with the escalation fields where a request for a wider
    /// mode has someone to answer it.
    pub fn parameters_schema(&self, schema: Json, targets: &Vec<PermissionMode>) -> (r: Json)
        ensures
            r.model() == (if self.escalation {
                with_escalation_fields(schema.model(), targets@)
            } else {
                schema.model()
            }),
    {
        if !self.escalation {
            return schema;
        }
        let props = match schema.get("properties") {
            Some(Json::Object(props)) => {
                proof {
                    lemma_model_of_object(*props);
                }
                Some(clone_entries(props))
            },
            _ => None,
        };
        match schema {
            Json::Object(es) => {
                proof {
                    lemma_model_of_object(es);
                }
                match props {
                    Some(props) => {
                        let mut props = props;
                        let mut es = es;
                        set_member(&mut props, "sandbox_permissions", permissions_json(targets));
                        set_member(
                            &mut props,
                            "justification",
                            typed_schema(
                                "string",
                                "Required with sandbox_permissions: one sentence for the user explaining why this exact file operation needs the wider access.",
                            ),
                        );
                        set_member(&mut es, "properties", jobj(props));
                        jobj(es)
                    },
                    None => Json::Object(es),
                }
            },
            other => other,
        }
    }
}

// ---------------------------------------------------------------------------
// Questions to the user
// ---------------------------------------------------------------------------

/// What is wrong with question `i` (counted from zero), if anything.
pub open spec fn question_problem(q: JsonView, i: nat) -> Option<Seq<char>> {
    match q.get("options"@) {
        Some(JsonView::Array(options)) => if 2 <= options.len() <= 3 {
            None
        } else {
            Some(
                "AskUserQuestion question "@ + dec(i + 1) + " requires 2-3 options, got "@ + dec(
                    options.len(),
                ),
            )
        },
        _ => Some("AskUserQuestion question "@ + dec(i + 1) + " requires `options`"@),
    }
}

/// What is wrong with the first faulty question at or behind `i`.
pub open spec fn questions_problem(qs: Seq<JsonView>, i: nat) -> Option<Seq<char>>
    decreases qs.len() - i,
{
    if i >= qs.len() {
        None
    } else {
        match question_problem(qs[i as int], i) {
            Some(p) => Some(p),
            None => questions_problem(qs, i + 1),
        }
    }
}

/// What is wrong with a call of the question tool, if anything.
pub open spec fn ask_problem(input: JsonView) -> Option<Seq<char>> {
    match input.get("questions"@) {
        Some(JsonView::Array(qs)) => if 1 <= qs.len() <= 3 {
            questions_problem(qs, 0)
        } else {
            Some("AskUserQuestion requires 1-3 questions, got "@ + dec(qs.len()))
        },
        _ => Some("AskUserQuestion requires a `questions` array"@),
    }
}

/// Whether a call asks one to three questions with two or three options each.
pub fn validate_ask_input(input: &Json) -> (r: Result<(), String>)
    ensures
        match r {
            Ok(_) => ask_problem(input.model()) is None,
            Err(e) => ask_problem(input.model()) == Some(e@),
        },
{
    let questions = match input.get("questions") {
        Some(v) => v.as_array(),
        None => None,
    };
    match questions {
        None => Err("AskUserQuestion requires a `questions` array".to_owned()),
        Some(qs) => {
            let ghost all = models(qs@);
            if qs.len() < 1 || qs.len() > 3 {
                let mut e = "AskUserQuestion requires 1-3 questions, got ".to_owned();
                push_dec(&mut e, qs.len() as u64);
                return Err(e);
            }
            for i in 0..qs.len()
                invariant
                    all == models(qs@),
                    1 <= qs@.len() <= 3,
                    input.model().get("questions"@) == Some(JsonView::Array(all)),
                    questions_problem(all, 0) == questions_problem(all, i as nat),
            {
                assert(all[i as int] == qs@[i as int].model());
                let options = match qs[i].get("options") {
                    Some(v) => v.as_array(),
                    None => None,
                };
                match options {
                    None => {
                        let mut e = "AskUserQuestion question ".to_owned();
                        push_dec(&mut e, i as u64 + 1);
                        e.append(" requires `options`");
                        return Err(e);
                    },
                    Some(options) => {
                        if options.len() < 2 || options.len() > 3 {
                            let mut e = "AskUserQuestion question ".to_owned();
                            push_dec(&mut e, i as u64 + 1);
                            e.append(" requires 2-3 options, got ");
                            push_dec(&mut e, options.len() as u64);
                            return Err(e);
                        }
                    },
                }
            }
            Ok(())
        },
    }
}

/// Put the question card up: the approval gate remembers the call, and the events show
/// it.
pub fn park_question(gate: &mut ApprovalGate, call_id: &str, title: &str, params: &Json) -> (r: (
    ThreadEvent,
    ThreadEvent,
))
    ensures
        final(gate).pending@ == old(gate).pending@.insert(
            call_id@,
            PendingAuthMetaView {
                tool_name: ASK_USER_QUESTION@,
                summary: title@,
                input: params.model(),
            },
        ),
        final(gate).mode == old(gate).mode,
        r.0.deep_view() == (ThreadEventView::ToolCall {
            id: call_id@,
            name: ASK_USER_QUESTION@,
            title: title@,
            status: ToolCallStatus::PendingApproval,
            input: Some(params.model()),
        }),
        r.1.deep_view() == (ThreadEventView::ToolCallAuthorization {
            id: call_id@,
            tool_name: ASK_USER_QUESTION@,
            summary: title@,
            input: params.model(),
        }),
{
    let meta = PendingAuthMeta {
        tool_name: ASK_USER_QUESTION.to_owned(),
        summary: title.to_owned(),
        input: params.clone(),
    };
    gate.register(call_id.to_owned(), meta);
    (
        ThreadEvent::ToolCall {
            id: call_id.to_owned(),
            name: ASK_USER_QUESTION.to_owned(),
            title: title.to_owned(),
            status: ToolCallStatus::PendingApproval,
            input: Some(params.clone()),
        },
        ThreadEvent::ToolCallAuthorization {
            id: call_id.to_owned(),
            tool_name: ASK_USER_QUESTION.to_owned(),
            summary: title.to_owned(),
            input: params.clone(),
        },
    )
}

/// What the model gets back from a question.
#[derive(Debug)]
pub enum AskOutcome {
    Answers { answers: Vec<(String, String)>, response: Option<String> },
    /// The question never reached the user, or was dismissed.
    Denied,
}

/// Settle a question: answers are handed on, any bare decision is a denial.
pub fn settle_question(gate: &mut ApprovalGate, call_id: &str, answer: Answer) -> (r: AskOutcome)
    ensures
        final(gate).pending@ == old(gate).pending@.remove(call_id@),
        final(gate).mode == old(gate).mode,
        match answer {
            Answer::Response(ToolAuthorizationResponse::AskUserQuestion { answers, response }) => r
                == (AskOutcome::Answers { answers, response }),
            _ => r is Denied,
        },
{
    gate.discard(call_id);
    match answer {
        Answer::Response(ToolAuthorizationResponse::AskUserQuestion { answers, response }) => {
            AskOutcome::Answers { answers, response }
        },
        _ => AskOutcome::Denied,
    }
}

pub open spec fn option_schema() -> JsonView {
    object_of(
        seq![
            ("label"@, typed("string"@, "Concise label for the choice (1–5 words)."@)),
            (
                "description"@,
                typed("string"@, "Explanation of what the choice means or implies."@),
            ),
            (
                "recommended"@,
                typed("boolean"@, "Whether this option is the recommended default."@),
            ),
        ],
        seq!["label"@, "description"@],
    )
}

pub open spec fn question_schema() -> JsonView {
    object_of(
        seq![
            ("question"@, typed("string"@, "The full question text to display."@)),
            (
                "header"@,
                typed("string"@, "Short label for the question (max 12 characters)."@),
            ),
            (
                "options"@,
                array_of("2–3 choices for the user to select from."@, 2, 3, option_schema()),
            ),
            (
                "multiSelect"@,
                typed(
                    "boolean"@,
                    "When true, the user may select multiple options; otherwise exactly one."@,
                ),
            ),
        ],
        seq!["question"@, "header"@, "options"@, "multiSelect"@],
    )
}

pub open spec fn ask_schema() -> JsonView {
    object_of(
        seq![
            (
                "questions"@,
                array_of(
                    "1–3 questions to ask the user. Each becomes one step in the question drawer."@,
                    1,
                    3,
                    question_schema(),
                ),
            ),
        ],
        seq!["questions"@],
    )
}

fn option_schema_json() -> (r: Json)
    ensures
        r.model() == option_schema(),
{
    let mut props: Vec<(String, Json)> = Vec::new();
    props.push(
        ("label".to_owned(), typed_schema("string", "Concise label for the choice (1–5 words).")),
    );
    props.push(
        (
            "description".to_owned(),
            typed_schema("string", "Explanation of what the choice means or implies."),
        ),
    );
    props.push(
        (
            "recommended".to_owned(),
            typed_schema("boolean", "Whether this option is the recommended default."),
        ),
    );
    let required = ["label", "description"];
    assert(str_refs(required@) =~= seq!["label"@, "description"@]);
    assert(entry_models(props@) =~= option_schema()->Object_0[1].1->Object_0);
    object_schema(props, &required)
}

fn question_schema_json() -> (r: Json)
    ensures
        r.model() == question_schema(),
{
    let mut props: Vec<(String, Json)> = Vec::new();
    props.push(
        ("question".to_owned(), typed_schema("string", "The full question text to display.")),
    );
    props.push(
        (
            "header".to_owned(),
            typed_schema("string", "Short label for the question (max 12 characters)."),
        ),
    );
    props.push(
        (
            "options".to_owned(),
            array_schema("2–3 choices for the user to select from.", 2, 3, option_schema_json()),
        ),
    );
    props.push(
        (
            "multiSelect".to_owned(),
            typed_schema(
                "boolean",
                "When true, the user may select multiple options; otherwise exactly one.",
            ),
        ),
    );
    let required = ["question", "header", "options", "multiSelect"];
    assert(str_refs(required@) =~= seq!["question"@, "header"@, "options"@, "multiSelect"@]);
    assert(entry_models(props@) =~= question_schema()->Object_0[1].1->Object_0);
    object_schema(props, &required)
}

/// The input schema of the question tool.
pub fn ask_user_question_schema() -> (r: Json)
    ensures
        r.model() == ask_schema(),
{
    let mut props: Vec<(String, Json)> = Vec::new();
    props.push(
        (
            "questions".to_owned(),
            array_schema(
                "1–3 questions to ask the user. Each becomes one step in the question drawer.",
                1,
                3,
                question_schema_json(),
            ),
        ),
    );
    let required = ["questions"];
    assert(str_refs(required@) =~= seq!["questions"@]);
    assert(entry_models(props@) =~= ask_schema()->Object_0[1].1->Object_0);
    object_schema(props, &required)
}

/// The tool that asks the user. Asking is itself the interaction, so its calls run
/// ungated.
#[derive(Debug, Clone, Copy, PartialEq, Eq, Structural)]
pub struct PiAskUserQuestionTool;

impl PiAskUserQuestionTool {
    pub fn name(&self) -> (r: &'static str)
        ensures
            r@ == ASK_USER_QUESTION@,
    {
        ASK_USER_QUESTION
    }

    pub fn description(&self) -> (r: &'static str)
        ensures
            r@ == ASK_USER_QUESTION_DESCRIPTION@,
    {
        ASK_USER_QUESTION_DESCRIPTION
    }

    pub fn parameters_schema(&self) -> (r: Json)
        ensures
            r.model() == ask_schema(),
    {
        ask_user_question_schema()
    }

    pub fn is_read_only(&self) -> (r: bool)
        ensures
            r,
    {
        true
    }
}

// ---------------------------------------------------------------------------
// What gating is for
// ---------------------------------------------------------------------------

/// Every file of an edit's patch is among its targets, in order and nothing else: an
/// absolute path as it is, any other one below the working directory. A patch that
/// cannot be parsed, or that is missing, leaves the targets unknown.
pub proof fn every_file_of_a_patch_is_a_target(
    params: JsonView,
    cwd: Seq<char>,
    files: Seq<Seq<char>>,
)
    ensures
        params.str_at("patch"@) is Some ==> {
            &&& targets_of("Edit"@, params, cwd, Some(files)) matches Some(targets)
            &&& targets.len() == files.len()
            &&& forall|i: int|
                #![trigger targets[i]]
                #![trigger files[i]]
                0 <= i < files.len() ==> {
                    &&& files[i].len() > 0 && files[i][0] == '/' ==> targets[i] == files[i]
                    &&& !(files[i].len() > 0 && files[i][0] == '/') ==> cwd.is_prefix_of(
                        targets[i],
                    ) && files[i].is_suffix_of(targets[i])
                    &&& !(files[i].len() > 0 && files[i][0] == '/') && cwd.len() > 0 && cwd.last()
                        != '/' ==> targets[i] == cwd + seq!['/'] + files[i]
                    &&& !(files[i].len() > 0 && files[i][0] == '/') && (cwd.len() == 0
                        || cwd.last() == '/') ==> targets[i] == cwd + files[i]
                }
        },
        params.str_at("patch"@) is None ==> targets_of("Edit"@, params, cwd, Some(files)) is None,
        targets_of("Edit"@, params, cwd, None) is None,
{
    reveal_strlit("/");
    reveal_strlit("Edit");
    reveal_strlit("Write");
    assert("Edit"@.len() != "Write"@.len());
    assert("/"@ =~= seq!['/']);
    assert forall|i: int| 0 <= i < files.len() && !(files[i].len() > 0 && files[i][0] == '/')
        implies (cwd.is_prefix_of(#[trigger] joined(cwd, files[i])) && files[i].is_suffix_of(
        joined(cwd, files[i]),
    )) by {
        assert(files[i] =~= joined(cwd, files[i]).subrange(
            joined(cwd, files[i]).len() - files[i].len(),
            joined(cwd, files[i]).len() as int,
        ));
        assert(cwd =~= joined(cwd, files[i]).subrange(0, cwd.len() as int));
    }
}

/// A write has one target, its path; without a path the target is unknown.
pub proof fn the_path_of_a_write_is_its_target(
    params: JsonView,
    cwd: Seq<char>,
    patch_files: Option<Seq<Seq<char>>>,
)
    ensures
        match params.str_at("path"@) {
            Some(path) => {
                &&& targets_of("Write"@, params, cwd, patch_files) matches Some(targets)
                &&& targets.len() == 1
                &&& path.len() > 0 && path[0] == '/' ==> targets[0] == path
                &&& !(path.len() > 0 && path[0] == '/') && cwd.len() > 0 && cwd.last() != '/' ==> targets[0]
                    == cwd + seq!['/'] + path
                &&& !(path.len() > 0 && path[0] == '/') && (cwd.len() == 0 || cwd.last() == '/') ==> targets[0]
                    == cwd + path
            },
            None => targets_of("Write"@, params, cwd, patch_files) is None,
        },
{
    reveal_strlit("/");
    assert("/"@ =~= seq!['/']);
}

/// A call of any tool but the two that write files either touches the session alone,
/// and has no target, or has targets that are unknown.
pub proof fn other_tools_have_no_known_targets(
    name: Seq<char>,
    params: JsonView,
    cwd: Seq<char>,
    patch_files: Option<Seq<Seq<char>>>,
)
    requires
        name != "Write"@,
        name != "Edit"@,
    ensures
        targets_of(name, params, cwd, patch_files) == (if name == "EnterWorktree"@ || name
            == "ExitWorktree"@ || name == "TaskCreate"@ || name == "TaskList"@ || name
            == "TaskUpdate"@ || name == "TaskGet"@ {
            Some(Seq::<Seq<char>>::empty())
        } else {
            None
        }),
{
}

/// An edit that runs in workspace-write mode has every file of its patch under a
/// directory that may be written: there is a resolved place for each file, and it is
/// the directory itself or something below it.
pub proof fn an_edit_that_runs_stays_under_the_writable_roots(
    tool: ApprovalGatedTool,
    call: GatedCall,
    params: JsonView,
    cwd: Seq<char>,
    files: Seq<Seq<char>>,
    i: int,
)
    requires
        call.wf(),
        !call.read_only,
        !tool.plan_policy,
        !tool.auto_allow,
        call.standing == PermissionMode::WorkspaceWrite,
        params.str_at("patch"@) is Some,
        targets_view(call.targets) == targets_of("Edit"@, params, cwd, Some(files)),
        call.runs(tool, None),
        0 <= i < files.len(),
    ensures
        call.targets matches WriteTargets::Files(given) && given@.len() == files.len(),
        call.canon@.len() == files.len(),
        (exists|j: int|
            0 <= j < call.roots@.len() && {
                let root = #[trigger] call.roots@[j];
                let place = call.canon@[i];
                &&& root.absolute == place.absolute
                &&& root.names@.len() <= place.names@.len()
                &&& forall|k: int|
                    0 <= k < root.names@.len() ==> #[trigger] root.names@[k]@ == place.names@[k]@
            }) || (tool.worktree_roots && exists|j: int|
            0 <= j < call.worktree@.len() && {
                let root = #[trigger] call.worktree@[j];
                let place = call.canon@[i];
                &&& root.absolute == place.absolute
                &&& root.names@.len() <= place.names@.len()
                &&& forall|k: int|
                    0 <= k < root.names@.len() ==> #[trigger] root.names@[k]@ == place.names@[k]@
            }),
{
    every_file_of_a_patch_is_a_target(params, cwd, files);
    let targets = targets_of("Edit"@, params, cwd, Some(files))->Some_0;
    assert(targets.len() == files.len());
    let roots = call.roots.deep_view();
    let more = call.worktree.deep_view();
    let all = call.writable(tool);
    let place = call.canon.deep_view()[i];
    assert(under_any(place, all));
    let j = choose|j: int| 0 <= j < all.len() && place.under(#[trigger] all[j]);
    if j < roots.len() {
        assert(all[j] == roots[j]);
        let root = call.roots@[j];
        assert(roots[j] == root.deep_view());
        assert forall|k: int| 0 <= k < root.names@.len() implies #[trigger] root.names@[k]@
            == call.canon@[i].names@[k]@ by {
            assert(strs(root.names@)[k] == strs(call.canon@[i].names@)[k]);
        }
    } else {
        let w = j - roots.len();
        assert(all[j] == more[w]);
        let root = call.worktree@[w];
        assert(more[w] == root.deep_view());
        assert forall|k: int| 0 <= k < root.names@.len() implies #[trigger] root.names@[k]@
            == call.canon@[i].names@[k]@ by {
            assert(strs(root.names@)[k] == strs(call.canon@[i].names@)[k]);
        }
    }
}

/// A call that reads and needs no approval runs in every mode. So does one that
/// drafts a plan file where the policy exempts it, and one that the sandbox confines
/// where the policy lets it through.
pub proof fn calls_without_need_of_approval_run(
    tool: ApprovalGatedTool,
    call: GatedCall,
    grant: Option<PermissionMode>,
)
    requires
        call.read_only && !call.requires_approval || tool.plan_policy && call.drafts_plan
            || tool.auto_allow && call.confined,
    ensures
        call.runs(tool, grant),
{
}

/// A call that changes something, or that its tool marks, is decided by the mode
/// unless the policy exempts it: with full access it runs, in read-only mode it does
/// not, and in between it runs only where it touches the session alone or its targets
/// are known.
pub proof fn other_calls_are_decided_by_the_mode(
    tool: ApprovalGatedTool,
    call: GatedCall,
    mode: PermissionMode,
)
    requires
        call.requires_approval || !call.read_only,
        !(tool.plan_policy && call.drafts_plan),
        !(tool.auto_allow && call.confined),
    ensures
        mode == PermissionMode::DangerFullAccess ==> call.runs(tool, Some(mode)),
        mode == PermissionMode::ReadOnly ==> !call.runs(tool, Some(mode)),
        mode == PermissionMode::WorkspaceWrite && call.targets is SessionScoped ==> call.runs(
            tool,
            Some(mode),
        ),
        mode == PermissionMode::WorkspaceWrite && call.targets is Unknown ==> !call.runs(
            tool,
            Some(mode),
        ),
        call.standing == PermissionMode::DangerFullAccess ==> call.runs(tool, None),
        call.standing == PermissionMode::ReadOnly ==> !call.runs(tool, None),
        call.standing == PermissionMode::WorkspaceWrite && call.targets is Unknown ==> !call.runs(
            tool,
            None,
        ),
{
}

/// A mode that the user grants for a call decides it as if it were that of the
/// session.
pub proof fn a_grant_takes_the_place_of_the_mode(
    tool: ApprovalGatedTool,
    call: GatedCall,
    granted: PermissionMode,
)
    ensures
        call.runs(tool, Some(granted)) == (GatedCall { standing: granted, ..call }).runs(tool, None),
{
}

/// A wider mode never stops a call that a narrower one runs.
pub proof fn wider_modes_run_more(tool: ApprovalGatedTool, call: GatedCall)
    ensures
        call.runs(tool, Some(PermissionMode::ReadOnly)) ==> call.runs(
            tool,
            Some(PermissionMode::WorkspaceWrite),
        ),
        call.runs(tool, Some(PermissionMode::WorkspaceWrite)) ==> call.runs(
            tool,
            Some(PermissionMode::DangerFullAccess),
        ),
        call.runs(tool, Some(PermissionMode::DangerFullAccess)),
{
}

/// In workspace-write mode a call runs whose files all lie under one of the given
/// directories.
pub proof fn writes_inside_the_workspace_run(
    tool: ApprovalGatedTool,
    call: GatedCall,
    root: CleanPathView,
    at: int,
)
    requires
        call.targets is Files,
        0 <= at < call.roots@.len(),
        call.roots@[at].deep_view() == root,
        forall|i: int|
            0 <= i < call.canon@.len() ==> {
                let place = (#[trigger] call.canon@[i]).deep_view();
                &&& place.absolute == root.absolute
                &&& root.names.is_prefix_of(place.names)
            },
    ensures
        call.runs(tool, Some(PermissionMode::WorkspaceWrite)),
{
    let all = call.writable(tool);
    assert(all[at] == root);
    assert forall|i: int| 0 <= i < call.canon.deep_view().len() implies under_any(
        #[trigger] call.canon.deep_view()[i],
        all,
    ) by {
        assert(call.canon.deep_view()[i] == call.canon@[i].deep_view());
        assert(call.canon.deep_view()[i].under(all[at]));
    }
}

/// Shell commands are confined by the sandbox, and so is a monitor that has a
/// command to run; no other tool is.
pub proof fn shell_commands_are_confined(name: Seq<char>, params: JsonView)
    ensures
        is_confined("Bash"@, params),
        params.str_at("command"@) is None ==> !is_confined("Monitor"@, params),
        name != "Bash"@ && name != "Monitor"@ ==> !is_confined(name, params),
        params.str_at("command"@) matches Some(c) ==> (is_confined("Monitor"@, params)
            <==> !crate::text::blank(c)),
{
    reveal_strlit("Bash");
    reveal_strlit("Monitor");
    assert("Bash"@.len() != "Monitor"@.len());
}

/// A mode is asked for by the very word that names it.
pub proof fn modes_are_asked_for_by_name(mode: PermissionMode, word: Seq<char>)
    ensures
        mode_of_wire(mode.wire()) == Some(mode),
        mode.wire() == (match mode {
            PermissionMode::ReadOnly => "read-only"@,
            PermissionMode::WorkspaceWrite => "workspace-write"@,
            PermissionMode::DangerFullAccess => "danger-full-access"@,
        }),
        mode_of_wire(word) == Some(mode) ==> word == mode.wire(),
        mode_of_wire("read-only"@) == Some(PermissionMode::ReadOnly),
        mode_of_wire("workspace-write"@) == Some(PermissionMode::WorkspaceWrite),
        mode_of_wire("danger-full-access"@) == Some(PermissionMode::DangerFullAccess),
{
    reveal_strlit("read-only");
    reveal_strlit("workspace-write");
    reveal_strlit("danger-full-access");
    assert("read-only"@.len() != "workspace-write"@.len());
    assert("workspace-write"@.len() != "danger-full-access"@.len());
    assert("read-only"@.len() != "danger-full-access"@.len());
}

/// The card of a request for a wider mode names the mode and carries the
/// justification, in its summary and in its input.
pub proof fn a_request_shows_its_mode_and_justification(
    mode: PermissionMode,
    justification: Seq<char>,
)
    ensures
        escalation_summary(mode, justification) == "escalate sandbox to "@ + mode.wire() + ": "@
            + justification,
        escalation_input(mode, justification).str_at("sandbox_permissions"@) == Some(mode.wire()),
        escalation_input(mode, justification).str_at("justification"@) == Some(justification),
        mode_of_wire(escalation_input(mode, justification).str_at("sandbox_permissions"@)->Some_0)
            == Some(mode),
{
    reveal_strlit("sandbox_permissions");
    reveal_strlit("justification");
    assert("sandbox_permissions"@.len() != "justification"@.len());
    modes_are_asked_for_by_name(mode, mode.wire());
    let es = escalation_input(mode, justification)->Object_0;
    reveal_with_fuel(lookup, 3);
    assert(es.drop_last() =~= seq![es[0]]);
    assert(es.drop_last().drop_last() =~= seq![]);
    assert(es.skip(1) =~= seq![es[1]]);
    assert(es.skip(1).skip(1) =~= seq![]);
}

/// A question call is sound just where it asks one to three questions with two or
/// three options each.
pub proof fn sound_questions_have_two_or_three_options(input: JsonView)
    ensures
        ask_problem(input) is None <==> (input.get("questions"@) matches Some(JsonView::Array(qs))
            && 1 <= qs.len() <= 3 && forall|i: int|
            0 <= i < qs.len() ==> ((#[trigger] qs[i]).get("options"@) matches Some(
                JsonView::Array(options),
            ) && 2 <= options.len() <= 3)),
{
    match input.get("questions"@) {
        Some(JsonView::Array(qs)) => {
            lemma_questions_problem(qs, 0);
        },
        _ => {},
    }
}

proof fn lemma_questions_problem(qs: Seq<JsonView>, at: nat)
    requires
        at <= qs.len(),
    ensures
        questions_problem(qs, at) is None <==> forall|i: int|
            at <= i < qs.len() ==> ((#[trigger] qs[i]).get("options"@) matches Some(
                JsonView::Array(options),
            ) && 2 <= options.len() <= 3),
    decreases qs.len() - at,
{
    if at < qs.len() {
        lemma_questions_problem(qs, at + 1);
        if questions_problem(qs, at) is None {
            assert forall|i: int| at <= i < qs.len() implies ((#[trigger] qs[i]).get("options"@)
                matches Some(JsonView::Array(options)) && 2 <= options.len() <= 3) by {
                if i == at {
                    assert(question_problem(qs[at as int], at) is None);
                }
            }
        } else if question_problem(qs[at as int], at) is Some {
            assert(qs[at as int] == qs[at as int]);
        }
    }
}

/// What is wrong with the first question that is not sound names that question,
/// counted from one, and the number of its options.
pub proof fn the_first_unsound_question_is_named(qs: Seq<JsonView>, bad: int, input: JsonView)
    requires
        1 <= qs.len() <= 3,
        input.get("questions"@) == Some(JsonView::Array(qs)),
        0 <= bad < qs.len(),
        forall|i: int|
            0 <= i < bad ==> ((#[trigger] qs[i]).get("options"@) matches Some(
                JsonView::Array(options),
            ) && 2 <= options.len() <= 3),
        !(qs[bad].get("options"@) matches Some(JsonView::Array(options)) && 2 <= options.len()
            <= 3),
    ensures
        ask_problem(input) == Some(
            match qs[bad].get("options"@) {
                Some(JsonView::Array(options)) => "AskUserQuestion question "@ + dec(
                    (bad + 1) as nat,
                ) + " requires 2-3 options, got "@ + dec(options.len()),
                _ => "AskUserQuestion question "@ + dec((bad + 1) as nat)
                    + " requires `options`"@,
            },
        ),
{
    lemma_first_unsound(qs, 0, bad);
}

proof fn lemma_first_unsound(qs: Seq<JsonView>, at: nat, bad: int)
    requires
        at <= bad < qs.len(),
        forall|i: int|
            at <= i < bad ==> ((#[trigger] qs[i]).get("options"@) matches Some(
                JsonView::Array(options),
            ) && 2 <= options.len() <= 3),
        question_problem(qs[bad], bad as nat) is Some,
    ensures
        questions_problem(qs, at) == question_problem(qs[bad], bad as nat),
    decreases bad - at,
{
    if at < bad {
        assert(question_problem(qs[at as int], at) is None);
        lemma_first_unsound(qs, at + 1, bad);
    }
}

/// A schema with the escalation fields keeps every other property and gains the two
/// fields; a schema without properties is left alone.
pub proof fn escalation_fields_are_added(
    es: Seq<(Seq<char>, JsonView)>,
    props: Seq<(Seq<char>, JsonView)>,
    targets: Seq<PermissionMode>,
    other: Seq<char>,
)
    requires
        other != "sandbox_permissions"@,
        other != "justification"@,
    ensures
        lookup(es, "properties"@) == Some(JsonView::Object(props)) ==> {
            let given = JsonView::Object(es);
            let widened = with_escalation_fields(given, targets);
            &&& widened.get("properties"@) matches Some(JsonView::Object(after))
            &&& lookup(after, other) == lookup(props, other)
            &&& lookup(after, "sandbox_permissions"@) matches Some(JsonView::Object(field))
            &&& lookup(field, "enum"@) == Some(
                JsonView::Array(
                    Seq::new(targets.len(), |i: int| JsonView::Str(targets[i].wire())),
                ),
            )
            &&& lookup(after, "justification"@) matches Some(JsonView::Object(_))
            &&& other != "properties"@ ==> widened.get(other) == given.get(other)
        },
        lookup(es, "properties"@) is None ==> with_escalation_fields(JsonView::Object(es), targets)
            == JsonView::Object(es),
{
    reveal_strlit("sandbox_permissions");
    reveal_strlit("justification");
    reveal_strlit("properties");
    reveal_strlit("type");
    reveal_strlit("enum");
    assert("sandbox_permissions"@.len() != "justification"@.len());
    assert("type"@[0] != "enum"@[0]);
    let first = with_member(props, "sandbox_permissions"@, permissions_field(targets));
    let after = with_member(first, "justification"@, justification_field());
    setting_a_member_sets_only_it(
        props,
        "sandbox_permissions"@,
        permissions_field(targets),
        other,
    );
    setting_a_member_sets_only_it(first, "justification"@, justification_field(), other);
    setting_a_member_sets_only_it(
        first,
        "justification"@,
        justification_field(),
        "sandbox_permissions"@,
    );
    setting_a_member_sets_only_it(es, "properties"@, JsonView::Object(after), other);
    let field = permissions_field(targets)->Object_0;
    reveal_with_fuel(lookup, 3);
    assert(field.skip(1)[0] == field[1]);
    assert(str_models(mode_names(targets)) =~= Seq::new(
        targets.len(),
        |i: int| JsonView::Str(targets[i].wire()),
    ));
}

/// The pending interactions are told by id, in order, each with what is known of it.
pub proof fn pending_interactions_are_told(pending: Table<PendingAuthMeta>, i: int)
    ensures
        pending_list(pending).len() == pending.keys().len(),
        0 <= i < pending.keys().len() ==> pending_list(pending)[i] == (
            pending.keys()[i],
            pending@[pending.keys()[i]],
        ),
{
}

/// A refusal tells the mode that refused and, on the next line, how to ask for more.
pub proof fn refusals_tell_the_mode(hint: Seq<char>)
    ensures
        denial(DENY_READ_ONLY@, hint) == "[sandbox: file access denied under read-only mode]"@
            + "\n"@ + hint,
        denial(DENY_OUT_OF_WORKSPACE@, hint)
            == "[sandbox: file access denied under workspace-write mode]"@ + "\n"@ + hint,
{
}

/// The question tool takes one to three questions, each with its text, a header, two or
/// three options and whether several may be chosen, all of them required.
pub proof fn the_question_tool_says_what_it_takes(i: int)
    ensures
        ask_schema() == object_of(
            seq![
                (
                    "questions"@,
                    array_of(
                        "1–3 questions to ask the user. Each becomes one step in the question drawer."@,
                        1,
                        3,
                        question_schema(),
                    ),
                ),
            ],
            seq!["questions"@],
        ),
        question_schema().get("required"@) matches Some(JsonView::Array(names)) && names.len() == 4
            && names[0] == JsonView::Str("question"@) && names[1] == JsonView::Str("header"@)
            && names[2] == JsonView::Str("options"@) && names[3] == JsonView::Str("multiSelect"@),
        question_schema().get("properties"@) matches Some(JsonView::Object(props)) && props.len()
            == 4 && props[2] == (
            "options"@,
            array_of("2–3 choices for the user to select from."@, 2, 3, option_schema()),
        ) && props[0].0 == "question"@ && props[1].0 == "header"@ && props[3].0 == "multiSelect"@,
        option_schema().get("required"@) matches Some(JsonView::Array(names)) && names.len() == 2
            && names[0] == JsonView::Str("label"@) && names[1] == JsonView::Str("description"@),
        option_schema().get("properties"@) matches Some(JsonView::Object(props)) && props.len() == 3
            && props[0].0 == "label"@ && props[1].0 == "description"@ && props[2].0
            == "recommended"@,
{
    let question = question_schema()->Object_0;
    let option = option_schema()->Object_0;
    reveal_strlit("type");
    reveal_strlit("properties");
    reveal_strlit("required");
    assert("type"@.len() == 4 && "properties"@.len() == 10 && "required"@.len() == 8);
    crate::json::members_are_found_by_key(question, 1, "type"@);
    crate::json::members_are_found_by_key(question, 2, "type"@);
    crate::json::members_are_found_by_key(option, 1, "type"@);
    crate::json::members_are_found_by_key(option, 2, "type"@);
}

} // verus!
