//! The sidecar of a session: what survives a restart beside the transcript.

use crate::approval::ApprovalGate;
use crate::json::{Json, JsonView};
use crate::language_model::ReasoningEffort;
use crate::plan_mode::{PlanSessionState, PlanSessionStateView};
use crate::session::{load_approval_mode, mode_of};
use crate::text::{blank, clone_opt_string, is_blank, str_eq};
use crate::thread::{PermissionMode, ThreadEvent, ThreadEventView};
use crate::transcript::UserAttributionMeta;
use std::collections::HashMap;
use vstd::prelude::*;

verus! {

broadcast use vstd::std_specs::hash::group_hash_axioms;

/// The worktree that a session runs in, and the way back.
#[derive(Debug, PartialEq, Eq)]
pub struct WorktreeMeta {
    pub worktree_path: String,
    pub branch: String,
    pub original_session_path: String,
    pub original_cwd: String,
    pub git_common_dir: String,
}

/// The mathematical value of a [`WorktreeMeta`].
#[verifier::ext_equal]
pub struct WorktreeMetaView {
    pub worktree_path: Seq<char>,
    pub branch: Seq<char>,
    pub original_session_path: Seq<char>,
    pub original_cwd: Seq<char>,
    pub git_common_dir: Seq<char>,
}

impl DeepView for WorktreeMeta {
    type V = WorktreeMetaView;

    open spec fn deep_view(&self) -> WorktreeMetaView {
        WorktreeMetaView {
            worktree_path: self.worktree_path@,
            branch: self.branch@,
            original_session_path: self.original_session_path@,
            original_cwd: self.original_cwd@,
            git_common_dir: self.git_common_dir@,
        }
    }
}

impl Clone for WorktreeMeta {
    fn clone(&self) -> (r: Self)
        ensures
            r.deep_view() == self.deep_view(),
    {
        let r = WorktreeMeta {
            worktree_path: self.worktree_path.clone(),
            branch: self.branch.clone(),
            original_session_path: self.original_session_path.clone(),
            original_cwd: self.original_cwd.clone(),
            git_common_dir: self.git_common_dir.clone(),
        };
        r
    }
}

/// What the sidecar of a session holds.
#[derive(Debug)]
pub struct SessionMeta {
    pub title: Option<String>,
    pub project: Option<String>,
    pub approval_mode: Option<String>,
    pub reasoning_effort: Option<String>,
    pub plan_mode: Option<bool>,
    pub plan_file: Option<String>,
    pub plan_review_pending: Option<bool>,
    pub plan_snapshot: Option<Json>,
    pub worktree: Option<WorktreeMeta>,
    /// The display form of a prompt, by its place among the prompts.
    pub registry_displays: HashMap<usize, String>,
    /// Who sent a prompt, by its place among the prompts.
    pub user_attributions: HashMap<usize, UserAttributionMeta>,
}

/// The mathematical value of a [`SessionMeta`].
#[verifier::ext_equal]
pub struct SessionMetaView {
    pub title: Option<Seq<char>>,
    pub project: Option<Seq<char>>,
    pub approval_mode: Option<Seq<char>>,
    pub reasoning_effort: Option<Seq<char>>,
    pub plan_mode: Option<bool>,
    pub plan_file: Option<Seq<char>>,
    pub plan_review_pending: Option<bool>,
    pub plan_snapshot: Option<JsonView>,
    pub worktree: Option<WorktreeMetaView>,
    pub registry_displays: Map<usize, String>,
    pub user_attributions: Map<usize, UserAttributionMeta>,
}

impl DeepView for SessionMeta {
    type V = SessionMetaView;

    open spec fn deep_view(&self) -> SessionMetaView {
        SessionMetaView {
            title: self.title.deep_view(),
            project: self.project.deep_view(),
            approval_mode: self.approval_mode.deep_view(),
            reasoning_effort: self.reasoning_effort.deep_view(),
            plan_mode: self.plan_mode,
            plan_file: self.plan_file.deep_view(),
            plan_review_pending: self.plan_review_pending,
            plan_snapshot: self.plan_snapshot.deep_view(),
            worktree: self.worktree.deep_view(),
            registry_displays: self.registry_displays@,
            user_attributions: self.user_attributions@,
        }
    }
}

/// The sidecar of a session that has none yet.
pub open spec fn empty_meta() -> SessionMetaView {
    SessionMetaView {
        title: None,
        project: None,
        approval_mode: None,
        reasoning_effort: None,
        plan_mode: None,
        plan_file: None,
        plan_review_pending: None,
        plan_snapshot: None,
        worktree: None,
        registry_displays: Map::empty(),
        user_attributions: Map::empty(),
    }
}

impl SessionMeta {
    pub fn new() -> (r: Self)
        ensures
            r.deep_view() == empty_meta(),
    {
        SessionMeta {
            title: None,
            project: None,
            approval_mode: None,
            reasoning_effort: None,
            plan_mode: None,
            plan_file: None,
            plan_review_pending: None,
            plan_snapshot: None,
            worktree: None,
            registry_displays: HashMap::new(),
            user_attributions: HashMap::new(),
        }
    }
}

// ---------------------------------------------------------------------------
// Reading
// ---------------------------------------------------------------------------

impl SessionMetaView {
    /// The title, unless it is blank.
    pub open spec fn shown_title(self) -> Option<Seq<char>> {
        match self.title {
            Some(t) => if blank(t) {
                None
            } else {
                Some(t)
            },
            None => None,
        }
    }

    pub open spec fn mode(self) -> PermissionMode {
        mode_of(self.approval_mode)
    }

    pub open spec fn effort(self) -> ReasoningEffort {
        match self.reasoning_effort {
            Some(s) => if s == "max"@ {
                ReasoningEffort::Max
            } else {
                ReasoningEffort::High
            },
            None => ReasoningEffort::High,
        }
    }

    pub open spec fn planning(self) -> bool {
        self.plan_mode == Some(true)
    }
}

/// What the title scheduler starts from.
#[derive(Debug, PartialEq, Eq)]
pub struct PersistedTitleScheduler {
    pub title: Option<String>,
    pub provider_responses: usize,
}

/// What the title scheduler starts from: the stored title, unless it is blank,
/// and the responses that the transcript already holds. Without a sidecar it
/// starts from nothing.
pub fn load_title_scheduler(
    meta: Option<&SessionMeta>,
    provider_responses: usize,
) -> (r: PersistedTitleScheduler)
    ensures
        match meta {
            Some(m) => r.title.deep_view() == m.deep_view().shown_title() && r.provider_responses
                == provider_responses,
            None => r.title is None && r.provider_responses == 0,
        },
{
    match meta {
        Some(m) => {
            let title = match &m.title {
                Some(t) => if is_blank(t.as_str()) {
                    None
                } else {
                    Some(t.clone())
                },
                None => None,
            };
            PersistedTitleScheduler { title, provider_responses }
        },
        None => PersistedTitleScheduler { title: None, provider_responses: 0 },
    }
}

/// The stored permission mode; a missing or unknown one is the bounded default.
pub fn stored_mode(meta: Option<&SessionMeta>) -> (r: PermissionMode)
    ensures
        r == match meta {
            Some(m) => m.deep_view().mode(),
            None => empty_meta().mode(),
        },
{
    match meta {
        Some(m) => match &m.approval_mode {
            Some(raw) => load_approval_mode(Some(raw.as_str())),
            None => load_approval_mode(None),
        },
        None => load_approval_mode(None),
    }
}

/// The stored reasoning effort; a missing or unknown one is High.
pub fn load_reasoning_effort(meta: Option<&SessionMeta>) -> (r: ReasoningEffort)
    ensures
        r == match meta {
            Some(m) => m.deep_view().effort(),
            None => ReasoningEffort::High,
        },
{
    match meta {
        Some(m) => match &m.reasoning_effort {
            Some(s) => if str_eq(s.as_str(), "max") {
                ReasoningEffort::Max
            } else {
                ReasoningEffort::High
            },
            None => ReasoningEffort::High,
        },
        None => ReasoningEffort::High,
    }
}

/// Whether plan mode was on, and the plan file.
pub fn load_plan_state(meta: Option<&SessionMeta>) -> (r: (bool, Option<String>))
    ensures
        match meta {
            Some(m) => r.0 == m.deep_view().planning() && r.1.deep_view()
                == m.deep_view().plan_file,
            None => !r.0 && r.1 is None,
        },
{
    match meta {
        Some(m) => {
            let on = match m.plan_mode {
                Some(b) => b,
                None => false,
            };
            (on, clone_opt_string(&m.plan_file))
        },
        None => (false, None),
    }
}

/// Whether a plan review was pending.
pub fn load_plan_review_pending(meta: Option<&SessionMeta>) -> (r: bool)
    ensures
        r == (meta matches Some(m) && m.deep_view().plan_review_pending == Some(true)),
{
    match meta {
        Some(m) => match m.plan_review_pending {
            Some(b) => b,
            None => false,
        },
        None => false,
    }
}

/// The last plan snapshot.
pub fn load_plan_snapshot(meta: Option<&SessionMeta>) -> (r: Option<Json>)
    ensures
        r.deep_view() == match meta {
            Some(m) => m.deep_view().plan_snapshot,
            None => None,
        },
{
    match meta {
        Some(m) => match &m.plan_snapshot {
            Some(s) => Some(s.clone()),
            None => None,
        },
        None => None,
    }
}

/// The worktree that the session runs in.
pub fn load_worktree_state(meta: Option<&SessionMeta>) -> (r: Option<WorktreeMeta>)
    ensures
        r.deep_view() == match meta {
            Some(m) => m.deep_view().worktree,
            None => None,
        },
{
    match meta {
        Some(m) => match &m.worktree {
            Some(w) => Some(w.clone()),
            None => None,
        },
        None => None,
    }
}

// ---------------------------------------------------------------------------
// Writing
// ---------------------------------------------------------------------------

/// A change of the sidecar.
#[derive(Debug, PartialEq, Eq)]
pub enum SidecarUpdate {
    Title(String),
    Project(String),
    ApprovalMode(PermissionMode),
    Effort(ReasoningEffort),
    /// Plan mode is stored only while on; the plan file stays across exits.
    Plan { enabled: bool, plan_file: Option<String> },
    PlanReviewPending(bool),
    PlanSnapshot(Option<Json>),
    Worktree(Option<WorktreeMeta>),
    /// Forget the display forms and senders of prompts.
    ClearChrome,
}

/// The mathematical value of a [`SidecarUpdate`].
#[verifier::ext_equal]
pub enum SidecarUpdateView {
    Title(Seq<char>),
    Project(Seq<char>),
    ApprovalMode(PermissionMode),
    Effort(ReasoningEffort),
    Plan { enabled: bool, plan_file: Option<Seq<char>> },
    PlanReviewPending(bool),
    PlanSnapshot(Option<JsonView>),
    Worktree(Option<WorktreeMetaView>),
    ClearChrome,
}

impl DeepView for SidecarUpdate {
    type V = SidecarUpdateView;

    open spec fn deep_view(&self) -> SidecarUpdateView {
        match self {
            SidecarUpdate::Title(a) => SidecarUpdateView::Title(a@),
            SidecarUpdate::Project(a) => SidecarUpdateView::Project(a@),
            SidecarUpdate::ApprovalMode(a) => SidecarUpdateView::ApprovalMode(*a),
            SidecarUpdate::Effort(a) => SidecarUpdateView::Effort(*a),
            SidecarUpdate::Plan { enabled, plan_file } => SidecarUpdateView::Plan {
                enabled: *enabled,
                plan_file: plan_file.deep_view(),
            },
            SidecarUpdate::PlanReviewPending(a) => SidecarUpdateView::PlanReviewPending(*a),
            SidecarUpdate::PlanSnapshot(a) => SidecarUpdateView::PlanSnapshot(a.deep_view()),
            SidecarUpdate::Worktree(a) => SidecarUpdateView::Worktree(a.deep_view()),
            SidecarUpdate::ClearChrome => SidecarUpdateView::ClearChrome,
        }
    }
}

/// A flag that is stored only while set.
pub open spec fn stored_flag(b: bool) -> Option<bool> {
    if b {
        Some(true)
    } else {
        None
    }
}

impl SessionMetaView {
    /// The sidecar after a change.
    pub open spec fn updated(self, update: SidecarUpdateView) -> SessionMetaView {
        match update {
            SidecarUpdateView::Title(t) => SessionMetaView { title: Some(t), ..self },
            SidecarUpdateView::Project(p) => SessionMetaView { project: Some(p), ..self },
            SidecarUpdateView::ApprovalMode(m) => SessionMetaView {
                approval_mode: Some(m.wire()),
                ..self
            },
            SidecarUpdateView::Effort(e) => SessionMetaView {
                reasoning_effort: Some(e.wire()),
                ..self
            },
            SidecarUpdateView::Plan { enabled, plan_file } => SessionMetaView {
                plan_mode: stored_flag(enabled),
                plan_file,
                ..self
            },
            SidecarUpdateView::PlanReviewPending(p) => SessionMetaView {
                plan_review_pending: stored_flag(p),
                ..self
            },
            SidecarUpdateView::PlanSnapshot(s) => SessionMetaView { plan_snapshot: s, ..self },
            SidecarUpdateView::Worktree(w) => SessionMetaView { worktree: w, ..self },
            SidecarUpdateView::ClearChrome => SessionMetaView {
                registry_displays: Map::empty(),
                user_attributions: Map::empty(),
                ..self
            },
        }
    }

    /// Whether a change would leave the sidecar as it is, so that it need not be
    /// written.
    pub open spec fn holds(self, update: SidecarUpdateView) -> bool {
        match update {
            SidecarUpdateView::Title(t) => self.title == Some(t),
            SidecarUpdateView::ClearChrome => self.registry_displays.len() == 0
                && self.user_attributions.len() == 0,
            _ => false,
        }
    }
}

impl SessionMeta {
    /// Applies a change.
    pub fn apply(&mut self, update: SidecarUpdate)
        ensures
            final(self).deep_view() == old(self).deep_view().updated(update.deep_view()),
    {
        match update {
            SidecarUpdate::Title(t) => {
                self.title = Some(t);
            },
            SidecarUpdate::Project(p) => {
                self.project = Some(p);
            },
            SidecarUpdate::ApprovalMode(m) => {
                self.approval_mode = Some(m.wire_value().to_owned());
            },
            SidecarUpdate::Effort(e) => {
                self.reasoning_effort = Some(e.wire_value().to_owned());
            },
            SidecarUpdate::Plan { enabled, plan_file } => {
                self.plan_mode = if enabled {
                    Some(true)
                } else {
                    None
                };
                self.plan_file = plan_file;
            },
            SidecarUpdate::PlanReviewPending(p) => {
                self.plan_review_pending = if p {
                    Some(true)
                } else {
                    None
                };
            },
            SidecarUpdate::PlanSnapshot(s) => {
                self.plan_snapshot = s;
            },
            SidecarUpdate::Worktree(w) => {
                self.worktree = w;
            },
            SidecarUpdate::ClearChrome => {
                self.registry_displays.clear();
                self.user_attributions.clear();
            },
        }
        assert(self.deep_view() =~= old(self).deep_view().updated(update.deep_view()));
    }

    /// Whether a change would leave the sidecar as it is: an unchanged title and
    /// an empty clear are not written again.
    pub fn already_holds(&self, update: &SidecarUpdate) -> (r: bool)
        ensures
            r == self.deep_view().holds(update.deep_view()),
    {
        match update {
            SidecarUpdate::Title(t) => match &self.title {
                Some(own) => str_eq(own.as_str(), t.as_str()),
                None => false,
            },
            SidecarUpdate::ClearChrome => self.registry_displays.len() == 0
                && self.user_attributions.len() == 0,
            _ => false,
        }
    }
}

/// The change that stores a plan state.
pub fn plan_update(plan: &PlanSessionState) -> (r: SidecarUpdate)
    ensures
        r.deep_view() == (SidecarUpdateView::Plan {
            enabled: plan.deep_view().enabled,
            plan_file: plan.deep_view().plan_file,
        }),
{
    SidecarUpdate::Plan { enabled: plan.enabled, plan_file: plan.plan_file() }
}

/// The changes that seed the sidecar of a worktree fork: the title and project of
/// the source, which the fork wears while it is the active session, and the
/// worktree. Without a readable source only the worktree is set.
pub open spec fn inherited(
    fork: SessionMetaView,
    source: Option<SessionMetaView>,
    worktree: WorktreeMetaView,
) -> SessionMetaView {
    match source {
        Some(s) => SessionMetaView {
            title: s.title,
            project: s.project,
            worktree: Some(worktree),
            ..fork
        },
        None => SessionMetaView { worktree: Some(worktree), ..fork },
    }
}

/// Seeds the sidecar of a worktree fork.
pub fn fork_sidecar_inherit(
    fork: &mut SessionMeta,
    source: Option<&SessionMeta>,
    worktree: WorktreeMeta,
)
    ensures
        final(fork).deep_view() == inherited(
            old(fork).deep_view(),
            match source {
                Some(s) => Some(s.deep_view()),
                None => None,
            },
            worktree.deep_view(),
        ),
{
    match source {
        Some(s) => {
            fork.title = clone_opt_string(&s.title);
            fork.project = clone_opt_string(&s.project);
        },
        None => {},
    }
    fork.worktree = Some(worktree);
}

// ---------------------------------------------------------------------------
// Following a session switch
// ---------------------------------------------------------------------------

/// The worktree follows the sidecar of the opened session.
pub fn resync_worktree_state(
    worktree: &mut Option<WorktreeMeta>,
    meta: Option<&SessionMeta>,
) -> (r: ThreadEvent)
    ensures
        final(worktree).deep_view() == match meta {
            Some(m) => m.deep_view().worktree,
            None => None,
        },
        r.deep_view() == (ThreadEventView::WorktreeChanged {
            active: final(worktree).deep_view() is Some,
            path: match final(worktree).deep_view() {
                Some(w) => Some(w.worktree_path),
                None => None,
            },
        }),
{
    *worktree = load_worktree_state(meta);
    match worktree {
        Some(w) => ThreadEvent::WorktreeChanged {
            active: true,
            path: Some(w.worktree_path.clone()),
        },
        None => ThreadEvent::WorktreeChanged { active: false, path: None },
    }
}

/// Plan mode follows the sidecar of the opened session. `instructions` are the
/// rendered ones, used only where that session plans.
pub fn resync_plan_state(
    plan: &mut PlanSessionState,
    meta: Option<&SessionMeta>,
    instructions: Option<String>,
) -> (r: ThreadEvent)
    ensures
        ({
            let on = meta matches Some(m) && m.deep_view().planning();
            &&& final(plan).deep_view() == (PlanSessionStateView {
                enabled: on,
                plan_file: match meta {
                    Some(m) => m.deep_view().plan_file,
                    None => None,
                },
                active_instructions: if on {
                    instructions.deep_view()
                } else {
                    None
                },
            })
            &&& r.deep_view() == (ThreadEventView::PlanModeChanged { enabled: on })
        }),
{
    let (enabled, plan_file) = load_plan_state(meta);
    plan.set(enabled, plan_file);
    plan.set_active_instructions(
        if enabled {
            instructions
        } else {
            None
        },
    );
    ThreadEvent::PlanModeChanged { enabled }
}

/// The permission mode follows the sidecar of the opened session.
pub fn resync_approval_mode(gate: &mut ApprovalGate, meta: Option<&SessionMeta>) -> (r: ThreadEvent)
    ensures
        ({
            let mode = match meta {
                Some(m) => m.deep_view().mode(),
                None => empty_meta().mode(),
            };
            &&& final(gate).mode == mode
            &&& final(gate).pending == old(gate).pending
            &&& r.deep_view() == (ThreadEventView::PermissionModeChanged { mode })
        }),
{
    let mode = stored_mode(meta);
    gate.set_mode(mode);
    ThreadEvent::PermissionModeChanged { mode }
}

// ---------------------------------------------------------------------------
// What is read back
// ---------------------------------------------------------------------------

/// What is written is read back: the permission mode, the reasoning effort, the
/// plan state, a pending review, the snapshot, the worktree and a title that is
/// not blank.
pub proof fn what_is_written_is_read_back(
    meta: SessionMetaView,
    mode: PermissionMode,
    effort: ReasoningEffort,
    plan: PlanSessionStateView,
    pending: bool,
    title: Seq<char>,
)
    ensures
        meta.updated(SidecarUpdateView::ApprovalMode(mode)).mode() == mode,
        meta.updated(SidecarUpdateView::Effort(effort)).effort() == effort,
        ({
            let m = meta.updated(
                SidecarUpdateView::Plan { enabled: plan.enabled, plan_file: plan.plan_file },
            );
            m.planning() == plan.enabled && m.plan_file == plan.plan_file
        }),
        (meta.updated(SidecarUpdateView::PlanReviewPending(pending)).plan_review_pending == Some(
            true,
        )) == pending,
        !blank(title) ==> meta.updated(SidecarUpdateView::Title(title)).shown_title() == Some(
            title,
        ),
{
    crate::session::permission_mode_round_trips(mode);
    reveal_strlit("high");
    reveal_strlit("max");
    assert("high"@.len() == 4);
    assert("max"@.len() == 3);
}

/// A change that the sidecar already holds changes nothing.
pub proof fn a_held_change_is_no_change(meta: SessionMetaView, update: SidecarUpdateView)
    requires
        meta.holds(update),
        meta.registry_displays.dom().finite(),
        meta.user_attributions.dom().finite(),
    ensures
        meta.updated(update) == meta,
{
    match update {
        SidecarUpdateView::ClearChrome => {
            assert(meta.registry_displays.dom() =~= Set::empty());
            assert(meta.user_attributions.dom() =~= Set::empty());
            assert(meta.registry_displays =~= Map::empty());
            assert(meta.user_attributions =~= Map::empty());
        },
        _ => {},
    }
    assert(meta.updated(update) =~= meta);
}

/// Storing the permission mode leaves every other field alone.
pub proof fn the_mode_is_stored_alone(meta: SessionMetaView, mode: PermissionMode)
    ensures
        meta.updated(SidecarUpdateView::ApprovalMode(mode)) == (SessionMetaView {
            approval_mode: Some(mode.wire()),
            ..meta
        }),
{
}

/// Each change sets what it names to what it carries and leaves all else alone.
pub proof fn each_change_sets_what_it_names(meta: SessionMetaView, update: SidecarUpdateView)
    ensures
        match update {
            SidecarUpdateView::Title(t) => meta.updated(update) == (SessionMetaView {
                title: Some(t),
                ..meta
            }),
            SidecarUpdateView::Project(p) => meta.updated(update) == (SessionMetaView {
                project: Some(p),
                ..meta
            }),
            SidecarUpdateView::ApprovalMode(m) => meta.updated(update) == (SessionMetaView {
                approval_mode: Some(
                    match m {
                        PermissionMode::ReadOnly => "read-only"@,
                        PermissionMode::WorkspaceWrite => "workspace-write"@,
                        PermissionMode::DangerFullAccess => "danger-full-access"@,
                    },
                ),
                ..meta
            }),
            SidecarUpdateView::Effort(e) => meta.updated(update) == (SessionMetaView {
                reasoning_effort: Some(
                    match e {
                        ReasoningEffort::High => "high"@,
                        ReasoningEffort::Max => "max"@,
                    },
                ),
                ..meta
            }),
            SidecarUpdateView::Plan { enabled, plan_file } => meta.updated(update)
                == (SessionMetaView {
                plan_mode: if enabled {
                    Some(true)
                } else {
                    None
                },
                plan_file,
                ..meta
            }),
            SidecarUpdateView::PlanReviewPending(p) => meta.updated(update) == (SessionMetaView {
                plan_review_pending: if p {
                    Some(true)
                } else {
                    None
                },
                ..meta
            }),
            SidecarUpdateView::PlanSnapshot(s) => meta.updated(update) == (SessionMetaView {
                plan_snapshot: s,
                ..meta
            }),
            SidecarUpdateView::Worktree(w) => meta.updated(update) == (SessionMetaView {
                worktree: w,
                ..meta
            }),
            SidecarUpdateView::ClearChrome => meta.updated(update) == (SessionMetaView {
                registry_displays: Map::<usize, String>::empty(),
                user_attributions: Map::<usize, UserAttributionMeta>::empty(),
                ..meta
            }),
        },
{
}

/// A change is skipped only where it would change nothing: the stored title is the very
/// one, or there is nothing to clear. A title that differs is written.
pub proof fn only_a_change_that_is_none_is_skipped(meta: SessionMetaView, title: Seq<char>)
    ensures
        meta.holds(SidecarUpdateView::Title(title)) <==> meta.title == Some(title),
        meta.holds(SidecarUpdateView::ClearChrome) <==> meta.registry_displays.len() == 0
            && meta.user_attributions.len() == 0,
{
}

/// What a sidecar without entries, or with entries that are not known, stands for: no
/// title, workspace-write mode, high effort, no plan mode.
pub proof fn an_empty_sidecar_gives_the_defaults(meta: SessionMetaView)
    ensures
        empty_meta().shown_title() is None,
        empty_meta().mode() == PermissionMode::WorkspaceWrite,
        empty_meta().effort() == ReasoningEffort::High,
        !empty_meta().planning(),
        empty_meta().worktree is None,
        empty_meta().plan_file is None,
        empty_meta().plan_snapshot is None,
        meta.approval_mode != Some("read-only"@) && meta.approval_mode != Some(
            "danger-full-access"@,
        ) ==> meta.mode() == PermissionMode::WorkspaceWrite,
        meta.reasoning_effort != Some("max"@) ==> meta.effort() == ReasoningEffort::High,
        meta.plan_mode != Some(true) ==> !meta.planning(),
        meta.title matches Some(t) ==> (blank(t) ==> meta.shown_title() is None) && (!blank(t)
            ==> meta.shown_title() == Some(t)),
{
}

/// A worktree fork wears the title and the project of its source and holds its own
/// worktree; everything else of its sidecar stays. Without a readable source it keeps
/// its own title and project.
pub proof fn a_fork_wears_the_name_of_its_source(
    fork: SessionMetaView,
    source: SessionMetaView,
    worktree: WorktreeMetaView,
)
    ensures
        inherited(fork, Some(source), worktree) == (SessionMetaView {
            title: source.title,
            project: source.project,
            worktree: Some(worktree),
            ..fork
        }),
        inherited(fork, None, worktree) == (SessionMetaView { worktree: Some(worktree), ..fork }),
{
}

/// The view of a [`WorktreeMeta`] is made of all its parts, each as it is.
pub proof fn worktree_meta_is_viewed_whole(x: &WorktreeMeta)
    ensures
        x.deep_view() == (WorktreeMetaView {
            worktree_path: x.worktree_path@,
            branch: x.branch@,
            original_session_path: x.original_session_path@,
            original_cwd: x.original_cwd@,
            git_common_dir: x.git_common_dir@,
        }),
{
}

/// The view of a [`SessionMeta`] is made of all its parts, each as it is.
pub proof fn session_meta_is_viewed_whole(x: &SessionMeta)
    ensures
        x.deep_view() == (SessionMetaView {
            title: x.title.deep_view(),
            project: x.project.deep_view(),
            approval_mode: x.approval_mode.deep_view(),
            reasoning_effort: x.reasoning_effort.deep_view(),
            plan_mode: x.plan_mode,
            plan_file: x.plan_file.deep_view(),
            plan_review_pending: x.plan_review_pending,
            plan_snapshot: x.plan_snapshot.deep_view(),
            worktree: x.worktree.deep_view(),
            registry_displays: x.registry_displays@,
            user_attributions: x.user_attributions@,
        }),
{
}

/// The view of a [`SidecarUpdate`] is made of all its parts, each as it is.
pub proof fn sidecar_update_is_viewed_whole(x: &SidecarUpdate)
    ensures
        match x {
            SidecarUpdate::Title(a) => x.deep_view() == (SidecarUpdateView::Title(a@)),
            SidecarUpdate::Project(a) => x.deep_view() == (SidecarUpdateView::Project(a@)),
            SidecarUpdate::ApprovalMode(a) => x.deep_view() == (SidecarUpdateView::ApprovalMode(*a)),
            SidecarUpdate::Effort(a) => x.deep_view() == (SidecarUpdateView::Effort(*a)),
            SidecarUpdate::Plan { enabled, plan_file } => x.deep_view() == (SidecarUpdateView::Plan {
                enabled: *enabled,
                plan_file: plan_file.deep_view(),
            }),
            SidecarUpdate::PlanReviewPending(a) => x.deep_view() == (SidecarUpdateView::PlanReviewPending(*a)),
            SidecarUpdate::PlanSnapshot(a) => x.deep_view() == (SidecarUpdateView::PlanSnapshot(a.deep_view())),
            SidecarUpdate::Worktree(a) => x.deep_view() == (SidecarUpdateView::Worktree(a.deep_view())),
            SidecarUpdate::ClearChrome => x.deep_view() == (SidecarUpdateView::ClearChrome),
        },
{
}

} // verus!
