//! The session actor: what it does with a command, with the end of a run, and
//! with the outcome of the work it asked for.
//!
//! The actor is the only writer of a session. While a run is in flight it takes
//! what the run can take and parks the rest; between runs it takes up what was
//! parked and waits for the next command.

use crate::engine::{
    Action, ActionView, BackendNotice, BackendNoticeView, CompactPurpose, CompactPurposeView,
    HookEvent, RunKind, RunKindView, SessionCmd, SessionCmdView,
};
use crate::harness::{AgentMessageView, ContentBlock, ContentBlockView};
use crate::history::{UiNoteRecord, UiNoteRecordView};
use crate::json::{entry_models, jobj, jstr, Json, JsonView};
use crate::language_model::ReasoningEffort;
use crate::models::{Model, ModelView};
use crate::pathname::{file_stem, file_stem_of, is_same_file, same_file};
use crate::plan::{all_done, decode_snapshot, decoded_snapshot};
use crate::plan_mode::{PlanSessionState, PlanSessionStateView};
use crate::session::parse_reasoning_effort;
use crate::sidecar::{plan_update, SidecarUpdate, SidecarUpdateView, WorktreeMeta, WorktreeMetaView};
use crate::text::clone_opt_string;
use crate::thread::{PermissionMode, ThreadEvent, ThreadEventView};
use crate::title::{TitleSchedulerState, TitleSchedulerStateView, TitleWakeReason};
use crate::toolset::BrowserSuite;
use crate::transcript::{shows_note, steer_message, HistoryMirror};
use vstd::prelude::*;

verus! {

/// What the actor knows.
#[derive(Debug, PartialEq, Eq)]
pub struct ActorState {
    /// Whether a turn runs.
    pub running: bool,
    /// The working model.
    pub model: Option<Model>,
    /// The file of the active session.
    pub active_path: Option<String>,
    pub plan: PlanSessionState,
    /// The worktree that the session runs in.
    pub worktree: Option<WorktreeMeta>,
    pub title: TitleSchedulerState,
    /// Whether the session has started in the eyes of the plugins.
    pub session_start_fired: bool,
    /// Whether goals are available.
    pub goals: bool,
    /// Messages handed to the session since the last turn ended.
    pub run_steers: Vec<String>,
    pub shutdown_after_run: bool,
    /// Cards to store once the turn has ended.
    pub pending_ui_notes: Vec<UiNoteRecord>,
    /// A suite to switch once the turn has ended.
    pub pending_browser_suite: Option<(BrowserSuite, bool)>,
    /// Commands to take once the turn has ended.
    pub pending_session_cmds: Vec<SessionCmd>,
}

/// The mathematical value of a [`ActorState`].
#[verifier::ext_equal]
pub struct ActorStateView {
    pub running: bool,
    pub model: Option<ModelView>,
    pub active_path: Option<Seq<char>>,
    pub plan: PlanSessionStateView,
    pub worktree: Option<WorktreeMetaView>,
    pub title: TitleSchedulerStateView,
    pub session_start_fired: bool,
    pub goals: bool,
    pub run_steers: Seq<Seq<char>>,
    pub shutdown_after_run: bool,
    pub pending_ui_notes: Seq<UiNoteRecordView>,
    pub pending_browser_suite: Option<(BrowserSuite, bool)>,
    pub pending_session_cmds: Seq<SessionCmdView>,
}

impl DeepView for ActorState {
    type V = ActorStateView;

    open spec fn deep_view(&self) -> ActorStateView {
        ActorStateView {
            running: self.running,
            model: self.model.deep_view(),
            active_path: self.active_path.deep_view(),
            plan: self.plan.deep_view(),
            worktree: self.worktree.deep_view(),
            title: self.title.deep_view(),
            session_start_fired: self.session_start_fired,
            goals: self.goals,
            run_steers: self.run_steers.deep_view(),
            shutdown_after_run: self.shutdown_after_run,
            pending_ui_notes: self.pending_ui_notes.deep_view(),
            pending_browser_suite: self.pending_browser_suite.deep_view(),
            pending_session_cmds: self.pending_session_cmds.deep_view(),
        }
    }
}

/// What the actor is told with a command.
#[derive(Debug, PartialEq, Eq)]
pub struct ActorContext {
    pub thread_id: String,
    /// The directory that the thread was started in.
    pub cwd: String,
    /// The file of the current session.
    pub session_path: String,
    /// The plan-mode instructions, rendered.
    pub instructions: Option<String>,
}

/// The mathematical value of a [`ActorContext`].
#[verifier::ext_equal]
pub struct ActorContextView {
    pub thread_id: Seq<char>,
    pub cwd: Seq<char>,
    pub session_path: Seq<char>,
    pub instructions: Option<Seq<char>>,
}

impl DeepView for ActorContext {
    type V = ActorContextView;

    open spec fn deep_view(&self) -> ActorContextView {
        ActorContextView {
            thread_id: self.thread_id@,
            cwd: self.cwd@,
            session_path: self.session_path@,
            instructions: self.instructions.deep_view(),
        }
    }
}

// ---------------------------------------------------------------------------
// Shorthands
// ---------------------------------------------------------------------------

pub open spec fn event(e: ThreadEventView) -> ActionView {
    ActionView::Notice(BackendNoticeView::Event(e))
}

fn event_action(e: ThreadEvent) -> (r: Action)
    ensures
        r.deep_view() == event(e.deep_view()),
{
    Action::Notice(BackendNotice::Event(e))
}

/// Mirror everything that a change of the transcript touches.
pub open spec fn resynced() -> Seq<ActionView> {
    seq![ActionView::SyncHistory, ActionView::SyncUsage, ActionView::RefreshSessionList]
}

pub(crate) fn push_resync(out: &mut Vec<Action>)
    ensures
        final(out).deep_view() == old(out).deep_view() + resynced(),
{
    let ghost before = out.deep_view();
    out.push(Action::SyncHistory);
    out.push(Action::SyncUsage);
    out.push(Action::RefreshSessionList);
    assert(out.deep_view() =~= before + resynced());
}

pub open spec fn sidecar(path: Seq<char>, update: SidecarUpdateView) -> ActionView {
    ActionView::Sidecar { path, update }
}

fn sidecar_action(path: &str, update: SidecarUpdate) -> (r: Action)
    ensures
        r.deep_view() == sidecar(path@, update.deep_view()),
{
    Action::Sidecar { path: path.to_owned(), update }
}

/// Store the plan state.
pub open spec fn plan_stored(path: Seq<char>, plan: PlanSessionStateView) -> ActionView {
    sidecar(
        path,
        SidecarUpdateView::Plan { enabled: plan.enabled, plan_file: plan.plan_file },
    )
}

pub open spec fn steered(text: Seq<char>, images: Seq<ContentBlockView>) -> ActionView {
    ActionView::Steer(
        AgentMessageView::User {
            content: seq![ContentBlockView::Text { text, signature: None }] + images,
        },
    )
}

pub(crate) fn steer_action(text: String, images: Vec<ContentBlock>) -> (r: Action)
    ensures
        r.deep_view() == steered(text@, images.deep_view()),
{
    Action::Steer(steer_message(text, images))
}

/// Set the thinking level, and store it where it is one that the user can pick.
pub open spec fn leveled(path: Seq<char>, level: Option<Seq<char>>) -> Seq<ActionView> {
    let set = ActionView::SetThinkingLevel(level);
    match level {
        Some(l) => if l == "high"@ {
            seq![set, sidecar(path, SidecarUpdateView::Effort(ReasoningEffort::High))]
        } else if l == "max"@ {
            seq![set, sidecar(path, SidecarUpdateView::Effort(ReasoningEffort::Max))]
        } else {
            seq![set]
        },
        None => seq![set],
    }
}

pub(crate) fn level_actions(path: &str, level: Option<String>) -> (r: Vec<Action>)
    ensures
        r.deep_view() == leveled(path@, level.deep_view()),
{
    let effort = match &level {
        Some(l) => parse_reasoning_effort(l.as_str()),
        None => None,
    };
    let ghost asked = level.deep_view();
    let mut out: Vec<Action> = Vec::new();
    out.push(Action::SetThinkingLevel(level));
    match effort {
        Some(e) => {
            out.push(sidecar_action(path, SidecarUpdate::Effort(e)));
        },
        None => {},
    }
    assert(out.deep_view() =~= leveled(path@, asked));
    out
}

// ---------------------------------------------------------------------------
// The idle actor
// ---------------------------------------------------------------------------

impl ActorState {
    /// The state of a new thread.
    pub fn new(model: Option<Model>, initial_path: Option<String>, goals: bool) -> (r: Self)
        ensures
            r.deep_view() == (ActorStateView {
                running: false,
                model: model.deep_view(),
                active_path: initial_path.deep_view(),
                plan: PlanSessionStateView {
                    enabled: false,
                    plan_file: None,
                    active_instructions: None,
                },
                worktree: None,
                title: TitleSchedulerStateView {
                    title: None,
                    in_flight: false,
                    rerun: None,
                    generation: 0,
                },
                session_start_fired: false,
                goals,
                run_steers: seq![],
                shutdown_after_run: false,
                pending_ui_notes: seq![],
                pending_browser_suite: None,
                pending_session_cmds: seq![],
            }),
    {
        let r = ActorState {
            running: false,
            model,
            active_path: initial_path,
            plan: PlanSessionState::new(),
            worktree: None,
            title: TitleSchedulerState::default(),
            session_start_fired: false,
            goals,
            run_steers: Vec::new(),
            shutdown_after_run: false,
            pending_ui_notes: Vec::new(),
            pending_browser_suite: None,
            pending_session_cmds: Vec::new(),
        };
        assert(r.run_steers.deep_view() =~= seq![]);
        assert(r.pending_ui_notes.deep_view() =~= seq![]);
        assert(r.pending_session_cmds.deep_view() =~= seq![]);
        r
    }
}

pub open spec fn stored_notes(notes: Seq<UiNoteRecordView>) -> Seq<ActionView> {
    Seq::new(notes.len(), |i: int| ActionView::PersistNote(notes[i]))
}

pub open spec fn requeued(cmds: Seq<SessionCmdView>) -> Seq<ActionView> {
    Seq::new(cmds.len(), |i: int| ActionView::Requeue(cmds[i]))
}

/// What was parked, in order: cards, the suite, then the commands.
pub open spec fn parked_work(state: ActorStateView) -> Seq<ActionView> {
    let suite = match state.pending_browser_suite {
        Some(s) => seq![ActionView::ApplyBrowserSuite { suite: s.0, enable: s.1 }],
        None => seq![],
    };
    stored_notes(state.pending_ui_notes) + suite + requeued(state.pending_session_cmds)
}

pub(crate) fn note_actions(notes: Vec<UiNoteRecord>) -> (r: Vec<Action>)
    ensures
        r.deep_view() == stored_notes(notes.deep_view()),
{
    let ghost wanted = stored_notes(notes.deep_view());
    let mut out: Vec<Action> = Vec::new();
    for i in 0..notes.len()
        invariant
            wanted == stored_notes(notes.deep_view()),
            out.deep_view() == wanted.take(i as int),
    {
        let ghost before = out.deep_view();
        let a = Action::PersistNote(notes[i].clone());
        out.push(a);
        assert(a.deep_view() == wanted[i as int]);
        assert(out.deep_view() =~= before.push(wanted[i as int]));
        assert(out.deep_view() =~= wanted.take(i + 1));
    }
    assert(out.deep_view() =~= wanted);
    out
}

fn requeue_all(cmds: Vec<SessionCmd>) -> (r: Vec<Action>)
    ensures
        r.deep_view() == requeued(cmds.deep_view()),
{
    let ghost wanted = requeued(cmds.deep_view());
    let ghost given = cmds.deep_view();
    let mut rest = cmds;
    let mut back: Vec<Action> = Vec::new();
    let n: usize = rest.len();
    assert(given.take(n as int) =~= given);
    // Taken from the end, so that the vector need not shift.
    while rest.len() > 0
        invariant
            given.len() == n,
            rest@.len() + back@.len() == n,
            rest.deep_view() == given.take(rest@.len() as int),
            forall|k: int|
                0 <= k < back@.len() ==> (#[trigger] back@[k]).deep_view() == ActionView::Requeue(
                    given[n - 1 - k],
                ),
        decreases rest@.len(),
    {
        let ghost len = rest@.len();
        let ghost before = rest.deep_view();
        let last = rest.pop();
        match last {
            Some(c) => {
                assert(c.deep_view() == before[len - 1]);
                back.push(Action::Requeue(c));
                assert(rest.deep_view() =~= given.take(len - 1));
            },
            None => {},
        }
    }
    let mut out: Vec<Action> = Vec::new();
    while back.len() > 0
        invariant
            given.len() == n,
            back@.len() + out@.len() == n,
            wanted == requeued(given),
            out.deep_view() == wanted.take(out@.len() as int),
            forall|k: int|
                0 <= k < back@.len() ==> (#[trigger] back@[k]).deep_view() == ActionView::Requeue(
                    given[n - 1 - k],
                ),
        decreases back@.len(),
    {
        let ghost len = back@.len();
        let ghost before = out.deep_view();
        let ghost done = out@.len();
        let ghost old_back = back@;
        let last = back.pop();
        match last {
            Some(a) => {
                assert(a == old_back[len - 1]);
                assert(a.deep_view() == wanted[done as int]);
                out.push(a);
                assert(out.deep_view() =~= before.push(wanted[done as int]));
                assert(out.deep_view() =~= wanted.take(done as int + 1));
                assert forall|k: int| 0 <= k < back@.len() implies (
                #[trigger] back@[k]).deep_view() == ActionView::Requeue(given[n - 1 - k]) by {
                    assert(back@[k] == old_back[k]);
                }
            },
            None => {},
        }
    }
    assert(out.deep_view() =~= wanted);
    out
}

impl ActorState {
    /// Takes up what was parked during the last run.
    pub fn take_parked(&mut self) -> (r: Vec<Action>)
        ensures
            r.deep_view() == parked_work(old(self).deep_view()),
            final(self).deep_view() == (ActorStateView {
                pending_ui_notes: seq![],
                pending_browser_suite: None,
                pending_session_cmds: seq![],
                ..old(self).deep_view()
            }),
    {
        let ghost before = self.deep_view();
        let mut notes: Vec<UiNoteRecord> = Vec::new();
        std::mem::swap(&mut notes, &mut self.pending_ui_notes);
        let mut cmds: Vec<SessionCmd> = Vec::new();
        std::mem::swap(&mut cmds, &mut self.pending_session_cmds);
        let suite = self.pending_browser_suite;
        self.pending_browser_suite = None;
        let mut out = note_actions(notes);
        let ghost first = out.deep_view();
        match suite {
            Some(s) => {
                out.push(Action::ApplyBrowserSuite { suite: s.0, enable: s.1 });
            },
            None => {},
        }
        let ghost second = out.deep_view();
        let mut requeued_cmds = requeue_all(cmds);
        let ghost third = requeued_cmds.deep_view();
        out.append(&mut requeued_cmds);
        assert(out.deep_view() =~= second + third);
        assert(out.deep_view() =~= parked_work(before));
        assert(self.pending_ui_notes.deep_view() =~= seq![]);
        assert(self.pending_session_cmds.deep_view() =~= seq![]);
        out
    }

    /// Takes a wakeup: what was steered while idle resumes the run.
    pub fn on_wakeup(&mut self, steering_empty: bool) -> (r: Vec<Action>)
        ensures
            r.deep_view() == if steering_empty {
                seq![]
            } else {
                seq![event(ThreadEventView::TurnStarted), ActionView::Run(RunKindView::Continue)]
            },
            final(self).deep_view() == (ActorStateView {
                running: old(self).deep_view().running || !steering_empty,
                ..old(self).deep_view()
            }),
    {
        let mut out: Vec<Action> = Vec::new();
        if !steering_empty {
            self.running = true;
            out.push(event_action(ThreadEvent::TurnStarted));
            out.push(Action::Run(RunKind::Continue));
            assert(out.deep_view() =~= seq![
                event(ThreadEventView::TurnStarted),
                ActionView::Run(RunKindView::Continue),
            ]);
        } else {
            assert(out.deep_view() =~= seq![]);
        }
        out
    }
}

// ---------------------------------------------------------------------------
// Commands between runs
// ---------------------------------------------------------------------------

pub open spec fn start_payload(cwd: Seq<char>) -> JsonView {
    JsonView::Object(seq![("cwd"@, JsonView::Str(cwd))])
}

/// Whether a stored snapshot retires the plan: it is gone, empty, or done.
pub open spec fn retires_plan(snapshot: Option<JsonView>) -> bool {
    match snapshot {
        None => true,
        Some(j) => match decoded_snapshot(j) {
            Some(s) => s.plan.len() == 0 || all_done(s.plan),
            None => false,
        },
    }
}

/// Switch to the session in `path`, which runs in `cwd`.
pub open spec fn switched(path: Seq<char>, cwd: Seq<char>) -> Seq<ActionView> {
    seq![
        ActionView::OpenSession { path },
        ActionView::RetargetTitle { path, cwd },
        ActionView::Subscribe { path },
        ActionView::ResyncPlan { path },
    ]
}

/// The state after a command.
pub open spec fn after(state: ActorStateView, cmd: SessionCmdView, ctx: ActorContextView) -> ActorStateView {
    match cmd {
        SessionCmdView::Prompt { .. } => ActorStateView {
            running: true,
            session_start_fired: true,
            ..state
        },
        SessionCmdView::Steer { id, .. } => ActorStateView {
            run_steers: state.run_steers.push(id),
            ..state
        },
        SessionCmdView::SetModel(m) => ActorStateView { model: Some(m), ..state },
        SessionCmdView::SetPlanMode { enabled } => ActorStateView {
            plan: PlanSessionStateView {
                enabled,
                plan_file: if enabled {
                    state.plan.plan_file
                } else {
                    None
                },
                active_instructions: if enabled {
                    ctx.instructions
                } else {
                    None
                },
            },
            ..state
        },
        SessionCmdView::PersistPlanSnapshot(s) => if retires_plan(s) {
            ActorStateView {
                plan: PlanSessionStateView { plan_file: None, ..state.plan },
                ..state
            }
        } else {
            state
        },
        SessionCmdView::SetInitialTitle(t) => if state.title.title is None {
            ActorStateView {
                title: TitleSchedulerStateView { title: Some(t), ..state.title },
                ..state
            }
        } else {
            state
        },
        SessionCmdView::StartPlanExecution(file) => ActorStateView {
            plan: state.plan.switched(false, Some(file)),
            ..state
        },
        SessionCmdView::GoalGate => ActorStateView { running: true, ..state },
        SessionCmdView::ApprovePlan { compact, .. } => ActorStateView {
            plan: state.plan.switched(false, state.plan.plan_file),
            running: state.running || !compact,
            ..state
        },
        SessionCmdView::Open { path } => ActorStateView {
            active_path: Some(path),
            session_start_fired: true,
            ..state
        },
        SessionCmdView::ExitWorktree => match state.worktree {
            Some(w) => ActorStateView {
                active_path: Some(w.original_session_path),
                ..state
            },
            None => state,
        },
        _ => state,
    }
}

/// The work that a command asks for.
pub open spec fn work(state: ActorStateView, cmd: SessionCmdView, ctx: ActorContextView) -> Seq<
    ActionView,
> {
    let here = ctx.session_path;
    match cmd {
        SessionCmdView::Prompt { text, images } => {
            let run = ActionView::Run(RunKindView::Prompt { text, images });
            if state.session_start_fired {
                seq![run]
            } else {
                seq![
                    ActionView::FireHook {
                        event: HookEvent::SessionStart,
                        payload: start_payload(ctx.cwd),
                    },
                    run,
                ]
            }
        },
        SessionCmdView::Steer { text, images, .. } => seq![steered(text, images)],
        SessionCmdView::CancelSteer(id) => seq![ActionView::CancelSteer(id)],
        SessionCmdView::Abort => seq![ActionView::Abort],
        SessionCmdView::SetModel(m) => seq![ActionView::SetModel(m)],
        SessionCmdView::SetThinkingLevel(level) => leveled(here, level),
        SessionCmdView::SetPermissionMode(mode) => seq![
            ActionView::SetPermissionMode(mode),
            sidecar(here, SidecarUpdateView::ApprovalMode(mode)),
        ],
        SessionCmdView::SetBrowserSuite { suite, enable } => seq![
            ActionView::ApplyBrowserSuite { suite, enable },
        ],
        SessionCmdView::SetPlanMode { enabled } => seq![
            plan_stored(here, after(state, cmd, ctx).plan),
            event(ThreadEventView::PlanModeChanged { enabled }),
        ],
        SessionCmdView::SetPlanReviewPending(pending) => seq![
            plan_stored(here, state.plan),
            sidecar(here, SidecarUpdateView::PlanReviewPending(pending)),
        ],
        SessionCmdView::PersistPlanSnapshot(s) => {
            let store = sidecar(here, SidecarUpdateView::PlanSnapshot(s));
            if retires_plan(s) {
                seq![plan_stored(here, after(state, cmd, ctx).plan), store]
            } else {
                seq![store]
            }
        },
        SessionCmdView::SetInitialTitle(title) => if state.title.title is None {
            seq![ActionView::PersistTitle { path: here, title }]
        } else {
            seq![]
        },
        SessionCmdView::PersistGeneratedTitle { session_path, title } => if same_file(
            here,
            session_path,
        ) {
            seq![ActionView::PersistTitle { path: session_path, title }]
        } else {
            seq![]
        },
        SessionCmdView::StartPlanExecution(_) => seq![
            plan_stored(here, after(state, cmd, ctx).plan),
            ActionView::WakeTitle(TitleWakeReason::PlanStarted),
        ],
        SessionCmdView::GoalStarted => seq![ActionView::WakeTitle(TitleWakeReason::GoalStarted)],
        SessionCmdView::GoalGate => if state.running {
            seq![]
        } else {
            seq![event(ThreadEventView::TurnStarted), ActionView::Run(RunKindView::Rounds)]
        },
        SessionCmdView::ApprovePlan { compact, compact_instructions, seed_text } => {
            let left = seq![
                ActionView::WakeTitle(TitleWakeReason::PlanStarted),
                plan_stored(here, after(state, cmd, ctx).plan),
                event(ThreadEventView::PlanModeChanged { enabled: false }),
            ];
            if compact {
                left.push(
                    ActionView::Compact {
                        instructions: compact_instructions,
                        purpose: CompactPurposeView::Approval { seed_text },
                    },
                )
            } else {
                left + seeded(seed_text)
            }
        },
        SessionCmdView::Compact { custom_instructions } => seq![
            ActionView::Compact {
                instructions: custom_instructions,
                purpose: CompactPurposeView::Manual,
            },
        ],
        SessionCmdView::Open { path } => switched(path, ctx.cwd) + seq![
            ActionView::ResyncWorktree { path },
            ActionView::SetActive { session_id: file_stem_of(path) },
            ActionView::ResyncApprovalMode,
        ] + resynced(),
        SessionCmdView::EnterWorktree {
            worktree_path,
            branch,
            original_cwd,
            git_common_dir,
        } => match state.active_path {
            Some(source) => seq![
                ActionView::Fork {
                    source,
                    worktree: WorktreeMetaView {
                        worktree_path,
                        branch,
                        original_session_path: source,
                        original_cwd,
                        git_common_dir,
                    },
                },
            ],
            None => seq![event(ThreadEventView::Error("enter_worktree: no active session"@))],
        },
        SessionCmdView::ExitWorktree => match state.worktree {
            Some(w) => switched(w.original_session_path, w.original_cwd) + seq![
                sidecar(w.original_session_path, SidecarUpdateView::Worktree(None)),
                ActionView::ResyncWorktree { path: w.original_session_path },
                ActionView::SetActive { session_id: file_stem_of(w.original_session_path) },
                ActionView::ResyncApprovalMode,
            ] + resynced(),
            None => seq![],
        },
        SessionCmdView::NewSession { cwd, project } => seq![
            ActionView::BuildSession { cwd, project },
        ],
        SessionCmdView::AppendUiNote(record) => seq![ActionView::AppendNote(record)],
        SessionCmdView::Shutdown => seq![ActionView::Exit { close: true }],
    }
}

/// Start the seed turn of an approved plan.
pub open spec fn seeded(seed_text: Seq<char>) -> Seq<ActionView> {
    seq![
        event(ThreadEventView::TurnStarted),
        ActionView::Run(RunKindView::Seed { text: seed_text }),
    ]
}

fn push_switch(out: &mut Vec<Action>, path: &str, cwd: &str)
    ensures
        final(out).deep_view() == old(out).deep_view() + switched(path@, cwd@),
{
    let ghost before = out.deep_view();
    out.push(Action::OpenSession { path: path.to_owned() });
    out.push(Action::RetargetTitle { path: path.to_owned(), cwd: cwd.to_owned() });
    out.push(Action::Subscribe { path: path.to_owned() });
    out.push(Action::ResyncPlan { path: path.to_owned() });
    assert(out.deep_view() =~= before + switched(path@, cwd@));
}

fn push_seed(out: &mut Vec<Action>, seed_text: String)
    ensures
        final(out).deep_view() == old(out).deep_view() + seeded(seed_text@),
{
    let ghost before = out.deep_view();
    out.push(event_action(ThreadEvent::TurnStarted));
    out.push(Action::Run(RunKind::Seed { text: seed_text }));
    assert(out.deep_view() =~= before + seeded(seed_text@));
}

fn retires(snapshot: &Option<Json>) -> (r: bool)
    ensures
        r == retires_plan(snapshot.deep_view()),
{
    match snapshot {
        None => true,
        Some(j) => match decode_snapshot(j) {
            Some(s) => s.is_empty() || s.all_completed(),
            None => false,
        },
    }
}

impl ActorState {
    fn on_prompt(&mut self, text: String, images: Vec<ContentBlock>, ctx: &ActorContext) -> (r: Vec<
        Action,
    >)
        ensures
            ({
                let cmd = SessionCmdView::Prompt { text: text@, images: images.deep_view() };
                &&& r.deep_view() == work(old(self).deep_view(), cmd, ctx.deep_view())
                &&& final(self).deep_view() == after(old(self).deep_view(), cmd, ctx.deep_view())
            }),
    {
        let mut out: Vec<Action> = Vec::new();
        if !self.session_start_fired {
            let mut es: Vec<(String, Json)> = Vec::new();
            es.push(("cwd".to_owned(), jstr(ctx.cwd.as_str())));
            assert(entry_models(es@) =~= seq![("cwd"@, JsonView::Str(ctx.cwd@))]);
            let payload = jobj(es);
            out.push(Action::FireHook { event: HookEvent::SessionStart, payload });
        }
        self.session_start_fired = true;
        self.running = true;
        out.push(Action::Run(RunKind::Prompt { text, images }));
        assert(out.deep_view() =~= work(
            old(self).deep_view(),
            SessionCmdView::Prompt { text: text@, images: images.deep_view() },
            ctx.deep_view(),
        ));
        out
    }

    fn on_set_plan_mode(&mut self, enabled: bool, ctx: &ActorContext) -> (r: Vec<Action>)
        ensures
            ({
                let cmd = SessionCmdView::SetPlanMode { enabled };
                &&& r.deep_view() == work(old(self).deep_view(), cmd, ctx.deep_view())
                &&& final(self).deep_view() == after(old(self).deep_view(), cmd, ctx.deep_view())
            }),
    {
        let plan_file = if enabled {
            self.plan.plan_file()
        } else {
            None
        };
        let instructions = if enabled {
            clone_opt_string(&ctx.instructions)
        } else {
            None
        };
        self.plan = PlanSessionState { enabled, plan_file, active_instructions: instructions };
        let mut out: Vec<Action> = Vec::new();
        out.push(sidecar_action(ctx.session_path.as_str(), plan_update(&self.plan)));
        out.push(event_action(ThreadEvent::PlanModeChanged { enabled }));
        assert(out.deep_view() =~= work(
            old(self).deep_view(),
            SessionCmdView::SetPlanMode { enabled },
            ctx.deep_view(),
        ));
        out
    }

    fn on_persist_snapshot(&mut self, snapshot: Option<Json>, ctx: &ActorContext) -> (r: Vec<
        Action,
    >)
        ensures
            ({
                let cmd = SessionCmdView::PersistPlanSnapshot(snapshot.deep_view());
                &&& r.deep_view() == work(old(self).deep_view(), cmd, ctx.deep_view())
                &&& final(self).deep_view() == after(old(self).deep_view(), cmd, ctx.deep_view())
            }),
    {
        let mut out: Vec<Action> = Vec::new();
        if retires(&snapshot) {
            self.plan.plan_file = None;
            out.push(sidecar_action(ctx.session_path.as_str(), plan_update(&self.plan)));
        }
        out.push(sidecar_action(ctx.session_path.as_str(), SidecarUpdate::PlanSnapshot(snapshot)));
        assert(out.deep_view() =~= work(
            old(self).deep_view(),
            SessionCmdView::PersistPlanSnapshot(snapshot.deep_view()),
            ctx.deep_view(),
        ));
        out
    }

    fn on_start_execution(&mut self, plan_file: String, ctx: &ActorContext) -> (r: Vec<Action>)
        ensures
            ({
                let cmd = SessionCmdView::StartPlanExecution(plan_file@);
                &&& r.deep_view() == work(old(self).deep_view(), cmd, ctx.deep_view())
                &&& final(self).deep_view() == after(old(self).deep_view(), cmd, ctx.deep_view())
            }),
    {
        self.plan.enabled = false;
        self.plan.plan_file = Some(plan_file);
        self.plan.active_instructions = None;
        let mut out: Vec<Action> = Vec::new();
        out.push(sidecar_action(ctx.session_path.as_str(), plan_update(&self.plan)));
        out.push(Action::WakeTitle(TitleWakeReason::PlanStarted));
        assert(out.deep_view() =~= work(
            old(self).deep_view(),
            SessionCmdView::StartPlanExecution(plan_file@),
            ctx.deep_view(),
        ));
        out
    }

    fn on_approve_plan(
        &mut self,
        compact: bool,
        compact_instructions: Option<String>,
        seed_text: String,
        ctx: &ActorContext,
    ) -> (r: Vec<Action>)
        ensures
            ({
                let cmd = SessionCmdView::ApprovePlan {
                    compact,
                    compact_instructions: compact_instructions.deep_view(),
                    seed_text: seed_text@,
                };
                &&& r.deep_view() == work(old(self).deep_view(), cmd, ctx.deep_view())
                &&& final(self).deep_view() == after(old(self).deep_view(), cmd, ctx.deep_view())
            }),
    {
        let ghost cmd = SessionCmdView::ApprovePlan {
            compact,
            compact_instructions: compact_instructions.deep_view(),
            seed_text: seed_text@,
        };
        self.plan.enabled = false;
        self.plan.active_instructions = None;
        let mut out: Vec<Action> = Vec::new();
        out.push(Action::WakeTitle(TitleWakeReason::PlanStarted));
        out.push(sidecar_action(ctx.session_path.as_str(), plan_update(&self.plan)));
        out.push(event_action(ThreadEvent::PlanModeChanged { enabled: false }));
        if compact {
            out.push(
                Action::Compact {
                    instructions: compact_instructions,
                    purpose: CompactPurpose::Approval { seed_text },
                },
            );
        } else {
            self.running = true;
            push_seed(&mut out, seed_text);
        }
        assert(out.deep_view() =~= work(old(self).deep_view(), cmd, ctx.deep_view()));
        out
    }

    fn on_open(&mut self, path: String, ctx: &ActorContext) -> (r: Vec<Action>)
        ensures
            ({
                let cmd = SessionCmdView::Open { path: path@ };
                &&& r.deep_view() == work(old(self).deep_view(), cmd, ctx.deep_view())
                &&& final(self).deep_view() == after(old(self).deep_view(), cmd, ctx.deep_view())
            }),
    {
        let mut out: Vec<Action> = Vec::new();
        push_switch(&mut out, path.as_str(), ctx.cwd.as_str());
        out.push(Action::ResyncWorktree { path: path.clone() });
        out.push(Action::SetActive { session_id: file_stem(path.as_str()) });
        out.push(Action::ResyncApprovalMode);
        push_resync(&mut out);
        assert(out.deep_view() =~= work(
            old(self).deep_view(),
            SessionCmdView::Open { path: path@ },
            ctx.deep_view(),
        ));
        self.active_path = Some(path);
        self.session_start_fired = true;
        out
    }

    fn on_exit_worktree(&mut self, ctx: &ActorContext) -> (r: Vec<Action>)
        ensures
            r.deep_view() == work(
                old(self).deep_view(),
                SessionCmdView::ExitWorktree,
                ctx.deep_view(),
            ),
            final(self).deep_view() == after(
                old(self).deep_view(),
                SessionCmdView::ExitWorktree,
                ctx.deep_view(),
            ),
    {
        let mut out: Vec<Action> = Vec::new();
        let meta = match &self.worktree {
            Some(w) => w.clone(),
            None => {
                assert(out.deep_view() =~= seq![]);
                return out;
            },
        };
        let path = meta.original_session_path;
        push_switch(&mut out, path.as_str(), meta.original_cwd.as_str());
        out.push(sidecar_action(path.as_str(), SidecarUpdate::Worktree(None)));
        out.push(Action::ResyncWorktree { path: path.clone() });
        out.push(Action::SetActive { session_id: file_stem(path.as_str()) });
        out.push(Action::ResyncApprovalMode);
        push_resync(&mut out);
        assert(out.deep_view() =~= work(
            old(self).deep_view(),
            SessionCmdView::ExitWorktree,
            ctx.deep_view(),
        ));
        self.active_path = Some(path);
        out
    }

    /// Takes a command between runs.
    pub fn on_command(&mut self, cmd: SessionCmd, ctx: &ActorContext) -> (r: Vec<Action>)
        ensures
            r.deep_view() == work(old(self).deep_view(), cmd.deep_view(), ctx.deep_view()),
            final(self).deep_view() == after(
                old(self).deep_view(),
                cmd.deep_view(),
                ctx.deep_view(),
            ),
    {
        match cmd {
            SessionCmd::Prompt { text, images } => self.on_prompt(text, images, ctx),
            SessionCmd::SetPlanMode { enabled } => self.on_set_plan_mode(enabled, ctx),
            SessionCmd::PersistPlanSnapshot(s) => self.on_persist_snapshot(s, ctx),
            SessionCmd::StartPlanExecution(file) => self.on_start_execution(file, ctx),
            SessionCmd::ApprovePlan { compact, compact_instructions, seed_text } => {
                self.on_approve_plan(compact, compact_instructions, seed_text, ctx)
            },
            SessionCmd::Open { path } => self.on_open(path, ctx),
            SessionCmd::ExitWorktree => self.on_exit_worktree(ctx),
            SessionCmd::SetThinkingLevel(level) => level_actions(ctx.session_path.as_str(), level),
            other => self.on_short_command(other, ctx),
        }
    }

    fn on_short_command(&mut self, cmd: SessionCmd, ctx: &ActorContext) -> (r: Vec<Action>)
        requires
            !(cmd is Prompt || cmd is SetPlanMode || cmd is PersistPlanSnapshot
                || cmd is StartPlanExecution || cmd is ApprovePlan || cmd is Open
                || cmd is ExitWorktree || cmd is SetThinkingLevel),
        ensures
            r.deep_view() == work(old(self).deep_view(), cmd.deep_view(), ctx.deep_view()),
            final(self).deep_view() == after(
                old(self).deep_view(),
                cmd.deep_view(),
                ctx.deep_view(),
            ),
    {
        let ghost c = cmd.deep_view();
        let mut out: Vec<Action> = Vec::new();
        let here = ctx.session_path.as_str();
        match cmd {
            SessionCmd::Steer { id, text, images } => {
                out.push(steer_action(text, images));
                let ghost before = self.run_steers.deep_view();
                self.run_steers.push(id);
                assert(self.run_steers.deep_view() =~= before.push(id@));
            },
            SessionCmd::CancelSteer(id) => {
                out.push(Action::CancelSteer(id));
            },
            SessionCmd::Abort => {
                out.push(Action::Abort);
            },
            SessionCmd::SetModel(m) => {
                out.push(Action::SetModel(m.clone()));
                self.model = Some(m);
            },
            SessionCmd::SetPermissionMode(mode) => {
                out.push(Action::SetPermissionMode(mode));
                out.push(sidecar_action(here, SidecarUpdate::ApprovalMode(mode)));
            },
            SessionCmd::SetBrowserSuite { suite, enable } => {
                out.push(Action::ApplyBrowserSuite { suite, enable });
            },
            SessionCmd::SetPlanReviewPending(pending) => {
                out.push(sidecar_action(here, plan_update(&self.plan)));
                out.push(sidecar_action(here, SidecarUpdate::PlanReviewPending(pending)));
            },
            SessionCmd::SetInitialTitle(title) => {
                if self.title.set_initial(title.as_str()) {
                    out.push(Action::PersistTitle { path: here.to_owned(), title });
                }
            },
            SessionCmd::PersistGeneratedTitle { session_path, title } => {
                if is_same_file(here, session_path.as_str()) {
                    out.push(Action::PersistTitle { path: session_path, title });
                }
            },
            SessionCmd::GoalStarted => {
                out.push(Action::WakeTitle(TitleWakeReason::GoalStarted));
            },
            SessionCmd::GoalGate => {
                if !self.running {
                    self.running = true;
                    out.push(event_action(ThreadEvent::TurnStarted));
                    out.push(Action::Run(RunKind::Rounds));
                }
            },
            SessionCmd::Compact { custom_instructions } => {
                out.push(
                    Action::Compact {
                        instructions: custom_instructions,
                        purpose: CompactPurpose::Manual,
                    },
                );
            },
            SessionCmd::EnterWorktree { worktree_path, branch, original_cwd, git_common_dir } => {
                match &self.active_path {
                    Some(source) => {
                        let worktree = WorktreeMeta {
                            worktree_path,
                            branch,
                            original_session_path: source.clone(),
                            original_cwd,
                            git_common_dir,
                        };
                        out.push(Action::Fork { source: source.clone(), worktree });
                    },
                    None => {
                        out.push(
                            event_action(
                                ThreadEvent::Error("enter_worktree: no active session".to_owned()),
                            ),
                        );
                    },
                }
            },
            SessionCmd::NewSession { cwd, project } => {
                out.push(Action::BuildSession { cwd, project });
            },
            SessionCmd::AppendUiNote(record) => {
                out.push(Action::AppendNote(record));
            },
            SessionCmd::Shutdown => {
                out.push(Action::Exit { close: true });
            },
            _ => {},
        }
        assert(out.deep_view() =~= work(old(self).deep_view(), c, ctx.deep_view()));
        assert(self.deep_view() =~= after(old(self).deep_view(), c, ctx.deep_view()));
        out
    }
}

// ---------------------------------------------------------------------------
// Outcomes of the work
// ---------------------------------------------------------------------------

/// How a compaction ended.
#[derive(Debug, PartialEq, Eq)]
pub enum CompactOutcome {
    Compacted,
    NothingToCompact,
    Failed(String),
}

impl ActorState {
    /// Takes the end of a compaction. The transcript was rebuilt, so everything
    /// is mirrored again; where the user asked for it, the display forms of prompts,
    /// which no longer match, go first. The seed turn of an approved plan runs
    /// whatever became of it.
    pub fn on_compacted(
        &mut self,
        purpose: CompactPurpose,
        outcome: CompactOutcome,
        ctx: &ActorContext,
    ) -> (r: Vec<Action>)
        ensures
            r.deep_view() == match purpose {
                CompactPurpose::Manual => match outcome {
                    CompactOutcome::Compacted => seq![
                        sidecar(ctx.session_path@, SidecarUpdateView::ClearChrome),
                    ] + resynced(),
                    CompactOutcome::NothingToCompact => seq![],
                    CompactOutcome::Failed(e) => seq![event(ThreadEventView::Error(e@))],
                },
                CompactPurpose::Approval { seed_text } => if outcome is Compacted {
                    resynced() + seeded(seed_text@)
                } else {
                    seeded(seed_text@)
                },
            },
            final(self).deep_view() == (ActorStateView {
                running: old(self).deep_view().running || purpose is Approval,
                ..old(self).deep_view()
            }),
    {
        let mut out: Vec<Action> = Vec::new();
        assert(out.deep_view() =~= seq![]);
        match purpose {
            CompactPurpose::Manual => {
                match outcome {
                    CompactOutcome::Compacted => {
                        out.push(
                            sidecar_action(ctx.session_path.as_str(), SidecarUpdate::ClearChrome),
                        );
                        assert(out.deep_view() =~= seq![
                            sidecar(ctx.session_path@, SidecarUpdateView::ClearChrome),
                        ]);
                        push_resync(&mut out);
                    },
                    CompactOutcome::NothingToCompact => {},
                    CompactOutcome::Failed(e) => {
                        out.push(event_action(ThreadEvent::Error(e)));
                        assert(out.deep_view() =~= seq![event(ThreadEventView::Error(e@))]);
                    },
                }
            },
            CompactPurpose::Approval { seed_text } => {
                match outcome {
                    CompactOutcome::Compacted => {
                        push_resync(&mut out);
                        assert(out.deep_view() =~= resynced());
                    },
                    _ => {},
                }
                self.running = true;
                push_seed(&mut out, seed_text);
                assert(seq![] + seeded(seed_text@) =~= seeded(seed_text@));
            },
        }
        out
    }

    /// Takes the end of a fork into a worktree. The worktree has to be known
    /// before the fork is opened: the tools of the session are confined by it.
    pub fn on_forked(
        &mut self,
        source: String,
        worktree: WorktreeMeta,
        fork: Result<String, String>,
    ) -> (r: Vec<Action>)
        ensures
            match fork {
                Ok(path) => {
                    &&& r.deep_view() == seq![
                        ActionView::SetActive { session_id: file_stem_of(path@) },
                        ActionView::SeedFork {
                            source: source@,
                            fork: path@,
                            worktree: worktree.deep_view(),
                        },
                        ActionView::ResyncWorktree { path: path@ },
                    ] + switched(path@, worktree.worktree_path@) + seq![
                        ActionView::ResyncApprovalMode,
                    ] + resynced()
                    &&& final(self).deep_view() == (ActorStateView {
                        active_path: Some(path@),
                        ..old(self).deep_view()
                    })
                },
                Err(e) => {
                    &&& r.deep_view() == seq![
                        event(ThreadEventView::Error("enter_worktree fork failed: "@ + e@)),
                    ]
                    &&& final(self).deep_view() == old(self).deep_view()
                },
            },
    {
        let mut out: Vec<Action> = Vec::new();
        match fork {
            Ok(path) => {
                let cwd = worktree.worktree_path.clone();
                let ghost meta = worktree.deep_view();
                out.push(Action::SetActive { session_id: file_stem(path.as_str()) });
                out.push(Action::SeedFork { source, fork: path.clone(), worktree });
                out.push(Action::ResyncWorktree { path: path.clone() });
                let ghost first = seq![
                    ActionView::SetActive { session_id: file_stem_of(path@) },
                    ActionView::SeedFork { source: source@, fork: path@, worktree: meta },
                    ActionView::ResyncWorktree { path: path@ },
                ];
                assert(out.deep_view() =~= first);
                push_switch(&mut out, path.as_str(), cwd.as_str());
                out.push(Action::ResyncApprovalMode);
                assert(out.deep_view() =~= first + switched(path@, cwd@) + seq![
                    ActionView::ResyncApprovalMode,
                ]);
                push_resync(&mut out);
                self.active_path = Some(path);
            },
            Err(e) => {
                let mut text = "enter_worktree fork failed: ".to_owned();
                text.append(e.as_str());
                out.push(event_action(ThreadEvent::Error(text)));
                assert(out.deep_view() =~= seq![
                    event(ThreadEventView::Error("enter_worktree fork failed: "@ + e@)),
                ]);
            },
        }
        out
    }

    /// Takes the end of an open: the session brings its own model along.
    pub fn on_opened(&mut self, opened: Result<Model, String>) -> (r: Vec<Action>)
        ensures
            match opened {
                Ok(m) => {
                    &&& r.deep_view() == Seq::<ActionView>::empty()
                    &&& final(self).deep_view() == (ActorStateView {
                        model: Some(m.deep_view()),
                        ..old(self).deep_view()
                    })
                },
                Err(e) => {
                    &&& r.deep_view() == seq![
                        ActionView::Notice(
                            BackendNoticeView::Fatal("pi session open failed: "@ + e@),
                        ),
                    ]
                    &&& final(self).deep_view() == old(self).deep_view()
                },
            },
    {
        let mut out: Vec<Action> = Vec::new();
        match opened {
            Ok(m) => {
                self.model = Some(m);
                assert(out.deep_view() =~= Seq::<ActionView>::empty());
            },
            Err(e) => {
                let mut text = "pi session open failed: ".to_owned();
                text.append(e.as_str());
                out.push(Action::Notice(BackendNotice::Fatal(text)));
                assert(out.deep_view() =~= seq![
                    ActionView::Notice(BackendNoticeView::Fatal("pi session open failed: "@ + e@)),
                ]);
            },
        }
        out
    }

    /// Takes the end of the creation of a fresh session in `path`. It inherits
    /// neither plan mode nor a worktree, and has yet to start in the eyes of the
    /// plugins.
    pub fn on_built(
        &mut self,
        cwd: String,
        project: Option<String>,
        built: Result<String, String>,
        ctx: &ActorContext,
    ) -> (r: Vec<Action>)
        ensures
            match built {
                Ok(path) => {
                    &&& r.deep_view() == seq![
                        event(ThreadEventView::WorktreeChanged { active: false, path: None }),
                        ActionView::SetActive { session_id: ctx.thread_id@ },
                        ActionView::RetargetTitle { path: path@, cwd: cwd@ },
                        ActionView::Subscribe { path: path@ },
                    ] + match project {
                        Some(p) => seq![sidecar(path@, SidecarUpdateView::Project(p@))],
                        None => seq![],
                    } + seq![ActionView::ResyncApprovalMode] + resynced()
                    &&& final(self).deep_view() == (ActorStateView {
                        active_path: Some(path@),
                        plan: PlanSessionStateView {
                            enabled: false,
                            plan_file: None,
                            active_instructions: None,
                        },
                        worktree: None,
                        session_start_fired: false,
                        ..old(self).deep_view()
                    })
                },
                Err(e) => {
                    &&& r.deep_view() == seq![
                        ActionView::Notice(
                            BackendNoticeView::Fatal("pi session create failed: "@ + e@),
                        ),
                        ActionView::Exit { close: false },
                    ]
                    &&& final(self).deep_view() == old(self).deep_view()
                },
            },
    {
        let mut out: Vec<Action> = Vec::new();
        match built {
            Ok(path) => {
                self.plan = PlanSessionState::new();
                self.worktree = None;
                self.session_start_fired = false;
                out.push(event_action(ThreadEvent::WorktreeChanged { active: false, path: None }));
                out.push(Action::SetActive { session_id: ctx.thread_id.clone() });
                out.push(Action::RetargetTitle { path: path.clone(), cwd });
                out.push(Action::Subscribe { path: path.clone() });
                let ghost first = seq![
                    event(ThreadEventView::WorktreeChanged { active: false, path: None }),
                    ActionView::SetActive { session_id: ctx.thread_id@ },
                    ActionView::RetargetTitle { path: path@, cwd: cwd@ },
                    ActionView::Subscribe { path: path@ },
                ];
                assert(out.deep_view() =~= first);
                match project {
                    Some(p) => {
                        out.push(sidecar_action(path.as_str(), SidecarUpdate::Project(p)));
                    },
                    None => {},
                }
                out.push(Action::ResyncApprovalMode);
                assert(out.deep_view() =~= first + match project {
                    Some(p) => seq![sidecar(path@, SidecarUpdateView::Project(p@))],
                    None => seq![],
                } + seq![ActionView::ResyncApprovalMode]);
                push_resync(&mut out);
                self.active_path = Some(path);
            },
            Err(e) => {
                let mut text = "pi session create failed: ".to_owned();
                text.append(e.as_str());
                out.push(Action::Notice(BackendNotice::Fatal(text)));
                out.push(Action::Exit { close: false });
                assert(out.deep_view() =~= seq![
                    ActionView::Notice(
                        BackendNoticeView::Fatal("pi session create failed: "@ + e@),
                    ),
                    ActionView::Exit { close: false },
                ]);
            },
        }
        out
    }
}

/// The notice after a title was stored, if it was.
pub fn title_persisted(ok: bool) -> (r: Option<BackendNotice>)
    ensures
        r.deep_view() == if ok {
            Some(BackendNoticeView::SessionListDirty)
        } else {
            None
        },
{
    if ok {
        Some(BackendNotice::SessionListDirty)
    } else {
        None
    }
}

/// Shows a card that was stored, and only then.
pub fn note_persisted(mirror: &mut HistoryMirror, record: UiNoteRecord, ok: bool)
    ensures
        if ok {
            shows_note(*old(mirror), *final(mirror), record.deep_view())
        } else {
            *final(mirror) == *old(mirror)
        },
{
    if ok {
        mirror.mirror_ui_note(record);
    }
}

// ---------------------------------------------------------------------------
// What holds of every command
// ---------------------------------------------------------------------------

/// The plugins hear of the start of a session once: a prompt fires the hook only
/// where it has not fired, and after a prompt it has.
pub proof fn the_start_hook_fires_once(
    state: ActorStateView,
    text: Seq<char>,
    images: Seq<ContentBlockView>,
    ctx: ActorContextView,
)
    ensures
        ({
            let cmd = SessionCmdView::Prompt { text, images };
            let next = after(state, cmd, ctx);
            &&& next.session_start_fired
            &&& forall|i: int|
                0 <= i < work(next, cmd, ctx).len() ==> !((#[trigger] work(next, cmd, ctx)[i])
                    is FireHook)
            &&& state.session_start_fired ==> work(state, cmd, ctx) == work(next, cmd, ctx)
        }),
{
}

/// An approved plan is executed outside plan mode: the state is left and stored
/// before anything runs.
pub proof fn an_approved_plan_runs_outside_plan_mode(
    state: ActorStateView,
    compact: bool,
    compact_instructions: Option<Seq<char>>,
    seed_text: Seq<char>,
    ctx: ActorContextView,
)
    ensures
        ({
            let cmd = SessionCmdView::ApprovePlan { compact, compact_instructions, seed_text };
            let next = after(state, cmd, ctx);
            let todo = work(state, cmd, ctx);
            &&& !next.plan.enabled
            &&& next.plan.injected() is None
            &&& next.plan.plan_file == state.plan.plan_file
            &&& todo[1] == plan_stored(ctx.session_path, next.plan)
            &&& forall|i: int| 0 <= i < 3 ==> !((#[trigger] todo[i]) is Run)
        }),
{
    let cmd = SessionCmdView::ApprovePlan { compact, compact_instructions, seed_text };
    let next = after(state, cmd, ctx);
    let left = seq![
        ActionView::WakeTitle(TitleWakeReason::PlanStarted),
        plan_stored(ctx.session_path, next.plan),
        event(ThreadEventView::PlanModeChanged { enabled: false }),
    ];
    let todo = work(state, cmd, ctx);
    assert(todo.take(3) =~= left);
    assert forall|i: int| 0 <= i < 3 implies !((#[trigger] todo[i]) is Run) by {
        assert(todo[i] == todo.take(3)[i]);
    }
    assert(todo[1] == todo.take(3)[1]);
}

/// Leaving a worktree goes back to the session it was entered from, and takes
/// the worktree off that session.
pub proof fn leaving_a_worktree_goes_back(
    state: ActorStateView,
    worktree: WorktreeMetaView,
    ctx: ActorContextView,
)
    requires
        state.worktree == Some(worktree),
    ensures
        ({
            let next = after(state, SessionCmdView::ExitWorktree, ctx);
            let todo = work(state, SessionCmdView::ExitWorktree, ctx);
            &&& next.active_path == Some(worktree.original_session_path)
            &&& todo[0] == (ActionView::OpenSession { path: worktree.original_session_path })
            &&& todo.contains(
                sidecar(worktree.original_session_path, SidecarUpdateView::Worktree(None)),
            )
        }),
{
    let todo = work(state, SessionCmdView::ExitWorktree, ctx);
    assert(todo[4] == sidecar(
        worktree.original_session_path,
        SidecarUpdateView::Worktree(None),
    ));
}

/// A prompt ends in the one run that it asks for, with the very text and the very
/// images that the user sent. Nothing but the start hook stands before it, and that
/// one names the directory of the thread.
pub proof fn a_prompt_runs_with_its_text_and_images(
    state: ActorStateView,
    text: Seq<char>,
    images: Seq<ContentBlockView>,
    ctx: ActorContextView,
)
    ensures
        ({
            let cmd = SessionCmdView::Prompt { text, images };
            let todo = work(state, cmd, ctx);
            let next = after(state, cmd, ctx);
            &&& todo.len() > 0
            &&& todo.last() == ActionView::Run(RunKindView::Prompt { text, images })
            &&& todo.len() == 1 <==> state.session_start_fired
            &&& forall|i: int|
                0 <= i < todo.len() - 1 ==> (#[trigger] todo[i]) == (ActionView::FireHook {
                    event: HookEvent::SessionStart,
                    payload: JsonView::Object(seq![("cwd"@, JsonView::Str(ctx.cwd))]),
                })
            &&& todo.len() <= 2
            &&& next == (ActorStateView { running: true, session_start_fired: true, ..state })
        }),
{
}

/// A message handed to the session says the text first and shows every image behind
/// it. Its id, and nothing else, is remembered.
pub proof fn a_steer_hands_on_its_text_and_images(
    state: ActorStateView,
    id: Seq<char>,
    text: Seq<char>,
    images: Seq<ContentBlockView>,
    ctx: ActorContextView,
)
    ensures
        ({
            let cmd = SessionCmdView::Steer { id, text, images };
            let todo = work(state, cmd, ctx);
            &&& todo.len() == 1
            &&& todo[0] matches ActionView::Steer(AgentMessageView::User { content })
            &&& content.len() == images.len() + 1
            &&& content[0] == (ContentBlockView::Text { text, signature: None })
            &&& forall|i: int| 0 <= i < images.len() ==> content[i + 1] == #[trigger] images[i]
            &&& after(state, cmd, ctx) == (ActorStateView {
                run_steers: state.run_steers.push(id),
                ..state
            })
        }),
{
}

/// What the user asks of the running turn is passed on alone and as it is, and the
/// state does not change.
pub proof fn controls_are_passed_on(
    state: ActorStateView,
    id: Seq<char>,
    suite: BrowserSuite,
    enable: bool,
    instructions: Option<Seq<char>>,
    cwd: Seq<char>,
    project: Option<Seq<char>>,
    record: UiNoteRecordView,
    ctx: ActorContextView,
)
    ensures
        work(state, SessionCmdView::CancelSteer(id), ctx) =~= seq![ActionView::CancelSteer(id)],
        work(state, SessionCmdView::Abort, ctx) =~= seq![ActionView::Abort],
        work(state, SessionCmdView::SetBrowserSuite { suite, enable }, ctx) =~= seq![
            ActionView::ApplyBrowserSuite { suite, enable },
        ],
        work(state, SessionCmdView::Compact { custom_instructions: instructions }, ctx) =~= seq![
            ActionView::Compact { instructions, purpose: CompactPurposeView::Manual },
        ],
        work(state, SessionCmdView::NewSession { cwd, project }, ctx) =~= seq![
            ActionView::BuildSession { cwd, project },
        ],
        work(state, SessionCmdView::AppendUiNote(record), ctx) =~= seq![
            ActionView::AppendNote(record),
        ],
        work(state, SessionCmdView::GoalStarted, ctx) =~= seq![
            ActionView::WakeTitle(TitleWakeReason::GoalStarted),
        ],
        work(state, SessionCmdView::Shutdown, ctx) =~= seq![ActionView::Exit { close: true }],
        after(state, SessionCmdView::CancelSteer(id), ctx) == state,
        after(state, SessionCmdView::Abort, ctx) == state,
        after(state, SessionCmdView::SetBrowserSuite { suite, enable }, ctx) == state,
        after(state, SessionCmdView::Compact { custom_instructions: instructions }, ctx) == state,
        after(state, SessionCmdView::NewSession { cwd, project }, ctx) == state,
        after(state, SessionCmdView::AppendUiNote(record), ctx) == state,
        after(state, SessionCmdView::GoalStarted, ctx) == state,
        after(state, SessionCmdView::Shutdown, ctx) == state,
{
}

/// A chosen model is the session's and the actor's.
pub proof fn a_chosen_model_is_used(
    state: ActorStateView,
    model: ModelView,
    ctx: ActorContextView,
)
    ensures
        work(state, SessionCmdView::SetModel(model), ctx) =~= seq![ActionView::SetModel(model)],
        after(state, SessionCmdView::SetModel(model), ctx) == (ActorStateView {
            model: Some(model),
            ..state
        }),
{
}

/// A permission mode is set, and then stored with the current session.
pub proof fn a_chosen_mode_is_set_and_stored(
    state: ActorStateView,
    mode: PermissionMode,
    ctx: ActorContextView,
)
    ensures
        ({
            let todo = work(state, SessionCmdView::SetPermissionMode(mode), ctx);
            &&& todo.len() == 2
            &&& todo[0] == ActionView::SetPermissionMode(mode)
            &&& todo[1] == (ActionView::Sidecar {
                path: ctx.session_path,
                update: SidecarUpdateView::ApprovalMode(mode),
            })
            &&& after(state, SessionCmdView::SetPermissionMode(mode), ctx) == state
        }),
{
}

/// A thinking level is set as it is given. It is stored with the current session
/// exactly where it is `high` or `max`.
pub proof fn a_thinking_level_is_set_and_perhaps_stored(
    state: ActorStateView,
    level: Option<Seq<char>>,
    ctx: ActorContextView,
)
    ensures
        ({
            let todo = work(state, SessionCmdView::SetThinkingLevel(level), ctx);
            &&& todo.len() > 0
            &&& todo[0] == ActionView::SetThinkingLevel(level)
            &&& level == Some("high"@) ==> todo.len() == 2 && todo[1] == (ActionView::Sidecar {
                path: ctx.session_path,
                update: SidecarUpdateView::Effort(ReasoningEffort::High),
            })
            &&& level == Some("max"@) ==> todo.len() == 2 && todo[1] == (ActionView::Sidecar {
                path: ctx.session_path,
                update: SidecarUpdateView::Effort(ReasoningEffort::Max),
            })
            &&& level != Some("high"@) && level != Some("max"@) ==> todo.len() == 1
            &&& after(state, SessionCmdView::SetThinkingLevel(level), ctx) == state
        }),
{
    reveal_strlit("high");
    reveal_strlit("max");
    assert("high"@.len() != "max"@.len());
}

/// Turning plan mode on keeps the plan file and brings the instructions; turning it
/// off drops both. The new state is stored with the current session and announced.
pub proof fn plan_mode_is_switched_stored_and_announced(
    state: ActorStateView,
    enabled: bool,
    ctx: ActorContextView,
)
    ensures
        ({
            let cmd = SessionCmdView::SetPlanMode { enabled };
            let todo = work(state, cmd, ctx);
            let next = after(state, cmd, ctx);
            &&& next.plan.enabled == enabled
            &&& enabled ==> next.plan.plan_file == state.plan.plan_file
                && next.plan.active_instructions == ctx.instructions
            &&& !enabled ==> next.plan.plan_file is None && next.plan.active_instructions is None
            &&& next == (ActorStateView { plan: next.plan, ..state })
            &&& todo.len() == 2
            &&& todo[0] == (ActionView::Sidecar {
                path: ctx.session_path,
                update: SidecarUpdateView::Plan { enabled, plan_file: next.plan.plan_file },
            })
            &&& todo[1] == ActionView::Notice(
                BackendNoticeView::Event(ThreadEventView::PlanModeChanged { enabled }),
            )
        }),
{
}

/// A pending review is stored with the current session, and the plan state with it.
pub proof fn a_pending_review_is_stored(
    state: ActorStateView,
    pending: bool,
    ctx: ActorContextView,
)
    ensures
        ({
            let todo = work(state, SessionCmdView::SetPlanReviewPending(pending), ctx);
            &&& todo.len() == 2
            &&& todo[0] == (ActionView::Sidecar {
                path: ctx.session_path,
                update: SidecarUpdateView::Plan {
                    enabled: state.plan.enabled,
                    plan_file: state.plan.plan_file,
                },
            })
            &&& todo[1] == (ActionView::Sidecar {
                path: ctx.session_path,
                update: SidecarUpdateView::PlanReviewPending(pending),
            })
            &&& after(state, SessionCmdView::SetPlanReviewPending(pending), ctx) == state
        }),
{
}

/// A snapshot is always stored, last. Where there is none, the plan file is forgotten,
/// and that is stored too.
pub proof fn a_snapshot_is_stored(
    state: ActorStateView,
    snapshot: Option<JsonView>,
    ctx: ActorContextView,
)
    ensures
        ({
            let cmd = SessionCmdView::PersistPlanSnapshot(snapshot);
            let todo = work(state, cmd, ctx);
            let next = after(state, cmd, ctx);
            &&& 1 <= todo.len() <= 2
            &&& todo.last() == (ActionView::Sidecar {
                path: ctx.session_path,
                update: SidecarUpdateView::PlanSnapshot(snapshot),
            })
            &&& snapshot is None ==> todo.len() == 2
            &&& todo.len() == 2 ==> next.plan.plan_file is None && todo[0] == (
            ActionView::Sidecar {
                path: ctx.session_path,
                update: SidecarUpdateView::Plan { enabled: state.plan.enabled, plan_file: None },
            })
            &&& todo.len() == 1 ==> next == state
            &&& next.plan.enabled == state.plan.enabled
            &&& next.plan.active_instructions == state.plan.active_instructions
            &&& next == (ActorStateView { plan: next.plan, ..state })
        }),
{
}

/// A stored plan is forgotten exactly where it can be read and every step of it is
/// completed, and so where it has none.
pub proof fn a_done_plan_is_forgotten(
    state: ActorStateView,
    snapshot: JsonView,
    ctx: ActorContextView,
)
    ensures
        ({
            let todo = work(state, SessionCmdView::PersistPlanSnapshot(Some(snapshot)), ctx);
            todo.len() == 2 <==> (decoded_snapshot(snapshot) matches Some(s) && forall|i: int|
                0 <= i < s.plan.len() ==> (#[trigger] s.plan[i]).status
                    == crate::plan::PlanStepStatus::Completed)
        }),
{
}

/// The first title is stored with the current session; a later one changes nothing.
pub proof fn the_first_title_stays(
    state: ActorStateView,
    title: Seq<char>,
    later: Seq<char>,
    ctx: ActorContextView,
)
    ensures
        ({
            let cmd = SessionCmdView::SetInitialTitle(title);
            let next = after(state, cmd, ctx);
            &&& state.title.title is None ==> next.title.title == Some(title) && work(
                state,
                cmd,
                ctx,
            ) =~= seq![ActionView::PersistTitle { path: ctx.session_path, title }]
            &&& state.title.title is Some ==> next == state && work(state, cmd, ctx).len() == 0
            &&& next.title.title is Some
            &&& after(next, SessionCmdView::SetInitialTitle(later), ctx) == next
            &&& work(next, SessionCmdView::SetInitialTitle(later), ctx).len() == 0
            &&& next == (ActorStateView {
                title: TitleSchedulerStateView { title: next.title.title, ..state.title },
                ..state
            })
        }),
{
}

/// A generated title is stored as it is with the session that it was made for, and
/// only while that session is the current one.
pub proof fn a_generated_title_stays_with_its_session(
    state: ActorStateView,
    session_path: Seq<char>,
    title: Seq<char>,
    ctx: ActorContextView,
)
    ensures
        ({
            let cmd = SessionCmdView::PersistGeneratedTitle { session_path, title };
            let todo = work(state, cmd, ctx);
            &&& after(state, cmd, ctx) == state
            &&& todo.len() <= 1
            &&& session_path == ctx.session_path ==> todo.len() == 1
            &&& todo.len() == 1 ==> todo[0] == (ActionView::PersistTitle {
                path: session_path,
                title,
            })
            &&& todo.len() == 1 <==> crate::pathname::components_of(session_path)
                == crate::pathname::components_of(ctx.session_path)
        }),
{
}

/// Executing a plan takes its file, leaves plan mode without the instructions, stores
/// that with the current session and wakes the title.
pub proof fn an_executed_plan_is_taken_up(
    state: ActorStateView,
    file: Seq<char>,
    ctx: ActorContextView,
)
    ensures
        ({
            let cmd = SessionCmdView::StartPlanExecution(file);
            let todo = work(state, cmd, ctx);
            let next = after(state, cmd, ctx);
            &&& next.plan == (PlanSessionStateView {
                enabled: false,
                plan_file: Some(file),
                active_instructions: None,
            })
            &&& next == (ActorStateView { plan: next.plan, ..state })
            &&& todo.len() == 2
            &&& todo[0] == (ActionView::Sidecar {
                path: ctx.session_path,
                update: SidecarUpdateView::Plan { enabled: false, plan_file: Some(file) },
            })
            &&& todo[1] == ActionView::WakeTitle(TitleWakeReason::PlanStarted)
        }),
{
}

/// Goal rounds start on an idle thread, which then runs; on a running one nothing
/// starts.
pub proof fn goal_rounds_start_where_nothing_runs(state: ActorStateView, ctx: ActorContextView)
    ensures
        ({
            let todo = work(state, SessionCmdView::GoalGate, ctx);
            let next = after(state, SessionCmdView::GoalGate, ctx);
            &&& next == (ActorStateView { running: true, ..state })
            &&& state.running ==> todo.len() == 0
            &&& !state.running ==> todo.len() == 2 && todo[0] == ActionView::Notice(
                BackendNoticeView::Event(ThreadEventView::TurnStarted),
            ) && todo[1] == ActionView::Run(RunKindView::Rounds)
            &&& work(next, SessionCmdView::GoalGate, ctx).len() == 0
        }),
{
}

/// An approved plan is executed with its seed text: at once in the last action, or, where
/// the context is compacted first, by the compaction that carries the text along. Before
/// that, and only there, plan mode is left: stored with the current session, and
/// announced.
pub proof fn an_approved_plan_runs_its_seed(
    state: ActorStateView,
    compact: bool,
    compact_instructions: Option<Seq<char>>,
    seed_text: Seq<char>,
    ctx: ActorContextView,
)
    ensures
        ({
            let cmd = SessionCmdView::ApprovePlan { compact, compact_instructions, seed_text };
            let todo = work(state, cmd, ctx);
            let next = after(state, cmd, ctx);
            &&& todo.len() == if compact {
                4int
            } else {
                5
            }
            &&& todo[0] == ActionView::WakeTitle(TitleWakeReason::PlanStarted)
            &&& todo[1] == (ActionView::Sidecar {
                path: ctx.session_path,
                update: SidecarUpdateView::Plan { enabled: false, plan_file: state.plan.plan_file },
            })
            &&& todo[2] == ActionView::Notice(
                BackendNoticeView::Event(ThreadEventView::PlanModeChanged { enabled: false }),
            )
            &&& compact ==> todo[3] == (ActionView::Compact {
                instructions: compact_instructions,
                purpose: CompactPurposeView::Approval { seed_text },
            })
            &&& !compact ==> todo[3] == ActionView::Notice(
                BackendNoticeView::Event(ThreadEventView::TurnStarted),
            ) && todo[4] == ActionView::Run(RunKindView::Seed { text: seed_text })
            &&& next.plan == (PlanSessionStateView {
                enabled: false,
                plan_file: state.plan.plan_file,
                active_instructions: None,
            })
            &&& next.running == (state.running || !compact)
            &&& next == (ActorStateView { plan: next.plan, running: next.running, ..state })
        }),
{
}

/// Opening a session opens its file first, makes it the active one under the name of
/// its file, and mirrors its plan, its worktree, its mode and its transcript, in that
/// order. Its title runs in the directory of the thread.
pub proof fn an_opened_session_becomes_the_active_one(
    state: ActorStateView,
    path: Seq<char>,
    ctx: ActorContextView,
)
    ensures
        ({
            let cmd = SessionCmdView::Open { path };
            let todo = work(state, cmd, ctx);
            &&& todo.len() == 10
            &&& todo[0] == (ActionView::OpenSession { path })
            &&& todo[1] == (ActionView::RetargetTitle { path, cwd: ctx.cwd })
            &&& todo[2] == (ActionView::Subscribe { path })
            &&& todo[3] == (ActionView::ResyncPlan { path })
            &&& todo[4] == (ActionView::ResyncWorktree { path })
            &&& todo[5] == (ActionView::SetActive { session_id: file_stem_of(path) })
            &&& todo[6] is ResyncApprovalMode
            &&& todo[7] is SyncHistory
            &&& todo[8] is SyncUsage
            &&& todo[9] is RefreshSessionList
            &&& after(state, cmd, ctx) == (ActorStateView {
                active_path: Some(path),
                session_start_fired: true,
                ..state
            })
        }),
{
}

/// Entering a worktree forks the active session, and the fork remembers where it came
/// from. Without an active session there is nothing to fork, and the user hears of it.
pub proof fn entering_a_worktree_forks_the_active_session(
    state: ActorStateView,
    worktree_path: Seq<char>,
    branch: Seq<char>,
    original_cwd: Seq<char>,
    git_common_dir: Seq<char>,
    ctx: ActorContextView,
)
    ensures
        ({
            let cmd = SessionCmdView::EnterWorktree {
                worktree_path,
                branch,
                original_cwd,
                git_common_dir,
            };
            let todo = work(state, cmd, ctx);
            &&& after(state, cmd, ctx) == state
            &&& todo.len() == 1
            &&& state.active_path matches Some(source) ==> (todo[0] matches ActionView::Fork {
                source: from,
                worktree,
            } && from == source && worktree.original_session_path == source
                && worktree.worktree_path == worktree_path && worktree.branch == branch
                && worktree.original_cwd == original_cwd && worktree.git_common_dir
                == git_common_dir)
            &&& state.active_path is None ==> (todo[0] matches ActionView::Notice(
                BackendNoticeView::Event(ThreadEventView::Error(_)),
            ))
        }),
{
}

/// Leaving a worktree opens the session that it was entered from, in the directory it
/// was entered from, and takes the worktree off it before it is mirrored. Outside a
/// worktree nothing happens.
pub proof fn leaving_a_worktree_reopens_where_it_was_entered(
    state: ActorStateView,
    ctx: ActorContextView,
)
    ensures
        ({
            let todo = work(state, SessionCmdView::ExitWorktree, ctx);
            let next = after(state, SessionCmdView::ExitWorktree, ctx);
            &&& state.worktree is None ==> todo.len() == 0 && next == state
            &&& state.worktree matches Some(w) ==> {
                let path = w.original_session_path;
                &&& todo.len() == 11
                &&& todo[0] == (ActionView::OpenSession { path })
                &&& todo[1] == (ActionView::RetargetTitle { path, cwd: w.original_cwd })
                &&& todo[2] == (ActionView::Subscribe { path })
                &&& todo[3] == (ActionView::ResyncPlan { path })
                &&& todo[4] == (ActionView::Sidecar {
                    path,
                    update: SidecarUpdateView::Worktree(None),
                })
                &&& todo[5] == (ActionView::ResyncWorktree { path })
                &&& todo[6] == (ActionView::SetActive { session_id: file_stem_of(path) })
                &&& todo[7] is ResyncApprovalMode
                &&& todo[8] is SyncHistory
                &&& todo[9] is SyncUsage
                &&& todo[10] is RefreshSessionList
                &&& next == (ActorStateView { active_path: Some(path), ..state })
            }
        }),
{
}

/// What was parked comes up whole and in order: every card, then the suite, then every
/// command.
pub proof fn what_was_parked_comes_up_in_order(state: ActorStateView)
    ensures
        ({
            let todo = parked_work(state);
            let cards = state.pending_ui_notes.len() as int;
            let suites = if state.pending_browser_suite is Some {
                1int
            } else {
                0
            };
            &&& todo.len() == cards + suites + state.pending_session_cmds.len()
            &&& forall|i: int|
                0 <= i < cards ==> todo[i] == ActionView::PersistNote(
                    #[trigger] state.pending_ui_notes[i],
                )
            &&& state.pending_browser_suite matches Some(s) ==> todo[cards] == (
            ActionView::ApplyBrowserSuite { suite: s.0, enable: s.1 })
            &&& forall|i: int|
                0 <= i < state.pending_session_cmds.len() ==> todo[cards + suites + i]
                    == ActionView::Requeue(#[trigger] state.pending_session_cmds[i])
        }),
{
}

/// The view of an [`ActorState`] is made of all its parts, each as it is.
pub proof fn actor_state_is_viewed_whole(x: &ActorState)
    ensures
        x.deep_view() == (ActorStateView {
            running: x.running,
            model: x.model.deep_view(),
            active_path: x.active_path.deep_view(),
            plan: x.plan.deep_view(),
            worktree: x.worktree.deep_view(),
            title: x.title.deep_view(),
            session_start_fired: x.session_start_fired,
            goals: x.goals,
            run_steers: x.run_steers.deep_view(),
            shutdown_after_run: x.shutdown_after_run,
            pending_ui_notes: x.pending_ui_notes.deep_view(),
            pending_browser_suite: x.pending_browser_suite.deep_view(),
            pending_session_cmds: x.pending_session_cmds.deep_view(),
        }),
{
}

/// The view of an [`ActorContext`] is made of all its parts, each as it is.
pub proof fn actor_context_is_viewed_whole(x: &ActorContext)
    ensures
        x.deep_view() == (ActorContextView {
            thread_id: x.thread_id@,
            cwd: x.cwd@,
            session_path: x.session_path@,
            instructions: x.instructions.deep_view(),
        }),
{
}

} // verus!
