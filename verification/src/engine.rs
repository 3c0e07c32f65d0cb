//! The vocabulary of the session actor: the commands it takes, the notices it
//! sends, and the work it asks for.

use crate::harness::{AgentMessage, AgentMessageView, ContentBlock, ContentBlockView};
use crate::history::{UiNoteRecord, UiNoteRecordView};
use crate::json::{Json, JsonView};
use crate::language_model::ReasoningEffort;
use crate::models::{Model, ModelView};
use crate::sidecar::{SidecarUpdate, SidecarUpdateView, WorktreeMeta, WorktreeMetaView};
use crate::thread::{PermissionMode, ThreadEvent, ThreadEventView};
use crate::title::TitleWakeReason;
use crate::toolset::BrowserSuite;
use vstd::prelude::*;

verus! {

/// A command to the session actor.
#[derive(Debug, PartialEq, Eq)]
pub enum SessionCmd {
    /// Start a turn with the given user text and attached images.
    Prompt {
        text: String,
        images: Vec<ContentBlock>,
    },
    /// Inject a message into the running turn.
    Steer {
        id: String,
        text: String,
        images: Vec<ContentBlock>,
    },
    /// Retract a queued message.
    CancelSteer(String),
    /// Abort the running turn.
    Abort,
    /// Swap the model for the next provider request.
    SetModel(Model),
    /// Set the thinking level.
    SetThinkingLevel(Option<String>),
    /// Switch the permission mode.
    SetPermissionMode(PermissionMode),
    /// Switch an opt-in browser suite.
    SetBrowserSuite {
        suite: BrowserSuite,
        enable: bool,
    },
    /// Compact the transcript, perhaps with instructions for the summary.
    Compact {
        custom_instructions: Option<String>,
    },
    /// Switch plan mode.
    SetPlanMode {
        enabled: bool,
    },
    /// Store whether a plan review is pending.
    SetPlanReviewPending(bool),
    /// Store the latest plan snapshot; none clears it.
    PersistPlanSnapshot(Option<Json>),
    /// Store the title taken from the first message.
    SetInitialTitle(String),
    /// Store a generated title.
    PersistGeneratedTitle {
        session_path: String,
        title: String,
    },
    /// Take an approved plan as the source of the title.
    StartPlanExecution(String),
    /// A goal starts executing.
    GoalStarted,
    /// Queue the next goal round if one is owed.
    GoalGate,
    /// Execute an approved plan: leave plan mode, perhaps compact, then run the
    /// seed turn.
    ApprovePlan {
        compact: bool,
        compact_instructions: Option<String>,
        seed_text: String,
    },
    /// Point the session at another file.
    Open {
        path: String,
    },
    /// Fork the session into a worktree and switch to the fork.
    EnterWorktree {
        worktree_path: String,
        branch: String,
        original_cwd: String,
        git_common_dir: String,
    },
    /// Return to the session before the worktree.
    ExitWorktree,
    /// Create a fresh session, perhaps bound to a project.
    NewSession {
        cwd: String,
        project: Option<String>,
    },
    /// Append an annotation card.
    AppendUiNote(UiNoteRecord),
    /// Close the session and stop.
    Shutdown,
}

/// The mathematical value of a [`SessionCmd`].
#[verifier::ext_equal]
pub enum SessionCmdView {
    Prompt {
        text: Seq<char>,
        images: Seq<ContentBlockView>,
    },
    Steer {
        id: Seq<char>,
        text: Seq<char>,
        images: Seq<ContentBlockView>,
    },
    CancelSteer(Seq<char>),
    Abort,
    SetModel(ModelView),
    SetThinkingLevel(Option<Seq<char>>),
    SetPermissionMode(PermissionMode),
    SetBrowserSuite {
        suite: BrowserSuite,
        enable: bool,
    },
    Compact {
        custom_instructions: Option<Seq<char>>,
    },
    SetPlanMode {
        enabled: bool,
    },
    SetPlanReviewPending(bool),
    PersistPlanSnapshot(Option<JsonView>),
    SetInitialTitle(Seq<char>),
    PersistGeneratedTitle {
        session_path: Seq<char>,
        title: Seq<char>,
    },
    StartPlanExecution(Seq<char>),
    GoalStarted,
    GoalGate,
    ApprovePlan {
        compact: bool,
        compact_instructions: Option<Seq<char>>,
        seed_text: Seq<char>,
    },
    Open {
        path: Seq<char>,
    },
    EnterWorktree {
        worktree_path: Seq<char>,
        branch: Seq<char>,
        original_cwd: Seq<char>,
        git_common_dir: Seq<char>,
    },
    ExitWorktree,
    NewSession {
        cwd: Seq<char>,
        project: Option<Seq<char>>,
    },
    AppendUiNote(UiNoteRecordView),
    Shutdown,
}

impl DeepView for SessionCmd {
    type V = SessionCmdView;

    open spec fn deep_view(&self) -> SessionCmdView {
        match self {
            SessionCmd::Prompt { text, images } => SessionCmdView::Prompt {
                text: text@,
                images: images.deep_view(),
            },
            SessionCmd::Steer { id, text, images } => SessionCmdView::Steer {
                id: id@,
                text: text@,
                images: images.deep_view(),
            },
            SessionCmd::CancelSteer(a) => SessionCmdView::CancelSteer(a@),
            SessionCmd::Abort => SessionCmdView::Abort,
            SessionCmd::SetModel(a) => SessionCmdView::SetModel(a.deep_view()),
            SessionCmd::SetThinkingLevel(a) => SessionCmdView::SetThinkingLevel(a.deep_view()),
            SessionCmd::SetPermissionMode(a) => SessionCmdView::SetPermissionMode(*a),
            SessionCmd::SetBrowserSuite { suite, enable } => SessionCmdView::SetBrowserSuite {
                suite: *suite,
                enable: *enable,
            },
            SessionCmd::Compact { custom_instructions } => SessionCmdView::Compact {
                custom_instructions: custom_instructions.deep_view(),
            },
            SessionCmd::SetPlanMode { enabled } => SessionCmdView::SetPlanMode {
                enabled: *enabled,
            },
            SessionCmd::SetPlanReviewPending(a) => SessionCmdView::SetPlanReviewPending(*a),
            SessionCmd::PersistPlanSnapshot(a) => SessionCmdView::PersistPlanSnapshot(a.deep_view()),
            SessionCmd::SetInitialTitle(a) => SessionCmdView::SetInitialTitle(a@),
            SessionCmd::PersistGeneratedTitle {
                session_path,
                title,
            } => SessionCmdView::PersistGeneratedTitle {
                session_path: session_path@,
                title: title@,
            },
            SessionCmd::StartPlanExecution(a) => SessionCmdView::StartPlanExecution(a@),
            SessionCmd::GoalStarted => SessionCmdView::GoalStarted,
            SessionCmd::GoalGate => SessionCmdView::GoalGate,
            SessionCmd::ApprovePlan {
                compact,
                compact_instructions,
                seed_text,
            } => SessionCmdView::ApprovePlan {
                compact: *compact,
                compact_instructions: compact_instructions.deep_view(),
                seed_text: seed_text@,
            },
            SessionCmd::Open { path } => SessionCmdView::Open {
                path: path@,
            },
            SessionCmd::EnterWorktree {
                worktree_path,
                branch,
                original_cwd,
                git_common_dir,
            } => SessionCmdView::EnterWorktree {
                worktree_path: worktree_path@,
                branch: branch@,
                original_cwd: original_cwd@,
                git_common_dir: git_common_dir@,
            },
            SessionCmd::ExitWorktree => SessionCmdView::ExitWorktree,
            SessionCmd::NewSession { cwd, project } => SessionCmdView::NewSession {
                cwd: cwd@,
                project: project.deep_view(),
            },
            SessionCmd::AppendUiNote(a) => SessionCmdView::AppendUiNote(a.deep_view()),
            SessionCmd::Shutdown => SessionCmdView::Shutdown,
        }
    }
}

/// The state of a session that is ready.
#[derive(Debug, PartialEq, Eq)]
pub struct ReadyInfo {
    pub restored: bool,
    pub model: Option<Model>,
    pub permission_mode: PermissionMode,
    pub reasoning_effort: ReasoningEffort,
    pub browser_suites: Vec<BrowserSuite>,
    pub plan_mode: bool,
    pub plan_file: Option<String>,
    pub plan_review_pending: bool,
    pub plan_snapshot: Option<Json>,
}

/// The mathematical value of a [`ReadyInfo`].
#[verifier::ext_equal]
pub struct ReadyInfoView {
    pub restored: bool,
    pub model: Option<ModelView>,
    pub permission_mode: PermissionMode,
    pub reasoning_effort: ReasoningEffort,
    pub browser_suites: Seq<BrowserSuite>,
    pub plan_mode: bool,
    pub plan_file: Option<Seq<char>>,
    pub plan_review_pending: bool,
    pub plan_snapshot: Option<JsonView>,
}

impl DeepView for ReadyInfo {
    type V = ReadyInfoView;

    open spec fn deep_view(&self) -> ReadyInfoView {
        ReadyInfoView {
            restored: self.restored,
            model: self.model.deep_view(),
            permission_mode: self.permission_mode,
            reasoning_effort: self.reasoning_effort,
            browser_suites: self.browser_suites.deep_view(),
            plan_mode: self.plan_mode,
            plan_file: self.plan_file.deep_view(),
            plan_review_pending: self.plan_review_pending,
            plan_snapshot: self.plan_snapshot.deep_view(),
        }
    }
}

/// A notice to the thread.
#[derive(Debug, PartialEq, Eq)]
pub enum BackendNotice {
    Event(ThreadEvent),
    /// The session is ready.
    Ready(ReadyInfo),
    /// More of the preview is mirrored.
    HistoryProgress,
    /// The mirror follows the running turn.
    LiveHistory,
    /// The list of sessions may have changed.
    SessionListDirty,
    /// A turn ended.
    Settled {
        cancelled: bool,
        failed: bool,
        /// The messages injected into the turn.
        steered: Vec<String>,
        /// The messages that the turn did not take.
        stranded: Vec<String>,
    },
    /// The session cannot go on.
    Fatal(String),
}

/// The mathematical value of a [`BackendNotice`].
#[verifier::ext_equal]
pub enum BackendNoticeView {
    Event(ThreadEventView),
    Ready(ReadyInfoView),
    HistoryProgress,
    LiveHistory,
    SessionListDirty,
    Settled {
        cancelled: bool,
        failed: bool,
        steered: Seq<Seq<char>>,
        stranded: Seq<Seq<char>>,
    },
    Fatal(Seq<char>),
}

impl DeepView for BackendNotice {
    type V = BackendNoticeView;

    open spec fn deep_view(&self) -> BackendNoticeView {
        match self {
            BackendNotice::Event(a) => BackendNoticeView::Event(a.deep_view()),
            BackendNotice::Ready(a) => BackendNoticeView::Ready(a.deep_view()),
            BackendNotice::HistoryProgress => BackendNoticeView::HistoryProgress,
            BackendNotice::LiveHistory => BackendNoticeView::LiveHistory,
            BackendNotice::SessionListDirty => BackendNoticeView::SessionListDirty,
            BackendNotice::Settled {
                cancelled,
                failed,
                steered,
                stranded,
            } => BackendNoticeView::Settled {
                cancelled: *cancelled,
                failed: *failed,
                steered: steered.deep_view(),
                stranded: stranded.deep_view(),
            },
            BackendNotice::Fatal(a) => BackendNoticeView::Fatal(a@),
        }
    }
}

/// A lifecycle hook of the plugins.
#[derive(Debug, Clone, Copy, PartialEq, Eq, Structural)]
pub enum HookEvent {
    SessionStart,
    Stop,
}

impl DeepView for HookEvent {
    type V = HookEvent;

    open spec fn deep_view(&self) -> HookEvent {
        *self
    }
}

/// A run of the session.
#[derive(Debug, PartialEq, Eq)]
pub enum RunKind {
    Prompt {
        text: String,
        images: Vec<ContentBlock>,
    },
    /// The first turn of an approved plan.
    Seed {
        text: String,
    },
    /// Take what is queued.
    Continue,
    /// Goal rounds, as long as they are owed.
    Rounds,
}

/// The mathematical value of a [`RunKind`].
#[verifier::ext_equal]
pub enum RunKindView {
    Prompt {
        text: Seq<char>,
        images: Seq<ContentBlockView>,
    },
    Seed {
        text: Seq<char>,
    },
    Continue,
    Rounds,
}

impl DeepView for RunKind {
    type V = RunKindView;

    open spec fn deep_view(&self) -> RunKindView {
        match self {
            RunKind::Prompt { text, images } => RunKindView::Prompt {
                text: text@,
                images: images.deep_view(),
            },
            RunKind::Seed { text } => RunKindView::Seed {
                text: text@,
            },
            RunKind::Continue => RunKindView::Continue,
            RunKind::Rounds => RunKindView::Rounds,
        }
    }
}

/// What a compaction is for.
#[derive(Debug, PartialEq, Eq)]
pub enum CompactPurpose {
    /// The user asked for it.
    Manual,
    /// A plan was approved; then comes the seed turn.
    Approval {
        seed_text: String,
    },
}

/// The mathematical value of a [`CompactPurpose`].
#[verifier::ext_equal]
pub enum CompactPurposeView {
    Manual,
    Approval {
        seed_text: Seq<char>,
    },
}

impl DeepView for CompactPurpose {
    type V = CompactPurposeView;

    open spec fn deep_view(&self) -> CompactPurposeView {
        match self {
            CompactPurpose::Manual => CompactPurposeView::Manual,
            CompactPurpose::Approval { seed_text } => CompactPurposeView::Approval {
                seed_text: seed_text@,
            },
        }
    }
}

/// Work that the actor asks for, in order.
#[derive(Debug, PartialEq, Eq)]
pub enum Action {
    Notice(BackendNotice),
    FireHook {
        event: HookEvent,
        payload: Json,
    },
    /// Drive a run to its end.
    Run(RunKind),
    /// Hand a message to the session.
    Steer(AgentMessage),
    CancelSteer(String),
    Abort,
    SetModel(Model),
    SetThinkingLevel(Option<String>),
    SetPermissionMode(PermissionMode),
    ApplyBrowserSuite {
        suite: BrowserSuite,
        enable: bool,
    },
    /// Change the sidecar of a session.
    Sidecar {
        path: String,
        update: SidecarUpdate,
    },
    /// Store a title; where that succeeds the list of sessions changed.
    PersistTitle {
        path: String,
        title: String,
    },
    /// Seed the sidecar of a fork from its source.
    SeedFork {
        source: String,
        fork: String,
        worktree: WorktreeMeta,
    },
    /// Store an annotation card.
    PersistNote(UiNoteRecord),
    /// Store an annotation card and show it.
    AppendNote(UiNoteRecord),
    /// Take a command again.
    Requeue(SessionCmd),
    Compact {
        instructions: Option<String>,
        purpose: CompactPurpose,
    },
    /// Mirror the transcript.
    SyncHistory,
    /// Mirror the token usage.
    SyncUsage,
    RefreshSessionList,
    /// Fork a session into a worktree.
    Fork {
        source: String,
        worktree: WorktreeMeta,
    },
    /// Replace the session by the one in a file.
    OpenSession {
        path: String,
    },
    /// Replace the session by a fresh one.
    BuildSession {
        cwd: String,
        project: Option<String>,
    },
    /// Make a session the active one of the thread.
    SetActive {
        session_id: String,
    },
    RetargetTitle {
        path: String,
        cwd: String,
    },
    /// Listen to the session in a file.
    Subscribe {
        path: String,
    },
    ResyncPlan {
        path: String,
    },
    ResyncWorktree {
        path: String,
    },
    ResyncApprovalMode,
    /// Execution starts: wake the title scheduler.
    WakeTitle(TitleWakeReason),
    DisarmGoal,
    SettleGoalRound,
    /// Stop the actor; `close` tells whether the session is closed and the tasks
    /// of the thread are cancelled first.
    Exit {
        close: bool,
    },
}

/// The mathematical value of a [`Action`].
#[verifier::ext_equal]
pub enum ActionView {
    Notice(BackendNoticeView),
    FireHook {
        event: HookEvent,
        payload: JsonView,
    },
    Run(RunKindView),
    Steer(AgentMessageView),
    CancelSteer(Seq<char>),
    Abort,
    SetModel(ModelView),
    SetThinkingLevel(Option<Seq<char>>),
    SetPermissionMode(PermissionMode),
    ApplyBrowserSuite {
        suite: BrowserSuite,
        enable: bool,
    },
    Sidecar {
        path: Seq<char>,
        update: SidecarUpdateView,
    },
    PersistTitle {
        path: Seq<char>,
        title: Seq<char>,
    },
    SeedFork {
        source: Seq<char>,
        fork: Seq<char>,
        worktree: WorktreeMetaView,
    },
    PersistNote(UiNoteRecordView),
    AppendNote(UiNoteRecordView),
    Requeue(SessionCmdView),
    Compact {
        instructions: Option<Seq<char>>,
        purpose: CompactPurposeView,
    },
    SyncHistory,
    SyncUsage,
    RefreshSessionList,
    Fork {
        source: Seq<char>,
        worktree: WorktreeMetaView,
    },
    OpenSession {
        path: Seq<char>,
    },
    BuildSession {
        cwd: Seq<char>,
        project: Option<Seq<char>>,
    },
    SetActive {
        session_id: Seq<char>,
    },
    RetargetTitle {
        path: Seq<char>,
        cwd: Seq<char>,
    },
    Subscribe {
        path: Seq<char>,
    },
    ResyncPlan {
        path: Seq<char>,
    },
    ResyncWorktree {
        path: Seq<char>,
    },
    ResyncApprovalMode,
    WakeTitle(TitleWakeReason),
    DisarmGoal,
    SettleGoalRound,
    Exit {
        close: bool,
    },
}

impl DeepView for Action {
    type V = ActionView;

    open spec fn deep_view(&self) -> ActionView {
        match self {
            Action::Notice(a) => ActionView::Notice(a.deep_view()),
            Action::FireHook { event, payload } => ActionView::FireHook {
                event: *event,
                payload: payload.deep_view(),
            },
            Action::Run(a) => ActionView::Run(a.deep_view()),
            Action::Steer(a) => ActionView::Steer(a.deep_view()),
            Action::CancelSteer(a) => ActionView::CancelSteer(a@),
            Action::Abort => ActionView::Abort,
            Action::SetModel(a) => ActionView::SetModel(a.deep_view()),
            Action::SetThinkingLevel(a) => ActionView::SetThinkingLevel(a.deep_view()),
            Action::SetPermissionMode(a) => ActionView::SetPermissionMode(*a),
            Action::ApplyBrowserSuite { suite, enable } => ActionView::ApplyBrowserSuite {
                suite: *suite,
                enable: *enable,
            },
            Action::Sidecar { path, update } => ActionView::Sidecar {
                path: path@,
                update: update.deep_view(),
            },
            Action::PersistTitle { path, title } => ActionView::PersistTitle {
                path: path@,
                title: title@,
            },
            Action::SeedFork { source, fork, worktree } => ActionView::SeedFork {
                source: source@,
                fork: fork@,
                worktree: worktree.deep_view(),
            },
            Action::PersistNote(a) => ActionView::PersistNote(a.deep_view()),
            Action::AppendNote(a) => ActionView::AppendNote(a.deep_view()),
            Action::Requeue(a) => ActionView::Requeue(a.deep_view()),
            Action::Compact { instructions, purpose } => ActionView::Compact {
                instructions: instructions.deep_view(),
                purpose: purpose.deep_view(),
            },
            Action::SyncHistory => ActionView::SyncHistory,
            Action::SyncUsage => ActionView::SyncUsage,
            Action::RefreshSessionList => ActionView::RefreshSessionList,
            Action::Fork { source, worktree } => ActionView::Fork {
                source: source@,
                worktree: worktree.deep_view(),
            },
            Action::OpenSession { path } => ActionView::OpenSession {
                path: path@,
            },
            Action::BuildSession { cwd, project } => ActionView::BuildSession {
                cwd: cwd@,
                project: project.deep_view(),
            },
            Action::SetActive { session_id } => ActionView::SetActive {
                session_id: session_id@,
            },
            Action::RetargetTitle { path, cwd } => ActionView::RetargetTitle {
                path: path@,
                cwd: cwd@,
            },
            Action::Subscribe { path } => ActionView::Subscribe {
                path: path@,
            },
            Action::ResyncPlan { path } => ActionView::ResyncPlan {
                path: path@,
            },
            Action::ResyncWorktree { path } => ActionView::ResyncWorktree {
                path: path@,
            },
            Action::ResyncApprovalMode => ActionView::ResyncApprovalMode,
            Action::WakeTitle(a) => ActionView::WakeTitle(*a),
            Action::DisarmGoal => ActionView::DisarmGoal,
            Action::SettleGoalRound => ActionView::SettleGoalRound,
            Action::Exit { close } => ActionView::Exit {
                close: *close,
            },
        }
    }
}

/// The view of a [`SessionCmd`] is made of all its parts, each as it is.
pub proof fn session_cmd_is_viewed_whole(x: &SessionCmd)
    ensures
        match x {
            SessionCmd::Prompt { text, images } => x.deep_view() == (SessionCmdView::Prompt {
                text: text@,
                images: images.deep_view(),
            }),
            SessionCmd::Steer { id, text, images } => x.deep_view() == (SessionCmdView::Steer {
                id: id@,
                text: text@,
                images: images.deep_view(),
            }),
            SessionCmd::CancelSteer(a) => x.deep_view() == (SessionCmdView::CancelSteer(a@)),
            SessionCmd::Abort => x.deep_view() == (SessionCmdView::Abort),
            SessionCmd::SetModel(a) => x.deep_view() == (SessionCmdView::SetModel(a.deep_view())),
            SessionCmd::SetThinkingLevel(a) => x.deep_view() == (SessionCmdView::SetThinkingLevel(a.deep_view())),
            SessionCmd::SetPermissionMode(a) => x.deep_view() == (SessionCmdView::SetPermissionMode(*a)),
            SessionCmd::SetBrowserSuite { suite, enable } => x.deep_view() == (SessionCmdView::SetBrowserSuite {
                suite: *suite,
                enable: *enable,
            }),
            SessionCmd::Compact { custom_instructions } => x.deep_view() == (SessionCmdView::Compact {
                custom_instructions: custom_instructions.deep_view(),
            }),
            SessionCmd::SetPlanMode { enabled } => x.deep_view() == (SessionCmdView::SetPlanMode {
                enabled: *enabled,
            }),
            SessionCmd::SetPlanReviewPending(a) => x.deep_view() == (SessionCmdView::SetPlanReviewPending(*a)),
            SessionCmd::PersistPlanSnapshot(a) => x.deep_view() == (SessionCmdView::PersistPlanSnapshot(a.deep_view())),
            SessionCmd::SetInitialTitle(a) => x.deep_view() == (SessionCmdView::SetInitialTitle(a@)),
            SessionCmd::PersistGeneratedTitle {
                session_path,
                title,
            } => x.deep_view() == (SessionCmdView::PersistGeneratedTitle {
                session_path: session_path@,
                title: title@,
            }),
            SessionCmd::StartPlanExecution(a) => x.deep_view() == (SessionCmdView::StartPlanExecution(a@)),
            SessionCmd::GoalStarted => x.deep_view() == (SessionCmdView::GoalStarted),
            SessionCmd::GoalGate => x.deep_view() == (SessionCmdView::GoalGate),
            SessionCmd::ApprovePlan {
                compact,
                compact_instructions,
                seed_text,
            } => x.deep_view() == (SessionCmdView::ApprovePlan {
                compact: *compact,
                compact_instructions: compact_instructions.deep_view(),
                seed_text: seed_text@,
            }),
            SessionCmd::Open { path } => x.deep_view() == (SessionCmdView::Open {
                path: path@,
            }),
            SessionCmd::EnterWorktree {
                worktree_path,
                branch,
                original_cwd,
                git_common_dir,
            } => x.deep_view() == (SessionCmdView::EnterWorktree {
                worktree_path: worktree_path@,
                branch: branch@,
                original_cwd: original_cwd@,
                git_common_dir: git_common_dir@,
            }),
            SessionCmd::ExitWorktree => x.deep_view() == (SessionCmdView::ExitWorktree),
            SessionCmd::NewSession { cwd, project } => x.deep_view() == (SessionCmdView::NewSession {
                cwd: cwd@,
                project: project.deep_view(),
            }),
            SessionCmd::AppendUiNote(a) => x.deep_view() == (SessionCmdView::AppendUiNote(a.deep_view())),
            SessionCmd::Shutdown => x.deep_view() == (SessionCmdView::Shutdown),
        },
{
}

/// The view of a [`ReadyInfo`] is made of all its parts, each as it is.
pub proof fn ready_info_is_viewed_whole(x: &ReadyInfo)
    ensures
        x.deep_view() == (ReadyInfoView {
            restored: x.restored,
            model: x.model.deep_view(),
            permission_mode: x.permission_mode,
            reasoning_effort: x.reasoning_effort,
            browser_suites: x.browser_suites.deep_view(),
            plan_mode: x.plan_mode,
            plan_file: x.plan_file.deep_view(),
            plan_review_pending: x.plan_review_pending,
            plan_snapshot: x.plan_snapshot.deep_view(),
        }),
{
}

/// The view of a [`BackendNotice`] is made of all its parts, each as it is.
pub proof fn backend_notice_is_viewed_whole(x: &BackendNotice)
    ensures
        match x {
            BackendNotice::Event(a) => x.deep_view() == (BackendNoticeView::Event(a.deep_view())),
            BackendNotice::Ready(a) => x.deep_view() == (BackendNoticeView::Ready(a.deep_view())),
            BackendNotice::HistoryProgress => x.deep_view() == (BackendNoticeView::HistoryProgress),
            BackendNotice::LiveHistory => x.deep_view() == (BackendNoticeView::LiveHistory),
            BackendNotice::SessionListDirty => x.deep_view() == (BackendNoticeView::SessionListDirty),
            BackendNotice::Settled {
                cancelled,
                failed,
                steered,
                stranded,
            } => x.deep_view() == (BackendNoticeView::Settled {
                cancelled: *cancelled,
                failed: *failed,
                steered: steered.deep_view(),
                stranded: stranded.deep_view(),
            }),
            BackendNotice::Fatal(a) => x.deep_view() == (BackendNoticeView::Fatal(a@)),
        },
{
}

/// The view of a [`RunKind`] is made of all its parts, each as it is.
pub proof fn run_kind_is_viewed_whole(x: &RunKind)
    ensures
        match x {
            RunKind::Prompt { text, images } => x.deep_view() == (RunKindView::Prompt {
                text: text@,
                images: images.deep_view(),
            }),
            RunKind::Seed { text } => x.deep_view() == (RunKindView::Seed {
                text: text@,
            }),
            RunKind::Continue => x.deep_view() == (RunKindView::Continue),
            RunKind::Rounds => x.deep_view() == (RunKindView::Rounds),
        },
{
}

/// The view of a [`CompactPurpose`] is made of all its parts, each as it is.
pub proof fn compact_purpose_is_viewed_whole(x: &CompactPurpose)
    ensures
        match x {
            CompactPurpose::Manual => x.deep_view() == (CompactPurposeView::Manual),
            CompactPurpose::Approval { seed_text } => x.deep_view() == (CompactPurposeView::Approval {
                seed_text: seed_text@,
            }),
        },
{
}

/// The view of an [`Action`] is made of all its parts, each as it is.
pub proof fn action_is_viewed_whole(x: &Action)
    ensures
        match x {
            Action::Notice(a) => x.deep_view() == (ActionView::Notice(a.deep_view())),
            Action::FireHook { event, payload } => x.deep_view() == (ActionView::FireHook {
                event: *event,
                payload: payload.deep_view(),
            }),
            Action::Run(a) => x.deep_view() == (ActionView::Run(a.deep_view())),
            Action::Steer(a) => x.deep_view() == (ActionView::Steer(a.deep_view())),
            Action::CancelSteer(a) => x.deep_view() == (ActionView::CancelSteer(a@)),
            Action::Abort => x.deep_view() == (ActionView::Abort),
            Action::SetModel(a) => x.deep_view() == (ActionView::SetModel(a.deep_view())),
            Action::SetThinkingLevel(a) => x.deep_view() == (ActionView::SetThinkingLevel(a.deep_view())),
            Action::SetPermissionMode(a) => x.deep_view() == (ActionView::SetPermissionMode(*a)),
            Action::ApplyBrowserSuite { suite, enable } => x.deep_view() == (ActionView::ApplyBrowserSuite {
                suite: *suite,
                enable: *enable,
            }),
            Action::Sidecar { path, update } => x.deep_view() == (ActionView::Sidecar {
                path: path@,
                update: update.deep_view(),
            }),
            Action::PersistTitle { path, title } => x.deep_view() == (ActionView::PersistTitle {
                path: path@,
                title: title@,
            }),
            Action::SeedFork { source, fork, worktree } => x.deep_view() == (ActionView::SeedFork {
                source: source@,
                fork: fork@,
                worktree: worktree.deep_view(),
            }),
            Action::PersistNote(a) => x.deep_view() == (ActionView::PersistNote(a.deep_view())),
            Action::AppendNote(a) => x.deep_view() == (ActionView::AppendNote(a.deep_view())),
            Action::Requeue(a) => x.deep_view() == (ActionView::Requeue(a.deep_view())),
            Action::Compact { instructions, purpose } => x.deep_view() == (ActionView::Compact {
                instructions: instructions.deep_view(),
                purpose: purpose.deep_view(),
            }),
            Action::SyncHistory => x.deep_view() == (ActionView::SyncHistory),
            Action::SyncUsage => x.deep_view() == (ActionView::SyncUsage),
            Action::RefreshSessionList => x.deep_view() == (ActionView::RefreshSessionList),
            Action::Fork { source, worktree } => x.deep_view() == (ActionView::Fork {
                source: source@,
                worktree: worktree.deep_view(),
            }),
            Action::OpenSession { path } => x.deep_view() == (ActionView::OpenSession {
                path: path@,
            }),
            Action::BuildSession { cwd, project } => x.deep_view() == (ActionView::BuildSession {
                cwd: cwd@,
                project: project.deep_view(),
            }),
            Action::SetActive { session_id } => x.deep_view() == (ActionView::SetActive {
                session_id: session_id@,
            }),
            Action::RetargetTitle { path, cwd } => x.deep_view() == (ActionView::RetargetTitle {
                path: path@,
                cwd: cwd@,
            }),
            Action::Subscribe { path } => x.deep_view() == (ActionView::Subscribe {
                path: path@,
            }),
            Action::ResyncPlan { path } => x.deep_view() == (ActionView::ResyncPlan {
                path: path@,
            }),
            Action::ResyncWorktree { path } => x.deep_view() == (ActionView::ResyncWorktree {
                path: path@,
            }),
            Action::ResyncApprovalMode => x.deep_view() == (ActionView::ResyncApprovalMode),
            Action::WakeTitle(a) => x.deep_view() == (ActionView::WakeTitle(*a)),
            Action::DisarmGoal => x.deep_view() == (ActionView::DisarmGoal),
            Action::SettleGoalRound => x.deep_view() == (ActionView::SettleGoalRound),
            Action::Exit { close } => x.deep_view() == (ActionView::Exit {
                close: *close,
            }),
        },
{
}

} // verus!
