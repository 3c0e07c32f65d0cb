//! The UI side of the conversation: the events a thread shows.

use crate::json::{Json, JsonView};
use crate::language_model::{StopReason, TokenUsage};
use vstd::prelude::*;

verus! {

/// State of a tool call card.
#[derive(Debug, Clone, Copy, PartialEq, Eq, Structural)]
pub enum ToolCallStatus {
    /// Waits for the user's answer.
    PendingApproval,
    Running,
    Success,
    Error,
}

impl DeepView for ToolCallStatus {
    type V = ToolCallStatus;

    open spec fn deep_view(&self) -> ToolCallStatus {
        *self
    }
}

/// How far tool calls may reach without asking.
#[derive(Debug, Clone, Copy, PartialEq, Eq, Structural)]
pub enum PermissionMode {
    /// Nothing that writes or runs.
    ReadOnly,
    /// Writes inside the project, and what the host allows.
    WorkspaceWrite,
    /// Everything.
    DangerFullAccess,
}

impl DeepView for PermissionMode {
    type V = PermissionMode;

    open spec fn deep_view(&self) -> PermissionMode {
        *self
    }
}

/// An observation of a nested session.
#[derive(Debug, PartialEq, Eq)]
pub enum SubagentChildEvent {
    Text(String),
    Thinking(String),
    ToolStart {
        id: String,
        name: String,
        /// An argument's name and its shortened value.
        hint: Option<(String, String)>,
    },
    ToolEnd {
        id: String,
        name: String,
        is_error: bool,
    },
}

/// The mathematical value of a [`SubagentChildEvent`].
#[verifier::ext_equal]
pub enum SubagentChildEventView {
    Text(Seq<char>),
    Thinking(Seq<char>),
    ToolStart {
        id: Seq<char>,
        name: Seq<char>,
        hint: Option<(Seq<char>, Seq<char>)>,
    },
    ToolEnd {
        id: Seq<char>,
        name: Seq<char>,
        is_error: bool,
    },
}

impl DeepView for SubagentChildEvent {
    type V = SubagentChildEventView;

    open spec fn deep_view(&self) -> SubagentChildEventView {
        match self {
            SubagentChildEvent::Text(a) => SubagentChildEventView::Text(a@),
            SubagentChildEvent::Thinking(a) => SubagentChildEventView::Thinking(a@),
            SubagentChildEvent::ToolStart { id, name, hint } => SubagentChildEventView::ToolStart {
                id: id@,
                name: name@,
                hint: hint.deep_view(),
            },
            SubagentChildEvent::ToolEnd { id, name, is_error } => SubagentChildEventView::ToolEnd {
                id: id@,
                name: name@,
                is_error: *is_error,
            },
        }
    }
}

/// An event of the conversation, as the UI renders it.
#[derive(Debug, PartialEq, Eq)]
#[allow(inconsistent_fields)]
pub enum ThreadEvent {
    AgentText(String),
    AgentThinking(String),
    Stop(StopReason),
    Error(String),
    TurnStarted,
    ToolCall {
        id: String,
        name: String,
        title: String,
        status: ToolCallStatus,
        input: Option<Json>,
    },
    /// A tool call waits for the user.
    ToolCallAuthorization {
        id: String,
        tool_name: String,
        summary: String,
        input: Json,
    },
    ToolOutput {
        id: String,
        chunk: String,
    },
    ToolResult {
        id: String,
        output: String,
        is_error: bool,
    },
    SubagentProgress {
        id: String,
        subagent_type: String,
        tool_uses: u32,
        token_usage: TokenUsage,
        latest_activity: Option<String>,
        status: ToolCallStatus,
    },
    SubagentChild {
        id: String,
        child: SubagentChildEvent,
    },
    Retry {
        attempt: u32,
        max_attempts: u32,
        delay_secs: u64,
        reason: String,
        detail: Option<String>,
    },
    CompactionStarted {
        tokens_before: u64,
    },
    Compaction {
        summary: String,
        messages_compacted: u64,
        tokens_before: u64,
    },
    PermissionModeChanged {
        mode: PermissionMode,
    },
    PlanModeChanged {
        enabled: bool,
    },
    /// A plan waits for the user's review.
    PlanReady {
        plan_file: String,
        title: String,
    },
    WorktreeChanged {
        active: bool,
        path: Option<String>,
    },
}

/// The mathematical value of a [`ThreadEvent`].
#[verifier::ext_equal]
#[allow(inconsistent_fields)]
pub enum ThreadEventView {
    AgentText(Seq<char>),
    AgentThinking(Seq<char>),
    Stop(StopReason),
    Error(Seq<char>),
    TurnStarted,
    ToolCall {
        id: Seq<char>,
        name: Seq<char>,
        title: Seq<char>,
        status: ToolCallStatus,
        input: Option<JsonView>,
    },
    ToolCallAuthorization {
        id: Seq<char>,
        tool_name: Seq<char>,
        summary: Seq<char>,
        input: JsonView,
    },
    ToolOutput {
        id: Seq<char>,
        chunk: Seq<char>,
    },
    ToolResult {
        id: Seq<char>,
        output: Seq<char>,
        is_error: bool,
    },
    SubagentProgress {
        id: Seq<char>,
        subagent_type: Seq<char>,
        tool_uses: u32,
        token_usage: TokenUsage,
        latest_activity: Option<Seq<char>>,
        status: ToolCallStatus,
    },
    SubagentChild {
        id: Seq<char>,
        child: SubagentChildEventView,
    },
    Retry {
        attempt: u32,
        max_attempts: u32,
        delay_secs: u64,
        reason: Seq<char>,
        detail: Option<Seq<char>>,
    },
    CompactionStarted {
        tokens_before: u64,
    },
    Compaction {
        summary: Seq<char>,
        messages_compacted: u64,
        tokens_before: u64,
    },
    PermissionModeChanged {
        mode: PermissionMode,
    },
    PlanModeChanged {
        enabled: bool,
    },
    PlanReady {
        plan_file: Seq<char>,
        title: Seq<char>,
    },
    WorktreeChanged {
        active: bool,
        path: Option<Seq<char>>,
    },
}

impl DeepView for ThreadEvent {
    type V = ThreadEventView;

    open spec fn deep_view(&self) -> ThreadEventView {
        match self {
            ThreadEvent::AgentText(a) => ThreadEventView::AgentText(a@),
            ThreadEvent::AgentThinking(a) => ThreadEventView::AgentThinking(a@),
            ThreadEvent::Stop(a) => ThreadEventView::Stop(*a),
            ThreadEvent::Error(a) => ThreadEventView::Error(a@),
            ThreadEvent::TurnStarted => ThreadEventView::TurnStarted,
            ThreadEvent::ToolCall { id, name, title, status, input } => ThreadEventView::ToolCall {
                id: id@,
                name: name@,
                title: title@,
                status: *status,
                input: input.deep_view(),
            },
            ThreadEvent::ToolCallAuthorization {
                id,
                tool_name,
                summary,
                input,
            } => ThreadEventView::ToolCallAuthorization {
                id: id@,
                tool_name: tool_name@,
                summary: summary@,
                input: input.deep_view(),
            },
            ThreadEvent::ToolOutput { id, chunk } => ThreadEventView::ToolOutput {
                id: id@,
                chunk: chunk@,
            },
            ThreadEvent::ToolResult { id, output, is_error } => ThreadEventView::ToolResult {
                id: id@,
                output: output@,
                is_error: *is_error,
            },
            ThreadEvent::SubagentProgress {
                id,
                subagent_type,
                tool_uses,
                token_usage,
                latest_activity,
                status,
            } => ThreadEventView::SubagentProgress {
                id: id@,
                subagent_type: subagent_type@,
                tool_uses: *tool_uses,
                token_usage: *token_usage,
                latest_activity: latest_activity.deep_view(),
                status: *status,
            },
            ThreadEvent::SubagentChild { id, child } => ThreadEventView::SubagentChild {
                id: id@,
                child: child.deep_view(),
            },
            ThreadEvent::Retry {
                attempt,
                max_attempts,
                delay_secs,
                reason,
                detail,
            } => ThreadEventView::Retry {
                attempt: *attempt,
                max_attempts: *max_attempts,
                delay_secs: *delay_secs,
                reason: reason@,
                detail: detail.deep_view(),
            },
            ThreadEvent::CompactionStarted { tokens_before } => ThreadEventView::CompactionStarted {
                tokens_before: *tokens_before,
            },
            ThreadEvent::Compaction {
                summary,
                messages_compacted,
                tokens_before,
            } => ThreadEventView::Compaction {
                summary: summary@,
                messages_compacted: *messages_compacted,
                tokens_before: *tokens_before,
            },
            ThreadEvent::PermissionModeChanged { mode } => ThreadEventView::PermissionModeChanged {
                mode: *mode,
            },
            ThreadEvent::PlanModeChanged { enabled } => ThreadEventView::PlanModeChanged {
                enabled: *enabled,
            },
            ThreadEvent::PlanReady { plan_file, title } => ThreadEventView::PlanReady {
                plan_file: plan_file@,
                title: title@,
            },
            ThreadEvent::WorktreeChanged { active, path } => ThreadEventView::WorktreeChanged {
                active: *active,
                path: path.deep_view(),
            },
        }
    }
}

/// The view of a [`SubagentChildEvent`] is made of all its parts, each as it is.
pub proof fn subagent_child_event_is_viewed_whole(x: &SubagentChildEvent)
    ensures
        match x {
            SubagentChildEvent::Text(a) => x.deep_view() == (SubagentChildEventView::Text(a@)),
            SubagentChildEvent::Thinking(a) => x.deep_view() == (SubagentChildEventView::Thinking(a@)),
            SubagentChildEvent::ToolStart { id, name, hint } => x.deep_view() == (SubagentChildEventView::ToolStart {
                id: id@,
                name: name@,
                hint: hint.deep_view(),
            }),
            SubagentChildEvent::ToolEnd { id, name, is_error } => x.deep_view() == (SubagentChildEventView::ToolEnd {
                id: id@,
                name: name@,
                is_error: *is_error,
            }),
        },
{
}

/// The view of a [`ThreadEvent`] is made of all its parts, each as it is.
pub proof fn thread_event_is_viewed_whole(x: &ThreadEvent)
    ensures
        match x {
            ThreadEvent::AgentText(a) => x.deep_view() == (ThreadEventView::AgentText(a@)),
            ThreadEvent::AgentThinking(a) => x.deep_view() == (ThreadEventView::AgentThinking(a@)),
            ThreadEvent::Stop(a) => x.deep_view() == (ThreadEventView::Stop(*a)),
            ThreadEvent::Error(a) => x.deep_view() == (ThreadEventView::Error(a@)),
            ThreadEvent::TurnStarted => x.deep_view() == (ThreadEventView::TurnStarted),
            ThreadEvent::ToolCall { id, name, title, status, input } => x.deep_view() == (ThreadEventView::ToolCall {
                id: id@,
                name: name@,
                title: title@,
                status: *status,
                input: input.deep_view(),
            }),
            ThreadEvent::ToolCallAuthorization {
                id,
                tool_name,
                summary,
                input,
            } => x.deep_view() == (ThreadEventView::ToolCallAuthorization {
                id: id@,
                tool_name: tool_name@,
                summary: summary@,
                input: input.deep_view(),
            }),
            ThreadEvent::ToolOutput { id, chunk } => x.deep_view() == (ThreadEventView::ToolOutput {
                id: id@,
                chunk: chunk@,
            }),
            ThreadEvent::ToolResult { id, output, is_error } => x.deep_view() == (ThreadEventView::ToolResult {
                id: id@,
                output: output@,
                is_error: *is_error,
            }),
            ThreadEvent::SubagentProgress {
                id,
                subagent_type,
                tool_uses,
                token_usage,
                latest_activity,
                status,
            } => x.deep_view() == (ThreadEventView::SubagentProgress {
                id: id@,
                subagent_type: subagent_type@,
                tool_uses: *tool_uses,
                token_usage: *token_usage,
                latest_activity: latest_activity.deep_view(),
                status: *status,
            }),
            ThreadEvent::SubagentChild { id, child } => x.deep_view() == (ThreadEventView::SubagentChild {
                id: id@,
                child: child.deep_view(),
            }),
            ThreadEvent::Retry {
                attempt,
                max_attempts,
                delay_secs,
                reason,
                detail,
            } => x.deep_view() == (ThreadEventView::Retry {
                attempt: *attempt,
                max_attempts: *max_attempts,
                delay_secs: *delay_secs,
                reason: reason@,
                detail: detail.deep_view(),
            }),
            ThreadEvent::CompactionStarted { tokens_before } => x.deep_view() == (ThreadEventView::CompactionStarted {
                tokens_before: *tokens_before,
            }),
            ThreadEvent::Compaction {
                summary,
                messages_compacted,
                tokens_before,
            } => x.deep_view() == (ThreadEventView::Compaction {
                summary: summary@,
                messages_compacted: *messages_compacted,
                tokens_before: *tokens_before,
            }),
            ThreadEvent::PermissionModeChanged { mode } => x.deep_view() == (ThreadEventView::PermissionModeChanged {
                mode: *mode,
            }),
            ThreadEvent::PlanModeChanged { enabled } => x.deep_view() == (ThreadEventView::PlanModeChanged {
                enabled: *enabled,
            }),
            ThreadEvent::PlanReady { plan_file, title } => x.deep_view() == (ThreadEventView::PlanReady {
                plan_file: plan_file@,
                title: title@,
            }),
            ThreadEvent::WorktreeChanged { active, path } => x.deep_view() == (ThreadEventView::WorktreeChanged {
                active: *active,
                path: path.deep_view(),
            }),
        },
{
}

} // verus!
