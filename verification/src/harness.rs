//! The harness side of the conversation: transcript messages and the events of
//! a running session.

use crate::json::{Json, JsonView};
use crate::language_model::TokenUsage;
use vstd::prelude::*;

verus! {

/// Why the model stopped generating an assistant message.
#[derive(Debug, Clone, Copy, PartialEq, Eq, Structural)]
pub enum HarnessStopReason {
    Stop,
    Length,
    ToolUse,
    Aborted,
    Error,
}

impl DeepView for HarnessStopReason {
    type V = HarnessStopReason;

    open spec fn deep_view(&self) -> HarnessStopReason {
        *self
    }
}

/// One content block of a harness message.
#[derive(Debug, PartialEq, Eq)]
pub enum ContentBlock {
    Text {
        text: String,
        signature: Option<String>,
    },
    Thinking {
        thinking: String,
        signature: Option<String>,
    },
    Image {
        data: String,
        mime_type: String,
    },
    ToolUse {
        id: String,
        name: String,
        input: Json,
        thought_signature: Option<String>,
    },
}

/// The mathematical value of a [`ContentBlock`].
#[verifier::ext_equal]
pub enum ContentBlockView {
    Text {
        text: Seq<char>,
        signature: Option<Seq<char>>,
    },
    Thinking {
        thinking: Seq<char>,
        signature: Option<Seq<char>>,
    },
    Image {
        data: Seq<char>,
        mime_type: Seq<char>,
    },
    ToolUse {
        id: Seq<char>,
        name: Seq<char>,
        input: JsonView,
        thought_signature: Option<Seq<char>>,
    },
}

impl DeepView for ContentBlock {
    type V = ContentBlockView;

    open spec fn deep_view(&self) -> ContentBlockView {
        match self {
            ContentBlock::Text { text, signature } => ContentBlockView::Text {
                text: text@,
                signature: signature.deep_view(),
            },
            ContentBlock::Thinking { thinking, signature } => ContentBlockView::Thinking {
                thinking: thinking@,
                signature: signature.deep_view(),
            },
            ContentBlock::Image { data, mime_type } => ContentBlockView::Image {
                data: data@,
                mime_type: mime_type@,
            },
            ContentBlock::ToolUse {
                id,
                name,
                input,
                thought_signature,
            } => ContentBlockView::ToolUse {
                id: id@,
                name: name@,
                input: input.deep_view(),
                thought_signature: thought_signature.deep_view(),
            },
        }
    }
}

impl Clone for ContentBlock {
    fn clone(&self) -> (r: Self)
        ensures
            r.deep_view() == self.deep_view(),
    {
        match self {
            ContentBlock::Text { text, signature } => ContentBlock::Text {
                text: text.clone(),
                signature: signature.clone(),
            },
            ContentBlock::Thinking { thinking, signature } => ContentBlock::Thinking {
                thinking: thinking.clone(),
                signature: signature.clone(),
            },
            ContentBlock::Image { data, mime_type } => ContentBlock::Image {
                data: data.clone(),
                mime_type: mime_type.clone(),
            },
            ContentBlock::ToolUse { id, name, input, thought_signature } => ContentBlock::ToolUse {
                id: id.clone(),
                name: name.clone(),
                input: input.clone(),
                thought_signature: thought_signature.clone(),
            },
        }
    }
}

/// One message of the harness transcript.
#[derive(Debug, PartialEq, Eq)]
pub enum AgentMessage {
    User {
        content: Vec<ContentBlock>,
    },
    Assistant {
        content: Vec<ContentBlock>,
        model: String,
        provider: String,
        response_model: Option<String>,
        stop_reason: Option<HarnessStopReason>,
        usage: TokenUsage,
        error_message: Option<String>,
    },
    BashExecution {
        command: String,
        output: String,
    },
    Custom {
        content: Vec<ContentBlock>,
        display: bool,
    },
    ToolResult {
        tool_call_id: String,
        tool_name: String,
        content: Vec<ContentBlock>,
        is_error: bool,
    },
}

/// The mathematical value of a [`AgentMessage`].
#[verifier::ext_equal]
pub enum AgentMessageView {
    User {
        content: Seq<ContentBlockView>,
    },
    Assistant {
        content: Seq<ContentBlockView>,
        model: Seq<char>,
        provider: Seq<char>,
        response_model: Option<Seq<char>>,
        stop_reason: Option<HarnessStopReason>,
        usage: TokenUsage,
        error_message: Option<Seq<char>>,
    },
    BashExecution {
        command: Seq<char>,
        output: Seq<char>,
    },
    Custom {
        content: Seq<ContentBlockView>,
        display: bool,
    },
    ToolResult {
        tool_call_id: Seq<char>,
        tool_name: Seq<char>,
        content: Seq<ContentBlockView>,
        is_error: bool,
    },
}

impl DeepView for AgentMessage {
    type V = AgentMessageView;

    open spec fn deep_view(&self) -> AgentMessageView {
        match self {
            AgentMessage::User { content } => AgentMessageView::User {
                content: content.deep_view(),
            },
            AgentMessage::Assistant {
                content,
                model,
                provider,
                response_model,
                stop_reason,
                usage,
                error_message,
            } => AgentMessageView::Assistant {
                content: content.deep_view(),
                model: model@,
                provider: provider@,
                response_model: response_model.deep_view(),
                stop_reason: stop_reason.deep_view(),
                usage: *usage,
                error_message: error_message.deep_view(),
            },
            AgentMessage::BashExecution { command, output } => AgentMessageView::BashExecution {
                command: command@,
                output: output@,
            },
            AgentMessage::Custom { content, display } => AgentMessageView::Custom {
                content: content.deep_view(),
                display: *display,
            },
            AgentMessage::ToolResult {
                tool_call_id,
                tool_name,
                content,
                is_error,
            } => AgentMessageView::ToolResult {
                tool_call_id: tool_call_id@,
                tool_name: tool_name@,
                content: content.deep_view(),
                is_error: *is_error,
            },
        }
    }
}

impl Clone for AgentMessage {
    fn clone(&self) -> (r: Self)
        ensures
            r.deep_view() == self.deep_view(),
    {
        match self {
            AgentMessage::User { content } => {
                let content_copy = content.clone();
                assert(content_copy.deep_view() =~= content.deep_view());
                AgentMessage::User {
                    content: content_copy,
                }
            },
            AgentMessage::Assistant {
                content,
                model,
                provider,
                response_model,
                stop_reason,
                usage,
                error_message,
            } => {
                let content_copy = content.clone();
                assert(content_copy.deep_view() =~= content.deep_view());
                AgentMessage::Assistant {
                    content: content_copy,
                    model: model.clone(),
                    provider: provider.clone(),
                    response_model: response_model.clone(),
                    stop_reason: stop_reason.clone(),
                    usage: *usage,
                    error_message: error_message.clone(),
                }
            },
            AgentMessage::BashExecution { command, output } => AgentMessage::BashExecution {
                command: command.clone(),
                output: output.clone(),
            },
            AgentMessage::Custom { content, display } => {
                let content_copy = content.clone();
                assert(content_copy.deep_view() =~= content.deep_view());
                AgentMessage::Custom {
                    content: content_copy,
                    display: *display,
                }
            },
            AgentMessage::ToolResult { tool_call_id, tool_name, content, is_error } => {
                let content_copy = content.clone();
                assert(content_copy.deep_view() =~= content.deep_view());
                AgentMessage::ToolResult {
                    tool_call_id: tool_call_id.clone(),
                    tool_name: tool_name.clone(),
                    content: content_copy,
                    is_error: *is_error,
                }
            },
        }
    }
}

/// What moved in a streaming assistant message.
#[derive(Debug, PartialEq, Eq)]
pub enum AssistantMessageEvent {
    TextDelta {
        delta: String,
    },
    ThinkingDelta {
        delta: String,
    },
    /// Block start and end markers, tool call deltas.
    Other,
}

/// The mathematical value of a [`AssistantMessageEvent`].
#[verifier::ext_equal]
pub enum AssistantMessageEventView {
    TextDelta {
        delta: Seq<char>,
    },
    ThinkingDelta {
        delta: Seq<char>,
    },
    Other,
}

impl DeepView for AssistantMessageEvent {
    type V = AssistantMessageEventView;

    open spec fn deep_view(&self) -> AssistantMessageEventView {
        match self {
            AssistantMessageEvent::TextDelta { delta } => AssistantMessageEventView::TextDelta {
                delta: delta@,
            },
            AssistantMessageEvent::ThinkingDelta {
                delta,
            } => AssistantMessageEventView::ThinkingDelta {
                delta: delta@,
            },
            AssistantMessageEvent::Other => AssistantMessageEventView::Other,
        }
    }
}

impl Clone for AssistantMessageEvent {
    fn clone(&self) -> (r: Self)
        ensures
            r.deep_view() == self.deep_view(),
    {
        match self {
            AssistantMessageEvent::TextDelta { delta } => AssistantMessageEvent::TextDelta {
                delta: delta.clone(),
            },
            AssistantMessageEvent::ThinkingDelta { delta } => AssistantMessageEvent::ThinkingDelta {
                delta: delta.clone(),
            },
            AssistantMessageEvent::Other => AssistantMessageEvent::Other,
        }
    }
}

/// An event of a running harness session.
#[derive(Debug, PartialEq, Eq)]
pub enum AgentEvent {
    AgentStart,
    AgentEnd,
    TurnStart,
    TurnEnd,
    MessageStart {
        message: AgentMessage,
    },
    MessageUpdate {
        message: AgentMessage,
        assistant_message_event: AssistantMessageEvent,
    },
    MessageEnd {
        message: AgentMessage,
    },
    ToolExecutionStart {
        tool_call_id: String,
        tool_name: String,
        arguments: Json,
    },
    ToolExecutionUpdate {
        tool_call_id: String,
        tool_name: String,
        arguments: Json,
        partial_result: Json,
    },
    ToolExecutionEnd {
        tool_call_id: String,
        tool_name: String,
        result: Vec<ContentBlock>,
        is_error: bool,
    },
    Retry {
        attempt: u32,
        max_attempts: u32,
        delay_millis: u64,
        reason: String,
        detail: Option<String>,
    },
}

/// The mathematical value of a [`AgentEvent`].
#[verifier::ext_equal]
pub enum AgentEventView {
    AgentStart,
    AgentEnd,
    TurnStart,
    TurnEnd,
    MessageStart {
        message: AgentMessageView,
    },
    MessageUpdate {
        message: AgentMessageView,
        assistant_message_event: AssistantMessageEventView,
    },
    MessageEnd {
        message: AgentMessageView,
    },
    ToolExecutionStart {
        tool_call_id: Seq<char>,
        tool_name: Seq<char>,
        arguments: JsonView,
    },
    ToolExecutionUpdate {
        tool_call_id: Seq<char>,
        tool_name: Seq<char>,
        arguments: JsonView,
        partial_result: JsonView,
    },
    ToolExecutionEnd {
        tool_call_id: Seq<char>,
        tool_name: Seq<char>,
        result: Seq<ContentBlockView>,
        is_error: bool,
    },
    Retry {
        attempt: u32,
        max_attempts: u32,
        delay_millis: u64,
        reason: Seq<char>,
        detail: Option<Seq<char>>,
    },
}

impl DeepView for AgentEvent {
    type V = AgentEventView;

    open spec fn deep_view(&self) -> AgentEventView {
        match self {
            AgentEvent::AgentStart => AgentEventView::AgentStart,
            AgentEvent::AgentEnd => AgentEventView::AgentEnd,
            AgentEvent::TurnStart => AgentEventView::TurnStart,
            AgentEvent::TurnEnd => AgentEventView::TurnEnd,
            AgentEvent::MessageStart { message } => AgentEventView::MessageStart {
                message: message.deep_view(),
            },
            AgentEvent::MessageUpdate {
                message,
                assistant_message_event,
            } => AgentEventView::MessageUpdate {
                message: message.deep_view(),
                assistant_message_event: assistant_message_event.deep_view(),
            },
            AgentEvent::MessageEnd { message } => AgentEventView::MessageEnd {
                message: message.deep_view(),
            },
            AgentEvent::ToolExecutionStart {
                tool_call_id,
                tool_name,
                arguments,
            } => AgentEventView::ToolExecutionStart {
                tool_call_id: tool_call_id@,
                tool_name: tool_name@,
                arguments: arguments.deep_view(),
            },
            AgentEvent::ToolExecutionUpdate {
                tool_call_id,
                tool_name,
                arguments,
                partial_result,
            } => AgentEventView::ToolExecutionUpdate {
                tool_call_id: tool_call_id@,
                tool_name: tool_name@,
                arguments: arguments.deep_view(),
                partial_result: partial_result.deep_view(),
            },
            AgentEvent::ToolExecutionEnd {
                tool_call_id,
                tool_name,
                result,
                is_error,
            } => AgentEventView::ToolExecutionEnd {
                tool_call_id: tool_call_id@,
                tool_name: tool_name@,
                result: result.deep_view(),
                is_error: *is_error,
            },
            AgentEvent::Retry {
                attempt,
                max_attempts,
                delay_millis,
                reason,
                detail,
            } => AgentEventView::Retry {
                attempt: *attempt,
                max_attempts: *max_attempts,
                delay_millis: *delay_millis,
                reason: reason@,
                detail: detail.deep_view(),
            },
        }
    }
}

impl Clone for AgentEvent {
    fn clone(&self) -> (r: Self)
        ensures
            r.deep_view() == self.deep_view(),
    {
        match self {
            AgentEvent::AgentStart => AgentEvent::AgentStart,
            AgentEvent::AgentEnd => AgentEvent::AgentEnd,
            AgentEvent::TurnStart => AgentEvent::TurnStart,
            AgentEvent::TurnEnd => AgentEvent::TurnEnd,
            AgentEvent::MessageStart { message } => AgentEvent::MessageStart {
                message: message.clone(),
            },
            AgentEvent::MessageUpdate {
                message,
                assistant_message_event,
            } => AgentEvent::MessageUpdate {
                message: message.clone(),
                assistant_message_event: assistant_message_event.clone(),
            },
            AgentEvent::MessageEnd { message } => AgentEvent::MessageEnd {
                message: message.clone(),
            },
            AgentEvent::ToolExecutionStart {
                tool_call_id,
                tool_name,
                arguments,
            } => AgentEvent::ToolExecutionStart {
                tool_call_id: tool_call_id.clone(),
                tool_name: tool_name.clone(),
                arguments: arguments.clone(),
            },
            AgentEvent::ToolExecutionUpdate {
                tool_call_id,
                tool_name,
                arguments,
                partial_result,
            } => AgentEvent::ToolExecutionUpdate {
                tool_call_id: tool_call_id.clone(),
                tool_name: tool_name.clone(),
                arguments: arguments.clone(),
                partial_result: partial_result.clone(),
            },
            AgentEvent::ToolExecutionEnd { tool_call_id, tool_name, result, is_error } => {
                let result_copy = result.clone();
                assert(result_copy.deep_view() =~= result.deep_view());
                AgentEvent::ToolExecutionEnd {
                    tool_call_id: tool_call_id.clone(),
                    tool_name: tool_name.clone(),
                    result: result_copy,
                    is_error: *is_error,
                }
            },
            AgentEvent::Retry {
                attempt,
                max_attempts,
                delay_millis,
                reason,
                detail,
            } => AgentEvent::Retry {
                attempt: *attempt,
                max_attempts: *max_attempts,
                delay_millis: *delay_millis,
                reason: reason.clone(),
                detail: detail.clone(),
            },
        }
    }
}

/// The view of a [`ContentBlock`] is made of all its parts, each as it is.
pub proof fn content_block_is_viewed_whole(x: &ContentBlock)
    ensures
        match x {
            ContentBlock::Text { text, signature } => x.deep_view() == (ContentBlockView::Text {
                text: text@,
                signature: signature.deep_view(),
            }),
            ContentBlock::Thinking { thinking, signature } => x.deep_view() == (ContentBlockView::Thinking {
                thinking: thinking@,
                signature: signature.deep_view(),
            }),
            ContentBlock::Image { data, mime_type } => x.deep_view() == (ContentBlockView::Image {
                data: data@,
                mime_type: mime_type@,
            }),
            ContentBlock::ToolUse {
                id,
                name,
                input,
                thought_signature,
            } => x.deep_view() == (ContentBlockView::ToolUse {
                id: id@,
                name: name@,
                input: input.deep_view(),
                thought_signature: thought_signature.deep_view(),
            }),
        },
{
}

/// The view of an [`AgentMessage`] is made of all its parts, each as it is.
pub proof fn agent_message_is_viewed_whole(x: &AgentMessage)
    ensures
        match x {
            AgentMessage::User { content } => x.deep_view() == (AgentMessageView::User {
                content: content.deep_view(),
            }),
            AgentMessage::Assistant {
                content,
                model,
                provider,
                response_model,
                stop_reason,
                usage,
                error_message,
            } => x.deep_view() == (AgentMessageView::Assistant {
                content: content.deep_view(),
                model: model@,
                provider: provider@,
                response_model: response_model.deep_view(),
                stop_reason: stop_reason.deep_view(),
                usage: *usage,
                error_message: error_message.deep_view(),
            }),
            AgentMessage::BashExecution { command, output } => x.deep_view() == (AgentMessageView::BashExecution {
                command: command@,
                output: output@,
            }),
            AgentMessage::Custom { content, display } => x.deep_view() == (AgentMessageView::Custom {
                content: content.deep_view(),
                display: *display,
            }),
            AgentMessage::ToolResult {
                tool_call_id,
                tool_name,
                content,
                is_error,
            } => x.deep_view() == (AgentMessageView::ToolResult {
                tool_call_id: tool_call_id@,
                tool_name: tool_name@,
                content: content.deep_view(),
                is_error: *is_error,
            }),
        },
{
}

/// The view of an [`AssistantMessageEvent`] is made of all its parts, each as it is.
pub proof fn assistant_message_event_is_viewed_whole(x: &AssistantMessageEvent)
    ensures
        match x {
            AssistantMessageEvent::TextDelta { delta } => x.deep_view() == (AssistantMessageEventView::TextDelta {
                delta: delta@,
            }),
            AssistantMessageEvent::ThinkingDelta {
                delta,
            } => x.deep_view() == (AssistantMessageEventView::ThinkingDelta {
                delta: delta@,
            }),
            AssistantMessageEvent::Other => x.deep_view() == (AssistantMessageEventView::Other),
        },
{
}

/// The view of an [`AgentEvent`] is made of all its parts, each as it is.
pub proof fn agent_event_is_viewed_whole(x: &AgentEvent)
    ensures
        match x {
            AgentEvent::AgentStart => x.deep_view() == (AgentEventView::AgentStart),
            AgentEvent::AgentEnd => x.deep_view() == (AgentEventView::AgentEnd),
            AgentEvent::TurnStart => x.deep_view() == (AgentEventView::TurnStart),
            AgentEvent::TurnEnd => x.deep_view() == (AgentEventView::TurnEnd),
            AgentEvent::MessageStart { message } => x.deep_view() == (AgentEventView::MessageStart {
                message: message.deep_view(),
            }),
            AgentEvent::MessageUpdate {
                message,
                assistant_message_event,
            } => x.deep_view() == (AgentEventView::MessageUpdate {
                message: message.deep_view(),
                assistant_message_event: assistant_message_event.deep_view(),
            }),
            AgentEvent::MessageEnd { message } => x.deep_view() == (AgentEventView::MessageEnd {
                message: message.deep_view(),
            }),
            AgentEvent::ToolExecutionStart {
                tool_call_id,
                tool_name,
                arguments,
            } => x.deep_view() == (AgentEventView::ToolExecutionStart {
                tool_call_id: tool_call_id@,
                tool_name: tool_name@,
                arguments: arguments.deep_view(),
            }),
            AgentEvent::ToolExecutionUpdate {
                tool_call_id,
                tool_name,
                arguments,
                partial_result,
            } => x.deep_view() == (AgentEventView::ToolExecutionUpdate {
                tool_call_id: tool_call_id@,
                tool_name: tool_name@,
                arguments: arguments.deep_view(),
                partial_result: partial_result.deep_view(),
            }),
            AgentEvent::ToolExecutionEnd {
                tool_call_id,
                tool_name,
                result,
                is_error,
            } => x.deep_view() == (AgentEventView::ToolExecutionEnd {
                tool_call_id: tool_call_id@,
                tool_name: tool_name@,
                result: result.deep_view(),
                is_error: *is_error,
            }),
            AgentEvent::Retry {
                attempt,
                max_attempts,
                delay_millis,
                reason,
                detail,
            } => x.deep_view() == (AgentEventView::Retry {
                attempt: *attempt,
                max_attempts: *max_attempts,
                delay_millis: *delay_millis,
                reason: reason@,
                detail: detail.deep_view(),
            }),
        },
{
}

} // verus!
