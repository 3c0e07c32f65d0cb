//! Conversation messages.
//!
//! Each message carries a stable `id`, a `timestamp` in Unix seconds and an
//! optional `parent_id` for branch linking.

use crate::language_model::{MessageContent, MessageContentView, Role};
use crate::outside::{fresh_id, now_seconds};
use crate::text::str_eq;
use vstd::prelude::*;

verus! {

/// Stable origin of a persisted message.
#[derive(Debug, Clone, Copy, PartialEq, Eq, Structural)]
pub enum MessageProvenance {
    User,
    Assistant,
    Tool,
}

impl DeepView for MessageProvenance {
    type V = MessageProvenance;

    open spec fn deep_view(&self) -> MessageProvenance {
        *self
    }
}

/// Originating agent of a user-role message the human did not type
/// (harness-seeded turns, team peer deliveries, member opening tasks).
#[derive(Debug, PartialEq, Eq)]
pub enum MessageAuthor {
    /// The session's main agent.
    Lead,
    /// A named agent: team member name or agent-manifest name.
    Agent(String),
}

/// The mathematical value of a [`MessageAuthor`].
#[verifier::ext_equal]
pub enum MessageAuthorView {
    Lead,
    Agent(Seq<char>),
}

impl DeepView for MessageAuthor {
    type V = MessageAuthorView;

    open spec fn deep_view(&self) -> MessageAuthorView {
        match self {
            MessageAuthor::Lead => MessageAuthorView::Lead,
            MessageAuthor::Agent(a) => MessageAuthorView::Agent(a@),
        }
    }
}

impl Clone for MessageAuthor {
    fn clone(&self) -> (r: Self)
        ensures
            r.deep_view() == self.deep_view(),
    {
        match self {
            MessageAuthor::Lead => MessageAuthor::Lead,
            MessageAuthor::Agent(a) => MessageAuthor::Agent(a.clone()),
        }
    }
}

/// UI-only metadata captured when a user message is submitted. The model
/// request path ignores it.
#[derive(Debug, PartialEq, Eq)]
pub struct MessageUiMetadata {
    pub model_id: Option<String>,
    /// The permission mode by its integer encoding.
    pub approval_mode: Option<i64>,
    /// Set when this user message was injected into a running turn.
    pub steered: Option<bool>,
    /// Machine-generated background-task event, not typed by the human.
    pub external_event: Option<bool>,
    /// The agent that authored this user-role message; absent = human input.
    pub author: Option<MessageAuthor>,
    /// This user message entered the session via team peer delivery.
    pub peer: bool,
    /// UI-only display form of this user message.
    pub display_text: Option<String>,
}

/// The mathematical value of a [`MessageUiMetadata`].
#[verifier::ext_equal]
pub struct MessageUiMetadataView {
    pub model_id: Option<Seq<char>>,
    pub approval_mode: Option<i64>,
    pub steered: Option<bool>,
    pub external_event: Option<bool>,
    pub author: Option<MessageAuthorView>,
    pub peer: bool,
    pub display_text: Option<Seq<char>>,
}

impl DeepView for MessageUiMetadata {
    type V = MessageUiMetadataView;

    open spec fn deep_view(&self) -> MessageUiMetadataView {
        MessageUiMetadataView {
            model_id: self.model_id.deep_view(),
            approval_mode: self.approval_mode.deep_view(),
            steered: self.steered.deep_view(),
            external_event: self.external_event.deep_view(),
            author: self.author.deep_view(),
            peer: self.peer,
            display_text: self.display_text.deep_view(),
        }
    }
}

impl Clone for MessageUiMetadata {
    fn clone(&self) -> (r: Self)
        ensures
            r.deep_view() == self.deep_view(),
    {
        let r = MessageUiMetadata {
            model_id: self.model_id.clone(),
            approval_mode: self.approval_mode.clone(),
            steered: self.steered.clone(),
            external_event: self.external_event.clone(),
            author: self.author.clone(),
            peer: self.peer,
            display_text: self.display_text.clone(),
        };
        r
    }
}

/// A single conversation message.
#[derive(Debug, PartialEq, Eq)]
pub struct Message {
    /// Stable unique id.
    pub id: String,
    /// Creation time, Unix seconds.
    pub timestamp: i64,
    /// Parent message id for branch/fork linking.
    pub parent_id: Option<String>,
    pub provenance: MessageProvenance,
    pub role: Role,
    pub content: Vec<MessageContent>,
    pub ui: Option<MessageUiMetadata>,
}

/// The mathematical value of a [`Message`].
#[verifier::ext_equal]
pub struct MessageView {
    pub id: Seq<char>,
    pub timestamp: i64,
    pub parent_id: Option<Seq<char>>,
    pub provenance: MessageProvenance,
    pub role: Role,
    pub content: Seq<MessageContentView>,
    pub ui: Option<MessageUiMetadataView>,
}

impl DeepView for Message {
    type V = MessageView;

    open spec fn deep_view(&self) -> MessageView {
        MessageView {
            id: self.id@,
            timestamp: self.timestamp,
            parent_id: self.parent_id.deep_view(),
            provenance: self.provenance,
            role: self.role,
            content: self.content.deep_view(),
            ui: self.ui.deep_view(),
        }
    }
}

impl Clone for Message {
    fn clone(&self) -> (r: Self)
        ensures
            r.deep_view() == self.deep_view(),
    {
        let r = Message {
            id: self.id.clone(),
            timestamp: self.timestamp,
            parent_id: self.parent_id.clone(),
            provenance: self.provenance,
            role: self.role,
            content: self.content.clone(),
            ui: self.ui.clone(),
        };
        assert(r.content.deep_view() =~= self.content.deep_view());
        r
    }
}

/// Routing name of the session's main agent.
pub const LEADER_NAME: &'static str = "lead";

impl MessageAuthorView {
    pub open spec fn routing(self) -> Seq<char> {
        match self {
            MessageAuthorView::Lead => LEADER_NAME@,
            MessageAuthorView::Agent(name) => name,
        }
    }

    pub open spec fn from_routing(name: Seq<char>) -> MessageAuthorView {
        if name == LEADER_NAME@ {
            MessageAuthorView::Lead
        } else {
            MessageAuthorView::Agent(name)
        }
    }
}

impl Default for MessageAuthor {
    fn default() -> (r: Self)
        ensures
            r == MessageAuthor::Lead,
    {
        MessageAuthor::Lead
    }
}

impl MessageAuthor {
    /// Routing identity: `"lead"` for the main agent, the manifest / member
    /// name otherwise. The session sidecar persists this string.
    pub fn routing(&self) -> (r: &str)
        ensures
            r@ == self.deep_view().routing(),
    {
        match self {
            MessageAuthor::Lead => LEADER_NAME,
            MessageAuthor::Agent(name) => name.as_str(),
        }
    }

    /// Inverse of [`MessageAuthor::routing`].
    pub fn from_routing(name: &str) -> (r: Self)
        ensures
            r.deep_view() == MessageAuthorView::from_routing(name@),
    {
        if str_eq(name, LEADER_NAME) {
            MessageAuthor::Lead
        } else {
            MessageAuthor::Agent(name.to_owned())
        }
    }
}

/// Every routing name gives itself back, and so does every author but a named
/// agent that took the main agent's name.
pub proof fn author_routing_round_trips(author: MessageAuthorView, name: Seq<char>)
    ensures
        MessageAuthorView::from_routing(name).routing() == name,
        author != MessageAuthorView::Agent(LEADER_NAME@) ==> MessageAuthorView::from_routing(
            author.routing(),
        ) == author,
{
}

impl Default for MessageUiMetadata {
    fn default() -> (r: Self)
        ensures
            r == (MessageUiMetadata {
                model_id: None,
                approval_mode: None,
                steered: None,
                external_event: None,
                author: None,
                peer: false,
                display_text: None,
            }),
    {
        MessageUiMetadata {
            model_id: None,
            approval_mode: None,
            steered: None,
            external_event: None,
            author: None,
            peer: false,
            display_text: None,
        }
    }
}

/// Whether a flag is unset, which the persisted form leaves out.
pub fn is_false(value: &bool) -> (r: bool)
    ensures
        r == !*value,
{
    !*value
}

/// What a message says, without the identity and the time it was given.
#[verifier::ext_equal]
pub struct MessageBody {
    pub parent_id: Option<Seq<char>>,
    pub provenance: MessageProvenance,
    pub role: Role,
    pub content: Seq<MessageContentView>,
    pub ui: Option<MessageUiMetadataView>,
}

/// A message without a parent and without UI metadata.
pub open spec fn plain_body(
    role: Role,
    provenance: MessageProvenance,
    content: Seq<MessageContentView>,
) -> MessageBody {
    MessageBody { parent_id: None, provenance, role, content, ui: None }
}

pub open spec fn has_tool_result(content: Seq<MessageContentView>) -> bool {
    exists|i: int| 0 <= i < content.len() && content[i] is ToolResult
}

/// A user-role message: tool output where a block is a tool result, else the
/// user's own.
pub open spec fn user_body(content: Seq<MessageContentView>) -> MessageBody {
    plain_body(
        Role::User,
        if has_tool_result(content) {
            MessageProvenance::Tool
        } else {
            MessageProvenance::User
        },
        content,
    )
}

pub open spec fn assistant_body(content: Seq<MessageContentView>) -> MessageBody {
    plain_body(Role::Assistant, MessageProvenance::Assistant, content)
}

impl Message {
    pub open spec fn body(&self) -> MessageBody {
        MessageBody {
            parent_id: self.parent_id.deep_view(),
            provenance: self.provenance,
            role: self.role,
            content: self.content.deep_view(),
            ui: self.ui.deep_view(),
        }
    }

    /// A message with the given identity and time.
    pub fn with_identity(
        id: String,
        timestamp: i64,
        role: Role,
        provenance: MessageProvenance,
        content: Vec<MessageContent>,
    ) -> (r: Self)
        ensures
            r.id == id,
            r.timestamp == timestamp,
            r.content == content,
            r.body() == plain_body(role, provenance, content.deep_view()),
    {
        Message { id, timestamp, parent_id: None, provenance, role, content, ui: None }
    }

    fn new(role: Role, provenance: MessageProvenance, content: Vec<MessageContent>) -> (r: Self)
        ensures
            r.body() == plain_body(role, provenance, content.deep_view()),
            r.id@.len() == 36,
    {
        Message::with_identity(fresh_id(), now_seconds(), role, provenance, content)
    }

    /// A message the user typed. Its identity is fresh and its time is now.
    pub fn user(text: String) -> (r: Self)
        ensures
            r.body() == plain_body(
                Role::User,
                MessageProvenance::User,
                seq![MessageContentView::Text(text@)],
            ),
            r.id@.len() == 36,
    {
        let mut content: Vec<MessageContent> = Vec::new();
        content.push(MessageContent::Text(text));
        assert(content.deep_view() =~= seq![MessageContentView::Text(text@)]);
        Message::new(Role::User, MessageProvenance::User, content)
    }

    pub fn user_with_content(content: Vec<MessageContent>) -> (r: Self)
        ensures
            r.body() == user_body(content.deep_view()),
            r.id@.len() == 36,
    {
        let mut tool = false;
        for i in 0..content.len()
            invariant
                tool == exists|k: int| 0 <= k < i && content.deep_view()[k] is ToolResult,
        {
            match &content[i] {
                MessageContent::ToolResult(_) => {
                    tool = true;
                    assert(content.deep_view()[i as int] is ToolResult);
                },
                _ => {
                    assert(!(content.deep_view()[i as int] is ToolResult));
                },
            }
        }
        let provenance = if tool {
            MessageProvenance::Tool
        } else {
            MessageProvenance::User
        };
        Message::new(Role::User, provenance, content)
    }

    pub fn assistant(content: Vec<MessageContent>) -> (r: Self)
        ensures
            r.body() == assistant_body(content.deep_view()),
            r.id@.len() == 36,
    {
        Message::new(Role::Assistant, MessageProvenance::Assistant, content)
    }

    /// Append a text part to the end.
    pub fn push_text(&mut self, text: String)
        ensures
            final(self).content@ == old(self).content@.push(MessageContent::Text(text)),
            *final(self) == (Message { content: final(self).content, ..*old(self) }),
    {
        self.push_content(MessageContent::Text(text));
    }

    /// Append a part to the end.
    pub fn push_content(&mut self, content: MessageContent)
        ensures
            final(self).content@ == old(self).content@.push(content),
            *final(self) == (Message { content: final(self).content, ..*old(self) }),
    {
        self.content.push(content);
    }
}

/// The main agent is addressed as `lead`, any other agent by its name, and a name
/// leads back to its agent.
pub proof fn agents_are_addressed_by_name(name: Seq<char>)
    ensures
        MessageAuthorView::Lead.routing() == "lead"@,
        MessageAuthorView::Agent(name).routing() == name,
        MessageAuthorView::from_routing("lead"@) == MessageAuthorView::Lead,
        name != "lead"@ ==> MessageAuthorView::from_routing(name) == MessageAuthorView::Agent(name),
{
}

/// A message of the user role keeps its blocks and is the user's own unless a tool
/// result is among them; one of the assistant is the assistant's.
pub proof fn messages_keep_their_blocks(content: Seq<MessageContentView>)
    ensures
        user_body(content).content == content,
        user_body(content).role == Role::User,
        user_body(content).provenance == MessageProvenance::Tool <==> (exists|i: int|
            0 <= i < content.len() && (#[trigger] content[i]) is ToolResult),
        user_body(content).provenance == MessageProvenance::User || user_body(content).provenance
            == MessageProvenance::Tool,
        user_body(content).ui is None && user_body(content).parent_id is None,
        assistant_body(content).content == content,
        assistant_body(content).role == Role::Assistant,
        assistant_body(content).provenance == MessageProvenance::Assistant,
        assistant_body(content).ui is None && assistant_body(content).parent_id is None,
{
}

/// The view of a [`MessageAuthor`] is made of all its parts, each as it is.
pub proof fn message_author_is_viewed_whole(x: &MessageAuthor)
    ensures
        match x {
            MessageAuthor::Lead => x.deep_view() == (MessageAuthorView::Lead),
            MessageAuthor::Agent(a) => x.deep_view() == (MessageAuthorView::Agent(a@)),
        },
{
}

/// The view of a [`MessageUiMetadata`] is made of all its parts, each as it is.
pub proof fn message_ui_metadata_is_viewed_whole(x: &MessageUiMetadata)
    ensures
        x.deep_view() == (MessageUiMetadataView {
            model_id: x.model_id.deep_view(),
            approval_mode: x.approval_mode.deep_view(),
            steered: x.steered.deep_view(),
            external_event: x.external_event.deep_view(),
            author: x.author.deep_view(),
            peer: x.peer,
            display_text: x.display_text.deep_view(),
        }),
{
}

/// The view of a [`Message`] is made of all its parts, each as it is.
pub proof fn message_is_viewed_whole(x: &Message)
    ensures
        x.deep_view() == (MessageView {
            id: x.id@,
            timestamp: x.timestamp,
            parent_id: x.parent_id.deep_view(),
            provenance: x.provenance,
            role: x.role,
            content: x.content.deep_view(),
            ui: x.ui.deep_view(),
        }),
{
}

} // verus!
