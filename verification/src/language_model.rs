//! Request and response types of language models.

use crate::json::{Json, JsonView};
use crate::text::{char_is_space, chars_of, is_space, opt_str_view, same_opt, str_eq};
use vstd::prelude::*;

verus! {

/// Who speaks in a message.
#[derive(Debug, Clone, Copy, PartialEq, Eq, Structural)]
pub enum Role {
    User,
    Assistant,
    System,
}

impl DeepView for Role {
    type V = Role;

    open spec fn deep_view(&self) -> Role {
        *self
    }
}

/// A tool call issued by the model.
#[derive(Debug, PartialEq, Eq)]
pub struct LanguageModelToolUse {
    pub id: String,
    pub name: String,
    pub raw_input: String,
    pub input: Json,
    pub is_input_complete: bool,
    /// Thinking signature; some models require it echoed back for verification.
    pub thought_signature: Option<String>,
}

/// The mathematical value of a [`LanguageModelToolUse`].
#[verifier::ext_equal]
pub struct LanguageModelToolUseView {
    pub id: Seq<char>,
    pub name: Seq<char>,
    pub raw_input: Seq<char>,
    pub input: JsonView,
    pub is_input_complete: bool,
    pub thought_signature: Option<Seq<char>>,
}

impl DeepView for LanguageModelToolUse {
    type V = LanguageModelToolUseView;

    open spec fn deep_view(&self) -> LanguageModelToolUseView {
        LanguageModelToolUseView {
            id: self.id@,
            name: self.name@,
            raw_input: self.raw_input@,
            input: self.input.deep_view(),
            is_input_complete: self.is_input_complete,
            thought_signature: self.thought_signature.deep_view(),
        }
    }
}

impl Clone for LanguageModelToolUse {
    fn clone(&self) -> (r: Self)
        ensures
            r.deep_view() == self.deep_view(),
    {
        let r = LanguageModelToolUse {
            id: self.id.clone(),
            name: self.name.clone(),
            raw_input: self.raw_input.clone(),
            input: self.input.clone(),
            is_input_complete: self.is_input_complete,
            thought_signature: self.thought_signature.clone(),
        };
        r
    }
}

/// A tool result sent back to the model.
#[derive(Debug, PartialEq, Eq)]
pub struct LanguageModelToolResult {
    pub tool_use_id: String,
    pub tool_name: String,
    pub is_error: bool,
    /// Tool output shown to the model.
    pub content: String,
}

/// The mathematical value of a [`LanguageModelToolResult`].
#[verifier::ext_equal]
pub struct LanguageModelToolResultView {
    pub tool_use_id: Seq<char>,
    pub tool_name: Seq<char>,
    pub is_error: bool,
    pub content: Seq<char>,
}

impl DeepView for LanguageModelToolResult {
    type V = LanguageModelToolResultView;

    open spec fn deep_view(&self) -> LanguageModelToolResultView {
        LanguageModelToolResultView {
            tool_use_id: self.tool_use_id@,
            tool_name: self.tool_name@,
            is_error: self.is_error,
            content: self.content@,
        }
    }
}

impl Clone for LanguageModelToolResult {
    fn clone(&self) -> (r: Self)
        ensures
            r.deep_view() == self.deep_view(),
    {
        let r = LanguageModelToolResult {
            tool_use_id: self.tool_use_id.clone(),
            tool_name: self.tool_name.clone(),
            is_error: self.is_error,
            content: self.content.clone(),
        };
        r
    }
}

/// A single message content block: text, thinking, an image, or a tool call/result.
#[derive(Debug, PartialEq, Eq)]
pub enum MessageContent {
    Text(String),
    Thinking {
        text: String,
        signature: Option<String>,
    },
    /// An inline image carried as base64-encoded bytes plus its MIME type, sent to
    /// providers that accept multimodal content blocks.
    Image {
        data: String,
        mime_type: String,
    },
    ToolUse(LanguageModelToolUse),
    ToolResult(LanguageModelToolResult),
    /// A context-compaction summary replacing older history.
    Compaction(String),
}

/// The mathematical value of a [`MessageContent`].
#[verifier::ext_equal]
pub enum MessageContentView {
    Text(Seq<char>),
    Thinking {
        text: Seq<char>,
        signature: Option<Seq<char>>,
    },
    Image {
        data: Seq<char>,
        mime_type: Seq<char>,
    },
    ToolUse(LanguageModelToolUseView),
    ToolResult(LanguageModelToolResultView),
    Compaction(Seq<char>),
}

impl DeepView for MessageContent {
    type V = MessageContentView;

    open spec fn deep_view(&self) -> MessageContentView {
        match self {
            MessageContent::Text(a) => MessageContentView::Text(a@),
            MessageContent::Thinking { text, signature } => MessageContentView::Thinking {
                text: text@,
                signature: signature.deep_view(),
            },
            MessageContent::Image { data, mime_type } => MessageContentView::Image {
                data: data@,
                mime_type: mime_type@,
            },
            MessageContent::ToolUse(a) => MessageContentView::ToolUse(a.deep_view()),
            MessageContent::ToolResult(a) => MessageContentView::ToolResult(a.deep_view()),
            MessageContent::Compaction(a) => MessageContentView::Compaction(a@),
        }
    }
}

impl Clone for MessageContent {
    fn clone(&self) -> (r: Self)
        ensures
            r.deep_view() == self.deep_view(),
    {
        match self {
            MessageContent::Text(a) => MessageContent::Text(a.clone()),
            MessageContent::Thinking { text, signature } => MessageContent::Thinking {
                text: text.clone(),
                signature: signature.clone(),
            },
            MessageContent::Image { data, mime_type } => MessageContent::Image {
                data: data.clone(),
                mime_type: mime_type.clone(),
            },
            MessageContent::ToolUse(a) => MessageContent::ToolUse(a.clone()),
            MessageContent::ToolResult(a) => MessageContent::ToolResult(a.clone()),
            MessageContent::Compaction(a) => MessageContent::Compaction(a.clone()),
        }
    }
}

impl LanguageModelToolUse {
    /// Whether both are the same call.
    pub fn same(&self, other: &LanguageModelToolUse) -> (r: bool)
        ensures
            r == (self.deep_view() == other.deep_view()),
    {
        str_eq(self.id.as_str(), other.id.as_str()) && str_eq(
            self.name.as_str(),
            other.name.as_str(),
        ) && str_eq(self.raw_input.as_str(), other.raw_input.as_str()) && self.input.same(
            &other.input,
        ) && self.is_input_complete == other.is_input_complete && same_opt(
            &self.thought_signature,
            &other.thought_signature,
        )
    }
}

impl MessageContent {
    /// Whether both are the same block.
    pub fn same(&self, other: &MessageContent) -> (r: bool)
        ensures
            r == (self.deep_view() == other.deep_view()),
    {
        match (self, other) {
            (MessageContent::Text(a), MessageContent::Text(b)) => str_eq(a.as_str(), b.as_str()),
            (
                MessageContent::Thinking { text: a, signature: s },
                MessageContent::Thinking { text: b, signature: t },
            ) => str_eq(a.as_str(), b.as_str()) && same_opt(s, t),
            (
                MessageContent::Image { data: a, mime_type: s },
                MessageContent::Image { data: b, mime_type: t },
            ) => str_eq(a.as_str(), b.as_str()) && str_eq(s.as_str(), t.as_str()),
            (MessageContent::ToolUse(a), MessageContent::ToolUse(b)) => a.same(b),
            (MessageContent::ToolResult(a), MessageContent::ToolResult(b)) => str_eq(
                a.tool_use_id.as_str(),
                b.tool_use_id.as_str(),
            ) && str_eq(a.tool_name.as_str(), b.tool_name.as_str()) && a.is_error == b.is_error
                && str_eq(a.content.as_str(), b.content.as_str()),
            (MessageContent::Compaction(a), MessageContent::Compaction(b)) => str_eq(
                a.as_str(),
                b.as_str(),
            ),
            _ => false,
        }
    }
}

/// A message of a completion request.
#[derive(Debug, PartialEq, Eq)]
pub struct LanguageModelRequestMessage {
    pub role: Role,
    pub content: Vec<MessageContent>,
    pub cache: bool,
}

/// The mathematical value of a [`LanguageModelRequestMessage`].
#[verifier::ext_equal]
pub struct LanguageModelRequestMessageView {
    pub role: Role,
    pub content: Seq<MessageContentView>,
    pub cache: bool,
}

impl DeepView for LanguageModelRequestMessage {
    type V = LanguageModelRequestMessageView;

    open spec fn deep_view(&self) -> LanguageModelRequestMessageView {
        LanguageModelRequestMessageView {
            role: self.role,
            content: self.content.deep_view(),
            cache: self.cache,
        }
    }
}

impl Clone for LanguageModelRequestMessage {
    fn clone(&self) -> (r: Self)
        ensures
            r.deep_view() == self.deep_view(),
    {
        let r = LanguageModelRequestMessage {
            role: self.role,
            content: self.content.clone(),
            cache: self.cache,
        };
        assert(r.content.deep_view() =~= self.content.deep_view());
        r
    }
}

impl LanguageModelRequestMessage {
    /// Whether both are the same message.
    pub fn same(&self, other: &LanguageModelRequestMessage) -> (r: bool)
        ensures
            r == (self.deep_view() == other.deep_view()),
    {
        let ghost ours = self.content.deep_view();
        let ghost theirs = other.content.deep_view();
        assert(ours.len() == self.content@.len() && theirs.len() == other.content@.len());
        if self.role != other.role || self.cache != other.cache || self.content.len()
            != other.content.len() {
            return false;
        }
        for i in 0..self.content.len()
            invariant
                ours == self.content.deep_view(),
                theirs == other.content.deep_view(),
                ours.len() == theirs.len(),
                forall|k: int| 0 <= k < i ==> ours[k] == theirs[k],
        {
            if !self.content[i].same(&other.content[i]) {
                assert(ours[i as int] != theirs[i as int]);
                return false;
            }
        }
        assert(ours =~= theirs);
        true
    }
}

/// A tool definition sent to the model.
#[derive(Debug, PartialEq, Eq)]
pub struct LanguageModelRequestTool {
    pub name: String,
    pub description: String,
    pub input_schema: Json,
    pub use_input_streaming: bool,
}

/// The mathematical value of a [`LanguageModelRequestTool`].
#[verifier::ext_equal]
pub struct LanguageModelRequestToolView {
    pub name: Seq<char>,
    pub description: Seq<char>,
    pub input_schema: JsonView,
    pub use_input_streaming: bool,
}

impl DeepView for LanguageModelRequestTool {
    type V = LanguageModelRequestToolView;

    open spec fn deep_view(&self) -> LanguageModelRequestToolView {
        LanguageModelRequestToolView {
            name: self.name@,
            description: self.description@,
            input_schema: self.input_schema.deep_view(),
            use_input_streaming: self.use_input_streaming,
        }
    }
}

impl Clone for LanguageModelRequestTool {
    fn clone(&self) -> (r: Self)
        ensures
            r.deep_view() == self.deep_view(),
    {
        let r = LanguageModelRequestTool {
            name: self.name.clone(),
            description: self.description.clone(),
            input_schema: self.input_schema.clone(),
            use_input_streaming: self.use_input_streaming,
        };
        r
    }
}

/// How the model may choose among the offered tools.
#[derive(Debug, Clone, Copy, PartialEq, Eq, Structural)]
pub enum LanguageModelToolChoice {
    Auto,
    Any,
    /// No tool may be called.
    Never,
}

impl DeepView for LanguageModelToolChoice {
    type V = LanguageModelToolChoice;

    open spec fn deep_view(&self) -> LanguageModelToolChoice {
        *self
    }
}

/// User-facing reasoning effort knob for providers that expose an effort
/// parameter.
#[derive(Debug, Clone, Copy, PartialEq, Eq, Structural)]
pub enum ReasoningEffort {
    High,
    Max,
}

impl DeepView for ReasoningEffort {
    type V = ReasoningEffort;

    open spec fn deep_view(&self) -> ReasoningEffort {
        *self
    }
}

/// Why a turn ended.
#[derive(Debug, Clone, Copy, PartialEq, Eq, Structural)]
pub enum StopReason {
    EndTurn,
    MaxTokens,
    ToolUse,
    Refusal,
    /// The user explicitly interrupted the active turn. Kept distinct from a
    /// natural `EndTurn` so queued follow-ups are not auto-submitted.
    Cancelled,
}

impl DeepView for StopReason {
    type V = StopReason;

    open spec fn deep_view(&self) -> StopReason {
        *self
    }
}

/// A streaming completion event.
#[derive(Debug, PartialEq, Eq)]
pub enum LanguageModelCompletionEvent {
    Text(String),
    Thinking { text: String, signature: Option<String> },
    ToolUse(LanguageModelToolUse),
    ToolUseJsonParseError {
        id: String,
        tool_name: String,
        raw_input: String,
        json_parse_error: String,
    },
    /// Running-total token usage for the in-flight request, not a per-event
    /// delta.
    UsageUpdate(TokenUsage),
    Stop(StopReason),
    /// The provider is retrying the handshake after a transient failure.
    Retry {
        attempt: u32,
        max_attempts: u32,
        delay_secs: u64,
        reason: String,
        detail: Option<String>,
    },
}

/// Tokens spent, by kind.
#[derive(Debug, Clone, Copy, PartialEq, Eq, Structural)]
pub struct TokenUsage {
    pub input_tokens: u64,
    pub output_tokens: u64,
    pub cache_creation_input_tokens: u64,
    pub cache_read_input_tokens: u64,
}

impl DeepView for TokenUsage {
    type V = TokenUsage;

    open spec fn deep_view(&self) -> TokenUsage {
        *self
    }
}

/// No tokens of any kind.
pub open spec fn no_usage() -> TokenUsage {
    TokenUsage {
        input_tokens: 0,
        output_tokens: 0,
        cache_creation_input_tokens: 0,
        cache_read_input_tokens: 0,
    }
}

pub open spec fn sat(a: u64, b: u64) -> u64 {
    if a + b > u64::MAX {
        u64::MAX
    } else {
        (a + b) as u64
    }
}

/// The sum of two usages, each kind stopping at the largest count.
pub open spec fn usage_sum(a: TokenUsage, b: TokenUsage) -> TokenUsage {
    TokenUsage {
        input_tokens: sat(a.input_tokens, b.input_tokens),
        output_tokens: sat(a.output_tokens, b.output_tokens),
        cache_creation_input_tokens: sat(
            a.cache_creation_input_tokens,
            b.cache_creation_input_tokens,
        ),
        cache_read_input_tokens: sat(a.cache_read_input_tokens, b.cache_read_input_tokens),
    }
}

impl Default for TokenUsage {
    fn default() -> (r: Self)
        ensures
            r == no_usage(),
    {
        TokenUsage {
            input_tokens: 0,
            output_tokens: 0,
            cache_creation_input_tokens: 0,
            cache_read_input_tokens: 0,
        }
    }
}

impl TokenUsage {
    /// The sum of all kinds.
    pub fn total_tokens(&self) -> (r: u64)
        requires
            self.input_tokens + self.output_tokens + self.cache_read_input_tokens
                + self.cache_creation_input_tokens <= u64::MAX,
        ensures
            r == self.input_tokens + self.output_tokens + self.cache_read_input_tokens
                + self.cache_creation_input_tokens,
    {
        self.input_tokens + self.output_tokens + self.cache_read_input_tokens
            + self.cache_creation_input_tokens
    }

    /// Whether the usage is the default one, which the persisted form leaves out.
    pub fn is_default(&self) -> (r: bool)
        ensures
            r == (*self == no_usage()),
    {
        self.input_tokens == 0 && self.output_tokens == 0 && self.cache_creation_input_tokens == 0
            && self.cache_read_input_tokens == 0
    }
}

/// Whether a count is the default one, which the persisted form leaves out.
pub fn is_default(value: &u64) -> (r: bool)
    ensures
        r == (*value == 0),
{
    *value == 0
}

impl std::ops::Add for TokenUsage {
    type Output = TokenUsage;

    // A corrupted or overflowing provider payload stops at the largest count.
    fn add(self, other: TokenUsage) -> (r: TokenUsage) {
        TokenUsage {
            input_tokens: self.input_tokens.saturating_add(other.input_tokens),
            output_tokens: self.output_tokens.saturating_add(other.output_tokens),
            cache_creation_input_tokens: self.cache_creation_input_tokens.saturating_add(
                other.cache_creation_input_tokens,
            ),
            cache_read_input_tokens: self.cache_read_input_tokens.saturating_add(
                other.cache_read_input_tokens,
            ),
        }
    }
}

impl vstd::std_specs::ops::AddSpecImpl for TokenUsage {
    open spec fn obeys_add_spec() -> bool {
        true
    }

    open spec fn add_req(self, other: TokenUsage) -> bool {
        true
    }

    open spec fn add_spec(self, other: TokenUsage) -> TokenUsage {
        usage_sum(self, other)
    }
}

/// Adding usages does not depend on the order or the grouping, and no usage
/// adds nothing.
pub proof fn usage_sum_is_a_commutative_monoid(a: TokenUsage, b: TokenUsage, c: TokenUsage)
    ensures
        usage_sum(a, b) == usage_sum(b, a),
        usage_sum(usage_sum(a, b), c) == usage_sum(a, usage_sum(b, c)),
        usage_sum(a, no_usage()) == a,
{
}

// ---------------------------------------------------------------------------
// Content blocks
// ---------------------------------------------------------------------------

/// Whether every character is white space.
pub open spec fn all_space(s: Seq<char>) -> bool {
    forall|i: int| 0 <= i < s.len() ==> is_space(#[trigger] s[i])
}

fn only_spaces(s: &str) -> (r: bool)
    ensures
        r == all_space(s@),
{
    let v = chars_of(s);
    for i in 0..v.len()
        invariant
            v@ == s@,
            forall|k: int| 0 <= k < i ==> is_space(#[trigger] s@[k]),
    {
        if !char_is_space(v[i]) {
            assert(!is_space(s@[i as int]));
            return false;
        }
    }
    true
}

impl MessageContentView {
    /// The text a block carries, if it carries any.
    pub open spec fn to_str(self) -> Option<Seq<char>> {
        match self {
            MessageContentView::Text(text) => Some(text),
            MessageContentView::Thinking { text, .. } => Some(text),
            MessageContentView::ToolResult(result) => Some(result.content),
            MessageContentView::Compaction(text) => Some(text),
            _ => None,
        }
    }

    /// Whether a block says nothing: text of white space only, an image
    /// without data. A tool call always says something.
    pub open spec fn is_empty(self) -> bool {
        match self {
            MessageContentView::Text(text) => all_space(text),
            MessageContentView::Thinking { text, .. } => all_space(text),
            MessageContentView::ToolResult(result) => all_space(result.content),
            MessageContentView::Compaction(text) => all_space(text),
            MessageContentView::Image { data, .. } => data.len() == 0,
            MessageContentView::ToolUse(_) => false,
        }
    }
}

impl MessageContent {
    pub fn to_str(&self) -> (r: Option<&str>)
        ensures
            opt_str_view(r) == self.deep_view().to_str(),
    {
        match self {
            MessageContent::Text(text) => Some(text.as_str()),
            MessageContent::Thinking { text, .. } => Some(text.as_str()),
            MessageContent::ToolResult(result) => Some(result.content.as_str()),
            MessageContent::Compaction(text) => Some(text.as_str()),
            MessageContent::Image { .. } => None,
            MessageContent::ToolUse(_) => None,
        }
    }

    pub fn is_empty(&self) -> (r: bool)
        ensures
            r == self.deep_view().is_empty(),
    {
        match self {
            MessageContent::Text(text) => only_spaces(text.as_str()),
            MessageContent::Thinking { text, .. } => only_spaces(text.as_str()),
            MessageContent::Compaction(text) => only_spaces(text.as_str()),
            MessageContent::ToolResult(result) => only_spaces(result.content.as_str()),
            MessageContent::Image { data, .. } => data.as_str().is_empty(),
            MessageContent::ToolUse(_) => false,
        }
    }

    /// The compaction summary text, if this is a `Compaction` block.
    pub fn compaction_summary(&self) -> (r: Option<&str>)
        ensures
            opt_str_view(r) == (match self.deep_view() {
                MessageContentView::Compaction(text) => Some(text),
                _ => None,
            }),
    {
        match self {
            MessageContent::Compaction(text) => Some(text.as_str()),
            _ => None,
        }
    }
}

impl From<String> for MessageContent {
    fn from(value: String) -> (r: Self) {
        MessageContent::Text(value)
    }
}

impl vstd::std_specs::convert::FromSpecImpl<String> for MessageContent {
    open spec fn obeys_from_spec() -> bool {
        true
    }

    open spec fn from_spec(value: String) -> Self {
        MessageContent::Text(value)
    }
}

impl From<&str> for MessageContent {
    fn from(value: &str) -> (r: Self)
        ensures
            r.deep_view() == MessageContentView::Text(value@),
    {
        MessageContent::Text(value.to_owned())
    }
}

impl vstd::std_specs::convert::FromSpecImpl<&str> for MessageContent {
    open spec fn obeys_from_spec() -> bool {
        false
    }

    open spec fn from_spec(value: &str) -> Self {
        arbitrary()
    }
}

/// The texts that the blocks carry, one after the other.
pub open spec fn concat_texts(blocks: Seq<MessageContentView>) -> Seq<char>
    decreases blocks.len(),
{
    if blocks.len() == 0 {
        seq![]
    } else {
        concat_texts(blocks.drop_last()) + (match blocks.last().to_str() {
            Some(text) => text,
            None => seq![],
        })
    }
}

impl LanguageModelRequestMessage {
    pub fn string_contents(&self) -> (r: String)
        ensures
            r@ == concat_texts(self.content.deep_view()),
    {
        let mut buffer = String::new();
        let ghost all = self.content.deep_view();
        for i in 0..self.content.len()
            invariant
                all == self.content.deep_view(),
                buffer@ == concat_texts(all.take(i as int)),
        {
            assert(all.take(i + 1).drop_last() =~= all.take(i as int));
            match self.content[i].to_str() {
                Some(text) => buffer.append(text),
                None => {
                    assert(concat_texts(all.take(i as int)) + seq![] =~= concat_texts(
                        all.take(i as int),
                    ));
                },
            }
        }
        assert(all.take(all.len() as int) =~= all);
        buffer
    }

    pub fn contents_empty(&self) -> (r: bool)
        ensures
            r == forall|i: int|
                0 <= i < self.content@.len() ==> (#[trigger] self.content@[i]).deep_view().is_empty(),
    {
        for i in 0..self.content.len()
            invariant
                forall|k: int|
                    0 <= k < i ==> (#[trigger] self.content@[k]).deep_view().is_empty(),
        {
            if !self.content[i].is_empty() {
                assert(!self.content@[i as int].deep_view().is_empty());
                return false;
            }
        }
        true
    }
}

// ---------------------------------------------------------------------------
// Reasoning effort
// ---------------------------------------------------------------------------

impl Default for ReasoningEffort {
    fn default() -> (r: Self)
        ensures
            r == ReasoningEffort::High,
    {
        ReasoningEffort::High
    }
}

impl ReasoningEffort {
    pub const ALL: [ReasoningEffort; 2] = [ReasoningEffort::High, ReasoningEffort::Max];

    pub open spec fn wire(self) -> Seq<char> {
        match self {
            ReasoningEffort::High => "high"@,
            ReasoningEffort::Max => "max"@,
        }
    }

    pub open spec fn code(self) -> i64 {
        match self {
            ReasoningEffort::High => 2,
            ReasoningEffort::Max => 4,
        }
    }

    pub open spec fn of_code(v: i64) -> ReasoningEffort {
        if v == 4 {
            ReasoningEffort::Max
        } else {
            ReasoningEffort::High
        }
    }

    /// Wire value for Anthropic-style and generic providers.
    pub fn wire_value(self) -> (r: &'static str)
        ensures
            r@ == self.wire(),
    {
        match self {
            ReasoningEffort::High => "high",
            ReasoningEffort::Max => "max",
        }
    }

    /// Wire value for official OpenAI endpoints, which only accept
    /// `low` / `medium` / `high`: `Max` is clamped to `high` there. Compatible
    /// endpoints pass `max` through.
    pub fn openai_wire_value(self, official_openai: bool) -> (r: &'static str)
        ensures
            r@ == (if official_openai {
                "high"@
            } else {
                self.wire()
            }),
    {
        if official_openai && self == ReasoningEffort::Max {
            "high"
        } else {
            self.wire_value()
        }
    }

    /// Integer encoding for persistence; unknown values fall back to `High`.
    pub fn from_i64(v: i64) -> (r: Self)
        ensures
            r == ReasoningEffort::of_code(v),
    {
        match v {
            2 => ReasoningEffort::High,
            4 => ReasoningEffort::Max,
            _ => ReasoningEffort::High,
        }
    }

    pub fn as_i64(self) -> (r: i64)
        ensures
            r == self.code(),
    {
        match self {
            ReasoningEffort::High => 2,
            ReasoningEffort::Max => 4,
        }
    }

    /// The effort a configuration names; unknown names fall back to `High`, so
    /// that an old settings file still loads.
    pub fn from_config(name: &str) -> (r: Self)
        ensures
            r == (if name@ == "max"@ {
                ReasoningEffort::Max
            } else {
                ReasoningEffort::High
            }),
    {
        if str_eq(name, "max") {
            ReasoningEffort::Max
        } else {
            ReasoningEffort::High
        }
    }
}

/// The integer encoding gives every effort back.
pub proof fn effort_code_round_trips(e: ReasoningEffort)
    ensures
        ReasoningEffort::of_code(e.code()) == e,
{
}

/// Adding usages adds each kind of token to its own kind, as long as the sum can be
/// counted; beyond that it stays at the largest count.
pub proof fn usage_is_added_kind_by_kind(a: TokenUsage, b: TokenUsage)
    ensures
        a.input_tokens + b.input_tokens <= u64::MAX ==> usage_sum(a, b).input_tokens
            == a.input_tokens + b.input_tokens,
        a.output_tokens + b.output_tokens <= u64::MAX ==> usage_sum(a, b).output_tokens
            == a.output_tokens + b.output_tokens,
        a.cache_creation_input_tokens + b.cache_creation_input_tokens <= u64::MAX ==> usage_sum(
            a,
            b,
        ).cache_creation_input_tokens == a.cache_creation_input_tokens
            + b.cache_creation_input_tokens,
        a.cache_read_input_tokens + b.cache_read_input_tokens <= u64::MAX ==> usage_sum(
            a,
            b,
        ).cache_read_input_tokens == a.cache_read_input_tokens + b.cache_read_input_tokens,
        a.input_tokens + b.input_tokens > u64::MAX ==> usage_sum(a, b).input_tokens == u64::MAX,
        a.output_tokens + b.output_tokens > u64::MAX ==> usage_sum(a, b).output_tokens == u64::MAX,
        a.cache_creation_input_tokens + b.cache_creation_input_tokens > u64::MAX ==> usage_sum(
            a,
            b,
        ).cache_creation_input_tokens == u64::MAX,
        a.cache_read_input_tokens + b.cache_read_input_tokens > u64::MAX ==> usage_sum(
            a,
            b,
        ).cache_read_input_tokens == u64::MAX,
        no_usage().input_tokens == 0 && no_usage().output_tokens == 0
            && no_usage().cache_creation_input_tokens == 0 && no_usage().cache_read_input_tokens
            == 0,
{
}

/// The text of a message is the text of its blocks, one behind the other: texts,
/// thinking, tool results and summaries have one, images and calls have none.
pub proof fn texts_are_strung_together(blocks: Seq<MessageContentView>, next: MessageContentView)
    ensures
        concat_texts(Seq::<MessageContentView>::empty()).len() == 0,
        concat_texts(blocks.push(next)) == concat_texts(blocks) + (match next {
            MessageContentView::Text(text) => text,
            MessageContentView::Thinking { text, .. } => text,
            MessageContentView::ToolResult(result) => result.content,
            MessageContentView::Compaction(text) => text,
            MessageContentView::Image { .. } => Seq::<char>::empty(),
            MessageContentView::ToolUse(_) => Seq::<char>::empty(),
        }),
{
    assert(blocks.push(next).drop_last() =~= blocks);
}

/// A block says nothing where its text is white space, or where it is an image without
/// data; a call always says something, and so does any visible text.
pub proof fn blocks_with_visible_text_say_something(c: MessageContentView, i: int)
    ensures
        c.to_str() matches Some(text) ==> {
            &&& text.len() == 0 ==> c.is_empty()
            &&& 0 <= i < text.len() && !is_space(text[i]) ==> !c.is_empty()
            &&& c.is_empty() && 0 <= i < text.len() ==> is_space(text[i])
        },
        c is ToolUse ==> !c.is_empty(),
        c matches MessageContentView::Image { data, .. } ==> (c.is_empty() <==> data.len() == 0),
        c matches MessageContentView::Text(text) ==> c.to_str() == Some(text),
        c matches MessageContentView::Compaction(text) ==> c.to_str() == Some(text),
        c matches MessageContentView::ToolResult(r) ==> c.to_str() == Some(r.content),
        c matches MessageContentView::Thinking { text, .. } ==> c.to_str() == Some(text),
        c is ToolUse || c is Image ==> c.to_str() is None,
{
}

/// The two efforts are named and numbered apart, and an unknown number is high.
pub proof fn efforts_are_named_and_numbered(code: i64)
    ensures
        ReasoningEffort::High.wire() == "high"@,
        ReasoningEffort::Max.wire() == "max"@,
        ReasoningEffort::High.code() == 2,
        ReasoningEffort::Max.code() == 4,
        ReasoningEffort::of_code(4) == ReasoningEffort::Max,
        code != 4 ==> ReasoningEffort::of_code(code) == ReasoningEffort::High,
{
}

/// The view of a [`LanguageModelToolUse`] is made of all its parts, each as it is.
pub proof fn language_model_tool_use_is_viewed_whole(x: &LanguageModelToolUse)
    ensures
        x.deep_view() == (LanguageModelToolUseView {
            id: x.id@,
            name: x.name@,
            raw_input: x.raw_input@,
            input: x.input.deep_view(),
            is_input_complete: x.is_input_complete,
            thought_signature: x.thought_signature.deep_view(),
        }),
{
}

/// The view of a [`LanguageModelToolResult`] is made of all its parts, each as it is.
pub proof fn language_model_tool_result_is_viewed_whole(x: &LanguageModelToolResult)
    ensures
        x.deep_view() == (LanguageModelToolResultView {
            tool_use_id: x.tool_use_id@,
            tool_name: x.tool_name@,
            is_error: x.is_error,
            content: x.content@,
        }),
{
}

/// The view of a [`MessageContent`] is made of all its parts, each as it is.
pub proof fn message_content_is_viewed_whole(x: &MessageContent)
    ensures
        match x {
            MessageContent::Text(a) => x.deep_view() == (MessageContentView::Text(a@)),
            MessageContent::Thinking { text, signature } => x.deep_view() == (MessageContentView::Thinking {
                text: text@,
                signature: signature.deep_view(),
            }),
            MessageContent::Image { data, mime_type } => x.deep_view() == (MessageContentView::Image {
                data: data@,
                mime_type: mime_type@,
            }),
            MessageContent::ToolUse(a) => x.deep_view() == (MessageContentView::ToolUse(a.deep_view())),
            MessageContent::ToolResult(a) => x.deep_view() == (MessageContentView::ToolResult(a.deep_view())),
            MessageContent::Compaction(a) => x.deep_view() == (MessageContentView::Compaction(a@)),
        },
{
}

/// The view of a [`LanguageModelRequestMessage`] is made of all its parts, each as it is.
pub proof fn language_model_request_message_is_viewed_whole(x: &LanguageModelRequestMessage)
    ensures
        x.deep_view() == (LanguageModelRequestMessageView {
            role: x.role,
            content: x.content.deep_view(),
            cache: x.cache,
        }),
{
}

/// The view of a [`LanguageModelRequestTool`] is made of all its parts, each as it is.
pub proof fn language_model_request_tool_is_viewed_whole(x: &LanguageModelRequestTool)
    ensures
        x.deep_view() == (LanguageModelRequestToolView {
            name: x.name@,
            description: x.description@,
            input_schema: x.input_schema.deep_view(),
            use_input_streaming: x.use_input_streaming,
        }),
{
}

} // verus!
