//! The part of a request that stays the same from turn to turn, so that the
//! provider's prompt cache stays warm.
//!
//! The digest of a message covers every field that a provider may serialize, so
//! that a rewrite of any of them is noticed.

use crate::language_model::{
    concat_texts, LanguageModelRequestMessage, LanguageModelRequestMessageView,
    LanguageModelRequestTool, LanguageModelRequestToolView, MessageContent, MessageContentView,
    Role,
};
use crate::outside::{debug_quote, debug_quoted, json_text, xxh32, xxh32_of};
use crate::text::{str_eq, strs};
use vstd::prelude::*;
use vstd::utf8::encode_utf8;

verus! {

// ---------------------------------------------------------------------------
// Digests
// ---------------------------------------------------------------------------

pub open spec fn role_name(role: Role) -> Seq<char> {
    match role {
        Role::User => "User"@,
        Role::Assistant => "Assistant"@,
        Role::System => "System"@,
    }
}

fn name_of_role(role: Role) -> (r: &'static str)
    ensures
        r@ == role_name(role),
{
    match role {
        Role::User => "User",
        Role::Assistant => "Assistant",
        Role::System => "System",
    }
}

pub open spec fn signature_text(signature: Option<Seq<char>>) -> Seq<char> {
    match signature {
        Some(s) => "Some("@ + debug_quoted(s) + ")"@,
        None => "None"@,
    }
}

pub open spec fn flag_text(b: bool) -> Seq<char> {
    if b {
        "true"@
    } else {
        "false"@
    }
}

/// What the digest of a block covers.
pub open spec fn block_text(c: MessageContentView) -> Seq<char> {
    match c {
        MessageContentView::Text(t) => "text:"@ + t,
        MessageContentView::Thinking { text, signature } => "thinking:"@ + text + ":"@
            + signature_text(signature),
        MessageContentView::ToolUse(u) => "tooluse:"@ + u.id + ":"@ + u.name + ":"@ + json_text(
            u.input,
        ) + ":"@ + signature_text(u.thought_signature),
        MessageContentView::ToolResult(r) => "toolresult:"@ + r.tool_use_id + ":"@ + r.tool_name
            + ":"@ + flag_text(r.is_error) + ":"@ + r.content,
        MessageContentView::Image { data, mime_type } => "image:"@ + mime_type + ":"@ + data,
        MessageContentView::Compaction(t) => "compaction:"@ + t,
    }
}

fn text_of_signature(signature: &Option<String>) -> (r: String)
    ensures
        r@ == signature_text(signature.deep_view()),
{
    match signature {
        Some(s) => {
            let mut out = "Some(".to_owned();
            let q = debug_quote(s.as_str());
            out.append(q.as_str());
            out.append(")");
            out
        },
        None => "None".to_owned(),
    }
}

fn text_of_block(c: &MessageContent) -> (r: String)
    ensures
        r@ == block_text(c.deep_view()),
{
    match c {
        MessageContent::Text(t) => {
            let mut out = "text:".to_owned();
            out.append(t.as_str());
            out
        },
        MessageContent::Thinking { text, signature } => {
            let mut out = "thinking:".to_owned();
            out.append(text.as_str());
            out.append(":");
            let sig = text_of_signature(signature);
            out.append(sig.as_str());
            out
        },
        MessageContent::ToolUse(u) => {
            let mut out = "tooluse:".to_owned();
            out.append(u.id.as_str());
            out.append(":");
            out.append(u.name.as_str());
            out.append(":");
            let input = u.input.to_text();
            out.append(input.as_str());
            out.append(":");
            let sig = text_of_signature(&u.thought_signature);
            out.append(sig.as_str());
            out
        },
        MessageContent::ToolResult(r) => {
            let mut out = "toolresult:".to_owned();
            out.append(r.tool_use_id.as_str());
            out.append(":");
            out.append(r.tool_name.as_str());
            out.append(":");
            out.append(
                if r.is_error {
                    "true"
                } else {
                    "false"
                },
            );
            out.append(":");
            out.append(r.content.as_str());
            out
        },
        MessageContent::Image { data, mime_type } => {
            let mut out = "image:".to_owned();
            out.append(mime_type.as_str());
            out.append(":");
            out.append(data.as_str());
            out
        },
        MessageContent::Compaction(t) => {
            let mut out = "compaction:".to_owned();
            out.append(t.as_str());
            out
        },
    }
}

fn push_bytes(out: &mut Vec<u8>, s: &str)
    ensures
        final(out)@ == old(out)@ + encode_utf8(s@),
{
    let bytes = s.as_bytes();
    let ghost before = out@;
    for i in 0..bytes.len()
        invariant
            bytes@ == encode_utf8(s@),
            out@ == before + bytes@.take(i as int),
    {
        out.push(bytes[i]);
        assert(out@ =~= before + bytes@.take(i + 1));
    }
    assert(bytes@.take(bytes@.len() as int) =~= bytes@);
}

pub open spec fn blocks_bytes(cs: Seq<MessageContentView>) -> Seq<u8>
    decreases cs.len(),
{
    if cs.len() == 0 {
        seq![]
    } else {
        blocks_bytes(cs.drop_last()) + encode_utf8(block_text(cs.last())) + seq![0xFFu8]
    }
}

/// What the digest of a message covers.
pub open spec fn message_bytes(m: LanguageModelRequestMessageView) -> Seq<u8> {
    encode_utf8(role_name(m.role)) + seq![0u8] + blocks_bytes(m.content) + seq![
        if m.cache {
            1u8
        } else {
            0u8
        },
    ]
}

pub open spec fn digest_of(m: LanguageModelRequestMessageView) -> u32 {
    xxh32_of(message_bytes(m), 0)
}

/// The bytes that the digest of a message covers.
pub fn digest_bytes(msg: &LanguageModelRequestMessage) -> (r: Vec<u8>)
    ensures
        r@ == message_bytes(msg.deep_view()),
{
    let mut bytes: Vec<u8> = Vec::new();
    push_bytes(&mut bytes, name_of_role(msg.role));
    bytes.push(0);
    let ghost head = encode_utf8(role_name(msg.role)) + seq![0u8];
    assert(bytes@ =~= head);
    let ghost all = msg.content.deep_view();
    assert(head + blocks_bytes(all.take(0)) =~= head);
    for i in 0..msg.content.len()
        invariant
            all == msg.content.deep_view(),
            bytes@ == head + blocks_bytes(all.take(i as int)),
    {
        assert(all.take(i + 1).drop_last() =~= all.take(i as int));
        assert(all.take(i + 1).last() == msg.content@[i as int].deep_view());
        let text = text_of_block(&msg.content[i]);
        let ghost before = bytes@;
        push_bytes(&mut bytes, text.as_str());
        bytes.push(0xFF);
        assert(bytes@ =~= before + encode_utf8(text@) + seq![0xFFu8]);
        assert(bytes@ =~= head + blocks_bytes(all.take(i + 1)));
    }
    assert(all.take(msg.content@.len() as int) =~= all);
    bytes.push(
        if msg.cache {
            1
        } else {
            0
        },
    );
    assert(bytes@ =~= message_bytes(msg.deep_view()));
    bytes
}

/// Digest over every field of a message that a provider may serialize.
pub fn message_digest(msg: &LanguageModelRequestMessage) -> (r: u32)
    ensures
        r == digest_of(msg.deep_view()),
{
    let bytes = digest_bytes(msg);
    xxh32(&bytes, 0)
}

pub open spec fn digests_of(ms: Seq<LanguageModelRequestMessageView>) -> Seq<u32> {
    Seq::new(ms.len(), |i: int| digest_of(ms[i]))
}

// ---------------------------------------------------------------------------
// The frozen prefix
// ---------------------------------------------------------------------------

/// What the fingerprint of a tool list covers.
pub open spec fn tools_bytes(tools: Seq<LanguageModelRequestToolView>) -> Seq<u8>
    decreases tools.len(),
{
    if tools.len() == 0 {
        seq![]
    } else {
        let t = tools.last();
        tools_bytes(tools.drop_last()) + encode_utf8(t.name) + seq![0u8] + encode_utf8(
            t.description,
        ) + seq![0u8] + encode_utf8(json_text(t.input_schema)) + seq![0xFFu8]
    }
}

/// Fingerprint of a tool list, so that a change of the tools is noticed.
pub fn tools_fingerprint(tools: &[LanguageModelRequestTool]) -> (r: u32)
    ensures
        r == xxh32_of(tools_bytes(tools.deep_view()), 0),
{
    let ghost all = tools.deep_view();
    let mut bytes: Vec<u8> = Vec::new();
    assert(bytes@ =~= tools_bytes(all.take(0)));
    for i in 0..tools.len()
        invariant
            all == tools.deep_view(),
            bytes@ == tools_bytes(all.take(i as int)),
    {
        let t = &tools[i];
        assert(all.take(i + 1).drop_last() =~= all.take(i as int));
        assert(all.take(i + 1).last() == t.deep_view());
        push_bytes(&mut bytes, t.name.as_str());
        bytes.push(0);
        push_bytes(&mut bytes, t.description.as_str());
        bytes.push(0);
        let schema = t.input_schema.to_text();
        push_bytes(&mut bytes, schema.as_str());
        bytes.push(0xFF);
        assert(bytes@ =~= tools_bytes(all.take(i + 1)));
    }
    assert(all.take(tools@.len() as int) =~= all);
    xxh32(&bytes, 0)
}

/// The texts of the system messages that have any.
pub open spec fn system_texts(ms: Seq<LanguageModelRequestMessageView>) -> Seq<Seq<char>>
    decreases ms.len(),
{
    if ms.len() == 0 {
        seq![]
    } else {
        let rest = system_texts(ms.drop_last());
        let m = ms.last();
        if m.role == Role::System && concat_texts(m.content).len() > 0 {
            rest.push(concat_texts(m.content))
        } else {
            rest
        }
    }
}

/// The texts of the system messages that have any.
pub fn collect_system_text(messages: &[LanguageModelRequestMessage]) -> (r: Vec<String>)
    ensures
        strs(r@) == system_texts(messages.deep_view()),
{
    let ghost all = messages.deep_view();
    let mut out: Vec<String> = Vec::new();
    assert(strs(out@) =~= system_texts(all.take(0)));
    for i in 0..messages.len()
        invariant
            all == messages.deep_view(),
            strs(out@) == system_texts(all.take(i as int)),
    {
        let ghost before = strs(out@);
        assert(all.take(i + 1).drop_last() =~= all.take(i as int));
        assert(all.take(i + 1).last() == messages@[i as int].deep_view());
        if messages[i].role == Role::System {
            let s = messages[i].string_contents();
            if crate::text::char_count(s.as_str()) > 0 {
                out.push(s);
                assert(strs(out@) =~= before.push(s@));
            }
        }
    }
    assert(all.take(messages@.len() as int) =~= all);
    out
}

/// What a prefix is recognized by: the system texts and the fingerprint of the
/// tools.
#[verifier::ext_equal]
pub struct PrefixKey {
    pub system: Seq<Seq<char>>,
    pub tools: u32,
}

/// The key of a request.
pub open spec fn prefix_key(
    messages: Seq<LanguageModelRequestMessageView>,
    tools: Seq<LanguageModelRequestToolView>,
) -> PrefixKey {
    PrefixKey { system: system_texts(messages), tools: xxh32_of(tools_bytes(tools), 0) }
}

/// The mathematical value of a [`StablePrefix`].
#[verifier::ext_equal]
pub struct FrozenPrefix {
    pub key: Option<PrefixKey>,
    /// How often the prefix changed.
    pub version: int,
}

impl FrozenPrefix {
    /// Whether a request with this key differs from what is frozen.
    pub open spec fn differs(self, key: PrefixKey) -> bool {
        self.key != Some(key)
    }

    /// The prefix after a request with this key.
    pub open spec fn built(self, key: PrefixKey) -> FrozenPrefix {
        FrozenPrefix {
            key: Some(key),
            version: self.version + if self.differs(key) {
                1int
            } else {
                0
            },
        }
    }

    /// The prefix after it was dropped.
    pub open spec fn invalidated(self) -> FrozenPrefix {
        FrozenPrefix { key: None, ..self }
    }

    /// The frozen system texts.
    pub open spec fn system(self) -> Option<Seq<Seq<char>>> {
        match self.key {
            Some(k) => Some(k.system),
            None => None,
        }
    }
}

/// The prefix that nothing was built for yet.
pub open spec fn no_prefix() -> FrozenPrefix {
    FrozenPrefix { key: None, version: 0 }
}

/// A frozen prefix, kept across turns until the live state differs.
#[derive(Debug)]
pub struct StablePrefix {
    snapshot: Option<StablePrefixSnapshot>,
    version: u32,
}

#[derive(Debug)]
struct StablePrefixSnapshot {
    system: Vec<String>,
    tools_fingerprint: u32,
}

fn same_strings(a: &Vec<String>, b: &Vec<String>) -> (r: bool)
    ensures
        r == (strs(a@) == strs(b@)),
{
    if a.len() != b.len() {
        assert(strs(a@).len() != strs(b@).len());
        return false;
    }
    for i in 0..a.len()
        invariant
            a@.len() == b@.len(),
            forall|k: int| 0 <= k < i ==> a@[k]@ == b@[k]@,
    {
        if !str_eq(a[i].as_str(), b[i].as_str()) {
            assert(strs(a@)[i as int] != strs(b@)[i as int]);
            return false;
        }
    }
    assert(strs(a@) =~= strs(b@));
    true
}

impl View for StablePrefix {
    type V = FrozenPrefix;

    closed spec fn view(&self) -> FrozenPrefix {
        FrozenPrefix {
            key: match self.snapshot {
                Some(s) => Some(PrefixKey { system: strs(s.system@), tools: s.tools_fingerprint }),
                None => None,
            },
            version: self.version as int,
        }
    }
}

impl Default for StablePrefix {
    fn default() -> (r: Self)
        ensures
            r@ == no_prefix(),
    {
        StablePrefix { snapshot: None, version: 0 }
    }
}

impl StablePrefix {
    fn holds(&self, system: &Vec<String>, tools_fingerprint: u32) -> (r: bool)
        ensures
            r == !self@.differs(PrefixKey { system: strs(system@), tools: tools_fingerprint }),
    {
        match &self.snapshot {
            Some(s) => s.tools_fingerprint == tools_fingerprint && same_strings(
                &s.system,
                system,
            ),
            None => false,
        }
    }

    /// Freezes a prefix with the given texts and fingerprint, unless it is the one
    /// already frozen. Returns whether it changed.
    pub fn freeze(&mut self, system: Vec<String>, tools_fingerprint: u32) -> (r: bool)
        requires
            old(self)@.built(
                PrefixKey { system: strs(system@), tools: tools_fingerprint },
            ).version <= u32::MAX,
        ensures
            ({
                let key = PrefixKey { system: strs(system@), tools: tools_fingerprint };
                &&& r == old(self)@.differs(key)
                &&& final(self)@ == old(self)@.built(key)
            }),
    {
        if self.holds(&system, tools_fingerprint) {
            return false;
        }
        self.snapshot = Some(StablePrefixSnapshot { system, tools_fingerprint });
        self.version = self.version + 1;
        true
    }

    /// Freezes the prefix of a request. Returns whether it changed, which means
    /// that the cache misses.
    pub fn build(
        &mut self,
        messages: &[LanguageModelRequestMessage],
        tools: &[LanguageModelRequestTool],
    ) -> (r: bool)
        requires
            old(self)@.built(prefix_key(messages.deep_view(), tools.deep_view())).version
                <= u32::MAX,
        ensures
            ({
                let key = prefix_key(messages.deep_view(), tools.deep_view());
                &&& r == old(self)@.differs(key)
                &&& final(self)@ == old(self)@.built(key)
            }),
    {
        let system = collect_system_text(messages);
        let fingerprint = tools_fingerprint(tools);
        self.freeze(system, fingerprint)
    }

    /// Freezes the prefix of a request, unless it changed and the versions have run
    /// out.
    pub fn try_build(
        &mut self,
        messages: &[LanguageModelRequestMessage],
        tools: &[LanguageModelRequestTool],
    ) -> (r: Option<bool>)
        ensures
            ({
                let key = prefix_key(messages.deep_view(), tools.deep_view());
                if old(self)@.built(key).version <= u32::MAX {
                    r == Some(old(self)@.differs(key)) && final(self)@ == old(self)@.built(key)
                } else {
                    r is None && final(self)@ == old(self)@
                }
            }),
    {
        let system = collect_system_text(messages);
        let fingerprint = tools_fingerprint(tools);
        if self.version == u32::MAX && !self.holds(&system, fingerprint) {
            return None;
        }
        Some(self.freeze(system, fingerprint))
    }

    /// Makes the next build count as a change.
    pub fn invalidate(&mut self)
        ensures
            final(self)@ == old(self)@.invalidated(),
    {
        self.snapshot = None;
    }

    /// How often the prefix changed.
    pub fn version(&self) -> (r: u32)
        ensures
            r == self@.version,
    {
        self.version
    }

    /// The frozen system texts.
    pub fn system(&self) -> (r: Option<&[String]>)
        ensures
            match self@.system() {
                Some(texts) => r matches Some(s) && strs(s@) == texts,
                None => r is None,
            },
    {
        match &self.snapshot {
            Some(s) => Some(s.system.as_slice()),
            None => None,
        }
    }
}

/// A call that changes a [`StablePrefix`].
pub enum PrefixCall {
    Build(Seq<LanguageModelRequestMessageView>, Seq<LanguageModelRequestToolView>),
    Invalidate,
}

/// A fresh prefix after the given calls.
pub open spec fn prefix_after(calls: Seq<PrefixCall>) -> FrozenPrefix
    decreases calls.len(),
{
    if calls.len() == 0 {
        no_prefix()
    } else {
        let before = prefix_after(calls.drop_last());
        match calls.last() {
            PrefixCall::Build(messages, tools) => before.built(prefix_key(messages, tools)),
            PrefixCall::Invalidate => before.invalidated(),
        }
    }
}

/// System texts are frozen exactly where a build was not followed by an
/// invalidation, and they are those of the request built last.
pub proof fn the_last_build_is_frozen(calls: Seq<PrefixCall>)
    ensures
        prefix_after(calls).system() == (if calls.len() == 0 {
            None
        } else {
            match calls.last() {
                PrefixCall::Build(messages, _) => Some(system_texts(messages)),
                PrefixCall::Invalidate => None,
            }
        }),
{
}

/// An invalidated prefix has no system texts and keeps its version, and the next
/// build counts as a change whatever the request, also the one built last.
pub proof fn an_invalidated_prefix_changes_next(
    prefix: FrozenPrefix,
    messages: Seq<LanguageModelRequestMessageView>,
    tools: Seq<LanguageModelRequestToolView>,
)
    ensures
        prefix.invalidated().system() is None,
        prefix.invalidated().version == prefix.version,
        prefix.invalidated().differs(prefix_key(messages, tools)),
        prefix.built(prefix_key(messages, tools)).invalidated().differs(
            prefix_key(messages, tools),
        ),
        prefix.invalidated().built(prefix_key(messages, tools)).version == prefix.version + 1,
{
}

/// Building the same request twice changes nothing the second time.
pub proof fn a_repeated_build_changes_nothing(
    prefix: FrozenPrefix,
    messages: Seq<LanguageModelRequestMessageView>,
    tools: Seq<LanguageModelRequestToolView>,
)
    ensures
        ({
            let key = prefix_key(messages, tools);
            &&& !prefix.built(key).differs(key)
            &&& prefix.built(key).built(key) == prefix.built(key)
        }),
{
}

// ---------------------------------------------------------------------------
// The log
// ---------------------------------------------------------------------------

/// A message of the last sync, with its digest, which tells most rewrites apart
/// without a closer look.
#[derive(Debug)]
struct SyncedMessage {
    message: LanguageModelRequestMessage,
    digest: u32,
}

/// A log of the messages sent. It only grows, but for compaction and for the part
/// behind a rewritten message.
#[derive(Debug)]
pub struct AppendOnlyLog {
    entries: Vec<LanguageModelRequestMessage>,
    synced: Vec<SyncedMessage>,
}

/// A message of the last sync, with its digest.
#[verifier::ext_equal]
pub struct SyncedView {
    pub message: LanguageModelRequestMessageView,
    pub digest: u32,
}

/// The mathematical value of an [`AppendOnlyLog`]: its entries, and the messages of
/// the last sync.
#[verifier::ext_equal]
pub struct AppendOnlyLogView {
    pub entries: Seq<LanguageModelRequestMessageView>,
    pub synced: Seq<SyncedView>,
}

impl DeepView for SyncedMessage {
    type V = SyncedView;

    closed spec fn deep_view(&self) -> SyncedView {
        SyncedView { message: self.message.deep_view(), digest: self.digest }
    }
}

impl DeepView for AppendOnlyLog {
    type V = AppendOnlyLogView;

    closed spec fn deep_view(&self) -> AppendOnlyLogView {
        AppendOnlyLogView {
            entries: self.entries.deep_view(),
            synced: self.synced.deep_view(),
        }
    }
}

pub open spec fn empty_log() -> AppendOnlyLogView {
    AppendOnlyLogView { entries: seq![], synced: seq![] }
}

/// Messages with the given digests.
pub open spec fn stamped(
    messages: Seq<LanguageModelRequestMessageView>,
    digests: Seq<u32>,
) -> Seq<SyncedView> {
    Seq::new(
        messages.len(),
        |i: int| SyncedView { message: messages[i], digest: digests[i] },
    )
}

impl AppendOnlyLogView {
    /// Whether the message at `i` is the one of the last sync.
    pub open spec fn unchanged(
        self,
        messages: Seq<LanguageModelRequestMessageView>,
        digests: Seq<u32>,
        i: int,
    ) -> bool {
        &&& i < self.synced.len() && i < messages.len()
        &&& self.synced[i] == stamped(messages, digests)[i]
    }

    /// How many messages, from `i` on, are those of the last sync.
    pub open spec fn unchanged_to(
        self,
        messages: Seq<LanguageModelRequestMessageView>,
        digests: Seq<u32>,
        i: int,
    ) -> int
        decreases self.synced.len() - i,
    {
        if self.unchanged(messages, digests, i) {
            self.unchanged_to(messages, digests, i + 1)
        } else {
            i
        }
    }

    /// The first `n` of everything.
    pub open spec fn cut(self, n: int) -> AppendOnlyLogView {
        AppendOnlyLogView { entries: self.entries.take(n), synced: self.synced.take(n) }
    }

    /// The log cut down to what survives a sync with messages of the given
    /// digests: nothing after a compaction, else the part that is unchanged.
    pub open spec fn stable(
        self,
        messages: Seq<LanguageModelRequestMessageView>,
        digests: Seq<u32>,
    ) -> AppendOnlyLogView {
        if messages.len() < self.synced.len() {
            empty_log()
        } else {
            let common = self.unchanged_to(messages, digests, 0);
            let n = if common < self.entries.len() {
                common
            } else {
                self.entries.len() as int
            };
            if n < self.synced.len() {
                self.cut(n)
            } else {
                self
            }
        }
    }

    /// The log after a sync.
    pub open spec fn after_sync(
        self,
        messages: Seq<LanguageModelRequestMessageView>,
        digests: Seq<u32>,
    ) -> AppendOnlyLogView {
        let kept = self.stable(messages, digests);
        let n = kept.synced.len() as int;
        AppendOnlyLogView {
            entries: kept.entries + messages.skip(n),
            synced: kept.synced + stamped(messages, digests).skip(n),
        }
    }

    /// Whether the log holds what was synced last, and nothing else.
    pub open spec fn in_step(self) -> bool {
        self.synced == stamped(self.entries, digests_of(self.entries))
    }
}

impl Default for AppendOnlyLog {
    fn default() -> (r: Self)
        ensures
            r.deep_view() == empty_log(),
            r.deep_view().in_step(),
    {
        let r = AppendOnlyLog { entries: Vec::new(), synced: Vec::new() };
        assert(r.deep_view() =~= empty_log());
        assert(stamped(seq![], digests_of(seq![])) =~= seq![]);
        r
    }
}

impl AppendOnlyLog {
    pub fn len(&self) -> (r: usize)
        ensures
            r == self.deep_view().entries.len(),
    {
        self.entries.len()
    }

    pub fn is_empty(&self) -> (r: bool)
        ensures
            r == (self.deep_view().entries.len() == 0),
    {
        self.entries.len() == 0
    }

    pub fn append(&mut self, message: LanguageModelRequestMessage)
        ensures
            final(self).deep_view() == (AppendOnlyLogView {
                entries: old(self).deep_view().entries.push(message.deep_view()),
                ..old(self).deep_view()
            }),
    {
        let ghost before = self.entries.deep_view();
        self.entries.push(message);
        assert(self.entries.deep_view() =~= before.push(message.deep_view()));
    }

    /// Replaces the last entry, for compaction only.
    pub fn replace_tail(&mut self, replacement: LanguageModelRequestMessage)
        ensures
            final(self).deep_view() == (AppendOnlyLogView {
                entries: if old(self).deep_view().entries.len() > 0 {
                    old(self).deep_view().entries.drop_last().push(replacement.deep_view())
                } else {
                    old(self).deep_view().entries
                },
                ..old(self).deep_view()
            }),
    {
        let ghost before = self.entries.deep_view();
        if self.entries.len() > 0 {
            let _ = self.entries.pop();
            self.entries.push(replacement);
            assert(self.entries.deep_view() =~= before.drop_last().push(replacement.deep_view()));
        }
    }

    /// Drops the entries past `count`.
    pub fn truncate(&mut self, count: usize)
        ensures
            final(self).deep_view() == (AppendOnlyLogView {
                entries: if count < old(self).deep_view().entries.len() {
                    old(self).deep_view().entries.take(count as int)
                } else {
                    old(self).deep_view().entries
                },
                ..old(self).deep_view()
            }),
    {
        let ghost before = self.entries.deep_view();
        if count < self.entries.len() {
            self.entries.truncate(count);
            assert(self.entries.deep_view() =~= before.take(count as int));
        }
    }

    pub fn clear(&mut self)
        ensures
            final(self).deep_view() == empty_log(),
            final(self).deep_view().in_step(),
    {
        self.entries.clear();
        self.synced.clear();
        assert(self.deep_view() =~= empty_log());
        assert(stamped(seq![], digests_of(seq![])) =~= seq![]);
    }

    pub fn messages(&self) -> (r: &[LanguageModelRequestMessage])
        ensures
            r.deep_view() == self.deep_view().entries,
    {
        self.entries.as_slice()
    }

    /// Forgets everything, as on a switch of the model.
    pub fn reset_sync_cursor(&mut self)
        ensures
            final(self).deep_view() == empty_log(),
            final(self).deep_view().in_step(),
    {
        self.clear();
    }

    fn longest_stable_prefix(
        &self,
        normalized: &[LanguageModelRequestMessage],
        digests: &Vec<u32>,
    ) -> (r: usize)
        requires
            normalized@.len() == digests@.len(),
        ensures
            r == self.deep_view().unchanged_to(normalized.deep_view(), digests@, 0),
            r <= self.synced@.len(),
    {
        let ghost log = self.deep_view();
        let ghost given = normalized.deep_view();
        let mut i: usize = 0;
        while i < self.synced.len() && i < normalized.len()
            invariant
                log == self.deep_view(),
                given == normalized.deep_view(),
                normalized@.len() == digests@.len(),
                i <= self.synced@.len(),
                log.unchanged_to(given, digests@, 0) == log.unchanged_to(given, digests@, i as int),
            decreases self.synced@.len() - i,
        {
            assert(log.synced[i as int] == self.synced@[i as int].deep_view());
            assert(given[i as int] == normalized@[i as int].deep_view());
            if self.synced[i].digest != digests[i] || !self.synced[i].message.same(&normalized[i]) {
                return i;
            }
            i += 1;
        }
        i
    }

    /// Syncs the log with messages of the given digests: a longer list is
    /// appended, a shorter one replaces the log, and behind a rewritten message
    /// the log is replaced while the part in front of it stays.
    pub fn sync_with(&mut self, normalized: &[LanguageModelRequestMessage], digests: &Vec<u32>)
        requires
            normalized@.len() == digests@.len(),
        ensures
            final(self).deep_view() == old(self).deep_view().after_sync(
                normalized.deep_view(),
                digests@,
            ),
    {
        let ghost before = self.deep_view();
        let ghost given = normalized.deep_view();
        let ghost marked = stamped(given, digests@);
        if normalized.len() < self.synced.len() {
            self.clear();
        } else {
            let common = self.longest_stable_prefix(normalized, digests);
            let stable = if common < self.entries.len() {
                common
            } else {
                self.entries.len()
            };
            if stable < self.synced.len() {
                self.entries.truncate(stable);
                self.synced.truncate(stable);
                assert(self.deep_view() =~= before.cut(stable as int));
            }
        }
        let ghost kept = before.stable(given, digests@);
        assert(self.deep_view() =~= kept);
        let start: usize = self.synced.len();
        let n: usize = normalized.len();
        let mut i: usize = start;
        assert(given.subrange(start as int, start as int) =~= seq![]);
        assert(marked.subrange(start as int, start as int) =~= seq![]);
        while i < n
            invariant
                start <= i <= n,
                n == normalized@.len(),
                n == digests@.len(),
                start == kept.synced.len(),
                given == normalized.deep_view(),
                marked == stamped(given, digests@),
                self.entries.deep_view() == kept.entries + given.subrange(start as int, i as int),
                self.synced.deep_view() == kept.synced + marked.subrange(start as int, i as int),
            decreases n - i,
        {
            let ghost es = self.entries.deep_view();
            let ghost ss = self.synced.deep_view();
            let entry = normalized[i].clone();
            let copy = SyncedMessage { message: normalized[i].clone(), digest: digests[i] };
            self.entries.push(entry);
            self.synced.push(copy);
            assert(given[i as int] == normalized@[i as int].deep_view());
            assert(self.entries.deep_view() =~= es.push(given[i as int]));
            assert(self.synced.deep_view() =~= ss.push(marked[i as int]));
            assert(self.entries.deep_view() =~= kept.entries + given.subrange(start as int, i + 1));
            assert(self.synced.deep_view() =~= kept.synced + marked.subrange(start as int, i + 1));
            i += 1;
        }
        assert(given.subrange(start as int, n as int) =~= given.skip(start as int));
        assert(marked.subrange(start as int, n as int) =~= marked.skip(start as int));
        assert(self.deep_view() =~= before.after_sync(given, digests@));
    }

    /// Syncs the log with a freshly normalized list of messages. A log that held
    /// what was synced last then holds the list.
    pub fn sync_messages(&mut self, normalized: &[LanguageModelRequestMessage])
        ensures
            final(self).deep_view() == old(self).deep_view().after_sync(
                normalized.deep_view(),
                digests_of(normalized.deep_view()),
            ),
            old(self).deep_view().in_step() ==> final(self).deep_view().entries
                == normalized.deep_view() && final(self).deep_view().in_step(),
    {
        let ghost wanted = digests_of(normalized.deep_view());
        let mut digests: Vec<u32> = Vec::new();
        for i in 0..normalized.len()
            invariant
                wanted == digests_of(normalized.deep_view()),
                digests@ == wanted.take(i as int),
        {
            assert(normalized.deep_view()[i as int] == normalized@[i as int].deep_view());
            digests.push(message_digest(&normalized[i]));
            assert(digests@ =~= wanted.take(i + 1));
        }
        assert(digests@ =~= wanted);
        proof {
            if self.deep_view().in_step() {
                a_synced_log_is_in_step(self.deep_view(), normalized.deep_view());
            }
        }
        self.sync_with(normalized, &digests);
    }
}

proof fn lemma_unchanged_to(
    log: AppendOnlyLogView,
    messages: Seq<LanguageModelRequestMessageView>,
    digests: Seq<u32>,
    i: int,
)
    requires
        0 <= i <= log.synced.len(),
        i <= messages.len(),
    ensures
        ({
            let n = log.unchanged_to(messages, digests, i);
            &&& i <= n <= log.synced.len()
            &&& n <= messages.len()
            &&& forall|k: int| i <= k < n ==> #[trigger] log.unchanged(messages, digests, k)
            &&& !log.unchanged(messages, digests, n)
        }),
    decreases log.synced.len() - i,
{
    if log.unchanged(messages, digests, i) {
        lemma_unchanged_to(log, messages, digests, i + 1);
    }
}

/// A sync of a log in step leaves it in step: it then holds the messages it was
/// given, whether they extend, rewrite or shorten what was synced before.
pub proof fn a_synced_log_is_in_step(
    log: AppendOnlyLogView,
    messages: Seq<LanguageModelRequestMessageView>,
)
    requires
        log.in_step(),
    ensures
        ({
            let next = log.after_sync(messages, digests_of(messages));
            next.in_step() && next.entries == messages
        }),
{
    let ds = digests_of(messages);
    let marked = stamped(messages, ds);
    let kept = log.stable(messages, ds);
    let next = log.after_sync(messages, ds);
    lemma_unchanged_to(log, messages, ds, 0);
    let n = kept.synced.len() as int;
    assert forall|k: int| 0 <= k < n implies kept.synced[k] == marked[k] && kept.entries[k]
        == messages[k] by {
        assert(log.unchanged(messages, ds, k));
        assert(log.synced[k].message == log.entries[k]);
    }
    assert(kept.entries =~= messages.take(n));
    assert(kept.synced =~= marked.take(n));
    assert(next.entries =~= messages);
    assert(next.synced =~= marked);
}

/// A call that changes an [`AppendOnlyLog`] and keeps it in step.
pub enum LogCall {
    Sync(Seq<LanguageModelRequestMessageView>),
    Clear,
}

/// A fresh log after the given calls.
pub open spec fn log_after(calls: Seq<LogCall>) -> AppendOnlyLogView
    decreases calls.len(),
{
    if calls.len() == 0 {
        empty_log()
    } else {
        match calls.last() {
            LogCall::Sync(messages) => log_after(calls.drop_last()).after_sync(
                messages,
                digests_of(messages),
            ),
            LogCall::Clear => empty_log(),
        }
    }
}

/// A log that was only synced and cleared holds exactly the messages of the last
/// sync since it was cleared.
pub proof fn a_log_holds_what_was_synced_last(calls: Seq<LogCall>)
    ensures
        log_after(calls).in_step(),
        calls.len() > 0 ==> log_after(calls).entries == (match calls.last() {
            LogCall::Sync(messages) => messages,
            LogCall::Clear => seq![],
        }),
    decreases calls.len(),
{
    assert(stamped(seq![], digests_of(seq![])) =~= seq![]);
    if calls.len() > 0 {
        let before = calls.drop_last();
        a_log_holds_what_was_synced_last(before);
        match calls.last() {
            LogCall::Sync(messages) => a_synced_log_is_in_step(log_after(before), messages),
            LogCall::Clear => {},
        }
    }
}

/// The entries in front of the first rewritten message stay as they are, unless
/// the list shrank.
pub proof fn the_stable_prefix_survives(
    log: AppendOnlyLogView,
    messages: Seq<LanguageModelRequestMessageView>,
    n: int,
)
    requires
        log.synced.len() <= messages.len(),
        0 <= n <= log.synced.len(),
        n <= log.entries.len(),
        forall|i: int|
            0 <= i < n ==> #[trigger] log.synced[i] == (SyncedView {
                message: messages[i],
                digest: digest_of(messages[i]),
            }),
    ensures
        log.after_sync(messages, digests_of(messages)).entries.take(n) == log.entries.take(n),
{
    let ds = digests_of(messages);
    lemma_unchanged_to(log, messages, ds, 0);
    let c = log.unchanged_to(messages, ds, 0);
    if c < n {
        assert(log.synced[c] == stamped(messages, ds)[c]);
        assert(log.unchanged(messages, ds, c));
    }
    assert(log.after_sync(messages, ds).entries.take(n) =~= log.entries.take(n));
}

/// Appending messages keeps every entry of the log.
pub proof fn appending_keeps_the_log(
    log: AppendOnlyLogView,
    more: Seq<LanguageModelRequestMessageView>,
)
    requires
        log.in_step(),
    ensures
        log.stable(log.entries + more, digests_of(log.entries + more)) == log,
        log.after_sync(log.entries + more, digests_of(log.entries + more)).entries == log.entries
            + more,
{
    let messages = log.entries + more;
    let ds = digests_of(messages);
    lemma_unchanged_to(log, messages, ds, 0);
    let c = log.unchanged_to(messages, ds, 0);
    if c < log.synced.len() {
        assert(messages[c] == log.entries[c]);
        assert(log.synced[c] == stamped(messages, ds)[c]);
        assert(log.unchanged(messages, ds, c));
    }
    assert(log.stable(messages, ds) =~= log);
    a_synced_log_is_in_step(log, messages);
}

// ---------------------------------------------------------------------------
// Both
// ---------------------------------------------------------------------------

/// A frozen prefix and a log.
#[derive(Debug)]
pub struct AppendOnlyContextManager {
    pub prefix: StablePrefix,
    pub log: AppendOnlyLog,
}

impl Default for AppendOnlyContextManager {
    fn default() -> (r: Self)
        ensures
            r.prefix@ == no_prefix(),
            r.log.deep_view() == empty_log(),
    {
        AppendOnlyContextManager {
            prefix: StablePrefix::default(),
            log: AppendOnlyLog::default(),
        }
    }
}

impl AppendOnlyContextManager {
    pub fn new() -> (r: Self)
        ensures
            r.prefix@ == no_prefix(),
            r.log.deep_view() == empty_log(),
    {
        Self::default()
    }

    /// Forgets prefix and log on a switch of the model.
    pub fn invalidate_for_model_change(&mut self)
        ensures
            final(self).prefix@ == old(self).prefix@.invalidated(),
            final(self).log.deep_view() == empty_log(),
    {
        self.prefix.invalidate();
        self.log.clear();
    }

    /// Forgets everything and freezes the prefix of a request.
    pub fn reset(
        &mut self,
        messages: &[LanguageModelRequestMessage],
        tools: &[LanguageModelRequestTool],
    )
        requires
            old(self).prefix@.version < u32::MAX,
        ensures
            final(self).prefix@ == old(self).prefix@.invalidated().built(
                prefix_key(messages.deep_view(), tools.deep_view()),
            ),
            final(self).log.deep_view() == empty_log(),
    {
        self.prefix.invalidate();
        self.log.clear();
        let _ = self.prefix.build(messages, tools);
    }
}

// ---------------------------------------------------------------------------
// What a digest covers
// ---------------------------------------------------------------------------

/// The digest of a message is taken over its role, its blocks in order and its cache
/// mark.
pub proof fn a_digest_covers_the_whole_message(m: LanguageModelRequestMessageView)
    ensures
        digest_of(m) == xxh32_of(message_bytes(m), 0),
        message_bytes(m) == encode_utf8(
            match m.role {
                Role::User => "User"@,
                Role::Assistant => "Assistant"@,
                Role::System => "System"@,
            },
        ) + seq![0u8] + blocks_bytes(m.content) + seq![
            if m.cache {
                1u8
            } else {
                0u8
            },
        ],
        blocks_bytes(Seq::<MessageContentView>::empty()).len() == 0,
{
}

/// A block adds its text and an end mark to what a digest is taken over.
pub proof fn each_block_adds_its_text(cs: Seq<MessageContentView>, c: MessageContentView)
    ensures
        blocks_bytes(cs.push(c)) == blocks_bytes(cs) + encode_utf8(block_text(c)) + seq![0xFFu8],
{
    assert(cs.push(c).drop_last() =~= cs);
}

/// The text of a block holds all that it carries, with its kind in front.
pub proof fn the_text_of_a_block_holds_all_of_it(c: MessageContentView)
    ensures
        match c {
            MessageContentView::Text(t) => block_text(c) == "text:"@ + t,
            MessageContentView::Compaction(t) => block_text(c) == "compaction:"@ + t,
            MessageContentView::Image { data, mime_type } => block_text(c) == "image:"@ + mime_type
                + ":"@ + data,
            MessageContentView::Thinking { text, signature: None } => block_text(c) == "thinking:"@
                + text + ":"@ + "None"@,
            MessageContentView::Thinking { text, signature: Some(s) } => block_text(c)
                == "thinking:"@ + text + ":"@ + ("Some("@ + debug_quoted(s) + ")"@),
            MessageContentView::ToolResult(r) => block_text(c) == "toolresult:"@ + r.tool_use_id
                + ":"@ + r.tool_name + ":"@ + (if r.is_error {
                "true"@
            } else {
                "false"@
            }) + ":"@ + r.content,
            MessageContentView::ToolUse(u) => match u.thought_signature {
                None => block_text(c) == "tooluse:"@ + u.id + ":"@ + u.name + ":"@ + json_text(
                    u.input,
                ) + ":"@ + "None"@,
                Some(s) => block_text(c) == "tooluse:"@ + u.id + ":"@ + u.name + ":"@ + json_text(
                    u.input,
                ) + ":"@ + ("Some("@ + debug_quoted(s) + ")"@),
            },
        },
{
}

/// A tool adds its name, its description and its schema to the fingerprint.
pub proof fn each_tool_adds_its_definition(
    tools: Seq<LanguageModelRequestToolView>,
    t: LanguageModelRequestToolView,
)
    ensures
        tools_bytes(Seq::<LanguageModelRequestToolView>::empty()).len() == 0,
        tools_bytes(tools.push(t)) == tools_bytes(tools) + encode_utf8(t.name) + seq![0u8]
            + encode_utf8(t.description) + seq![0u8] + encode_utf8(json_text(t.input_schema))
            + seq![0xFFu8],
{
    assert(tools.push(t).drop_last() =~= tools);
}

/// The system text of a request is that of its system messages, in order; messages of
/// another role and empty ones add nothing.
pub proof fn system_text_comes_from_system_messages(
    ms: Seq<LanguageModelRequestMessageView>,
    m: LanguageModelRequestMessageView,
)
    ensures
        system_texts(Seq::<LanguageModelRequestMessageView>::empty()).len() == 0,
        m.role != Role::System ==> system_texts(ms.push(m)) == system_texts(ms),
        m.role == Role::System && concat_texts(m.content).len() == 0 ==> system_texts(ms.push(m))
            == system_texts(ms),
        m.role == Role::System && concat_texts(m.content).len() > 0 ==> system_texts(ms.push(m))
            == system_texts(ms).push(concat_texts(m.content)),
{
    assert(ms.push(m).drop_last() =~= ms);
}

/// A prefix changes just where the system text or the tools do, or where there was none;
/// each change counts once.
pub proof fn a_prefix_changes_with_its_parts(
    prefix: FrozenPrefix,
    messages: Seq<LanguageModelRequestMessageView>,
    tools: Seq<LanguageModelRequestToolView>,
)
    ensures
        ({
            let key = prefix_key(messages, tools);
            &&& key.system == system_texts(messages)
            &&& key.tools == xxh32_of(tools_bytes(tools), 0)
            &&& prefix.key is None ==> prefix.differs(key)
            &&& prefix.key matches Some(k) ==> (prefix.differs(key) <==> k.system != key.system
                || k.tools != key.tools)
            &&& prefix.built(key).key == Some(key)
            &&& prefix.differs(key) ==> prefix.built(key).version == prefix.version + 1
            &&& !prefix.differs(key) ==> prefix.built(key).version == prefix.version
            &&& prefix.invalidated().key is None
        }),
        no_prefix().key is None && no_prefix().version == 0,
{
}

/// A list shorter than the one that was taken in last starts the log over.
pub proof fn a_shorter_list_starts_over(
    log: AppendOnlyLogView,
    messages: Seq<LanguageModelRequestMessageView>,
)
    requires
        messages.len() < log.synced.len(),
    ensures
        log.after_sync(messages, digests_of(messages)).entries == messages,
        log.after_sync(messages, digests_of(messages)).synced.len() == messages.len(),
{
    assert(messages.skip(0) =~= messages);
    assert(Seq::<LanguageModelRequestMessageView>::empty() + messages =~= messages);
    let digests = digests_of(messages);
    assert(stamped(messages, digests).skip(0) =~= stamped(messages, digests));
}

/// The empty log holds nothing.
pub proof fn the_empty_log_holds_nothing()
    ensures
        empty_log().entries.len() == 0,
        empty_log().synced.len() == 0,
{
}

} // verus!
