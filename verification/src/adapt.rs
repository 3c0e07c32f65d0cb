//! Pure mappings from the harness onto the UI's language: the event stream
//! (live deltas) and the message history (rebuild).

use crate::harness::{
    AgentEvent, AgentEventView, AgentMessage, AgentMessageView, AssistantMessageEvent,
    AssistantMessageEventView, ContentBlock, ContentBlockView, HarnessStopReason,
};
use crate::history::{
    bodies, ids_drawn, row_ids_drawn, rows, HistoryEntry, PositionedNote, PositionedNoteView, Row,
    UiNoteRecord, UiNoteRecordView,
};
use crate::json::{lemma_model_of_object, Json, JsonView};
use crate::language_model::{
    no_usage, LanguageModelToolResult, LanguageModelToolResultView, LanguageModelToolUse,
    LanguageModelToolUseView, MessageContent, MessageContentView, Role, StopReason, TokenUsage,
};
use crate::message::{assistant_body, user_body, Message, MessageBody, MessageProvenance};
use crate::outside::json_text;
use crate::proposed_plan::{strip_proposed_plan_blocks, without_plan_blocks};
use crate::text::{
    chars_of, dec, or_empty, push_dec, starts_with, str_eq, str_or_empty, string_of_range,
};
use crate::thread::{
    SubagentChildEvent, SubagentChildEventView, ThreadEvent, ThreadEventView, ToolCallStatus,
};
use crate::tools::AGENT;
use vstd::prelude::*;

verus! {

// ---------------------------------------------------------------------------
// Tool titles
// ---------------------------------------------------------------------------

/// The string argument `key`, unless it is empty.
pub open spec fn arg(args: JsonView, key: Seq<char>) -> Option<Seq<char>> {
    match args.str_at(key) {
        Some(s) => if s.len() > 0 {
            Some(s)
        } else {
            None
        },
        None => None,
    }
}

/// `head`, then a space and `target` where there is one.
pub open spec fn with_target(head: Seq<char>, target: Option<Seq<char>>) -> Seq<char> {
    match target {
        Some(t) => head + " "@ + t,
        None => head,
    }
}

pub open spec fn u64_arg(args: JsonView, key: Seq<char>) -> Option<u64> {
    match args.get(key) {
        Some(v) => v.as_u64(),
        None => None,
    }
}

/// The title of a tool card: the name and the target of the call.
pub open spec fn title_of(name: Seq<char>, args: JsonView) -> Seq<char> {
    if name == "Read"@ || name == "Write"@ || name == "Ls"@ {
        with_target(name, arg(args, "path"@))
    } else if name == "Edit"@ || name == "EditDiff"@ {
        with_target("Edit"@, arg(args, "path"@))
    } else if name == "Grep"@ {
        match arg(args, "pattern"@) {
            Some(pattern) => with_target(
                with_target("Grep"@, Some(pattern)),
                arg(args, "path"@),
            ),
            None => "Grep"@,
        }
    } else if name == "Glob"@ {
        with_target("Glob"@, arg(args, "pattern"@))
    } else if name == "Bash"@ {
        match arg(args, "command"@) {
            Some(command) => "$ "@ + command,
            None => "Bash"@,
        }
    } else if name == "Agent"@ {
        with_target("Agent"@, arg(args, "subagent_type"@))
    } else if name == "WebExploreOpen"@ || name == "ChromeUseOpen"@ {
        with_target(
            name,
            match arg(args, "url"@) {
                Some(url) => Some(url),
                None => arg(args, "cdp_endpoint"@),
            },
        )
    } else if name == "WebExploreNavigate"@ || name == "ChromeUseNavigate"@ {
        with_target(name, arg(args, "url"@))
    } else if "WebExplore"@.is_prefix_of(name) || "ChromeUse"@.is_prefix_of(name) {
        match u64_arg(args, "tab_id"@) {
            Some(tab) => {
                let head = name + " tab "@ + dec(tab as nat);
                match arg(args, "ref"@) {
                    Some(element) => head + " ["@ + element + "]"@,
                    None => head,
                }
            },
            None => name,
        }
    } else {
        name
    }
}

fn arg_of(args: &Json, key: &str) -> (r: Option<String>)
    ensures
        r.deep_view() == arg(args.model(), key@),
{
    match args.str_at(key) {
        Some(s) => if s.is_empty() {
            None
        } else {
            Some(s.to_owned())
        },
        None => None,
    }
}

fn targeted(head: &str, target: Option<String>) -> (r: String)
    ensures
        r@ == with_target(head@, target.deep_view()),
{
    let mut out = head.to_owned();
    match target {
        Some(t) => {
            out.append(" ");
            out.append(t.as_str());
        },
        None => {},
    }
    out
}

/// Human-readable tool card title from the tool name and its arguments. Browser
/// tools show their url, tab or element, so that approval cards carry the
/// target; tools without a recognized target field show the bare name.
pub fn tool_title(name: &str, args: &Json) -> (r: String)
    ensures
        r@ == title_of(name@, args.model()),
{
    if str_eq(name, "Read") || str_eq(name, "Write") || str_eq(name, "Ls") {
        targeted(name, arg_of(args, "path"))
    } else if str_eq(name, "Edit") || str_eq(name, "EditDiff") {
        targeted("Edit", arg_of(args, "path"))
    } else if str_eq(name, "Grep") {
        match arg_of(args, "pattern") {
            Some(pattern) => {
                let head = targeted("Grep", Some(pattern));
                targeted(head.as_str(), arg_of(args, "path"))
            },
            None => "Grep".to_owned(),
        }
    } else if str_eq(name, "Glob") {
        targeted("Glob", arg_of(args, "pattern"))
    } else if str_eq(name, "Bash") {
        match arg_of(args, "command") {
            Some(command) => {
                let mut out = "$ ".to_owned();
                out.append(command.as_str());
                out
            },
            None => "Bash".to_owned(),
        }
    } else if str_eq(name, "Agent") {
        targeted("Agent", arg_of(args, "subagent_type"))
    } else if str_eq(name, "WebExploreOpen") || str_eq(name, "ChromeUseOpen") {
        let target = match arg_of(args, "url") {
            Some(url) => Some(url),
            None => arg_of(args, "cdp_endpoint"),
        };
        targeted(name, target)
    } else if str_eq(name, "WebExploreNavigate") || str_eq(name, "ChromeUseNavigate") {
        targeted(name, arg_of(args, "url"))
    } else if starts_with(name, "WebExplore") || starts_with(name, "ChromeUse") {
        let tab = match args.get("tab_id") {
            Some(v) => v.as_u64(),
            None => None,
        };
        match tab {
            Some(tab) => {
                let mut out = name.to_owned();
                out.append(" tab ");
                push_dec(&mut out, tab);
                match arg_of(args, "ref") {
                    Some(element) => {
                        out.append(" [");
                        out.append(element.as_str());
                        out.append("]");
                    },
                    None => {},
                }
                out
            },
            None => name.to_owned(),
        }
    } else {
        name.to_owned()
    }
}

// ---------------------------------------------------------------------------
// Blocks
// ---------------------------------------------------------------------------

/// The text blocks, one a line.
pub open spec fn block_texts(blocks: Seq<ContentBlockView>) -> Seq<char>
    decreases blocks.len(),
{
    if blocks.len() == 0 {
        seq![]
    } else {
        let before = block_texts(blocks.drop_last());
        match blocks.last() {
            ContentBlockView::Text { text, .. } => if before.len() > 0 {
                before.push('\n') + text
            } else {
                text
            },
            _ => before,
        }
    }
}

/// Concatenate the text blocks of a tool result for display.
pub fn text_of_blocks(blocks: &Vec<ContentBlock>) -> (r: String)
    ensures
        r@ == block_texts(blocks.deep_view()),
{
    let mut out = String::new();
    let ghost all = blocks.deep_view();
    for i in 0..blocks.len()
        invariant
            all == blocks.deep_view(),
            out@ == block_texts(all.take(i as int)),
    {
        assert(all.take(i + 1).drop_last() =~= all.take(i as int));
        assert(all.take(i + 1).last() == blocks@[i as int].deep_view());
        match &blocks[i] {
            ContentBlock::Text { text, .. } => {
                let ghost before = out@;
                if !out.as_str().is_empty() {
                    out.push('\n');
                }
                out.append(text.as_str());
                assert(before.len() == 0 ==> before + text@ =~= text@);
            },
            _ => {},
        }
    }
    assert(all.take(all.len() as int) =~= all);
    out
}

/// The message block that shows a harness block.
pub open spec fn block_shown(b: ContentBlockView) -> MessageContentView {
    match b {
        ContentBlockView::Text { text, .. } => MessageContentView::Text(text),
        ContentBlockView::Thinking { thinking, signature } => MessageContentView::Thinking {
            text: thinking,
            signature,
        },
        ContentBlockView::Image { data, mime_type } => MessageContentView::Image {
            data,
            mime_type,
        },
        ContentBlockView::ToolUse { id, name, input, thought_signature } =>
            MessageContentView::ToolUse(
            LanguageModelToolUseView {
                id,
                name,
                raw_input: json_text(input),
                input,
                is_input_complete: true,
                thought_signature,
            },
        ),
    }
}

pub open spec fn blocks_shown(bs: Seq<ContentBlockView>) -> Seq<MessageContentView> {
    Seq::new(bs.len(), |i: int| block_shown(bs[i]))
}

/// A block without the plan that it proposes: plans surface through their own
/// review card.
pub open spec fn without_plan(c: MessageContentView) -> MessageContentView {
    match c {
        MessageContentView::Text(text) => MessageContentView::Text(without_plan_blocks(text)),
        _ => c,
    }
}

pub open spec fn assistant_blocks(bs: Seq<ContentBlockView>) -> Seq<MessageContentView> {
    Seq::new(bs.len(), |i: int| without_plan(block_shown(bs[i])))
}

/// One harness content block onto one message block.
pub fn content_block_to_message_content(block: &ContentBlock) -> (r: MessageContent)
    ensures
        r.deep_view() == block_shown(block.deep_view()),
{
    match block {
        ContentBlock::Text { text, .. } => MessageContent::Text(text.clone()),
        ContentBlock::Thinking { thinking, signature } => MessageContent::Thinking {
            text: thinking.clone(),
            signature: signature.clone(),
        },
        ContentBlock::Image { data, mime_type } => MessageContent::Image {
            data: data.clone(),
            mime_type: mime_type.clone(),
        },
        ContentBlock::ToolUse { id, name, input, thought_signature } => MessageContent::ToolUse(
            LanguageModelToolUse {
                id: id.clone(),
                name: name.clone(),
                raw_input: input.to_text(),
                input: input.clone(),
                is_input_complete: true,
                thought_signature: thought_signature.clone(),
            },
        ),
    }
}

fn show_blocks(content: &Vec<ContentBlock>) -> (r: Vec<MessageContent>)
    ensures
        r.deep_view() == blocks_shown(content.deep_view()),
{
    let mut out: Vec<MessageContent> = Vec::new();
    for i in 0..content.len()
        invariant
            out@.len() == i,
            forall|k: int|
                0 <= k < i ==> (#[trigger] out@[k]).deep_view() == block_shown(
                    content@[k].deep_view(),
                ),
    {
        out.push(content_block_to_message_content(&content[i]));
    }
    assert(out.deep_view() =~= blocks_shown(content.deep_view()));
    out
}

fn show_assistant_blocks(content: &Vec<ContentBlock>) -> (r: Vec<MessageContent>)
    ensures
        r.deep_view() == assistant_blocks(content.deep_view()),
{
    let mut out: Vec<MessageContent> = Vec::new();
    for i in 0..content.len()
        invariant
            out@.len() == i,
            forall|k: int|
                0 <= k < i ==> (#[trigger] out@[k]).deep_view() == without_plan(
                    block_shown(content@[k].deep_view()),
                ),
    {
        let shown = content_block_to_message_content(&content[i]);
        let shown = match shown {
            MessageContent::Text(text) => MessageContent::Text(
                strip_proposed_plan_blocks(text.as_str()),
            ),
            other => other,
        };
        out.push(shown);
    }
    assert(out.deep_view() =~= assistant_blocks(content.deep_view()));
    out
}

// ---------------------------------------------------------------------------
// History
// ---------------------------------------------------------------------------

/// What ended an assistant message, as a note behind its blocks.
pub open spec fn stop_note(
    stop: Option<HarnessStopReason>,
    error: Option<Seq<char>>,
) -> Seq<MessageContentView> {
    match stop {
        Some(HarnessStopReason::Error) => seq![
            MessageContentView::Text(
                "[turn failed: "@ + (match error {
                    Some(e) => e,
                    None => "unknown error"@,
                }) + "]"@,
            ),
        ],
        Some(HarnessStopReason::Aborted) => seq![MessageContentView::Text("[turn aborted]"@)],
        _ => seq![],
    }
}

/// The rows of one harness message: one, or none for a hidden or empty custom
/// message.
pub open spec fn message_rows(m: AgentMessageView) -> Seq<MessageBody> {
    match m {
        AgentMessageView::User { content } => seq![user_body(blocks_shown(content))],
        AgentMessageView::Assistant { content, stop_reason, error_message, .. } => seq![
            assistant_body(assistant_blocks(content) + stop_note(stop_reason, error_message)),
        ],
        AgentMessageView::BashExecution { command, output } => seq![
            assistant_body(seq![MessageContentView::Text("$ "@ + command + "\n"@ + output)]),
        ],
        AgentMessageView::Custom { content, display } => if display && content.len() > 0 {
            seq![assistant_body(blocks_shown(content))]
        } else {
            seq![]
        },
        AgentMessageView::ToolResult { tool_call_id, tool_name, content, is_error } => seq![
            user_body(
                seq![
                    MessageContentView::ToolResult(
                        LanguageModelToolResultView {
                            tool_use_id: tool_call_id,
                            tool_name,
                            is_error,
                            content: block_texts(content),
                        },
                    ),
                ],
            ),
        ],
    }
}

pub open spec fn transcript_rows(ms: Seq<AgentMessageView>) -> Seq<MessageBody>
    decreases ms.len(),
{
    if ms.len() == 0 {
        seq![]
    } else {
        transcript_rows(ms.drop_last()) + message_rows(ms.last())
    }
}

/// Whether a harness message has a row.
pub open spec fn is_shown(m: AgentMessageView) -> bool {
    match m {
        AgentMessageView::Custom { content, display } => display && content.len() > 0,
        _ => true,
    }
}

/// One row for each message that has one, and none for the others.
pub proof fn one_row_per_shown_message(m: AgentMessageView)
    ensures
        message_rows(m).len() == (if is_shown(m) {
            1int
        } else {
            0int
        }),
{
}

fn message_row(m: &AgentMessage) -> (r: Option<Message>)
    ensures
        match r {
            Some(message) => message_rows(m.deep_view()) == seq![message.body()]
                && message.id@.len() == 36,
            None => message_rows(m.deep_view()).len() == 0,
        },
{
    match m {
        AgentMessage::User { content } => Some(Message::user_with_content(show_blocks(content))),
        AgentMessage::Assistant { content, stop_reason, error_message, .. } => {
            let mut blocks = show_assistant_blocks(content);
            let ghost shown = blocks.deep_view();
            match stop_reason {
                Some(HarnessStopReason::Error) => {
                    let mut note = "[turn failed: ".to_owned();
                    match error_message {
                        Some(e) => note.append(e.as_str()),
                        None => note.append("unknown error"),
                    }
                    note.append("]");
                    blocks.push(MessageContent::Text(note));
                },
                Some(HarnessStopReason::Aborted) => {
                    blocks.push(MessageContent::Text("[turn aborted]".to_owned()));
                },
                _ => {},
            }
            assert(blocks.deep_view() =~= shown + stop_note(
                *stop_reason,
                error_message.deep_view(),
            ));
            Some(Message::assistant(blocks))
        },
        AgentMessage::BashExecution { command, output } => {
            let mut text = "$ ".to_owned();
            text.append(command.as_str());
            text.append("\n");
            text.append(output.as_str());
            let mut blocks: Vec<MessageContent> = Vec::new();
            blocks.push(MessageContent::Text(text));
            assert(blocks.deep_view() =~= seq![MessageContentView::Text(text@)]);
            Some(Message::assistant(blocks))
        },
        AgentMessage::Custom { content, display } => {
            if *display && content.len() > 0 {
                Some(Message::assistant(show_blocks(content)))
            } else {
                None
            }
        },
        AgentMessage::ToolResult { tool_call_id, tool_name, content, is_error } => {
            let result = MessageContent::ToolResult(
                LanguageModelToolResult {
                    tool_use_id: tool_call_id.clone(),
                    tool_name: tool_name.clone(),
                    is_error: *is_error,
                    content: text_of_blocks(content),
                },
            );
            let mut blocks: Vec<MessageContent> = Vec::new();
            blocks.push(result);
            assert(blocks.deep_view() =~= seq![result.deep_view()]);
            Some(Message::user_with_content(blocks))
        },
    }
}

/// Restore mapping: harness history onto the message history the rebuild path
/// renders. Blocks map one-to-one; terminal error and abort states surface as a
/// trailing assistant text note, so that a reloaded session shows why the last
/// run stopped.
pub fn harness_messages_to_messages(input: &Vec<AgentMessage>) -> (r: Vec<Message>)
    ensures
        bodies(r@) == transcript_rows(input.deep_view()),
        ids_drawn(r@),
{
    let mut out: Vec<Message> = Vec::new();
    let ghost all = input.deep_view();
    for i in 0..input.len()
        invariant
            all == input.deep_view(),
            bodies(out@) == transcript_rows(all.take(i as int)),
            ids_drawn(out@),
    {
        assert(all.take(i + 1).drop_last() =~= all.take(i as int));
        assert(all.take(i + 1).last() == input@[i as int].deep_view());
        let ghost before = bodies(out@);
        match message_row(&input[i]) {
            Some(message) => {
                out.push(message);
                assert(bodies(out@) =~= before + seq![message.body()]);
            },
            None => {
                assert(before + message_rows(all[i as int]) =~= before);
            },
        }
    }
    assert(all.take(all.len() as int) =~= all);
    out
}

/// What a custom entry of a session carries.
#[derive(Debug, PartialEq, Eq)]
pub enum CustomData {
    /// No payload.
    Absent,
    /// A payload that is no note.
    Unreadable,
    Note(UiNoteRecord),
}

/// One entry of a persisted session.
#[derive(Debug, PartialEq, Eq)]
pub enum SessionEntry {
    Custom { custom_type: String, data: CustomData },
    /// Every other entry, by the context messages that it stands for.
    Context { messages: Vec<AgentMessage> },
}

/// Custom entries of this type are notes.
pub const UI_NOTE_CUSTOM_TYPE: &'static str = "manox_ui_note";

pub open spec fn message_row_entries(bs: Seq<MessageBody>) -> Seq<Row> {
    Seq::new(bs.len(), |i: int| Row::Message(bs[i]))
}

/// The note an entry carries, if it is one.
pub open spec fn entry_note(e: SessionEntry) -> Option<UiNoteRecordView> {
    match e {
        SessionEntry::Custom { custom_type, data: CustomData::Note(note) } => if custom_type@
            == UI_NOTE_CUSTOM_TYPE@ {
            Some(note.deep_view())
        } else {
            None
        },
        _ => None,
    }
}

/// The rows of an entry: its messages, or its note.
pub open spec fn entry_rows(e: SessionEntry) -> Seq<Row> {
    match e {
        SessionEntry::Context { messages } => message_row_entries(
            transcript_rows(messages.deep_view()),
        ),
        _ => match entry_note(e) {
            Some(note) => seq![Row::Note(note)],
            None => seq![],
        },
    }
}

pub open spec fn display_rows(entries: Seq<SessionEntry>) -> Seq<Row>
    decreases entries.len(),
{
    if entries.len() == 0 {
        seq![]
    } else {
        display_rows(entries.drop_last()) + entry_rows(entries.last())
    }
}

/// Number of message rows.
pub open spec fn message_rows_in(rs: Seq<Row>) -> nat
    decreases rs.len(),
{
    if rs.len() == 0 {
        0
    } else {
        message_rows_in(rs.drop_last()) + (if rs.last() is Message {
            1nat
        } else {
            0nat
        })
    }
}

/// The notes, each with the number of messages shown before it.
pub open spec fn display_notes(entries: Seq<SessionEntry>) -> Seq<PositionedNoteView>
    decreases entries.len(),
{
    if entries.len() == 0 {
        seq![]
    } else {
        let before = entries.drop_last();
        display_notes(before) + (match entry_note(entries.last()) {
            Some(note) => seq![
                PositionedNoteView {
                    note,
                    after_message: message_rows_in(display_rows(before)) as usize,
                },
            ],
            None => seq![],
        })
    }
}

proof fn lemma_message_rows_bound(rs: Seq<Row>)
    ensures
        message_rows_in(rs) <= rs.len(),
    decreases rs.len(),
{
    if rs.len() > 0 {
        lemma_message_rows_bound(rs.drop_last());
    }
}

/// Project the session entry list onto the display sequence that the live
/// mirror and the conversation rebuild share: every context message becomes a
/// message row and every note entry a note row at its persisted position.
/// Returns the positioned notes alongside, so that live refreshes can merge
/// them again.
pub fn entries_to_display(entries: &Vec<SessionEntry>) -> (r: (
    Vec<HistoryEntry>,
    Vec<PositionedNote>,
))
    ensures
        rows(r.0@) == display_rows(entries@),
        row_ids_drawn(r.0.deep_view()),
        r.1.deep_view() == display_notes(entries@),
{
    let mut display: Vec<HistoryEntry> = Vec::new();
    let mut notes: Vec<PositionedNote> = Vec::new();
    let mut message_count: usize = 0;
    assert(rows(display@) =~= seq![]);
    assert(notes.deep_view() =~= seq![]);
    for i in 0..entries.len()
        invariant
            rows(display@) == display_rows(entries@.take(i as int)),
            row_ids_drawn(display.deep_view()),
            notes.deep_view() == display_notes(entries@.take(i as int)),
            message_count == message_rows_in(rows(display@)),
    {
        let ghost e = entries@[i as int];
        assert(entries@.take(i + 1).drop_last() =~= entries@.take(i as int));
        assert(entries@.take(i + 1).last() == e);
        let ghost shown = rows(display@);
        let ghost noted = notes.deep_view();
        match &entries[i] {
            SessionEntry::Custom { custom_type, data } => {
                let is_note = str_eq(custom_type.as_str(), UI_NOTE_CUSTOM_TYPE);
                match data {
                    CustomData::Note(note) if is_note => {
                        let positioned = PositionedNote {
                            note: note.clone(),
                            after_message: message_count,
                        };
                        notes.push(positioned);
                        let ghost before = display.deep_view();
                        let row = HistoryEntry::Note(note.clone());
                        display.push(row);
                        assert(display.deep_view() =~= before.push(row.deep_view()));
                        assert(notes.deep_view() =~= noted + seq![positioned.deep_view()]);
                        assert(rows(display@) =~= shown + seq![Row::Note(note.deep_view())]);
                        assert(rows(display@).drop_last() =~= shown);
                    },
                    _ => {
                        assert(shown + entry_rows(e) =~= shown);
                        assert(noted + seq![] =~= noted);
                    },
                }
            },
            SessionEntry::Context { messages } => {
                let mapped = harness_messages_to_messages(messages);
                let ghost bs = transcript_rows(messages.deep_view());
                let mut j: usize = 0;
                assert(shown + message_row_entries(bs).take(0) =~= shown);
                while j < mapped.len()
                    invariant
                        j <= mapped@.len(),
                        bodies(mapped@) == bs,
                        ids_drawn(mapped@),
                        row_ids_drawn(display.deep_view()),
                        rows(display@) == shown + message_row_entries(bs).take(j as int),
                        message_count == message_rows_in(rows(display@)),
                    decreases mapped@.len() - j,
                {
                    let ghost prior = rows(display@);
                    let ghost before = display.deep_view();
                    let row = HistoryEntry::Message(mapped[j].clone());
                    display.push(row);
                    assert(display.deep_view() =~= before.push(row.deep_view()));
                    assert(mapped@[j as int].body() == bs[j as int]);
                    assert(display@.last().row() == Row::Message(bs[j as int]));
                    assert(rows(display@) =~= prior.push(Row::Message(bs[j as int])));
                    assert(rows(display@) =~= shown + message_row_entries(bs).take(j + 1));
                    assert(rows(display@).drop_last() =~= prior);
                    proof {
                        lemma_message_rows_bound(rows(display@));
                    }
                    assert(display@.len() == display.len());
                    message_count += 1;
                    j += 1;
                }
                assert(message_row_entries(bs).take(j as int) =~= message_row_entries(bs));
                assert(noted + seq![] =~= noted);
            },
        }
    }
    assert(entries@.take(entries@.len() as int) =~= entries@);
    (display, notes)
}

// ---------------------------------------------------------------------------
// Events
// ---------------------------------------------------------------------------

pub open spec fn stop_of(m: AgentMessageView) -> Option<HarnessStopReason> {
    match m {
        AgentMessageView::Assistant { stop_reason, .. } => stop_reason,
        _ => None,
    }
}

pub open spec fn error_text(m: AgentMessageView) -> Seq<char> {
    match m {
        AgentMessageView::Assistant { error_message: Some(e), .. } => e,
        _ => "the pi session hit an error"@,
    }
}

/// A rail row of a nested session that is still running.
pub open spec fn running_activity(id: Seq<char>, text: Seq<char>) -> ThreadEventView {
    ThreadEventView::SubagentProgress {
        id,
        subagent_type: seq![],
        tool_uses: 0,
        token_usage: no_usage(),
        latest_activity: Some(text),
        status: ToolCallStatus::Running,
    }
}

pub open spec fn started_activity(name: Seq<char>, hint: Option<(Seq<char>, Seq<char>)>) -> Seq<
    char,
> {
    match hint {
        Some(h) => "▸ "@ + name + " "@ + h.1,
        None => "▸ "@ + name,
    }
}

pub open spec fn zip_opt(a: Option<Seq<char>>, b: Option<Seq<char>>) -> Option<
    (Seq<char>, Seq<char>),
> {
    match (a, b) {
        (Some(x), Some(y)) => Some((x, y)),
        _ => None,
    }
}

/// What a progress report of a nested session shows.
pub open spec fn nested_events(id: Seq<char>, ev: JsonView) -> Seq<ThreadEventView> {
    let kind = or_empty(ev.str_at("kind"@));
    let name = or_empty(ev.str_at("tool"@));
    let child_id = or_empty(ev.str_at("id"@));
    if kind == "text"@ {
        match ev.str_at("text"@) {
            Some(text) => seq![
                ThreadEventView::SubagentChild { id, child: SubagentChildEventView::Text(text) },
            ],
            None => seq![],
        }
    } else if kind == "thinking"@ {
        match ev.str_at("text"@) {
            Some(text) => seq![
                ThreadEventView::SubagentChild {
                    id,
                    child: SubagentChildEventView::Thinking(text),
                },
            ],
            None => seq![],
        }
    } else if kind == "tool_start"@ {
        let hint = zip_opt(ev.str_at("summary_key"@), ev.str_at("summary"@));
        seq![
            ThreadEventView::SubagentChild {
                id,
                child: SubagentChildEventView::ToolStart { id: child_id, name, hint },
            },
            running_activity(id, started_activity(name, hint)),
        ]
    } else if kind == "tool_end"@ {
        let is_error = ev.bool_at("is_error"@) == Some(true);
        seq![
            ThreadEventView::SubagentChild {
                id,
                child: SubagentChildEventView::ToolEnd { id: child_id, name, is_error },
            },
            running_activity(
                id,
                (if is_error {
                    "✗"@
                } else {
                    "✓"@
                }) + " "@ + name,
            ),
        ]
    } else {
        seq![]
    }
}

/// What a started tool call shows: its card, and for a sub-agent the row that
/// follows the nested session.
pub open spec fn start_events(
    id: Seq<char>,
    name: Seq<char>,
    args: JsonView,
    topic: Seq<char>,
) -> Seq<ThreadEventView> {
    let card = ThreadEventView::ToolCall {
        id,
        name,
        title: title_of(name, args),
        status: ToolCallStatus::Running,
        input: Some(args),
    };
    if name == AGENT@ {
        seq![
            card,
            ThreadEventView::SubagentProgress {
                id,
                subagent_type: or_empty(args.str_at("subagent_type"@)),
                tool_uses: 0,
                token_usage: no_usage(),
                latest_activity: match args.str_at("prompt"@) {
                    Some(_) => Some(topic),
                    None => None,
                },
                status: ToolCallStatus::Running,
            },
        ]
    } else {
        seq![card]
    }
}

pub open spec fn update_events(id: Seq<char>, name: Seq<char>, partial: JsonView) -> Seq<
    ThreadEventView,
> {
    if name == AGENT@ && partial.get("subagent_event"@) is Some {
        nested_events(id, partial.get("subagent_event"@).unwrap())
    } else {
        match partial.str_at("output"@) {
            Some(chunk) => if chunk.len() > 0 {
                seq![ThreadEventView::ToolOutput { id, chunk }]
            } else {
                seq![]
            },
            None => seq![],
        }
    }
}

pub open spec fn end_events(
    id: Seq<char>,
    name: Seq<char>,
    result: Seq<ContentBlockView>,
    is_error: bool,
) -> Seq<ThreadEventView> {
    let status = if is_error {
        ToolCallStatus::Error
    } else {
        ToolCallStatus::Success
    };
    let card = ThreadEventView::ToolCall { id, name, title: name, status, input: None };
    let output = ThreadEventView::ToolResult { id, output: block_texts(result), is_error };
    if name == AGENT@ {
        seq![
            card,
            output,
            ThreadEventView::SubagentProgress {
                id,
                subagent_type: seq![],
                tool_uses: 0,
                token_usage: no_usage(),
                latest_activity: None,
                status,
            },
        ]
    } else {
        seq![card, output]
    }
}

pub open spec fn message_end_events(m: AgentMessageView) -> Seq<ThreadEventView> {
    match stop_of(m) {
        Some(HarnessStopReason::Stop) => seq![ThreadEventView::Stop(StopReason::EndTurn)],
        Some(HarnessStopReason::Length) => seq![ThreadEventView::Stop(StopReason::MaxTokens)],
        Some(HarnessStopReason::ToolUse) => seq![ThreadEventView::Stop(StopReason::ToolUse)],
        Some(HarnessStopReason::Aborted) => seq![ThreadEventView::Stop(StopReason::Cancelled)],
        Some(HarnessStopReason::Error) => seq![ThreadEventView::Error(error_text(m))],
        None => seq![],
    }
}

/// What the UI shows of a harness event. Run and turn lifecycle, message
/// boundaries and block markers show nothing: the facade owns them.
pub open spec fn shown_events(event: AgentEventView, topic: Seq<char>) -> Seq<ThreadEventView> {
    match event {
        AgentEventView::MessageUpdate {
            assistant_message_event: AssistantMessageEventView::TextDelta { delta },
            ..
        } => seq![ThreadEventView::AgentText(delta)],
        AgentEventView::MessageUpdate {
            assistant_message_event: AssistantMessageEventView::ThinkingDelta { delta },
            ..
        } => seq![ThreadEventView::AgentThinking(delta)],
        AgentEventView::MessageEnd { message } => message_end_events(message),
        AgentEventView::ToolExecutionStart { tool_call_id, tool_name, arguments } => start_events(
            tool_call_id,
            tool_name,
            arguments,
            topic,
        ),
        AgentEventView::ToolExecutionUpdate { tool_call_id, tool_name, partial_result, .. } =>
            update_events(tool_call_id, tool_name, partial_result),
        AgentEventView::ToolExecutionEnd { tool_call_id, tool_name, result, is_error } =>
            end_events(tool_call_id, tool_name, result, is_error),
        AgentEventView::Retry { attempt, max_attempts, delay_millis, reason, detail } => seq![
            ThreadEventView::Retry {
                attempt,
                max_attempts,
                delay_secs: (delay_millis / 1000) as u64,
                reason,
                detail,
            },
        ],
        _ => seq![],
    }
}

fn no_events() -> (r: Vec<ThreadEvent>)
    ensures
        r.deep_view() == Seq::<ThreadEventView>::empty(),
{
    let v: Vec<ThreadEvent> = Vec::new();
    assert(v.deep_view() =~= Seq::empty());
    v
}

fn one_event(e: ThreadEvent) -> (r: Vec<ThreadEvent>)
    ensures
        r.deep_view() == seq![e.deep_view()],
{
    let mut v: Vec<ThreadEvent> = Vec::new();
    v.push(e);
    assert(v.deep_view() =~= seq![e.deep_view()]);
    v
}

fn two_events(a: ThreadEvent, b: ThreadEvent) -> (r: Vec<ThreadEvent>)
    ensures
        r.deep_view() == seq![a.deep_view(), b.deep_view()],
{
    let mut v: Vec<ThreadEvent> = Vec::new();
    v.push(a);
    v.push(b);
    assert(v.deep_view() =~= seq![a.deep_view(), b.deep_view()]);
    v
}

fn activity_event(id: &str, text: String) -> (r: ThreadEvent)
    ensures
        r.deep_view() == running_activity(id@, text@),
{
    ThreadEvent::SubagentProgress {
        id: id.to_owned(),
        subagent_type: String::new(),
        tool_uses: 0,
        token_usage: TokenUsage::default(),
        latest_activity: Some(text),
        status: ToolCallStatus::Running,
    }
}

fn started_text(name: &str, hint: &Option<(String, String)>) -> (r: String)
    ensures
        r@ == started_activity(name@, hint.deep_view()),
{
    let mut out = "▸ ".to_owned();
    out.append(name);
    match hint {
        Some(h) => {
            out.append(" ");
            out.append(h.1.as_str());
        },
        None => {},
    }
    out
}

fn child_event(id: &str, child: SubagentChildEvent) -> (r: ThreadEvent)
    ensures
        r.deep_view() == (ThreadEventView::SubagentChild { id: id@, child: child.deep_view() }),
{
    ThreadEvent::SubagentChild { id: id.to_owned(), child }
}

fn nested_thread_events(id: &str, ev: &Json) -> (r: Vec<ThreadEvent>)
    ensures
        r.deep_view() == nested_events(id@, ev.model()),
{
    let kind = str_or_empty(ev.str_at("kind"));
    let name = str_or_empty(ev.str_at("tool"));
    let child_id = str_or_empty(ev.str_at("id"));
    let kind = kind.as_str();
    if str_eq(kind, "text") {
        match ev.str_at("text") {
            Some(text) => one_event(child_event(id, SubagentChildEvent::Text(text.to_owned()))),
            None => no_events(),
        }
    } else if str_eq(kind, "thinking") {
        match ev.str_at("text") {
            Some(text) => one_event(
                child_event(id, SubagentChildEvent::Thinking(text.to_owned())),
            ),
            None => no_events(),
        }
    } else if str_eq(kind, "tool_start") {
        let hint: Option<(String, String)> = match (ev.str_at("summary_key"), ev.str_at("summary")) {
            (Some(k), Some(s)) => Some((k.to_owned(), s.to_owned())),
            _ => None,
        };
        assert(hint.deep_view() == zip_opt(
            ev.model().str_at("summary_key"@),
            ev.model().str_at("summary"@),
        ));
        let activity = activity_event(id, started_text(name.as_str(), &hint));
        two_events(
            child_event(id, SubagentChildEvent::ToolStart { id: child_id, name, hint }),
            activity,
        )
    } else if str_eq(kind, "tool_end") {
        let is_error = match ev.bool_at("is_error") {
            Some(b) => b,
            None => false,
        };
        let mut text = if is_error {
            "✗".to_owned()
        } else {
            "✓".to_owned()
        };
        text.append(" ");
        text.append(name.as_str());
        let activity = activity_event(id, text);
        two_events(
            child_event(id, SubagentChildEvent::ToolEnd { id: child_id, name, is_error }),
            activity,
        )
    } else {
        no_events()
    }
}

pub fn message_stop_reason(message: &AgentMessage) -> (r: Option<HarnessStopReason>)
    ensures
        r == stop_of(message.deep_view()),
{
    match message {
        AgentMessage::Assistant { stop_reason, .. } => *stop_reason,
        _ => None,
    }
}

pub fn message_error_text(message: &AgentMessage) -> (r: String)
    ensures
        r@ == error_text(message.deep_view()),
{
    match message {
        AgentMessage::Assistant { error_message: Some(e), .. } => e.clone(),
        _ => "the pi session hit an error".to_owned(),
    }
}

/// Map one harness event onto the events the UI renders. `topic` is the short
/// form of the prompt that a sub-agent is started with.
pub fn agent_event_to_thread_events(event: &AgentEvent, topic: &str) -> (r: Vec<ThreadEvent>)
    ensures
        r.deep_view() == shown_events(event.deep_view(), topic@),
{
    match event {
        AgentEvent::MessageUpdate { assistant_message_event, .. } => match assistant_message_event {
            AssistantMessageEvent::TextDelta { delta } => one_event(
                ThreadEvent::AgentText(delta.clone()),
            ),
            AssistantMessageEvent::ThinkingDelta { delta } => one_event(
                ThreadEvent::AgentThinking(delta.clone()),
            ),
            AssistantMessageEvent::Other => no_events(),
        },
        AgentEvent::MessageEnd { message } => match message_stop_reason(message) {
            Some(HarnessStopReason::Stop) => one_event(ThreadEvent::Stop(StopReason::EndTurn)),
            Some(HarnessStopReason::Length) => one_event(ThreadEvent::Stop(StopReason::MaxTokens)),
            Some(HarnessStopReason::ToolUse) => one_event(ThreadEvent::Stop(StopReason::ToolUse)),
            Some(HarnessStopReason::Aborted) => one_event(
                ThreadEvent::Stop(StopReason::Cancelled),
            ),
            Some(HarnessStopReason::Error) => one_event(
                ThreadEvent::Error(message_error_text(message)),
            ),
            None => no_events(),
        },
        AgentEvent::ToolExecutionStart { tool_call_id, tool_name, arguments } => {
            let card = ThreadEvent::ToolCall {
                id: tool_call_id.clone(),
                name: tool_name.clone(),
                title: tool_title(tool_name.as_str(), arguments),
                status: ToolCallStatus::Running,
                input: Some(arguments.clone()),
            };
            if str_eq(tool_name.as_str(), AGENT) {
                let latest_activity = match arguments.str_at("prompt") {
                    Some(_) => Some(topic.to_owned()),
                    None => None,
                };
                two_events(
                    card,
                    ThreadEvent::SubagentProgress {
                        id: tool_call_id.clone(),
                        subagent_type: str_or_empty(arguments.str_at("subagent_type")),
                        tool_uses: 0,
                        token_usage: TokenUsage::default(),
                        latest_activity,
                        status: ToolCallStatus::Running,
                    },
                )
            } else {
                one_event(card)
            }
        },
        AgentEvent::ToolExecutionUpdate { tool_call_id, tool_name, partial_result, .. } => {
            if str_eq(tool_name.as_str(), AGENT) {
                match partial_result.get("subagent_event") {
                    Some(ev) => {
                        return nested_thread_events(tool_call_id.as_str(), ev);
                    },
                    None => {},
                }
            }
            match partial_result.str_at("output") {
                Some(chunk) => if chunk.is_empty() {
                    no_events()
                } else {
                    one_event(
                        ThreadEvent::ToolOutput {
                            id: tool_call_id.clone(),
                            chunk: chunk.to_owned(),
                        },
                    )
                },
                None => no_events(),
            }
        },
        AgentEvent::ToolExecutionEnd { tool_call_id, tool_name, result, is_error } => {
            let status = if *is_error {
                ToolCallStatus::Error
            } else {
                ToolCallStatus::Success
            };
            let mut events = two_events(
                ThreadEvent::ToolCall {
                    id: tool_call_id.clone(),
                    name: tool_name.clone(),
                    title: tool_name.clone(),
                    status,
                    input: None,
                },
                ThreadEvent::ToolResult {
                    id: tool_call_id.clone(),
                    output: text_of_blocks(result),
                    is_error: *is_error,
                },
            );
            let ghost two = events.deep_view();
            if str_eq(tool_name.as_str(), AGENT) {
                let closing = ThreadEvent::SubagentProgress {
                    id: tool_call_id.clone(),
                    subagent_type: String::new(),
                    tool_uses: 0,
                    token_usage: TokenUsage::default(),
                    latest_activity: None,
                    status,
                };
                events.push(closing);
                assert(events.deep_view() =~= two.push(closing.deep_view()));
                assert(closing.deep_view()->SubagentProgress_subagent_type =~= seq![]);
                assert(events.deep_view() =~= end_events(
                    tool_call_id@,
                    tool_name@,
                    result.deep_view(),
                    *is_error,
                ));
            }
            events
        },
        AgentEvent::Retry { attempt, max_attempts, delay_millis, reason, detail } => one_event(
            ThreadEvent::Retry {
                attempt: *attempt,
                max_attempts: *max_attempts,
                delay_secs: *delay_millis / 1000,
                reason: reason.clone(),
                detail: detail.clone(),
            },
        ),
        _ => no_events(),
    }
}

/// The first characters of `s`, at most `n`.
pub open spec fn shortened(s: Seq<char>, n: int) -> Seq<char> {
    if s.len() <= n {
        s
    } else {
        s.take(n)
    }
}

/// First member of a tool call's arguments: its name and its value shortened.
pub open spec fn hint_of(args: JsonView) -> Option<(Seq<char>, Seq<char>)> {
    match args {
        JsonView::Object(es) => if es.len() > 0 {
            Some(
                (
                    es[0].0,
                    shortened(
                        match es[0].1 {
                            JsonView::Str(s) => s,
                            other => json_text(other),
                        },
                        40,
                    ),
                ),
            )
        } else {
            None
        },
        _ => None,
    }
}

fn arg_hint(arguments: &Json) -> (r: Option<(String, String)>)
    ensures
        r.deep_view() == hint_of(arguments.model()),
{
    match arguments {
        Json::Object(entries) => {
            proof {
                lemma_model_of_object(*entries);
            }
            if entries.len() == 0 {
                return None;
            }
            let value = match &entries[0].1 {
                Json::Str(s) => s.clone(),
                other => other.to_text(),
            };
            let chars = chars_of(value.as_str());
            let short = if chars.len() <= 40 {
                value
            } else {
                string_of_range(&chars, 0, 40)
            };
            assert(chars@.len() > 40 ==> short@ =~= chars@.take(40));
            Some((entries[0].0.clone(), short))
        },
        _ => None,
    }
}

/// What the sub-agent panel shows of an event of a child session: transcript
/// deltas and the tool lifecycle, with a running row at each tool start.
pub open spec fn child_shown(id: Seq<char>, event: AgentEventView) -> Seq<ThreadEventView> {
    match event {
        AgentEventView::MessageUpdate {
            assistant_message_event: AssistantMessageEventView::TextDelta { delta },
            ..
        } => seq![
            ThreadEventView::SubagentChild { id, child: SubagentChildEventView::Text(delta) },
        ],
        AgentEventView::MessageUpdate {
            assistant_message_event: AssistantMessageEventView::ThinkingDelta { delta },
            ..
        } => seq![
            ThreadEventView::SubagentChild { id, child: SubagentChildEventView::Thinking(delta) },
        ],
        AgentEventView::ToolExecutionStart { tool_call_id, tool_name, arguments } => {
            let hint = hint_of(arguments);
            seq![
                ThreadEventView::SubagentChild {
                    id,
                    child: SubagentChildEventView::ToolStart {
                        id: tool_call_id,
                        name: tool_name,
                        hint,
                    },
                },
                running_activity(id, started_activity(tool_name, hint)),
            ]
        },
        AgentEventView::ToolExecutionEnd { tool_call_id, tool_name, is_error, .. } => seq![
            ThreadEventView::SubagentChild {
                id,
                child: SubagentChildEventView::ToolEnd {
                    id: tool_call_id,
                    name: tool_name,
                    is_error,
                },
            },
        ],
        _ => seq![],
    }
}

/// Map one event of a child session onto the observation events that the
/// sub-agent panel accumulates.
pub fn child_events_of(id: &str, event: &AgentEvent) -> (r: Vec<ThreadEvent>)
    ensures
        r.deep_view() == child_shown(id@, event.deep_view()),
{
    match event {
        AgentEvent::MessageUpdate { assistant_message_event, .. } => match assistant_message_event {
            AssistantMessageEvent::TextDelta { delta } => one_event(
                child_event(id, SubagentChildEvent::Text(delta.clone())),
            ),
            AssistantMessageEvent::ThinkingDelta { delta } => one_event(
                child_event(id, SubagentChildEvent::Thinking(delta.clone())),
            ),
            AssistantMessageEvent::Other => no_events(),
        },
        AgentEvent::ToolExecutionStart { tool_call_id, tool_name, arguments } => {
            let hint = arg_hint(arguments);
            let activity = activity_event(id, started_text(tool_name.as_str(), &hint));
            two_events(
                child_event(
                    id,
                    SubagentChildEvent::ToolStart {
                        id: tool_call_id.clone(),
                        name: tool_name.clone(),
                        hint,
                    },
                ),
                activity,
            )
        },
        AgentEvent::ToolExecutionEnd { tool_call_id, tool_name, is_error, .. } => one_event(
            child_event(
                id,
                SubagentChildEvent::ToolEnd {
                    id: tool_call_id.clone(),
                    name: tool_name.clone(),
                    is_error: *is_error,
                },
            ),
        ),
        _ => no_events(),
    }
}

// ---------------------------------------------------------------------------
// What holds of every row and every event
// ---------------------------------------------------------------------------

proof fn lemma_texts_join(a: Seq<ContentBlockView>, b: Seq<ContentBlockView>)
    requires
        forall|i: int|
            0 <= i < b.len() ==> ((#[trigger] b[i]) matches ContentBlockView::Text { text, .. }
                ==> text.len() > 0),
    ensures
        block_texts(a + b) == (if block_texts(a).len() == 0 {
            block_texts(b)
        } else if block_texts(b).len() == 0 {
            block_texts(a)
        } else {
            block_texts(a) + seq!['\n'] + block_texts(b)
        }),
    decreases b.len(),
{
    if b.len() == 0 {
        assert(a + b =~= a);
    } else {
        let front = b.drop_last();
        assert forall|i: int| 0 <= i < front.len() implies ((
        #[trigger] front[i]) matches ContentBlockView::Text { text, .. } ==> text.len() > 0) by {
            assert(front[i] == b[i]);
        }
        lemma_texts_join(a, front);
        assert((a + b).drop_last() =~= a + front);
        assert(b[b.len() - 1] == b.last());
        match b.last() {
            ContentBlockView::Text { text, .. } => {
                let x = block_texts(a);
                let y = block_texts(front);
                assert(x.push('\n') + text =~= x + seq!['\n'] + text);
                assert((x + seq!['\n'] + y).push('\n') + text =~= x + seq!['\n'] + (y.push('\n')
                    + text));
            },
            _ => {},
        }
    }
}

/// The text of blocks is what the text blocks say, each on lines of its own: a text block
/// says its text and any other nothing, and between what two runs of blocks say stands one
/// line break.
pub proof fn texts_are_joined_by_lines(
    a: Seq<ContentBlockView>,
    b: Seq<ContentBlockView>,
    block: ContentBlockView,
)
    requires
        forall|i: int|
            0 <= i < b.len() ==> ((#[trigger] b[i]) matches ContentBlockView::Text { text, .. }
                ==> text.len() > 0),
    ensures
        block_texts(seq![]).len() == 0,
        block matches ContentBlockView::Text { text, .. } ==> block_texts(seq![block]) == text,
        !(block is Text) ==> block_texts(seq![block]).len() == 0,
        block_texts(a).len() == 0 ==> block_texts(a + b) == block_texts(b),
        block_texts(b).len() == 0 ==> block_texts(a + b) == block_texts(a),
        block_texts(a).len() > 0 && block_texts(b).len() > 0 ==> block_texts(a + b) == block_texts(
            a,
        ) + seq!['\n'] + block_texts(b),
{
    lemma_texts_join(a, b);
    assert(seq![block].drop_last() =~= seq![]);
    assert(block_texts(seq![]) =~= seq![]);
    if let ContentBlockView::Text { text, .. } = block {
        assert(block_texts(seq![block]) =~= text);
    }
}

/// A tool result becomes one row of the user's role, marked as tool output. Its one block
/// is the result: of the same call and tool, failed exactly where the call failed, and
/// with the text of its blocks.
pub proof fn a_tool_result_is_shown_unchanged(
    tool_call_id: Seq<char>,
    tool_name: Seq<char>,
    content: Seq<ContentBlockView>,
    is_error: bool,
)
    ensures
        ({
            let rows = message_rows(
                AgentMessageView::ToolResult { tool_call_id, tool_name, content, is_error },
            );
            &&& rows.len() == 1
            &&& rows[0].role == Role::User
            &&& rows[0].provenance == MessageProvenance::Tool
            &&& rows[0].parent_id is None
            &&& rows[0].ui is None
            &&& rows[0].content.len() == 1
            &&& rows[0].content[0] matches MessageContentView::ToolResult(shown)
            &&& shown.tool_use_id == tool_call_id
            &&& shown.tool_name == tool_name
            &&& shown.is_error == is_error
            &&& shown.content == block_texts(content)
        }),
{
    let m = AgentMessageView::ToolResult { tool_call_id, tool_name, content, is_error };
    assert(message_rows(m)[0].content[0] is ToolResult);
}

/// A tool result of one text block is shown with that text.
pub proof fn a_tool_result_of_one_text_is_shown_with_it(
    tool_call_id: Seq<char>,
    tool_name: Seq<char>,
    text: Seq<char>,
    signature: Option<Seq<char>>,
    is_error: bool,
)
    ensures
        ({
            let content = seq![ContentBlockView::Text { text, signature }];
            let rows = message_rows(
                AgentMessageView::ToolResult { tool_call_id, tool_name, content, is_error },
            );
            rows[0].content[0] == MessageContentView::ToolResult(
                LanguageModelToolResultView {
                    tool_use_id: tool_call_id,
                    tool_name,
                    is_error,
                    content: text,
                },
            )
        }),
{
    let block = ContentBlockView::Text { text, signature };
    texts_are_joined_by_lines(seq![], seq![], block);
}

/// A user message becomes one row of the user's own, with a block for each of its blocks:
/// the same text, the same thinking with its signature, the same image, the same call.
pub proof fn a_user_message_is_shown_block_by_block(content: Seq<ContentBlockView>, i: int)
    requires
        0 <= i < content.len(),
    ensures
        ({
            let rows = message_rows(AgentMessageView::User { content });
            &&& rows.len() == 1
            &&& rows[0].role == Role::User
            &&& rows[0].provenance == MessageProvenance::User
            &&& rows[0].parent_id is None
            &&& rows[0].ui is None
            &&& rows[0].content.len() == content.len()
            &&& match content[i] {
                ContentBlockView::Text { text, .. } => rows[0].content[i]
                    == MessageContentView::Text(text),
                ContentBlockView::Thinking { thinking, signature } => rows[0].content[i] == (
                MessageContentView::Thinking { text: thinking, signature }),
                ContentBlockView::Image { data, mime_type } => rows[0].content[i] == (
                MessageContentView::Image { data, mime_type }),
                ContentBlockView::ToolUse { id, name, input, thought_signature } =>
                    rows[0].content[i] matches MessageContentView::ToolUse(call) && call.id == id
                    && call.name == name && call.input == input && call.raw_input == json_text(
                    input,
                ) && call.is_input_complete && call.thought_signature == thought_signature,
            }
        }),
{
}

/// An assistant message becomes one row of the assistant, with a block for each of its
/// blocks, a text without the plans it proposes. Where the turn failed or was aborted, and
/// only there, one more block says so, with the error.
pub proof fn an_assistant_message_is_shown_block_by_block(
    content: Seq<ContentBlockView>,
    model: Seq<char>,
    provider: Seq<char>,
    response_model: Option<Seq<char>>,
    stop_reason: Option<HarnessStopReason>,
    usage: TokenUsage,
    error_message: Option<Seq<char>>,
    i: int,
)
    requires
        0 <= i < content.len(),
    ensures
        ({
            let rows = message_rows(
                AgentMessageView::Assistant {
                    content,
                    model,
                    provider,
                    response_model,
                    stop_reason,
                    usage,
                    error_message,
                },
            );
            let n = content.len() as int;
            &&& rows.len() == 1
            &&& rows[0].role == Role::Assistant
            &&& rows[0].provenance == MessageProvenance::Assistant
            &&& rows[0].parent_id is None
            &&& rows[0].ui is None
            &&& match content[i] {
                ContentBlockView::Text { text, .. } => rows[0].content[i]
                    == MessageContentView::Text(without_plan_blocks(text)),
                ContentBlockView::Thinking { thinking, signature } => rows[0].content[i] == (
                MessageContentView::Thinking { text: thinking, signature }),
                ContentBlockView::Image { data, mime_type } => rows[0].content[i] == (
                MessageContentView::Image { data, mime_type }),
                ContentBlockView::ToolUse { id, name, input, thought_signature } =>
                    rows[0].content[i] matches MessageContentView::ToolUse(call) && call.id == id
                    && call.name == name && call.input == input && call.raw_input == json_text(
                    input,
                ) && call.is_input_complete && call.thought_signature == thought_signature,
            }
            &&& match stop_reason {
                Some(HarnessStopReason::Error) => rows[0].content.len() == n + 1
                    && rows[0].content[n] == MessageContentView::Text(
                    "[turn failed: "@ + (match error_message {
                        Some(e) => e,
                        None => "unknown error"@,
                    }) + "]"@,
                ),
                Some(HarnessStopReason::Aborted) => rows[0].content.len() == n + 1
                    && rows[0].content[n] == MessageContentView::Text("[turn aborted]"@),
                _ => rows[0].content.len() == n,
            }
        }),
{
}

/// A shell record shows its command and its output; a custom message shows its blocks
/// where it is to be shown and has any, and else nothing.
pub proof fn records_and_customs_are_shown(
    command: Seq<char>,
    output: Seq<char>,
    content: Seq<ContentBlockView>,
    display: bool,
)
    ensures
        ({
            let rows = message_rows(AgentMessageView::BashExecution { command, output });
            &&& rows.len() == 1
            &&& rows[0].role == Role::Assistant
            &&& rows[0].content =~= seq![
                MessageContentView::Text("$ "@ + command + "\n"@ + output),
            ]
        }),
        ({
            let rows = message_rows(AgentMessageView::Custom { content, display });
            &&& rows.len() == 0 <==> !display || content.len() == 0
            &&& rows.len() <= 1
            &&& rows.len() == 1 ==> rows[0].role == Role::Assistant && rows[0].provenance
                == MessageProvenance::Assistant && rows[0].content.len() == content.len()
            &&& rows.len() == 1 ==> forall|i: int|
                0 <= i < content.len() ==> ((
                #[trigger] content[i]) matches ContentBlockView::Text { text, .. }
                    ==> rows[0].content[i] == MessageContentView::Text(text))
        }),
{
}

/// A transcript is shown message by message, in order: the rows of two parts are the rows
/// of the first and then those of the second, and one message has its own rows.
pub proof fn transcripts_are_shown_in_order(
    a: Seq<AgentMessageView>,
    b: Seq<AgentMessageView>,
    m: AgentMessageView,
)
    ensures
        transcript_rows(seq![]).len() == 0,
        transcript_rows(seq![m]) == message_rows(m),
        transcript_rows(a + b) == transcript_rows(a) + transcript_rows(b),
    decreases b.len(),
{
    assert(seq![m].drop_last() =~= seq![]);
    assert(transcript_rows(seq![]) =~= seq![]);
    assert(seq![] + message_rows(m) =~= message_rows(m));
    if b.len() == 0 {
        assert(a + b =~= a);
        assert(transcript_rows(a) + transcript_rows(b) =~= transcript_rows(a));
    } else {
        transcripts_are_shown_in_order(a, b.drop_last(), m);
        assert((a + b).drop_last() =~= a + b.drop_last());
        assert(transcript_rows(a + b) =~= transcript_rows(a) + transcript_rows(b));
    }
}

/// A session is shown entry by entry, in order. An entry with messages shows their rows and
/// a note shows itself; a note stands behind as many messages as the entries before it show.
pub proof fn sessions_are_shown_in_order(a: Seq<SessionEntry>, e: SessionEntry)
    ensures
        display_rows(seq![]).len() == 0,
        display_notes(seq![]).len() == 0,
        match e {
            SessionEntry::Context { messages } => {
                let rows = transcript_rows(messages.deep_view());
                &&& display_rows(a.push(e)).len() == display_rows(a).len() + rows.len()
                &&& forall|i: int|
                    0 <= i < display_rows(a).len() ==> display_rows(a.push(e))[i]
                        == #[trigger] display_rows(a)[i]
                &&& forall|i: int|
                    0 <= i < rows.len() ==> display_rows(a.push(e))[display_rows(a).len() + i]
                        == Row::Message(#[trigger] rows[i])
                &&& display_notes(a.push(e)) =~= display_notes(a)
            },
            SessionEntry::Custom { custom_type, data } => match data {
                CustomData::Note(note) => if custom_type@ == "manox_ui_note"@ {
                    &&& display_rows(a.push(e)) =~= display_rows(a).push(
                        Row::Note(note.deep_view()),
                    )
                    &&& display_notes(a.push(e)).len() == display_notes(a).len() + 1
                    &&& display_notes(a.push(e)).drop_last() =~= display_notes(a)
                    &&& display_notes(a.push(e)).last().note == note.deep_view()
                    &&& display_notes(a.push(e)).last().after_message == message_rows_in(
                        display_rows(a),
                    ) as usize
                } else {
                    &&& display_rows(a.push(e)) =~= display_rows(a)
                    &&& display_notes(a.push(e)) =~= display_notes(a)
                },
                _ => {
                    &&& display_rows(a.push(e)) =~= display_rows(a)
                    &&& display_notes(a.push(e)) =~= display_notes(a)
                },
            },
        },
{
    assert(a.push(e).drop_last() =~= a);
    assert(a.push(e).last() == e);
}

/// Counting messages counts each message row once and no note.
pub proof fn message_rows_are_counted(a: Seq<Row>, r: Row)
    ensures
        message_rows_in(seq![]) == 0,
        r is Message ==> message_rows_in(a.push(r)) == message_rows_in(a) + 1,
        r is Note ==> message_rows_in(a.push(r)) == message_rows_in(a),
{
    assert(a.push(r).drop_last() =~= a);
}

/// The answer text among events that the UI shows.
pub open spec fn answer_in(shown: Seq<ThreadEventView>) -> Seq<char>
    decreases shown.len(),
{
    if shown.len() == 0 {
        seq![]
    } else {
        answer_in(shown.drop_last()) + (match shown.last() {
            ThreadEventView::AgentText(text) => text,
            _ => seq![],
        })
    }
}

/// The thinking among events that the UI shows.
pub open spec fn thinking_in(shown: Seq<ThreadEventView>) -> Seq<char>
    decreases shown.len(),
{
    if shown.len() == 0 {
        seq![]
    } else {
        thinking_in(shown.drop_last()) + (match shown.last() {
            ThreadEventView::AgentThinking(text) => text,
            _ => seq![],
        })
    }
}

/// The answer text that arrives with harness events.
pub open spec fn text_deltas(events: Seq<AgentEventView>) -> Seq<char>
    decreases events.len(),
{
    if events.len() == 0 {
        seq![]
    } else {
        text_deltas(events.drop_last()) + (match events.last() {
            AgentEventView::MessageUpdate {
                assistant_message_event: AssistantMessageEventView::TextDelta { delta },
                ..
            } => delta,
            _ => seq![],
        })
    }
}

/// The thinking that arrives with harness events.
pub open spec fn thinking_deltas(events: Seq<AgentEventView>) -> Seq<char>
    decreases events.len(),
{
    if events.len() == 0 {
        seq![]
    } else {
        thinking_deltas(events.drop_last()) + (match events.last() {
            AgentEventView::MessageUpdate {
                assistant_message_event: AssistantMessageEventView::ThinkingDelta { delta },
                ..
            } => delta,
            _ => seq![],
        })
    }
}

/// Everything that the UI shows of harness events, each with the topic it came with.
pub open spec fn stream_shown(events: Seq<AgentEventView>, topics: Seq<Seq<char>>) -> Seq<
    ThreadEventView,
>
    decreases events.len(),
{
    if events.len() == 0 {
        seq![]
    } else {
        stream_shown(events.drop_last(), topics) + shown_events(
            events.last(),
            topics[events.len() - 1],
        )
    }
}

/// An event shows answer text exactly where it is a text delta, and then that delta alone;
/// and thinking exactly where it is a thinking delta, and then that delta alone.
pub proof fn deltas_are_shown_as_what_they_are(
    message: AgentMessageView,
    delta: Seq<char>,
    event: AgentEventView,
    topic: Seq<char>,
    i: int,
)
    ensures
        shown_events(
            AgentEventView::MessageUpdate {
                message,
                assistant_message_event: AssistantMessageEventView::TextDelta { delta },
            },
            topic,
        ) =~= seq![ThreadEventView::AgentText(delta)],
        shown_events(
            AgentEventView::MessageUpdate {
                message,
                assistant_message_event: AssistantMessageEventView::ThinkingDelta { delta },
            },
            topic,
        ) =~= seq![ThreadEventView::AgentThinking(delta)],
        0 <= i < shown_events(event, topic).len() && shown_events(event, topic)[i] is AgentText
            ==> event is MessageUpdate && event->MessageUpdate_assistant_message_event is TextDelta,
        0 <= i < shown_events(event, topic).len() && shown_events(event, topic)[i] is AgentThinking
            ==> event is MessageUpdate
            && event->MessageUpdate_assistant_message_event is ThinkingDelta,
{
}

proof fn lemma_answer_concat(a: Seq<ThreadEventView>, b: Seq<ThreadEventView>)
    ensures
        answer_in(a + b) == answer_in(a) + answer_in(b),
        thinking_in(a + b) == thinking_in(a) + thinking_in(b),
    decreases b.len(),
{
    if b.len() == 0 {
        assert(a + b =~= a);
        assert(answer_in(a) + answer_in(b) =~= answer_in(a));
        assert(thinking_in(a) + thinking_in(b) =~= thinking_in(a));
    } else {
        lemma_answer_concat(a, b.drop_last());
        assert((a + b).drop_last() =~= a + b.drop_last());
        assert(answer_in(a + b) =~= answer_in(a) + answer_in(b));
        assert(thinking_in(a + b) =~= thinking_in(a) + thinking_in(b));
    }
}

proof fn lemma_no_answer(shown: Seq<ThreadEventView>)
    requires
        forall|i: int|
            0 <= i < shown.len() ==> !((#[trigger] shown[i]) is AgentText)
                && !(shown[i] is AgentThinking),
    ensures
        answer_in(shown).len() == 0,
        thinking_in(shown).len() == 0,
    decreases shown.len(),
{
    if shown.len() > 0 {
        let front = shown.drop_last();
        assert forall|i: int| 0 <= i < front.len() implies !((#[trigger] front[i]) is AgentText)
            && !(front[i] is AgentThinking) by {
            assert(front[i] == shown[i]);
        }
        lemma_no_answer(front);
        assert(shown[shown.len() - 1] == shown.last());
    }
}

proof fn lemma_event_answer(event: AgentEventView, topic: Seq<char>)
    ensures
        answer_in(shown_events(event, topic)) =~= text_deltas(seq![event]),
        thinking_in(shown_events(event, topic)) =~= thinking_deltas(seq![event]),
{
    let shown = shown_events(event, topic);
    assert(seq![event].drop_last() =~= seq![]);
    assert(text_deltas(seq![]) =~= seq![]);
    assert(thinking_deltas(seq![]) =~= seq![]);
    let plain = !(event is MessageUpdate
        && !(event->MessageUpdate_assistant_message_event is Other));
    if plain {
        lemma_no_answer(shown);
    } else {
        assert(shown.len() == 1);
        assert(shown.drop_last() =~= seq![]);
        assert(answer_in(seq![]) =~= seq![]);
        assert(thinking_in(seq![]) =~= seq![]);
    }
}

/// Over any events the UI shows as answer exactly the text that arrives, and as thinking
/// exactly the thinking that arrives, each in order and nothing twice.
pub proof fn the_stream_shows_what_arrives(events: Seq<AgentEventView>, topics: Seq<Seq<char>>)
    ensures
        answer_in(stream_shown(events, topics)) == text_deltas(events),
        thinking_in(stream_shown(events, topics)) == thinking_deltas(events),
    decreases events.len(),
{
    if events.len() > 0 {
        let front = events.drop_last();
        let last = events.last();
        let topic = topics[events.len() - 1];
        the_stream_shows_what_arrives(front, topics);
        lemma_answer_concat(stream_shown(front, topics), shown_events(last, topic));
        lemma_event_answer(last, topic);
        assert(seq![last].drop_last() =~= seq![]);
        assert(text_deltas(seq![]) =~= seq![]);
        assert(thinking_deltas(seq![]) =~= seq![]);
        assert(text_deltas(events) =~= text_deltas(front) + text_deltas(seq![last]));
        assert(thinking_deltas(events) =~= thinking_deltas(front) + thinking_deltas(seq![last]));
    }
}

/// A started call shows its card first, running, with its arguments. A sub-agent shows its
/// row too, under the same id and of the type that it was asked for; nothing else is shown.
pub proof fn a_started_call_shows_its_card(
    tool_call_id: Seq<char>,
    tool_name: Seq<char>,
    arguments: JsonView,
    topic: Seq<char>,
)
    ensures
        ({
            let shown = shown_events(
                AgentEventView::ToolExecutionStart { tool_call_id, tool_name, arguments },
                topic,
            );
            &&& shown.len() == if tool_name == "Agent"@ {
                2int
            } else {
                1
            }
            &&& shown[0] == (ThreadEventView::ToolCall {
                id: tool_call_id,
                name: tool_name,
                title: title_of(tool_name, arguments),
                status: ToolCallStatus::Running,
                input: Some(arguments),
            })
            &&& tool_name == "Agent"@ ==> (shown[1] matches ThreadEventView::SubagentProgress {
                id,
                subagent_type,
                tool_uses,
                token_usage,
                latest_activity,
                status,
            } && id == tool_call_id && status == ToolCallStatus::Running && tool_uses == 0
                && latest_activity == (if arguments.str_at("prompt"@) is Some {
                Some(topic)
            } else {
                None
            }) && (arguments.str_at("subagent_type"@) matches Some(kind) ==> subagent_type == kind)
                && (arguments.str_at("subagent_type"@) is None ==> subagent_type.len() == 0))
        }),
{
}

/// An ended call closes its card, as an error exactly where it failed, and shows its result
/// with the same flag; the row of a sub-agent closes with it.
pub proof fn an_ended_call_closes_its_card(
    tool_call_id: Seq<char>,
    tool_name: Seq<char>,
    result: Seq<ContentBlockView>,
    is_error: bool,
    topic: Seq<char>,
)
    ensures
        ({
            let shown = shown_events(
                AgentEventView::ToolExecutionEnd { tool_call_id, tool_name, result, is_error },
                topic,
            );
            let status = if is_error {
                ToolCallStatus::Error
            } else {
                ToolCallStatus::Success
            };
            &&& shown.len() == if tool_name == "Agent"@ {
                3int
            } else {
                2
            }
            &&& shown[0] matches ThreadEventView::ToolCall {
                id,
                name,
                title,
                status: closed,
                input,
            } && id == tool_call_id && name == tool_name && title == tool_name && closed == status
                && input is None
            &&& shown[1] == (ThreadEventView::ToolResult {
                id: tool_call_id,
                output: block_texts(result),
                is_error,
            })
            &&& tool_name == "Agent"@ ==> (shown[2] matches ThreadEventView::SubagentProgress {
                id,
                status: closed,
                latest_activity,
                tool_uses,
                ..
            } && id == tool_call_id && closed == status && latest_activity is None && tool_uses
                == 0)
        }),
{
}

/// A call that is under way shows each chunk of output that is not empty, under its id.
pub proof fn output_is_shown_as_it_arrives(
    tool_call_id: Seq<char>,
    tool_name: Seq<char>,
    arguments: JsonView,
    partial_result: JsonView,
    topic: Seq<char>,
)
    requires
        tool_name != "Agent"@ || partial_result.get("subagent_event"@) is None,
    ensures
        ({
            let shown = shown_events(
                AgentEventView::ToolExecutionUpdate {
                    tool_call_id,
                    tool_name,
                    arguments,
                    partial_result,
                },
                topic,
            );
            match partial_result.str_at("output"@) {
                Some(chunk) => if chunk.len() > 0 {
                    shown =~= seq![ThreadEventView::ToolOutput { id: tool_call_id, chunk }]
                } else {
                    shown.len() == 0
                },
                None => shown.len() == 0,
            }
        }),
{
}

/// A report of a nested session is shown under the call that runs it: its text as text, its
/// thinking as thinking, and its calls with their own ids, failed exactly where they failed.
pub proof fn a_nested_session_is_shown_under_its_call(
    tool_call_id: Seq<char>,
    arguments: JsonView,
    partial_result: JsonView,
    report: JsonView,
    topic: Seq<char>,
)
    requires
        partial_result.get("subagent_event"@) == Some(report),
    ensures
        ({
            let shown = shown_events(
                AgentEventView::ToolExecutionUpdate {
                    tool_call_id,
                    tool_name: "Agent"@,
                    arguments,
                    partial_result,
                },
                topic,
            );
            let kind = report.str_at("kind"@);
            let text = report.str_at("text"@);
            &&& kind == Some("text"@) && text is Some ==> shown =~= seq![
                ThreadEventView::SubagentChild {
                    id: tool_call_id,
                    child: SubagentChildEventView::Text(text->0),
                },
            ]
            &&& kind == Some("thinking"@) && text is Some ==> shown =~= seq![
                ThreadEventView::SubagentChild {
                    id: tool_call_id,
                    child: SubagentChildEventView::Thinking(text->0),
                },
            ]
            &&& kind == Some("tool_start"@) ==> shown.len() == 2 && (
            shown[0] matches ThreadEventView::SubagentChild {
                id,
                child: SubagentChildEventView::ToolStart { id: child_id, name, hint },
            } && id == tool_call_id && (report.str_at("id"@) matches Some(given) ==> child_id
                == given) && (report.str_at("tool"@) matches Some(tool) ==> name == tool) && (
            report.str_at("summary_key"@) is Some && report.str_at("summary"@) is Some ==> hint
                == Some((report.str_at("summary_key"@)->0, report.str_at("summary"@)->0))) && (
            report.str_at("summary_key"@) is None || report.str_at("summary"@) is None
                ==> hint is None))
            &&& kind == Some("tool_end"@) ==> shown.len() == 2 && (
            shown[0] matches ThreadEventView::SubagentChild {
                id,
                child: SubagentChildEventView::ToolEnd { id: child_id, name, is_error },
            } && id == tool_call_id && is_error == (report.bool_at("is_error"@) == Some(true)) && (
            report.str_at("id"@) matches Some(given) ==> child_id == given) && (report.str_at(
                "tool"@,
            ) matches Some(tool) ==> name == tool))
            &&& kind is None ==> shown.len() == 0
            &&& forall|i: int|
                0 <= i < shown.len() && (#[trigger] shown[i]) is SubagentProgress ==> i == 1
                    && shown[i]->SubagentProgress_id == tool_call_id
                    && shown[i]->SubagentProgress_status == ToolCallStatus::Running
        }),
{
    reveal_strlit("text");
    reveal_strlit("thinking");
    reveal_strlit("tool_start");
    reveal_strlit("tool_end");
    assert("text"@.len() == 4);
    assert("thinking"@.len() == 8);
    assert("tool_start"@.len() == 10);
    assert("tool_end"@.len() == 8);
    assert("thinking"@[1] != "tool_end"@[1]);
    assert(or_empty(None).len() == 0);
}

/// The end of an assistant message shows why it stopped: by itself, at the limit, for a
/// tool or by the user as that stop, and in an error as the error that it names. Any other
/// message, and one without a reason, shows nothing.
pub proof fn the_end_of_a_message_shows_why(message: AgentMessageView, topic: Seq<char>)
    ensures
        ({
            let shown = shown_events(AgentEventView::MessageEnd { message }, topic);
            match message {
                AgentMessageView::Assistant { stop_reason, error_message, .. } => match stop_reason {
                    Some(HarnessStopReason::Stop) => shown =~= seq![
                        ThreadEventView::Stop(StopReason::EndTurn),
                    ],
                    Some(HarnessStopReason::Length) => shown =~= seq![
                        ThreadEventView::Stop(StopReason::MaxTokens),
                    ],
                    Some(HarnessStopReason::ToolUse) => shown =~= seq![
                        ThreadEventView::Stop(StopReason::ToolUse),
                    ],
                    Some(HarnessStopReason::Aborted) => shown =~= seq![
                        ThreadEventView::Stop(StopReason::Cancelled),
                    ],
                    Some(HarnessStopReason::Error) => shown.len() == 1 && (
                    error_message matches Some(e) ==> shown[0] == ThreadEventView::Error(e)) && (
                    error_message is None ==> shown[0] == ThreadEventView::Error(
                        "the pi session hit an error"@,
                    )),
                    None => shown.len() == 0,
                },
                _ => shown.len() == 0,
            }
        }),
{
}

/// A retry is shown with its count and its reason, and with the whole seconds of its delay.
/// Lifecycle events and block markers show nothing.
pub proof fn retries_are_shown_and_lifecycle_is_not(
    attempt: u32,
    max_attempts: u32,
    delay_millis: u64,
    reason: Seq<char>,
    detail: Option<Seq<char>>,
    message: AgentMessageView,
    topic: Seq<char>,
)
    ensures
        ({
            let shown = shown_events(
                AgentEventView::Retry { attempt, max_attempts, delay_millis, reason, detail },
                topic,
            );
            &&& shown.len() == 1
            &&& shown[0] matches ThreadEventView::Retry {
                attempt: a,
                max_attempts: m,
                delay_secs: d,
                reason: r,
                detail: t,
            } && a == attempt && m == max_attempts && r == reason && t == detail && d * 1000
                <= delay_millis < (d + 1) * 1000
        }),
        shown_events(AgentEventView::AgentStart, topic).len() == 0,
        shown_events(AgentEventView::AgentEnd, topic).len() == 0,
        shown_events(AgentEventView::TurnStart, topic).len() == 0,
        shown_events(AgentEventView::TurnEnd, topic).len() == 0,
        shown_events(AgentEventView::MessageStart { message }, topic).len() == 0,
        shown_events(
            AgentEventView::MessageUpdate {
                message,
                assistant_message_event: AssistantMessageEventView::Other,
            },
            topic,
        ).len() == 0,
{
}

/// The panel of a sub-agent observes its session under the id of the call: text as text,
/// thinking as thinking, and each call with its own id and name, failed exactly where it
/// failed.
pub proof fn a_child_is_observed_as_it_is(
    id: Seq<char>,
    message: AgentMessageView,
    delta: Seq<char>,
    call: Seq<char>,
    name: Seq<char>,
    arguments: JsonView,
    result: Seq<ContentBlockView>,
    is_error: bool,
)
    ensures
        child_shown(
            id,
            AgentEventView::MessageUpdate {
                message,
                assistant_message_event: AssistantMessageEventView::TextDelta { delta },
            },
        ) =~= seq![
            ThreadEventView::SubagentChild { id, child: SubagentChildEventView::Text(delta) },
        ],
        child_shown(
            id,
            AgentEventView::MessageUpdate {
                message,
                assistant_message_event: AssistantMessageEventView::ThinkingDelta { delta },
            },
        ) =~= seq![
            ThreadEventView::SubagentChild { id, child: SubagentChildEventView::Thinking(delta) },
        ],
        ({
            let shown = child_shown(
                id,
                AgentEventView::ToolExecutionStart {
                    tool_call_id: call,
                    tool_name: name,
                    arguments,
                },
            );
            &&& shown.len() == 2
            &&& shown[0] matches ThreadEventView::SubagentChild {
                id: of,
                child: SubagentChildEventView::ToolStart { id: started, name: tool, hint },
            } && of == id && started == call && tool == name && (match arguments {
                JsonView::Object(es) => if es.len() > 0 {
                    hint matches Some(h) && h.0 == es[0].0 && h.1.len() <= 40 && (
                    es[0].1 matches JsonView::Str(s) ==> h.1.is_prefix_of(s) && (h.1.len() < 40
                        ==> h.1 == s))
                } else {
                    hint is None
                },
                _ => hint is None,
            })
            &&& shown[1] is SubagentProgress && shown[1]->SubagentProgress_id == id
                && shown[1]->SubagentProgress_status == ToolCallStatus::Running
        }),
        child_shown(
            id,
            AgentEventView::ToolExecutionEnd {
                tool_call_id: call,
                tool_name: name,
                result,
                is_error,
            },
        ) =~= seq![
            ThreadEventView::SubagentChild {
                id,
                child: SubagentChildEventView::ToolEnd { id: call, name, is_error },
            },
        ],
        child_shown(id, AgentEventView::MessageEnd { message }).len() == 0,
{
}

/// The card of a file tool names the file, that of a search the pattern, that of the shell
/// the command, and that of a sub-agent its type; a missing or empty target leaves the bare
/// name.
pub proof fn titles_name_the_target(name: Seq<char>, args: JsonView, target: Seq<char>)
    requires
        target.len() > 0,
    ensures
        (name == "Read"@ || name == "Write"@ || name == "Ls"@ || name == "Edit"@) && args.str_at(
            "path"@,
        ) == Some(target) ==> title_of(name, args) == name + " "@ + target,
        (name == "Read"@ || name == "Write"@ || name == "Ls"@ || name == "Edit"@) && args.str_at(
            "path"@,
        ) is None ==> title_of(name, args) == name,
        args.str_at("pattern"@) == Some(target) ==> title_of("Glob"@, args) == "Glob"@ + " "@
            + target,
        args.str_at("pattern"@) == Some(target) && args.str_at("path"@) is None ==> title_of(
            "Grep"@,
            args,
        ) == "Grep"@ + " "@ + target,
        args.str_at("command"@) == Some(target) ==> title_of("Bash"@, args) == "$ "@ + target,
        args.str_at("command"@) is None ==> title_of("Bash"@, args) == "Bash"@,
        args.str_at("subagent_type"@) == Some(target) ==> title_of("Agent"@, args) == "Agent"@
            + " "@ + target,
{
    reveal_strlit("Read");
    reveal_strlit("Write");
    reveal_strlit("Ls");
    reveal_strlit("Edit");
    reveal_strlit("EditDiff");
    reveal_strlit("Grep");
    reveal_strlit("Glob");
    reveal_strlit("Bash");
    reveal_strlit("Agent");
    assert("Read"@[0] == 'R' && "Write"@[0] == 'W' && "Ls"@[0] == 'L' && "Edit"@[0] == 'E');
    assert("EditDiff"@[0] == 'E' && "Bash"@[0] == 'B' && "Agent"@[0] == 'A');
    assert("Grep"@[0] == 'G' && "Glob"@[0] == 'G' && "Grep"@[1] != "Glob"@[1]);
}

/// The card of a browser tool names the page that it opens or goes to, or the tab and the
/// element that it works on.
pub proof fn browser_titles_name_the_target(
    name: Seq<char>,
    args: JsonView,
    target: Seq<char>,
    tab: u64,
)
    requires
        target.len() > 0,
    ensures
        (name == "WebExploreOpen"@ || name == "ChromeUseOpen"@ || name == "WebExploreNavigate"@
            || name == "ChromeUseNavigate"@) && args.str_at("url"@) == Some(target) ==> title_of(
            name,
            args,
        ) == name + " "@ + target,
        (name == "WebExploreOpen"@ || name == "ChromeUseOpen"@) && args.str_at("url"@) is None
            && args.str_at("cdp_endpoint"@) == Some(target) ==> title_of(name, args) == name + " "@
            + target,
        (name == "WebExploreClick"@ || name == "ChromeUseClick"@) && args.get("tab_id"@) == Some(
            JsonView::Unsigned(tab),
        ) && args.str_at("ref"@) == Some(target) ==> title_of(name, args) == name + " tab "@ + dec(
            tab as nat,
        ) + " ["@ + target + "]"@,
        (name == "WebExploreClick"@ || name == "ChromeUseClick"@) && args.get("tab_id"@) is None
            ==> title_of(name, args) == name,
{
    reveal_strlit("Read");
    reveal_strlit("Write");
    reveal_strlit("Ls");
    reveal_strlit("Edit");
    reveal_strlit("EditDiff");
    reveal_strlit("Grep");
    reveal_strlit("Glob");
    reveal_strlit("Bash");
    reveal_strlit("Agent");
    reveal_strlit("WebExplore");
    reveal_strlit("ChromeUse");
    reveal_strlit("WebExploreOpen");
    reveal_strlit("ChromeUseOpen");
    reveal_strlit("WebExploreNavigate");
    reveal_strlit("ChromeUseNavigate");
    reveal_strlit("WebExploreClick");
    reveal_strlit("ChromeUseClick");
    assert("WebExploreOpen"@.len() == 14 && "ChromeUseOpen"@.len() == 13);
    assert("WebExploreNavigate"@.len() == 18 && "ChromeUseNavigate"@.len() == 17);
    assert("WebExploreClick"@.len() == 15 && "ChromeUseClick"@.len() == 14);
    assert("WebExploreOpen"@[0] == 'W' && "ChromeUseClick"@[0] == 'C');
    assert("Read"@.len() == 4 && "Write"@.len() == 5 && "Ls"@.len() == 2 && "Edit"@.len() == 4);
    assert("EditDiff"@.len() == 8 && "Grep"@.len() == 4 && "Glob"@.len() == 4);
    assert("Bash"@.len() == 4 && "Agent"@.len() == 5);
    assert("WebExplore"@.is_prefix_of("WebExploreClick"@));
    assert("ChromeUse"@.is_prefix_of("ChromeUseClick"@));
}

/// The card of a search names the pattern and then the place, and that of a difference
/// names its file as an edit does; an empty target leaves the bare name, and so does any
/// other tool.
pub proof fn titles_name_both_targets(
    name: Seq<char>,
    args: JsonView,
    pattern: Seq<char>,
    path: Seq<char>,
)
    requires
        pattern.len() > 0,
        path.len() > 0,
    ensures
        args.str_at("pattern"@) == Some(pattern) && args.str_at("path"@) == Some(path) ==> title_of(
            "Grep"@,
            args,
        ) == "Grep"@ + " "@ + pattern + " "@ + path,
        args.str_at("pattern"@) is None ==> title_of("Grep"@, args) == "Grep"@ && title_of(
            "Glob"@,
            args,
        ) == "Glob"@,
        args.str_at("path"@) == Some(path) ==> title_of("EditDiff"@, args) == "Edit"@ + " "@ + path,
        args.str_at("path"@) == Some(Seq::<char>::empty()) ==> title_of("Read"@, args) == "Read"@,
        args.str_at("subagent_type"@) is None ==> title_of("Agent"@, args) == "Agent"@,
        name.len() > 0 && name[0] != 'R' && name[0] != 'W' && name[0] != 'L' && name[0] != 'E'
            && name[0] != 'G' && name[0] != 'B' && name[0] != 'A' && name[0] != 'C' ==> title_of(
            name,
            args,
        ) == name,
{
    reveal_strlit("Read");
    reveal_strlit("Write");
    reveal_strlit("Ls");
    reveal_strlit("Edit");
    reveal_strlit("EditDiff");
    reveal_strlit("Grep");
    reveal_strlit("Glob");
    reveal_strlit("Bash");
    reveal_strlit("Agent");
    reveal_strlit("WebExplore");
    reveal_strlit("ChromeUse");
    reveal_strlit("WebExploreOpen");
    reveal_strlit("ChromeUseOpen");
    reveal_strlit("WebExploreNavigate");
    reveal_strlit("ChromeUseNavigate");
    assert("Read"@[0] == 'R' && "Write"@[0] == 'W' && "Ls"@[0] == 'L' && "Edit"@[0] == 'E');
    assert("EditDiff"@[0] == 'E' && "Bash"@[0] == 'B' && "Agent"@[0] == 'A');
    assert("Grep"@[0] == 'G' && "Glob"@[0] == 'G' && "Grep"@[1] != "Glob"@[1]);
    assert("EditDiff"@.len() != "Edit"@.len());
    assert("WebExploreOpen"@[0] == 'W' && "WebExploreNavigate"@[0] == 'W' && "WebExplore"@[0]
        == 'W');
    assert("ChromeUseOpen"@[0] == 'C' && "ChromeUseNavigate"@[0] == 'C' && "ChromeUse"@[0] == 'C');
    if name.len() > 0 {
        if "WebExplore"@.is_prefix_of(name) {
            assert(name[0] == "WebExplore"@[0]);
        }
        if "ChromeUse"@.is_prefix_of(name) {
            assert(name[0] == "ChromeUse"@[0]);
        }
    }
}

/// The hint of a call is its first argument, a text as it is and any other value written
/// out, and no longer than forty characters.
pub proof fn a_hint_is_the_first_argument(
    key: Seq<char>,
    text: Seq<char>,
    more: Seq<(Seq<char>, JsonView)>,
)
    ensures
        hint_of(JsonView::Object(Seq::empty())) is None,
        text.len() <= 40 ==> hint_of(
            JsonView::Object(seq![(key, JsonView::Str(text))] + more),
        ) == Some((key, text)),
        hint_of(JsonView::Object(seq![(key, JsonView::Str(text))] + more)) matches Some(h) && h.0
            == key && h.1.len() <= 40 && h.1.is_prefix_of(text),
        hint_of(JsonView::Object(seq![(key, JsonView::Bool(true))] + more)) matches Some(h)
            && h.1.is_prefix_of(json_text(JsonView::Bool(true))),
{
    let es = seq![(key, JsonView::Str(text))] + more;
    assert(es[0] == (key, JsonView::Str(text)));
    let fs = seq![(key, JsonView::Bool(true))] + more;
    assert(fs[0] == (key, JsonView::Bool(true)));
    let written = json_text(JsonView::Bool(true));
    if text.len() > 40 {
        assert(text.take(40) =~= text.subrange(0, 40));
    } else {
        assert(text =~= text.subrange(0, text.len() as int));
    }
    if written.len() <= 40 {
        assert(written =~= written.subrange(0, written.len() as int));
    } else {
        assert(written.take(40) =~= written.subrange(0, 40));
    }
}

/// A custom message that is shown has the blocks that a user's message with the same
/// content has.
pub proof fn a_custom_message_is_shown_block_by_block(content: Seq<ContentBlockView>)
    requires
        content.len() > 0,
    ensures
        message_rows(AgentMessageView::Custom { content, display: true }).len() == 1,
        message_rows(AgentMessageView::Custom { content, display: true })[0].content
            == message_rows(AgentMessageView::User { content })[0].content,
{
}

/// What a sub-agent does last is told under its call while it runs: the call that it
/// started, with its hint, and the one that it ended, marked by how it ended.
pub proof fn the_latest_activity_is_told(
    id: Seq<char>,
    arguments: JsonView,
    partial_result: JsonView,
    report: JsonView,
    topic: Seq<char>,
    name: Seq<char>,
)
    requires
        partial_result.get("subagent_event"@) == Some(report),
        report.str_at("tool"@) == Some(name),
    ensures
        ({
            let shown = shown_events(
                AgentEventView::ToolExecutionUpdate {
                    tool_call_id: id,
                    tool_name: "Agent"@,
                    arguments,
                    partial_result,
                },
                topic,
            );
            let told = |activity: Seq<char>|
                ThreadEventView::SubagentProgress {
                    id,
                    subagent_type: Seq::empty(),
                    tool_uses: 0,
                    token_usage: TokenUsage {
                        input_tokens: 0,
                        output_tokens: 0,
                        cache_creation_input_tokens: 0,
                        cache_read_input_tokens: 0,
                    },
                    latest_activity: Some(activity),
                    status: ToolCallStatus::Running,
                };
            &&& report.str_at("kind"@) == Some("tool_start"@) && report.str_at("summary_key"@)
                is Some ==> (report.str_at("summary"@) matches Some(summary) ==> shown[1] == told(
                "▸ "@ + name + " "@ + summary,
            ))
            &&& report.str_at("kind"@) == Some("tool_start"@) && report.str_at("summary"@) is None
                ==> shown[1] == told("▸ "@ + name)
            &&& report.str_at("kind"@) == Some("tool_end"@) && report.bool_at("is_error"@) == Some(
                true,
            ) ==> shown[1] == told("✗"@ + " "@ + name)
            &&& report.str_at("kind"@) == Some("tool_end"@) && report.bool_at("is_error"@) != Some(
                true,
            ) ==> shown[1] == told("✓"@ + " "@ + name)
        }),
{
    reveal_strlit("text");
    reveal_strlit("thinking");
    reveal_strlit("tool_start");
    reveal_strlit("tool_end");
    assert("text"@.len() == 4);
    assert("thinking"@.len() == 8);
    assert("tool_start"@.len() == 10);
    assert("tool_end"@.len() == 8);
    assert("thinking"@[1] != "tool_end"@[1]);
}

/// The row of a sub-agent starts and ends without a count of its own: no calls and no
/// tokens are told with it.
pub proof fn a_subagent_row_starts_from_nothing(
    id: Seq<char>,
    arguments: JsonView,
    result: Seq<ContentBlockView>,
    is_error: bool,
    topic: Seq<char>,
)
    ensures
        ({
            let started = shown_events(
                AgentEventView::ToolExecutionStart {
                    tool_call_id: id,
                    tool_name: "Agent"@,
                    arguments,
                },
                topic,
            );
            let ended = shown_events(
                AgentEventView::ToolExecutionEnd {
                    tool_call_id: id,
                    tool_name: "Agent"@,
                    result,
                    is_error,
                },
                topic,
            );
            let none = TokenUsage {
                input_tokens: 0,
                output_tokens: 0,
                cache_creation_input_tokens: 0,
                cache_read_input_tokens: 0,
            };
            &&& started[1] matches ThreadEventView::SubagentProgress { token_usage, .. }
                && token_usage == none
            &&& ended[2] matches ThreadEventView::SubagentProgress { token_usage, .. }
                && token_usage == none
        }),
{
}

} // verus!
