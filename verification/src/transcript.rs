//! The mirror of a conversation that the UI reads: what the live transcript
//! shows, where notes stand between messages, and the chrome of user turns.

use crate::adapt::{
    display_notes, display_rows, entries_to_display, harness_messages_to_messages,
    message_row_entries, message_rows_in, transcript_rows, SessionEntry,
};
use crate::harness::{AgentMessage, AgentMessageView, ContentBlock, ContentBlockView};
use crate::history::{
    bodies, ids_drawn, row_ids_drawn, rows, HistoryEntry, HistoryEntryView, PositionedNote,
    PositionedNoteView, Row, UiNoteRecord, UiNoteRecordView,
};
use crate::language_model::{MessageContent, MessageContentView, Role};
use crate::message::{
    Message, MessageAuthor, MessageAuthorView, MessageProvenance, MessageUiMetadata,
    MessageUiMetadataView, MessageView,
};
use crate::outside::json_text;
use std::collections::HashMap;
use vstd::prelude::*;
use vstd::utf8::encode_utf8;

verus! {

// ---------------------------------------------------------------------------
// Change detection
// ---------------------------------------------------------------------------

/// Number of UTF-8 bytes of a text.
pub open spec fn byte_len(s: Seq<char>) -> usize {
    encode_utf8(s).len() as usize
}

/// The sum, stopping at the largest number.
pub open spec fn capped(a: int, b: int) -> usize {
    if a + b > usize::MAX {
        usize::MAX
    } else {
        (a + b) as usize
    }
}

/// The size of a block: the bytes of what it carries.
pub open spec fn block_size(c: MessageContentView) -> usize {
    match c {
        MessageContentView::Text(t) => byte_len(t),
        MessageContentView::Thinking { text, .. } => byte_len(text),
        MessageContentView::Image { data, .. } => byte_len(data),
        MessageContentView::Compaction(t) => byte_len(t),
        MessageContentView::ToolUse(t) => capped(
            byte_len(t.name) as int,
            byte_len(json_text(t.input)) as int,
        ),
        MessageContentView::ToolResult(t) => byte_len(t.content),
    }
}

pub open spec fn content_size(blocks: Seq<MessageContentView>) -> usize
    decreases blocks.len(),
{
    if blocks.len() == 0 {
        0
    } else {
        capped(content_size(blocks.drop_last()) as int, block_size(blocks.last()) as int)
    }
}

/// The size of the last message, zero where there is none.
pub open spec fn trailing_size(rs: Seq<Row>) -> usize
    decreases rs.len(),
{
    if rs.len() == 0 {
        0
    } else {
        match rs.last() {
            Row::Message(body) => content_size(body.content),
            Row::Note(_) => trailing_size(rs.drop_last()),
        }
    }
}

fn size_of_block(c: &MessageContent) -> (r: usize)
    ensures
        r == block_size(c.deep_view()),
{
    match c {
        MessageContent::Text(t) => t.as_str().len(),
        MessageContent::Thinking { text, .. } => text.as_str().len(),
        MessageContent::Image { data, .. } => data.as_str().len(),
        MessageContent::Compaction(t) => t.as_str().len(),
        MessageContent::ToolUse(t) => {
            let input = t.input.to_text();
            t.name.as_str().len().saturating_add(input.as_str().len())
        },
        MessageContent::ToolResult(t) => t.content.as_str().len(),
    }
}

fn size_of_content(blocks: &Vec<MessageContent>) -> (r: usize)
    ensures
        r == content_size(blocks.deep_view()),
{
    let mut total: usize = 0;
    let ghost all = blocks.deep_view();
    for i in 0..blocks.len()
        invariant
            all == blocks.deep_view(),
            total == content_size(all.take(i as int)),
    {
        assert(all.take(i + 1).drop_last() =~= all.take(i as int));
        total = total.saturating_add(size_of_block(&blocks[i]));
    }
    assert(all.take(all.len() as int) =~= all);
    total
}

/// Cheap change fingerprint: the number of messages and the size of the last
/// one. Notes never contribute. Two sizes beyond the largest number count as
/// equal.
pub fn live_fingerprint(mapped: &Vec<HistoryEntry>) -> (r: (usize, usize))
    ensures
        r.0 == message_rows_in(rows(mapped@)),
        r.1 == trailing_size(rows(mapped@)),
{
    let mut count: usize = 0;
    let mut trailing: usize = 0;
    let ghost all = rows(mapped@);
    for i in 0..mapped.len()
        invariant
            all == rows(mapped@),
            count <= i,
            count == message_rows_in(all.take(i as int)),
            trailing == trailing_size(all.take(i as int)),
    {
        assert(all.take(i + 1).drop_last() =~= all.take(i as int));
        assert(all.take(i + 1).last() == mapped@[i as int].row());
        match &mapped[i] {
            HistoryEntry::Message(m) => {
                count += 1;
                trailing = size_of_content(&m.content);
            },
            HistoryEntry::Note(_) => {},
        }
    }
    assert(all.take(all.len() as int) =~= all);
    (count, trailing)
}

// ---------------------------------------------------------------------------
// Notes between messages
// ---------------------------------------------------------------------------

/// The position right behind the `target`-th message: the top for none, the end
/// where there are fewer.
pub open spec fn behind_message(rs: Seq<Row>, target: nat) -> nat
    decreases rs.len(),
{
    if target == 0 || rs.len() == 0 {
        0
    } else if rs[0] is Message {
        behind_message(rs.skip(1), (target - 1) as nat) + 1
    } else {
        behind_message(rs.skip(1), target) + 1
    }
}

/// The first position at or behind `i` that holds no note.
pub open spec fn past_notes(rs: Seq<Row>, i: nat) -> nat
    decreases rs.len() - i,
{
    if i < rs.len() && rs[i as int] is Note {
        past_notes(rs, i + 1)
    } else {
        i
    }
}

/// Where a note goes: behind its message and the notes that stand there.
pub open spec fn note_position(rs: Seq<Row>, target: nat) -> nat {
    past_notes(rs, behind_message(rs, target))
}

pub open spec fn with_note(rs: Seq<Row>, note: PositionedNoteView) -> Seq<Row> {
    rs.insert(note_position(rs, note.after_message as nat) as int, Row::Note(note.note))
}

pub open spec fn with_notes(rs: Seq<Row>, notes: Seq<PositionedNoteView>) -> Seq<Row>
    decreases notes.len(),
{
    if notes.len() == 0 {
        rs
    } else {
        with_note(with_notes(rs, notes.drop_last()), notes.last())
    }
}

proof fn lemma_behind_message(rs: Seq<Row>, target: nat)
    ensures
        behind_message(rs, target) <= rs.len(),
        message_rows_in(rs.take(behind_message(rs, target) as int)) <= target,
        behind_message(rs, target) < rs.len() ==> message_rows_in(
            rs.take(behind_message(rs, target) as int),
        ) == target,
    decreases rs.len(),
{
    let b = behind_message(rs, target);
    if target == 0 || rs.len() == 0 {
        assert(rs.take(0).len() == 0);
    } else {
        let rest = rs.skip(1);
        if rs[0] is Message {
            lemma_behind_message(rest, (target - 1) as nat);
        } else {
            lemma_behind_message(rest, target);
        }
        assert(rs.take(b as int) =~= seq![rs[0]] + rest.take(b - 1));
        lemma_count_concat(seq![rs[0]], rest.take(b - 1));
        assert(seq![rs[0]].drop_last() =~= seq![]);
        assert(message_rows_in(seq![]) == 0);
    }
}

proof fn lemma_count_concat(a: Seq<Row>, b: Seq<Row>)
    ensures
        message_rows_in(a + b) == message_rows_in(a) + message_rows_in(b),
    decreases b.len(),
{
    if b.len() == 0 {
        assert(a + b =~= a);
    } else {
        lemma_count_concat(a, b.drop_last());
        assert((a + b).drop_last() =~= a + b.drop_last());
    }
}

proof fn lemma_past_notes(rs: Seq<Row>, i: nat)
    requires
        i <= rs.len(),
    ensures
        i <= past_notes(rs, i) <= rs.len(),
        past_notes(rs, i) < rs.len() ==> !(rs[past_notes(rs, i) as int] is Note),
        message_rows_in(rs.take(past_notes(rs, i) as int)) == message_rows_in(rs.take(i as int)),
    decreases rs.len() - i,
{
    if i < rs.len() && rs[i as int] is Note {
        lemma_past_notes(rs, i + 1);
        let ii = i as int;
        assert(rs.take(ii + 1).drop_last() =~= rs.take(ii));
    }
}

fn find_note_position(display: &Vec<HistoryEntry>, target: usize) -> (r: usize)
    ensures
        r == note_position(rows(display@), target as nat),
        r <= display@.len(),
{
    let ghost rs = rows(display@);
    let mut left: usize = target;
    let mut i: usize = 0;
    assert(rs.skip(0) =~= rs);
    while i < display.len() && left > 0
        invariant
            i <= display@.len(),
            rs == rows(display@),
            behind_message(rs, target as nat) == i + behind_message(rs.skip(i as int), left as nat),
        decreases display@.len() - i,
    {
        assert(rs.skip(i as int)[0] == display@[i as int].row());
        assert(rs.skip(i as int).skip(1) =~= rs.skip(i + 1));
        match &display[i] {
            HistoryEntry::Message(_) => {
                left -= 1;
            },
            HistoryEntry::Note(_) => {},
        }
        i += 1;
    }
    assert(behind_message(rs, target as nat) == i);
    loop
        invariant
            i <= display@.len(),
            rs == rows(display@),
            note_position(rs, target as nat) == past_notes(rs, i as nat),
        decreases display@.len() - i,
    {
        if i >= display.len() {
            return i;
        }
        assert(rs[i as int] == display@[i as int].row());
        match &display[i] {
            HistoryEntry::Message(_) => {
                return i;
            },
            HistoryEntry::Note(_) => {},
        }
        i += 1;
    }
}

/// Interleave notes right behind their `after_message`-th message; a count of
/// zero lands at the top, an over-long count clamps to the tail. Notes with
/// non-decreasing positions keep their relative order.
pub fn merge_positioned_notes(display: &mut Vec<HistoryEntry>, notes: &Vec<PositionedNote>)
    ensures
        rows(final(display)@) == with_notes(rows(old(display)@), notes.deep_view()),
        final(display).deep_view().filter(is_message_entry())
            == old(display).deep_view().filter(is_message_entry()),
{
    let ghost start = rows(display@);
    let ghost messages = display.deep_view().filter(is_message_entry());
    let ghost all = notes.deep_view();
    for i in 0..notes.len()
        invariant
            all == notes.deep_view(),
            rows(display@) == with_notes(start, all.take(i as int)),
            display.deep_view().filter(is_message_entry()) == messages,
    {
        assert(all.take(i + 1).drop_last() =~= all.take(i as int));
        assert(all.take(i + 1).last() == notes@[i as int].deep_view());
        let ghost before = rows(display@);
        let ghost entries = display.deep_view();
        let at = find_note_position(display, notes[i].after_message);
        let entry = HistoryEntry::Note(notes[i].note.clone());
        display.insert(at, entry);
        assert(rows(display@) =~= before.insert(at as int, entry.row()));
        assert(display.deep_view() =~= entries.insert(at as int, entry.deep_view()));
        proof {
            lemma_insert_filtered(entries, at as int, entry.deep_view(), is_message_entry());
        }
    }
    assert(all.take(all.len() as int) =~= all);
}

pub open spec fn is_message_entry() -> spec_fn(HistoryEntryView) -> bool {
    |e: HistoryEntryView| e is Message
}

pub open spec fn is_message_row() -> spec_fn(Row) -> bool {
    |r: Row| r is Message
}

pub open spec fn is_note_row() -> spec_fn(Row) -> bool {
    |r: Row| r is Note
}

proof fn lemma_filter_concat<A>(a: Seq<A>, b: Seq<A>, p: spec_fn(A) -> bool)
    ensures
        (a + b).filter(p) == a.filter(p) + b.filter(p),
    decreases b.len(),
{
    reveal(Seq::filter);
    if b.len() == 0 {
        assert(a + b =~= a);
        assert(a.filter(p) + b.filter(p) =~= a.filter(p));
    } else {
        lemma_filter_concat(a, b.drop_last(), p);
        assert((a + b).drop_last() =~= a + b.drop_last());
        assert((a + b).filter(p) =~= a.filter(p) + b.filter(p));
    }
}

proof fn lemma_filter_one<A>(r: A, p: spec_fn(A) -> bool)
    ensures
        seq![r].filter(p) == (if p(r) {
            seq![r]
        } else {
            seq![]
        }),
{
    reveal(Seq::filter);
    assert(seq![r].drop_last() =~= seq![]);
    assert(seq![r].drop_last().filter(p) =~= seq![]);
    assert(seq![r].filter(p) =~= (if p(r) {
        seq![r]
    } else {
        seq![]
    }));
}

/// An insertion adds what it inserts, where the filter keeps it.
proof fn lemma_insert_filtered<A>(xs: Seq<A>, at: int, x: A, p: spec_fn(A) -> bool)
    requires
        0 <= at <= xs.len(),
    ensures
        xs.insert(at, x).filter(p) == xs.take(at).filter(p) + seq![x].filter(p) + xs.skip(
            at,
        ).filter(p),
        !p(x) ==> xs.insert(at, x).filter(p) == xs.filter(p),
{
    let a = xs.take(at);
    let b = xs.skip(at);
    let n = seq![x];
    assert(xs.insert(at, x) =~= a + n + b);
    assert(xs =~= a + b);
    lemma_filter_concat(a + n, b, p);
    lemma_filter_concat(a, n, p);
    lemma_filter_concat(a, b, p);
    lemma_filter_one(x, p);
    assert(!p(x) ==> a.filter(p) + n.filter(p) =~= a.filter(p));
}

proof fn lemma_insert_note(rs: Seq<Row>, at: int, note: UiNoteRecordView)
    requires
        0 <= at <= rs.len(),
    ensures
        rs.insert(at, Row::Note(note)).filter(is_message_row()) == rs.filter(is_message_row()),
        rs.insert(at, Row::Note(note)).filter(is_note_row()) == rs.take(at).filter(is_note_row())
            + seq![Row::Note(note)] + rs.skip(at).filter(is_note_row()),
{
    lemma_insert_filtered(rs, at, Row::Note(note), is_message_row());
    lemma_insert_filtered(rs, at, Row::Note(note), is_note_row());
    lemma_filter_one(Row::Note(note), is_note_row());
}

proof fn lemma_note_position_bound(rs: Seq<Row>, target: nat)
    ensures
        note_position(rs, target) <= rs.len(),
{
    lemma_behind_message(rs, target);
    lemma_past_notes(rs, behind_message(rs, target));
}

/// Merging notes keeps every message, in order.
pub proof fn merging_notes_keeps_the_messages(rs: Seq<Row>, notes: Seq<PositionedNoteView>)
    ensures
        with_notes(rs, notes).filter(is_message_row()) == rs.filter(is_message_row()),
        with_notes(rs, notes).len() == rs.len() + notes.len(),
    decreases notes.len(),
{
    if notes.len() > 0 {
        let before = with_notes(rs, notes.drop_last());
        merging_notes_keeps_the_messages(rs, notes.drop_last());
        let target = notes.last().after_message as nat;
        lemma_note_position_bound(before, target);
        lemma_insert_note(before, note_position(before, target) as int, notes.last().note);
    }
}

/// Whether each note of `rs` has at most `limit` messages before it.
spec fn notes_within(rs: Seq<Row>, limit: nat) -> bool {
    forall|k: int|
        0 <= k < rs.len() && (#[trigger] rs[k]) is Note ==> message_rows_in(rs.take(k)) <= limit
}

proof fn lemma_count_monotone(rs: Seq<Row>, i: int, j: int)
    requires
        0 <= i <= j <= rs.len(),
    ensures
        message_rows_in(rs.take(i)) <= message_rows_in(rs.take(j)),
        forall|k: int|
            i <= k < j && (#[trigger] rs[k]) is Message ==> message_rows_in(rs.take(i))
                < message_rows_in(rs.take(j)),
{
    assert(rs.take(j) =~= rs.take(i) + rs.subrange(i, j));
    lemma_count_concat(rs.take(i), rs.subrange(i, j));
    assert forall|k: int| i <= k < j && (#[trigger] rs[k]) is Message implies message_rows_in(
        rs.take(i),
    ) < message_rows_in(rs.take(j)) by {
        let mid = rs.subrange(i, j);
        assert(mid =~= mid.take(k - i) + (seq![rs[k]] + mid.skip(k - i + 1)));
        lemma_count_concat(mid.take(k - i), seq![rs[k]] + mid.skip(k - i + 1));
        lemma_count_concat(seq![rs[k]], mid.skip(k - i + 1));
        assert(seq![rs[k]].drop_last() =~= seq![]);
        assert(message_rows_in(seq![]) == 0);
        assert(message_rows_in(seq![rs[k]]) == 1);
    }
}

proof fn lemma_note_goes_behind_notes(rs: Seq<Row>, target: nat)
    requires
        notes_within(rs, target),
    ensures
        rs.skip(note_position(rs, target) as int).filter(is_note_row()).len() == 0,
{
    lemma_note_position_bound(rs, target);
    lemma_behind_message(rs, target);
    lemma_past_notes(rs, behind_message(rs, target));
    let at = note_position(rs, target) as int;
    let tail = rs.skip(at);
    assert forall|k: int| 0 <= k < tail.len() implies !is_note_row()(#[trigger] tail[k]) by {
        assert(tail[k] == rs[at + k]);
        if tail[k] is Note {
            // The row at `at` is a message, the one behind the target.
            assert(k > 0);
            assert(rs[at] is Message);
            lemma_count_monotone(rs, at, at + k);
            assert(behind_message(rs, target) < rs.len());
            assert(message_rows_in(rs.take(at)) == target);
        }
    }
    tail.lemma_all_neg_filter_empty(is_note_row());
}

proof fn lemma_insert_count(rs: Seq<Row>, at: int, note: UiNoteRecordView, k: int)
    requires
        0 <= at <= rs.len(),
        at < k <= rs.len() + 1,
    ensures
        message_rows_in(rs.insert(at, Row::Note(note)).take(k)) == message_rows_in(rs.take(k - 1)),
    decreases k,
{
    let after = rs.insert(at, Row::Note(note));
    assert(after.take(k).drop_last() =~= after.take(k - 1));
    if k == at + 1 {
        assert(after.take(k - 1) =~= rs.take(at));
    } else {
        lemma_insert_count(rs, at, note, k - 1);
        assert(rs.take(k - 1).drop_last() =~= rs.take(k - 2));
        assert(after.take(k).last() == rs.take(k - 1).last());
    }
}

proof fn lemma_with_note_within(rs: Seq<Row>, note: PositionedNoteView)
    requires
        notes_within(rs, note.after_message as nat),
    ensures
        notes_within(with_note(rs, note), note.after_message as nat),
{
    let target = note.after_message as nat;
    lemma_note_position_bound(rs, target);
    lemma_behind_message(rs, target);
    lemma_past_notes(rs, behind_message(rs, target));
    let at = note_position(rs, target) as int;
    assert(message_rows_in(rs.take(at)) <= target);
    let after = with_note(rs, note);
    assert forall|k: int| 0 <= k < after.len() && (#[trigger] after[k]) is Note implies message_rows_in(
        after.take(k),
    ) <= target by {
        if k <= at {
            assert(after.take(k) =~= rs.take(k));
            if k < at {
                assert(rs[k] == after[k]);
            }
        } else {
            assert(after[k] == rs[k - 1]);
            lemma_insert_count(rs, at, note.note, k);
        }
    }
}

/// Notes in the order of their positions.
pub open spec fn positions_in_order(notes: Seq<PositionedNoteView>) -> bool {
    forall|i: int, j: int|
        0 <= i < j < notes.len() ==> (#[trigger] notes[i]).after_message <= (
        #[trigger] notes[j]).after_message
}

pub open spec fn note_rows(notes: Seq<PositionedNoteView>) -> Seq<Row> {
    Seq::new(notes.len(), |i: int| Row::Note(notes[i].note))
}

proof fn lemma_notes_keep_order(rs: Seq<Row>, notes: Seq<PositionedNoteView>)
    requires
        positions_in_order(notes),
        forall|k: int| 0 <= k < rs.len() ==> (#[trigger] rs[k]) is Message,
    ensures
        with_notes(rs, notes).filter(is_note_row()) == note_rows(notes),
        notes.len() > 0 ==> notes_within(with_notes(rs, notes), notes.last().after_message as nat),
    decreases notes.len(),
{
    if notes.len() == 0 {
        rs.lemma_all_neg_filter_empty(is_note_row());
        assert(rs.filter(is_note_row()) =~= note_rows(notes));
    } else {
        let prior = notes.drop_last();
        let before = with_notes(rs, prior);
        let last = notes.last();
        let target = last.after_message as nat;
        assert(positions_in_order(prior)) by {
            assert forall|i: int, j: int| 0 <= i < j < prior.len() implies (
            #[trigger] prior[i]).after_message <= (#[trigger] prior[j]).after_message by {
                assert(notes[i] == prior[i] && notes[j] == prior[j]);
            }
        }
        lemma_notes_keep_order(rs, prior);
        assert(notes_within(before, target)) by {
            if prior.len() > 0 {
                let m = prior.len() - 1;
                assert(notes[m] == prior.last());
                assert(notes[notes.len() - 1] == last);
            }
        }
        lemma_with_note_within(before, last);
        lemma_note_goes_behind_notes(before, target);
        lemma_note_position_bound(before, target);
        let at = note_position(before, target) as int;
        lemma_insert_note(before, at, last.note);
        lemma_filter_concat(before.take(at), before.skip(at), is_note_row());
        assert(before =~= before.take(at) + before.skip(at));
        assert(before.skip(at).filter(is_note_row()) =~= seq![]);
        assert(before.filter(is_note_row()) =~= before.take(at).filter(is_note_row()));
        assert(with_notes(rs, notes).filter(is_note_row()) =~= note_rows(notes));
    }
}

/// Merging into rows of messages keeps the order of notes whose positions do not
/// decrease.
pub proof fn merging_notes_keeps_their_order(rs: Seq<Row>, notes: Seq<PositionedNoteView>)
    requires
        positions_in_order(notes),
        forall|k: int| 0 <= k < rs.len() ==> (#[trigger] rs[k]) is Message,
    ensures
        with_notes(rs, notes).filter(is_note_row()) == note_rows(notes),
{
    lemma_notes_keep_order(rs, notes);
}

proof fn lemma_all_messages(rs: Seq<Row>)
    requires
        forall|k: int| 0 <= k < rs.len() ==> (#[trigger] rs[k]) is Message,
    ensures
        message_rows_in(rs) == rs.len(),
    decreases rs.len(),
{
    if rs.len() > 0 {
        assert forall|k: int| 0 <= k < rs.drop_last().len() implies (
        #[trigger] rs.drop_last()[k]) is Message by {
            assert(rs[k] is Message);
        }
        lemma_all_messages(rs.drop_last());
        assert(rs[rs.len() - 1] is Message);
    }
}

proof fn lemma_no_note_left(rs: Seq<Row>)
    requires
        rs.filter(is_note_row()).len() == 0,
    ensures
        forall|k: int| 0 <= k < rs.len() ==> (#[trigger] rs[k]) is Message,
    decreases rs.len(),
{
    reveal(Seq::filter);
    if rs.len() > 0 {
        lemma_no_note_left(rs.drop_last());
        assert forall|k: int| 0 <= k < rs.len() implies (#[trigger] rs[k]) is Message by {
            if k < rs.len() - 1 {
                assert(rs.drop_last()[k] == rs[k]);
            }
        }
    }
}

pub open spec fn clamped(n: nat, limit: nat) -> nat {
    if n < limit {
        n
    } else {
        limit
    }
}

/// Whether the note at `j` is the one whose turn it is, behind as many messages as
/// its position says, or behind all `total` where there are fewer.
pub open spec fn note_in_place(
    merged: Seq<Row>,
    notes: Seq<PositionedNoteView>,
    total: nat,
    j: int,
) -> bool {
    let before = message_rows_in(merged.take(j));
    &&& 0 <= j - before < notes.len()
    &&& merged[j] == Row::Note(notes[j - before].note)
    &&& before == clamped(notes[j - before].after_message as nat, total)
}

pub open spec fn notes_in_place(
    merged: Seq<Row>,
    notes: Seq<PositionedNoteView>,
    total: nat,
) -> bool {
    forall|j: int|
        0 <= j < merged.len() && (#[trigger] merged[j]) is Note ==> note_in_place(
            merged,
            notes,
            total,
            j,
        )
}

proof fn lemma_last_note_in_place(before: Seq<Row>, notes: Seq<PositionedNoteView>, total: nat)
    requires
        notes.len() > 0,
        before.len() == total + notes.len() - 1,
        message_rows_in(before) == total,
        notes_in_place(before, notes.drop_last(), total),
        notes_within(before, notes.last().after_message as nat),
    ensures
        ({
            let after = with_note(before, notes.last());
            &&& after.len() == total + notes.len()
            &&& message_rows_in(after) == total
            &&& notes_in_place(after, notes, total)
        }),
{
    let last = notes.last();
    let target = last.after_message as nat;
    let after = with_note(before, last);
    lemma_note_goes_behind_notes(before, target);
    lemma_behind_message(before, target);
    lemma_past_notes(before, behind_message(before, target));
    let at = note_position(before, target) as int;
    let tail = before.skip(at);
    lemma_no_note_left(tail);
    lemma_all_messages(tail);
    assert(before =~= before.take(at) + tail);
    lemma_count_concat(before.take(at), tail);
    assert(before.take(before.len() as int) =~= before);
    assert(after.take(after.len() as int) =~= after);
    lemma_insert_count(before, at, last.note, after.len() as int);
    assert forall|j: int| 0 <= j < after.len() && (#[trigger] after[j]) is Note implies note_in_place(
        after,
        notes,
        total,
        j,
    ) by {
        if j < at {
            assert(after.take(j) =~= before.take(j));
            assert(before[j] == after[j]);
            assert(note_in_place(before, notes.drop_last(), total, j));
        } else if j == at {
            assert(after.take(j) =~= before.take(at));
        } else {
            assert(after[j] == before[j - 1]);
            assert(tail[j - 1 - at] is Message);
        }
    }
}

proof fn lemma_notes_in_place(rs: Seq<Row>, notes: Seq<PositionedNoteView>)
    requires
        positions_in_order(notes),
        forall|k: int| 0 <= k < rs.len() ==> (#[trigger] rs[k]) is Message,
    ensures
        with_notes(rs, notes).len() == rs.len() + notes.len(),
        message_rows_in(with_notes(rs, notes)) == rs.len(),
        notes_in_place(with_notes(rs, notes), notes, rs.len()),
    decreases notes.len(),
{
    if notes.len() == 0 {
        lemma_all_messages(rs);
    } else {
        let prior = notes.drop_last();
        assert(positions_in_order(prior)) by {
            assert forall|i: int, j: int| 0 <= i < j < prior.len() implies (
            #[trigger] prior[i]).after_message <= (#[trigger] prior[j]).after_message by {
                assert(notes[i] == prior[i] && notes[j] == prior[j]);
            }
        }
        lemma_notes_in_place(rs, prior);
        lemma_notes_keep_order(rs, prior);
        if prior.len() > 0 {
            let m = prior.len() - 1;
            assert(notes[m] == prior.last());
            assert(notes[notes.len() - 1] == notes.last());
        }
        lemma_last_note_in_place(with_notes(rs, prior), notes, rs.len());
    }
}

/// Merging into rows of messages puts each note behind the messages it came after,
/// the notes in their order.
pub proof fn merging_notes_puts_them_in_place(rs: Seq<Row>, notes: Seq<PositionedNoteView>)
    requires
        positions_in_order(notes),
        forall|k: int| 0 <= k < rs.len() ==> (#[trigger] rs[k]) is Message,
    ensures
        notes_in_place(with_notes(rs, notes), notes, rs.len()),
{
    lemma_notes_in_place(rs, notes);
}

// ---------------------------------------------------------------------------
// The mirror
// ---------------------------------------------------------------------------

/// Live transcript snapshot: completed messages, and the partial assistant
/// message that is being generated.
#[derive(Debug, PartialEq, Eq)]
pub struct LiveTranscript {
    pub messages: Vec<AgentMessage>,
    pub streaming: Option<AgentMessage>,
}

impl LiveTranscript {
    pub fn new() -> (r: Self)
        ensures
            r.messages@ == Seq::<AgentMessage>::empty(),
            r.streaming is None,
    {
        LiveTranscript { messages: Vec::new(), streaming: None }
    }

    /// All messages, the partial one last.
    pub open spec fn all(&self) -> Seq<AgentMessageView> {
        match self.streaming {
            Some(m) => self.messages.deep_view().push(m.deep_view()),
            None => self.messages.deep_view(),
        }
    }

    /// A message started or grew: it takes the streaming slot.
    pub fn stream(&mut self, message: AgentMessage)
        ensures
            final(self).streaming == Some(message),
            final(self).messages == old(self).messages,
    {
        self.streaming = Some(message);
    }

    /// A message ended: it joins the completed ones and the slot is empty.
    pub fn seal(&mut self, message: AgentMessage)
        ensures
            final(self).streaming is None,
            final(self).messages@ == old(self).messages@.push(message),
    {
        self.streaming = None;
        self.messages.push(message);
    }
}

/// What the UI reads while the session is busy.
#[derive(Debug, PartialEq, Eq)]
pub struct HistoryMirror {
    pub history: Vec<HistoryEntry>,
    pub notes: Vec<PositionedNote>,
    /// Bumped whenever a note is appended or the mirror is rebuilt.
    pub notes_gen: u64,
}

/// Whether `after` is `before` with a note at its tail.
pub open spec fn shows_note(
    before: HistoryMirror,
    after: HistoryMirror,
    record: UiNoteRecordView,
) -> bool {
    &&& after.history.deep_view() == before.history.deep_view().push(
        HistoryEntryView::Note(record),
    )
    &&& after.notes.deep_view() == before.notes.deep_view().push(
        PositionedNoteView {
            note: record,
            after_message: message_rows_in(rows(before.history@)) as usize,
        },
    )
    &&& after.notes_gen == before.notes_gen.wrapping_add(1)
}

impl HistoryMirror {
    pub fn new() -> (r: Self)
        ensures
            r.history@ == Seq::<HistoryEntry>::empty(),
            r.notes@ == Seq::<PositionedNote>::empty(),
            r.notes_gen == 0,
    {
        HistoryMirror { history: Vec::new(), notes: Vec::new(), notes_gen: 0 }
    }

    /// Append a note at the tail and record its position over the messages that
    /// are shown.
    pub fn mirror_ui_note(&mut self, record: UiNoteRecord)
        ensures
            shows_note(*old(self), *final(self), record.deep_view()),
    {
        let (after_message, _) = live_fingerprint(&self.history);
        let ghost shown = self.history.deep_view();
        let ghost noted = self.notes.deep_view();
        let entry = HistoryEntry::Note(record.clone());
        self.history.push(entry);
        assert(self.history.deep_view() =~= shown.push(entry.deep_view()));
        let positioned = PositionedNote { note: record, after_message };
        self.notes.push(positioned);
        assert(self.notes.deep_view() =~= noted.push(positioned.deep_view()));
        self.notes_gen = self.notes_gen.wrapping_add(1);
    }

    /// Replace the mirror by the authoritative rows and notes.
    pub fn rebuild(&mut self, history: Vec<HistoryEntry>, notes: Vec<PositionedNote>)
        ensures
            final(self).history == history,
            final(self).notes == notes,
            final(self).notes_gen == old(self).notes_gen.wrapping_add(1),
    {
        self.history = history;
        self.notes = notes;
        self.notes_gen = self.notes_gen.wrapping_add(1);
    }
}

/// Notes have no ids, so that the rows have theirs where the messages do.
proof fn lemma_ids_of_messages(es: Seq<HistoryEntryView>)
    ensures
        row_ids_drawn(es.filter(is_message_entry())) == row_ids_drawn(es),
    decreases es.len(),
{
    reveal(Seq::filter);
    let p = is_message_entry();
    if es.len() > 0 {
        let front = es.drop_last();
        let kept = front.filter(p);
        lemma_ids_of_messages(front);
        assert(es =~= front.push(es.last()));
        if p(es.last()) {
            assert(es.filter(p) == kept.push(es.last()));
            lemma_ids_of_pushed(kept, es.last());
        }
        lemma_ids_of_pushed(front, es.last());
    }
}

proof fn lemma_ids_of_pushed(es: Seq<HistoryEntryView>, e: HistoryEntryView)
    ensures
        row_ids_drawn(es.push(e)) == (row_ids_drawn(es) && (e matches HistoryEntryView::Message(m)
            ==> m.id.len() == 36)),
{
    let all = es.push(e);
    assert(all[es.len() as int] == e);
    if row_ids_drawn(all) {
        assert forall|i: int| 0 <= i < es.len() implies ((
        #[trigger] es[i]) matches HistoryEntryView::Message(m) ==> m.id.len() == 36) by {
            assert(all[i] == es[i]);
        }
    }
}

/// The rows of a live transcript.
pub open spec fn live_rows(live: LiveTranscript) -> Seq<Row> {
    message_row_entries(transcript_rows(live.all()))
}

/// Refresh the mirror from the live transcript. Returns whether the mirror
/// changed, so that the caller can stay silent on idle ticks; the notes keep
/// their positions.
pub fn sync_live_history(live: &LiveTranscript, mirror: &mut HistoryMirror) -> (changed: bool)
    ensures
        changed == !(message_rows_in(rows(old(mirror).history@)) == message_rows_in(
            live_rows(*live),
        ) && trailing_size(rows(old(mirror).history@)) == trailing_size(live_rows(*live))),
        !changed ==> *final(mirror) == *old(mirror),
        changed ==> rows(final(mirror).history@) == with_notes(
            live_rows(*live),
            old(mirror).notes.deep_view(),
        ),
        changed ==> row_ids_drawn(final(mirror).history.deep_view()),
        final(mirror).notes == old(mirror).notes,
        final(mirror).notes_gen == old(mirror).notes_gen,
{
    let mut msgs: Vec<AgentMessage> = live.messages.clone();
    assert(msgs.deep_view() =~= live.messages.deep_view());
    match &live.streaming {
        Some(m) => {
            let ghost before = msgs.deep_view();
            let m = m.clone();
            msgs.push(m);
            assert(msgs.deep_view() =~= before.push(m.deep_view()));
        },
        None => {},
    }
    let mapped = harness_messages_to_messages(&msgs);
    let ghost shown = transcript_rows(live.all());
    let mut display: Vec<HistoryEntry> = Vec::new();
    for i in 0..mapped.len()
        invariant
            bodies(mapped@) == shown,
            ids_drawn(mapped@),
            row_ids_drawn(display.deep_view()),
            rows(display@) == message_row_entries(shown).take(i as int),
    {
        let ghost before = rows(display@);
        let ghost entries = display.deep_view();
        let entry = HistoryEntry::Message(mapped[i].clone());
        display.push(entry);
        assert(display.deep_view() =~= entries.push(entry.deep_view()));
        assert(mapped@[i as int].body() == shown[i as int]);
        assert(entry.row() == Row::Message(shown[i as int]));
        assert(rows(display@) =~= before.push(entry.row()));
        assert(rows(display@) =~= message_row_entries(shown).take(i + 1));
    }
    assert(rows(display@) =~= live_rows(*live));
    let now = live_fingerprint(&display);
    let then = live_fingerprint(&mirror.history);
    if now.0 == then.0 && now.1 == then.1 {
        return false;
    }
    let ghost shown = display.deep_view();
    merge_positioned_notes(&mut display, &mirror.notes);
    proof {
        lemma_ids_of_messages(shown);
        lemma_ids_of_messages(display.deep_view());
    }
    mirror.history = display;
    true
}

// ---------------------------------------------------------------------------
// Chrome of user turns
// ---------------------------------------------------------------------------

/// Whether a row is a prompt: tool results and assistant turns are none.
pub open spec fn is_prompt(e: HistoryEntryView) -> bool {
    e matches HistoryEntryView::Message(m) && m.role == Role::User && m.provenance
        == MessageProvenance::User
}

/// Number of prompts.
pub open spec fn prompts(es: Seq<HistoryEntryView>) -> nat
    decreases es.len(),
{
    if es.len() == 0 {
        0
    } else {
        prompts(es.drop_last()) + (if is_prompt(es.last()) {
            1nat
        } else {
            0nat
        })
    }
}

pub open spec fn no_ui() -> MessageUiMetadataView {
    MessageUiMetadataView {
        model_id: None,
        approval_mode: None,
        steered: None,
        external_event: None,
        author: None,
        peer: false,
        display_text: None,
    }
}

pub open spec fn ui_of(m: MessageView) -> MessageUiMetadataView {
    match m.ui {
        Some(ui) => ui,
        None => no_ui(),
    }
}

/// The row with `display_text` set.
pub open spec fn with_display(e: HistoryEntryView, text: Seq<char>) -> HistoryEntryView {
    match e {
        HistoryEntryView::Message(m) => HistoryEntryView::Message(
            MessageView {
                ui: Some(MessageUiMetadataView { display_text: Some(text), ..ui_of(m) }),
                ..m
            },
        ),
        note => note,
    }
}

/// The `i`-th row after the compact forms are attached by prompt ordinal.
pub open spec fn displayed(
    es: Seq<HistoryEntryView>,
    displays: Map<usize, String>,
    i: int,
) -> HistoryEntryView {
    let ordinal = prompts(es.take(i)) as usize;
    if is_prompt(es[i]) && displays.contains_key(ordinal) {
        with_display(es[i], displays[ordinal]@)
    } else {
        es[i]
    }
}

/// The attribution that the session sidecar keeps for a prompt.
#[derive(Debug, PartialEq, Eq)]
pub struct UserAttributionMeta {
    pub author: String,
    pub peer: bool,
    pub display_text: Option<String>,
}

pub open spec fn with_attribution(e: HistoryEntryView, a: UserAttributionMeta) -> HistoryEntryView {
    match e {
        HistoryEntryView::Message(m) => HistoryEntryView::Message(
            MessageView {
                ui: Some(
                    MessageUiMetadataView {
                        author: Some(MessageAuthorView::from_routing(a.author@)),
                        peer: a.peer,
                        display_text: a.display_text.deep_view(),
                        ..ui_of(m)
                    },
                ),
                ..m
            },
        ),
        note => note,
    }
}

/// The `i`-th row after the attributions are attached by prompt ordinal.
pub open spec fn attributed(
    es: Seq<HistoryEntryView>,
    attributions: Map<usize, UserAttributionMeta>,
    i: int,
) -> HistoryEntryView {
    let ordinal = prompts(es.take(i)) as usize;
    if is_prompt(es[i]) && attributions.contains_key(ordinal) {
        with_attribution(es[i], attributions[ordinal])
    } else {
        es[i]
    }
}

fn is_prompt_entry(e: &HistoryEntry) -> (r: bool)
    ensures
        r == is_prompt(e.deep_view()),
{
    match e {
        HistoryEntry::Message(m) => m.role == Role::User && m.provenance == MessageProvenance::User,
        HistoryEntry::Note(_) => false,
    }
}

fn ui_metadata(m: &Message) -> (r: MessageUiMetadata)
    ensures
        r.deep_view() == ui_of(m.deep_view()),
{
    match &m.ui {
        Some(ui) => ui.clone(),
        None => MessageUiMetadata::default(),
    }
}

/// Re-attach `display_text` to the prompt at each persisted ordinal. The ordinal
/// counts prompts only, so that tool results never consume one.
pub fn attach_registry_displays(
    history: &mut Vec<HistoryEntry>,
    displays: &HashMap<usize, String>,
)
    ensures
        final(history)@.len() == old(history)@.len(),
        forall|i: int|
            0 <= i < old(history)@.len() ==> (#[trigger] final(history)@[i]).deep_view()
                == displayed(old(history).deep_view(), displays@, i),
{
    broadcast use vstd::std_specs::hash::group_hash_axioms;

    let ghost es = history.deep_view();
    let n: usize = history.len();
    let mut ordinal: usize = 0;
    let mut i: usize = 0;
    while i < n
        invariant
            i <= n,
            n == history@.len(),
            n == es.len(),
            ordinal <= i,
            ordinal == prompts(es.take(i as int)),
            forall|k: int|
                0 <= k < i ==> (#[trigger] history@[k]).deep_view() == displayed(es, displays@, k),
            forall|k: int| i <= k < n ==> (#[trigger] history@[k]).deep_view() == es[k],
        decreases n - i,
    {
        broadcast use vstd::std_specs::hash::group_hash_axioms;

        assert(es.take(i + 1).drop_last() =~= es.take(i as int));
        if is_prompt_entry(&history[i]) {
            match displays.get(&ordinal) {
                Some(text) => {
                    let fresh = match &history[i] {
                        HistoryEntry::Message(m) => {
                            let mut ui = ui_metadata(m);
                            ui.display_text = Some(text.clone());
                            let mut message = m.clone();
                            message.ui = Some(ui);
                            HistoryEntry::Message(message)
                        },
                        HistoryEntry::Note(note) => HistoryEntry::Note(note.clone()),
                    };
                    assert(fresh.deep_view() == with_display(es[i as int], text@));
                    history.set(i, fresh);
                },
                None => {},
            }
            ordinal += 1;
        }
        i += 1;
    }
}

/// Re-attach the author of the prompt at each persisted ordinal.
pub fn attach_user_attributions(
    history: &mut Vec<HistoryEntry>,
    attributions: &HashMap<usize, UserAttributionMeta>,
)
    ensures
        final(history)@.len() == old(history)@.len(),
        forall|i: int|
            0 <= i < old(history)@.len() ==> (#[trigger] final(history)@[i]).deep_view()
                == attributed(old(history).deep_view(), attributions@, i),
{
    broadcast use vstd::std_specs::hash::group_hash_axioms;

    let ghost es = history.deep_view();
    let n: usize = history.len();
    let mut ordinal: usize = 0;
    let mut i: usize = 0;
    while i < n
        invariant
            i <= n,
            n == history@.len(),
            n == es.len(),
            ordinal <= i,
            ordinal == prompts(es.take(i as int)),
            forall|k: int|
                0 <= k < i ==> (#[trigger] history@[k]).deep_view() == attributed(
                    es,
                    attributions@,
                    k,
                ),
            forall|k: int| i <= k < n ==> (#[trigger] history@[k]).deep_view() == es[k],
        decreases n - i,
    {
        broadcast use vstd::std_specs::hash::group_hash_axioms;

        assert(es.take(i + 1).drop_last() =~= es.take(i as int));
        if is_prompt_entry(&history[i]) {
            match attributions.get(&ordinal) {
                Some(record) => {
                    let fresh = match &history[i] {
                        HistoryEntry::Message(m) => {
                            let mut ui = ui_metadata(m);
                            ui.author = Some(MessageAuthor::from_routing(record.author.as_str()));
                            ui.peer = record.peer;
                            ui.display_text = record.display_text.clone();
                            let mut message = m.clone();
                            message.ui = Some(ui);
                            HistoryEntry::Message(message)
                        },
                        HistoryEntry::Note(note) => HistoryEntry::Note(note.clone()),
                    };
                    assert(fresh.deep_view() == with_attribution(es[i as int], *record));
                    history.set(i, fresh);
                },
                None => {},
            }
            ordinal += 1;
        }
        i += 1;
    }
}

/// The rows with the chrome of user turns attached: compact forms first, then
/// senders.
pub open spec fn with_chrome(
    es: Seq<HistoryEntryView>,
    displays: Map<usize, String>,
    attributions: Map<usize, UserAttributionMeta>,
) -> Seq<HistoryEntryView> {
    let shown = Seq::new(es.len(), |i: int| displayed(es, displays, i));
    Seq::new(es.len(), |i: int| attributed(shown, attributions, i))
}

impl HistoryMirror {
    /// Rebuild the mirror from the entries of the session; where they cannot be
    /// had, `None`, it stays as it is. Message ids are drawn afresh, so that the
    /// rows are those of the entries up to their ids.
    pub fn sync_history(
        &mut self,
        entries: Option<&Vec<SessionEntry>>,
        displays: &HashMap<usize, String>,
        attributions: &HashMap<usize, UserAttributionMeta>,
    )
        ensures
            match entries {
                None => *final(self) == *old(self),
                Some(entries) => {
                    &&& exists|drawn: Vec<HistoryEntry>| #[trigger]
                        rows(drawn@) == display_rows(entries@) && final(self).history.deep_view()
                            == with_chrome(drawn.deep_view(), displays@, attributions@)
                    &&& row_ids_drawn(final(self).history.deep_view())
                    &&& final(self).notes.deep_view() == display_notes(entries@)
                    &&& final(self).notes_gen == old(self).notes_gen.wrapping_add(1)
                },
            },
    {
        let entries = match entries {
            Some(es) => es,
            None => {
                return;
            },
        };
        let (display, notes) = entries_to_display(entries);
        let ghost drawn = display;
        let mut display = display;
        attach_registry_displays(&mut display, displays);
        let ghost shown = Seq::new(
            drawn.deep_view().len(),
            |i: int| displayed(drawn.deep_view(), displays@, i),
        );
        assert(display.deep_view() =~= shown);
        attach_user_attributions(&mut display, attributions);
        assert(display.deep_view() =~= with_chrome(drawn.deep_view(), displays@, attributions@));
        self.rebuild(display, notes);
        assert(rows(drawn@) == display_rows(entries@));
    }
}

/// A user message that steers a running turn: the text, then the images.
pub fn steer_message(text: String, images: Vec<ContentBlock>) -> (r: AgentMessage)
    ensures
        r matches AgentMessage::User { content } && content.deep_view() == seq![
            ContentBlockView::Text { text: text@, signature: None },
        ] + images.deep_view(),
{
    let mut content: Vec<ContentBlock> = Vec::new();
    content.push(ContentBlock::Text { text, signature: None });
    let mut images = images;
    let ghost given = images.deep_view();
    content.append(&mut images);
    assert(content.deep_view() =~= seq![
        ContentBlockView::Text { text: text@, signature: None },
    ] + given);
    AgentMessage::User { content }
}

// ---------------------------------------------------------------------------
// What the mirror shows
// ---------------------------------------------------------------------------

/// A note among messages stands right behind as many of them as its position says, at
/// the top for none and at the end where there are fewer. The messages stay around it.
pub proof fn a_note_stands_behind_its_messages(
    rs: Seq<Row>,
    note: UiNoteRecordView,
    after_message: usize,
)
    requires
        forall|k: int| 0 <= k < rs.len() ==> (#[trigger] rs[k]) is Message,
    ensures
        after_message <= rs.len() ==> with_notes(rs, seq![PositionedNoteView { note, after_message }])
            == rs.take(after_message as int).push(Row::Note(note)) + rs.skip(after_message as int),
        after_message > rs.len() ==> with_notes(rs, seq![PositionedNoteView { note, after_message }])
            == rs.push(Row::Note(note)),
        with_notes(rs, Seq::<PositionedNoteView>::empty()) == rs,
{
    let p = PositionedNoteView { note, after_message };
    let at = note_position(rs, after_message as nat) as int;
    assert(seq![p].drop_last() =~= seq![]);
    assert(with_notes(rs, seq![p]) == with_note(rs, p)) by {
        assert(with_notes(rs, seq![p].drop_last()) == rs);
    }
    lemma_behind_messages_only(rs, after_message as nat);
    let b = behind_message(rs, after_message as nat);
    assert(past_notes(rs, b) == b);
    if after_message <= rs.len() {
        assert(rs.insert(at, Row::Note(note)) =~= rs.take(after_message as int).push(
            Row::Note(note),
        ) + rs.skip(after_message as int));
    } else {
        assert(rs.insert(at, Row::Note(note)) =~= rs.push(Row::Note(note)));
    }
}

proof fn lemma_behind_messages_only(rs: Seq<Row>, target: nat)
    requires
        forall|k: int| 0 <= k < rs.len() ==> (#[trigger] rs[k]) is Message,
    ensures
        behind_message(rs, target) == (if target <= rs.len() {
            target
        } else {
            rs.len()
        }),
    decreases rs.len(),
{
    if target > 0 && rs.len() > 0 {
        let rest = rs.skip(1);
        assert forall|k: int| 0 <= k < rest.len() implies (#[trigger] rest[k]) is Message by {
            assert(rest[k] == rs[k + 1]);
        }
        assert(rs[0] is Message);
        lemma_behind_messages_only(rest, (target - 1) as nat);
    }
}

/// The size that tells a change is that of the last message, in bytes of what its
/// blocks carry; notes behind it do not count.
pub proof fn the_last_message_tells_a_change(
    rs: Seq<Row>,
    note: UiNoteRecordView,
    last: crate::message::MessageBody,
)
    ensures
        trailing_size(Seq::<Row>::empty()) == 0,
        trailing_size(rs.push(Row::Note(note))) == trailing_size(rs),
        trailing_size(rs.push(Row::Message(last))) == content_size(last.content),
{
    assert(rs.push(Row::Note(note)).drop_last() =~= rs);
    assert(rs.push(Row::Message(last)).drop_last() =~= rs);
}

/// The size of a message is the sum of the bytes of its blocks, as long as it can be
/// counted: the text of a text, a thought, a summary or a result, the data of an image,
/// and of a call its name and its arguments.
pub proof fn sizes_are_summed(blocks: Seq<MessageContentView>, next: MessageContentView)
    requires
        content_size(blocks) + block_size(next) <= usize::MAX,
    ensures
        content_size(Seq::<MessageContentView>::empty()) == 0,
        content_size(blocks.push(next)) == content_size(blocks) + block_size(next),
        match next {
            MessageContentView::Text(t) => block_size(next) == encode_utf8(t).len() as usize,
            MessageContentView::Thinking { text, .. } => block_size(next) == encode_utf8(
                text,
            ).len() as usize,
            MessageContentView::Image { data, .. } => block_size(next) == encode_utf8(
                data,
            ).len() as usize,
            MessageContentView::Compaction(t) => block_size(next) == encode_utf8(t).len() as usize,
            MessageContentView::ToolResult(r) => block_size(next) == encode_utf8(
                r.content,
            ).len() as usize,
            MessageContentView::ToolUse(u) => encode_utf8(u.name).len() + encode_utf8(
                json_text(u.input),
            ).len() <= usize::MAX ==> block_size(next) == encode_utf8(u.name).len()
                + encode_utf8(json_text(u.input)).len(),
        },
{
    assert(blocks.push(next).drop_last() =~= blocks);
}

/// The live transcript shows its messages and, behind them, the one that is being
/// written.
pub proof fn the_partial_message_is_shown_last(live: LiveTranscript)
    ensures
        live.streaming is None ==> live_rows(live) == message_row_entries(
            transcript_rows(live.messages.deep_view()),
        ),
        live.streaming matches Some(m) ==> live_rows(live) == message_row_entries(
            transcript_rows(live.messages.deep_view().push(m.deep_view())),
        ),
{
}

/// A note that is shown stands at the end, is remembered with the number of messages
/// before it, and counts as a change.
pub proof fn a_shown_note_is_remembered(
    before: HistoryMirror,
    after: HistoryMirror,
    record: UiNoteRecordView,
)
    requires
        shows_note(before, after, record),
    ensures
        after.history.deep_view().len() == before.history.deep_view().len() + 1,
        after.history.deep_view().last() == HistoryEntryView::Note(record),
        after.history.deep_view().drop_last() == before.history.deep_view(),
        after.notes.deep_view().last().note == record,
        after.notes.deep_view().last().after_message == message_rows_in(
            rows(before.history@),
        ) as usize,
        after.notes.deep_view().drop_last() == before.notes.deep_view(),
        after.notes_gen != before.notes_gen,
{
    assert(after.history.deep_view().drop_last() =~= before.history.deep_view());
    assert(after.notes.deep_view().drop_last() =~= before.notes.deep_view());
}

/// A row is a prompt where the user wrote it: a message of the user role that no tool
/// gave. Prompts are counted in order.
pub proof fn prompts_are_counted(es: Seq<HistoryEntryView>, e: HistoryEntryView)
    ensures
        prompts(Seq::<HistoryEntryView>::empty()) == 0,
        (e matches HistoryEntryView::Message(m) && m.role == Role::User && m.provenance
            == MessageProvenance::User) ==> prompts(es.push(e)) == prompts(es) + 1,
        !(e matches HistoryEntryView::Message(m) && m.role == Role::User && m.provenance
            == MessageProvenance::User) ==> prompts(es.push(e)) == prompts(es),
{
    assert(es.push(e).drop_last() =~= es);
}

proof fn lemma_displayed_prompts(
    es: Seq<HistoryEntryView>,
    displays: Map<usize, String>,
    n: int,
)
    requires
        0 <= n <= es.len(),
    ensures
        prompts(Seq::new(es.len(), |i: int| displayed(es, displays, i)).take(n)) == prompts(
            es.take(n),
        ),
    decreases n,
{
    let shown = Seq::new(es.len(), |i: int| displayed(es, displays, i));
    if n > 0 {
        lemma_displayed_prompts(es, displays, n - 1);
        assert(shown.take(n).drop_last() =~= shown.take(n - 1));
        assert(es.take(n).drop_last() =~= es.take(n - 1));
        assert(is_prompt(shown[n - 1]) == is_prompt(es[n - 1]));
    } else {
        assert(shown.take(0) =~= es.take(0)) by {
            assert(shown.take(0).len() == 0);
        }
    }
}

/// Chrome is attached to the prompts alone, each by its place among them, and touches
/// nothing but how the row is shown: the text and identity of every row stay, and every
/// other row stays whole.
pub proof fn chrome_goes_to_its_prompt(
    es: Seq<HistoryEntryView>,
    displays: Map<usize, String>,
    attributions: Map<usize, UserAttributionMeta>,
    i: int,
)
    requires
        0 <= i < es.len(),
    ensures
        with_chrome(es, displays, attributions).len() == es.len(),
        ({
            let place = prompts(es.take(i)) as usize;
            let after = with_chrome(es, displays, attributions)[i];
            match es[i] {
                HistoryEntryView::Note(_) => after == es[i],
                HistoryEntryView::Message(m) => {
                    &&& after matches HistoryEntryView::Message(n)
                    &&& n.id == m.id && n.content == m.content && n.role == m.role
                    &&& n.provenance == m.provenance && n.timestamp == m.timestamp && n.parent_id
                        == m.parent_id
                    &&& !(m.role == Role::User && m.provenance == MessageProvenance::User)
                        ==> n.ui == m.ui
                    &&& !displays.contains_key(place) && !attributions.contains_key(place) ==> n.ui
                        == m.ui
                    &&& m.role == Role::User && m.provenance == MessageProvenance::User ==> {
                        &&& displays.contains_key(place) && !attributions.contains_key(place) ==> (
                        n.ui matches Some(ui) && ui.display_text == Some(displays[place]@) && (
                        m.ui matches Some(given) ==> ui.author == given.author && ui.peer
                            == given.peer && ui.model_id == given.model_id && ui.steered
                            == given.steered && ui.approval_mode == given.approval_mode
                            && ui.external_event == given.external_event))
                        &&& attributions.contains_key(place) ==> (n.ui matches Some(ui) && ui.author
                            == Some(MessageAuthorView::from_routing(attributions[place].author@))
                            && ui.peer == attributions[place].peer && ui.display_text
                            == attributions[place].display_text.deep_view() && (
                        m.ui matches Some(given) ==> ui.model_id == given.model_id && ui.steered
                            == given.steered && ui.approval_mode == given.approval_mode
                            && ui.external_event == given.external_event))
                    }
                },
            }
        }),
{
    lemma_displayed_prompts(es, displays, i);
    let shown = Seq::new(es.len(), |k: int| displayed(es, displays, k));
    assert(shown[i] == displayed(es, displays, i));
    assert(is_prompt(shown[i]) == is_prompt(es[i]));
}

} // verus!
