//! The rows of a conversation: messages and the notes between them.

use crate::json::{Json, JsonView};
use crate::message::{Message, MessageBody, MessageView};
use vstd::prelude::*;

verus! {

/// An annotation card of the host UI, kept with the session.
#[derive(Debug, PartialEq, Eq)]
pub struct UiNoteRecord {
    pub kind: String,
    pub data: Json,
}

/// The mathematical value of a [`UiNoteRecord`].
#[verifier::ext_equal]
pub struct UiNoteRecordView {
    pub kind: Seq<char>,
    pub data: JsonView,
}

impl DeepView for UiNoteRecord {
    type V = UiNoteRecordView;

    open spec fn deep_view(&self) -> UiNoteRecordView {
        UiNoteRecordView {
            kind: self.kind@,
            data: self.data.deep_view(),
        }
    }
}

impl Clone for UiNoteRecord {
    fn clone(&self) -> (r: Self)
        ensures
            r.deep_view() == self.deep_view(),
    {
        let r = UiNoteRecord {
            kind: self.kind.clone(),
            data: self.data.clone(),
        };
        r
    }
}

/// One row of a conversation.
#[derive(Debug, PartialEq, Eq)]
pub enum HistoryEntry {
    Message(Message),
    Note(UiNoteRecord),
}

/// The mathematical value of a [`HistoryEntry`].
#[verifier::ext_equal]
pub enum HistoryEntryView {
    Message(MessageView),
    Note(UiNoteRecordView),
}

impl DeepView for HistoryEntry {
    type V = HistoryEntryView;

    open spec fn deep_view(&self) -> HistoryEntryView {
        match self {
            HistoryEntry::Message(a) => HistoryEntryView::Message(a.deep_view()),
            HistoryEntry::Note(a) => HistoryEntryView::Note(a.deep_view()),
        }
    }
}

impl Clone for HistoryEntry {
    fn clone(&self) -> (r: Self)
        ensures
            r.deep_view() == self.deep_view(),
    {
        match self {
            HistoryEntry::Message(a) => HistoryEntry::Message(a.clone()),
            HistoryEntry::Note(a) => HistoryEntry::Note(a.clone()),
        }
    }
}

/// A note with the number of messages that precede it.
#[derive(Debug, PartialEq, Eq)]
pub struct PositionedNote {
    pub note: UiNoteRecord,
    pub after_message: usize,
}

/// The mathematical value of a [`PositionedNote`].
#[verifier::ext_equal]
pub struct PositionedNoteView {
    pub note: UiNoteRecordView,
    pub after_message: usize,
}

impl DeepView for PositionedNote {
    type V = PositionedNoteView;

    open spec fn deep_view(&self) -> PositionedNoteView {
        PositionedNoteView {
            note: self.note.deep_view(),
            after_message: self.after_message,
        }
    }
}

impl Clone for PositionedNote {
    fn clone(&self) -> (r: Self)
        ensures
            r.deep_view() == self.deep_view(),
    {
        let r = PositionedNote {
            note: self.note.clone(),
            after_message: self.after_message,
        };
        r
    }
}

/// What a row says, without the identity and time of its message.
#[verifier::ext_equal]
pub enum Row {
    Message(MessageBody),
    Note(UiNoteRecordView),
}

impl HistoryEntry {
    pub open spec fn row(&self) -> Row {
        match self {
            HistoryEntry::Message(m) => Row::Message(m.body()),
            HistoryEntry::Note(n) => Row::Note(n.deep_view()),
        }
    }
}

pub open spec fn rows(s: Seq<HistoryEntry>) -> Seq<Row> {
    Seq::new(s.len(), |i: int| s[i].row())
}

pub open spec fn bodies(s: Seq<Message>) -> Seq<MessageBody> {
    Seq::new(s.len(), |i: int| s[i].body())
}

/// Whether each message carries an id of the length that ids are drawn with.
pub open spec fn ids_drawn(s: Seq<Message>) -> bool {
    forall|i: int| 0 <= i < s.len() ==> (#[trigger] s[i]).id@.len() == 36
}

/// Whether each message among the rows carries an id of the length that ids are
/// drawn with.
pub open spec fn row_ids_drawn(es: Seq<HistoryEntryView>) -> bool {
    forall|i: int|
        0 <= i < es.len() ==> ((#[trigger] es[i]) matches HistoryEntryView::Message(m)
            ==> m.id.len() == 36)
}

/// The view of an [`UiNoteRecord`] is made of all its parts, each as it is.
pub proof fn ui_note_record_is_viewed_whole(x: &UiNoteRecord)
    ensures
        x.deep_view() == (UiNoteRecordView {
            kind: x.kind@,
            data: x.data.deep_view(),
        }),
{
}

/// The view of a [`HistoryEntry`] is made of all its parts, each as it is.
pub proof fn history_entry_is_viewed_whole(x: &HistoryEntry)
    ensures
        match x {
            HistoryEntry::Message(a) => x.deep_view() == (HistoryEntryView::Message(a.deep_view())),
            HistoryEntry::Note(a) => x.deep_view() == (HistoryEntryView::Note(a.deep_view())),
        },
{
}

/// The view of a [`PositionedNote`] is made of all its parts, each as it is.
pub proof fn positioned_note_is_viewed_whole(x: &PositionedNote)
    ensures
        x.deep_view() == (PositionedNoteView {
            note: x.note.deep_view(),
            after_message: x.after_message,
        }),
{
}

/// A row says what its entry holds: a message its role, where it came from, its blocks and
/// how it is shown, and a note itself. Rows come in the order of their entries.
pub proof fn a_row_says_what_its_entry_holds(s: Seq<HistoryEntry>, ms: Seq<Message>, i: int)
    ensures
        rows(s).len() == s.len(),
        0 <= i < s.len() ==> match s[i] {
            HistoryEntry::Message(m) => rows(s)[i] == Row::Message(
                MessageBody {
                    parent_id: m.deep_view().parent_id,
                    provenance: m.deep_view().provenance,
                    role: m.deep_view().role,
                    content: m.deep_view().content,
                    ui: m.deep_view().ui,
                },
            ),
            HistoryEntry::Note(n) => rows(s)[i] == Row::Note(n.deep_view()),
        },
        bodies(ms).len() == ms.len(),
        0 <= i < ms.len() ==> bodies(ms)[i] == (MessageBody {
            parent_id: ms[i].deep_view().parent_id,
            provenance: ms[i].deep_view().provenance,
            role: ms[i].deep_view().role,
            content: ms[i].deep_view().content,
            ui: ms[i].deep_view().ui,
        }),
        ids_drawn(ms) && 0 <= i < ms.len() ==> ms[i].id@.len() == 36,
{
}

} // verus!
