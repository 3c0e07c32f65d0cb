//! What the events of a session mean for the thread.

use crate::actor::{event, sidecar};
use crate::adapt::{agent_event_to_thread_events, shown_events};
use crate::engine::{Action, ActionView, BackendNotice, BackendNoticeView};
use crate::harness::{AgentEvent, AgentEventView, AgentMessage, AgentMessageView};
use crate::sidecar::{SidecarUpdate, SidecarUpdateView};
use crate::thread::{ThreadEvent, ThreadEventView};
use crate::transcript::LiveTranscript;
use vstd::prelude::*;

verus! {

/// The live transcript after an event: a message that streams takes the slot, one
/// that ended joins the completed ones.
pub open spec fn live_after(
    messages: Seq<AgentMessageView>,
    streaming: Option<AgentMessageView>,
    event: AgentEventView,
) -> (Seq<AgentMessageView>, Option<AgentMessageView>) {
    match event {
        AgentEventView::MessageStart { message } => (messages, Some(message)),
        AgentEventView::MessageUpdate { message, .. } => (messages, Some(message)),
        AgentEventView::MessageEnd { message } => (messages.push(message), None),
        _ => (messages, streaming),
    }
}

/// Whether the list of sessions changed: with every prompt, and with the first
/// answer, which creates the session file.
pub open spec fn list_changed(event: AgentEventView, answered: bool) -> bool {
    match event {
        AgentEventView::MessageEnd { message } => message is User || (message is Assistant
            && !answered),
        _ => false,
    }
}

pub open spec fn is_answer(event: AgentEventView) -> bool {
    event matches AgentEventView::MessageEnd { message } && message is Assistant
}

/// The notices that an event gives.
pub open spec fn notices_of(event: AgentEventView, answered: bool, topic: Seq<char>) -> Seq<
    BackendNoticeView,
> {
    let shown = shown_events(event, topic);
    let events = Seq::new(shown.len(), |i: int| BackendNoticeView::Event(shown[i]));
    if list_changed(event, answered) {
        seq![BackendNoticeView::SessionListDirty] + events
    } else {
        events
    }
}

fn wrap_events(events: Vec<ThreadEvent>, dirty: bool) -> (r: Vec<BackendNotice>)
    ensures
        r.deep_view() == (if dirty {
            seq![BackendNoticeView::SessionListDirty]
        } else {
            seq![]
        }) + Seq::new(
            events@.len(),
            |i: int| BackendNoticeView::Event(events.deep_view()[i]),
        ),
{
    let ghost all = events.deep_view();
    let ghost wanted = Seq::new(all.len(), |i: int| BackendNoticeView::Event(all[i]));
    let n: usize = events.len();
    let mut rest = events;
    let mut back: Vec<BackendNotice> = Vec::new();
    assert(all.take(n as int) =~= all);
    while rest.len() > 0
        invariant
            all.len() == n,
            rest@.len() + back@.len() == n,
            rest.deep_view() == all.take(rest@.len() as int),
            forall|k: int|
                0 <= k < back@.len() ==> (#[trigger] back@[k]).deep_view()
                    == BackendNoticeView::Event(all[n - 1 - k]),
        decreases rest@.len(),
    {
        let ghost len = rest@.len();
        let ghost before = rest.deep_view();
        match rest.pop() {
            Some(e) => {
                assert(e.deep_view() == before[len - 1]);
                back.push(BackendNotice::Event(e));
                assert(rest.deep_view() =~= all.take(len - 1));
            },
            None => {},
        }
    }
    let mut out: Vec<BackendNotice> = Vec::new();
    if dirty {
        out.push(BackendNotice::SessionListDirty);
    }
    let ghost head = out.deep_view();
    let ghost h = head.len();
    while back.len() > 0
        invariant
            all.len() == n,
            h <= 1,
            head.len() == h,
            h <= out@.len(),
            back@.len() + out@.len() == n + h,
            wanted == Seq::new(all.len(), |i: int| BackendNoticeView::Event(all[i])),
            out.deep_view() == head + wanted.take(out@.len() - h),
            forall|k: int|
                0 <= k < back@.len() ==> (#[trigger] back@[k]).deep_view()
                    == BackendNoticeView::Event(all[n - 1 - k]),
        decreases back@.len(),
    {
        let ghost len = back@.len();
        let ghost before = out.deep_view();
        let ghost done = out@.len() - h;
        let ghost old_back = back@;
        match back.pop() {
            Some(a) => {
                assert(a == old_back[len - 1]);
                assert(a.deep_view() == wanted[done]);
                out.push(a);
                assert(out.deep_view() =~= before.push(wanted[done]));
                assert(out.deep_view() =~= head + wanted.take(done + 1));
                assert forall|k: int| 0 <= k < back@.len() implies (
                #[trigger] back@[k]).deep_view() == BackendNoticeView::Event(all[n - 1 - k]) by {
                    assert(back@[k] == old_back[k]);
                }
            },
            None => {},
        }
    }
    assert(wanted.take(n as int) =~= wanted);
    assert(out.deep_view() =~= head + wanted);
    out
}

/// Takes an event of the session: the live transcript follows, and the thread is
/// told. `answered` remembers whether an answer arrived; `topic` names the
/// subagent of the event, if it is about one.
pub fn observe_session(
    event: &AgentEvent,
    live: &mut LiveTranscript,
    answered: &mut bool,
    topic: &str,
) -> (r: Vec<BackendNotice>)
    ensures
        r.deep_view() == notices_of(event.deep_view(), *old(answered), topic@),
        *final(answered) == (*old(answered) || is_answer(event.deep_view())),
        (final(live).messages.deep_view(), final(live).streaming.deep_view()) == live_after(
            old(live).messages.deep_view(),
            old(live).streaming.deep_view(),
            event.deep_view(),
        ),
{
    let mut dirty = false;
    match event {
        AgentEvent::MessageStart { message } => {
            live.stream(message.clone());
        },
        AgentEvent::MessageUpdate { message, .. } => {
            live.stream(message.clone());
        },
        AgentEvent::MessageEnd { message } => {
            let ghost before = live.messages.deep_view();
            let m = message.clone();
            live.seal(m);
            assert(live.messages.deep_view() =~= before.push(message.deep_view()));
            match message {
                AgentMessage::User { .. } => {
                    dirty = true;
                },
                AgentMessage::Assistant { .. } => {
                    dirty = !*answered;
                    *answered = true;
                },
                _ => {},
            }
        },
        _ => {},
    }
    let events = agent_event_to_thread_events(event, topic);
    let ghost shown = events.deep_view();
    let out = wrap_events(events, dirty);
    assert(out.deep_view() =~= notices_of(event.deep_view(), *old(answered), topic@));
    out
}

/// An event of the harness beside those of a run.
#[derive(Debug, PartialEq, Eq)]
pub enum HarnessEvent {
    /// Messages are queued.
    QueueUpdate { steer: usize },
    CompactionStart,
    /// A compaction ended; the summary where there is one.
    CompactionEnd { summary: Option<String>, tokens_before: u64, aborted: bool },
    Other,
}

/// What a harness event asks for.
#[derive(Debug)]
pub struct HarnessSignal {
    pub actions: Vec<Action>,
    /// Whether the actor is to look at the queue.
    pub wake: bool,
}

/// Takes a harness event of the session in `path`. A compaction that succeeded
/// shifts the prompts, so their display forms are forgotten.
pub fn on_harness_event(event: HarnessEvent, path: &str) -> (r: HarnessSignal)
    ensures
        r.wake == (event matches HarnessEvent::QueueUpdate { steer } && steer > 0),
        r.actions.deep_view() == match event {
            HarnessEvent::CompactionStart => seq![
                crate::actor::event(ThreadEventView::CompactionStarted { tokens_before: 0 }),
            ],
            HarnessEvent::CompactionEnd { summary, tokens_before, aborted } => match summary {
                Some(s) => if aborted {
                    seq![]
                } else {
                    seq![
                        sidecar(path@, SidecarUpdateView::ClearChrome),
                        crate::actor::event(
                            ThreadEventView::Compaction {
                                summary: s@,
                                messages_compacted: 0,
                                tokens_before,
                            },
                        ),
                    ]
                },
                None => seq![],
            },
            _ => seq![],
        },
{
    let mut out: Vec<Action> = Vec::new();
    assert(out.deep_view() =~= Seq::<ActionView>::empty());
    let mut wake = false;
    match event {
        HarnessEvent::QueueUpdate { steer } => {
            wake = steer > 0;
        },
        HarnessEvent::CompactionStart => {
            out.push(
                Action::Notice(
                    BackendNotice::Event(ThreadEvent::CompactionStarted { tokens_before: 0 }),
                ),
            );
            assert(out.deep_view() =~= seq![
                crate::actor::event(ThreadEventView::CompactionStarted { tokens_before: 0 }),
            ]);
        },
        HarnessEvent::CompactionEnd { summary, tokens_before, aborted } => {
            match summary {
                Some(s) => {
                    if !aborted {
                        out.push(
                            Action::Sidecar {
                                path: path.to_owned(),
                                update: SidecarUpdate::ClearChrome,
                            },
                        );
                        out.push(
                            Action::Notice(
                                BackendNotice::Event(
                                    ThreadEvent::Compaction {
                                        summary: s,
                                        messages_compacted: 0,
                                        tokens_before,
                                    },
                                ),
                            ),
                        );
                        assert(out.deep_view() =~= seq![
                            sidecar(path@, SidecarUpdateView::ClearChrome),
                            crate::actor::event(
                                ThreadEventView::Compaction {
                                    summary: s@,
                                    messages_compacted: 0,
                                    tokens_before,
                                },
                            ),
                        ]);
                    }
                },
                None => {},
            }
        },
        HarnessEvent::Other => {},
    }
    HarnessSignal { actions: out, wake }
}

/// The live transcript: a message that starts or grows is the one shown last, one that
/// ends joins the others and nothing streams any more; every other event leaves both.
pub proof fn a_message_joins_the_transcript_when_it_ends(
    messages: Seq<AgentMessageView>,
    streaming: Option<AgentMessageView>,
    event: AgentEventView,
)
    ensures
        match event {
            AgentEventView::MessageStart { message } => live_after(messages, streaming, event) == (
                messages,
                Some(message),
            ),
            AgentEventView::MessageUpdate { message, .. } => live_after(messages, streaming, event)
                == (messages, Some(message)),
            AgentEventView::MessageEnd { message } => {
                let next = live_after(messages, streaming, event);
                &&& next.0.len() == messages.len() + 1
                &&& next.0.last() == message
                &&& next.0.drop_last() == messages
                &&& next.1 is None
            },
            _ => live_after(messages, streaming, event) == (messages, streaming),
        },
{
    match event {
        AgentEventView::MessageEnd { message } => {
            assert(messages.push(message).drop_last() =~= messages);
        },
        _ => {},
    }
}

/// The session list changes with every message of the user and with the first answer,
/// and by nothing else.
pub proof fn the_list_changes_with_prompts_and_the_first_answer(
    event: AgentEventView,
    answered: bool,
)
    ensures
        list_changed(event, answered) <==> (event matches AgentEventView::MessageEnd { message }
            && (message is User || message is Assistant && !answered)),
        is_answer(event) <==> (event matches AgentEventView::MessageEnd { message }
            && message is Assistant),
{
}

/// The notices of an event are what it shows, in order, behind the notice that the list
/// changed where it did.
pub proof fn notices_carry_what_is_shown(
    event: AgentEventView,
    answered: bool,
    topic: Seq<char>,
    i: int,
)
    requires
        0 <= i < shown_events(event, topic).len(),
    ensures
        ({
            let shown = shown_events(event, topic);
            let told = notices_of(event, answered, topic);
            let first: int = if list_changed(event, answered) { 1 } else { 0 };
            &&& told.len() == shown.len() + first
            &&& told[first + i] == BackendNoticeView::Event(shown[i])
            &&& first == 1 ==> told[0] == BackendNoticeView::SessionListDirty
        }),
{
}

} // verus!
