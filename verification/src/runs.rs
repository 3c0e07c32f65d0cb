//! Runs of the session: what the actor does while one is in flight and when it
//! ends.

use crate::actor::{event, steered, stored_notes, ActorState, ActorStateView};
use crate::engine::{
    Action, ActionView, BackendNotice, BackendNoticeView, HookEvent, RunKind, RunKindView,
    SessionCmd, SessionCmdView,
};
use crate::history::{UiNoteRecord, UiNoteRecordView};
use crate::json::{entry_models, jobj, Json, JsonView};
use crate::pathname::{is_same_file, same_file};
use crate::thread::{ThreadEvent, ThreadEventView};
use crate::transcript::{shows_note, HistoryMirror};
use vstd::prelude::*;

verus! {

// ---------------------------------------------------------------------------
// While a run is in flight
// ---------------------------------------------------------------------------

/// Whether a command waits until the run has ended: the run owns the session.
pub open spec fn waits(cmd: SessionCmdView, path: Seq<char>) -> bool {
    match cmd {
        SessionCmdView::Abort => false,
        SessionCmdView::Steer { .. } => false,
        SessionCmdView::CancelSteer(_) => false,
        SessionCmdView::Shutdown => false,
        SessionCmdView::SetModel(_) => false,
        SessionCmdView::SetThinkingLevel(_) => false,
        SessionCmdView::PersistGeneratedTitle {
            session_path,
            ..
        } => !same_file(session_path, path),
        SessionCmdView::AppendUiNote(_) => false,
        SessionCmdView::SetBrowserSuite { .. } => false,
        _ => true,
    }
}

/// The state after a command that arrives while the run of the session in `path`
/// is in flight; `None` means that nobody can send commands any more.
pub open spec fn after_mid_run(
    state: ActorStateView,
    cmd: Option<SessionCmdView>,
    path: Seq<char>,
) -> ActorStateView {
    match cmd {
        None => ActorStateView { shutdown_after_run: true, ..state },
        Some(c) => if waits(c, path) {
            ActorStateView {
                pending_session_cmds: state.pending_session_cmds.push(c),
                ..state
            }
        } else {
            match c {
                SessionCmdView::Steer { id, .. } => ActorStateView {
                    run_steers: state.run_steers.push(id),
                    ..state
                },
                SessionCmdView::Shutdown => ActorStateView { shutdown_after_run: true, ..state },
                SessionCmdView::SetModel(m) => ActorStateView { model: Some(m), ..state },
                SessionCmdView::AppendUiNote(record) => ActorStateView {
                    pending_ui_notes: state.pending_ui_notes.push(record),
                    ..state
                },
                SessionCmdView::SetBrowserSuite { suite, enable } => ActorStateView {
                    pending_browser_suite: Some((suite, enable)),
                    ..state
                },
                _ => state,
            }
        },
    }
}

/// The work that such a command asks for; `aborted` says whether the run was
/// aborted already.
pub open spec fn mid_run_work(
    cmd: Option<SessionCmdView>,
    path: Seq<char>,
    aborted: bool,
) -> Seq<ActionView> {
    match cmd {
        None => if aborted {
            seq![]
        } else {
            seq![ActionView::Abort]
        },
        Some(c) => match c {
            SessionCmdView::Abort => seq![ActionView::Abort],
            SessionCmdView::Steer { text, images, .. } => seq![steered(text, images)],
            SessionCmdView::CancelSteer(id) => seq![ActionView::CancelSteer(id)],
            SessionCmdView::SetModel(m) => seq![ActionView::SetModel(m)],
            SessionCmdView::SetThinkingLevel(level) => crate::actor::leveled(path, level),
            SessionCmdView::PersistGeneratedTitle { session_path, title } => if same_file(
                session_path,
                path,
            ) {
                seq![ActionView::PersistTitle { path: session_path, title }]
            } else {
                seq![]
            },
            _ => seq![],
        },
    }
}

/// What a command did to a run.
#[derive(Debug)]
pub struct MidRun {
    pub actions: Vec<Action>,
    /// Whether the run was aborted.
    pub aborted: bool,
    /// Whether more commands can arrive.
    pub open: bool,
}

impl ActorState {
    /// Takes a command while the run of the session in `path` is in flight. Cards
    /// show at once and are stored later; what the run cannot take is parked.
    pub fn on_mid_run(
        &mut self,
        cmd: Option<SessionCmd>,
        path: &str,
        aborted: bool,
        mirror: &mut HistoryMirror,
    ) -> (r: MidRun)
        ensures
            r.actions.deep_view() == mid_run_work(cmd.deep_view(), path@, aborted),
            final(self).deep_view() == after_mid_run(
                old(self).deep_view(),
                cmd.deep_view(),
                path@,
            ),
            r.aborted == (aborted || cmd is None || cmd->0 is Abort),
            r.open == (cmd is Some),
            match cmd {
                Some(SessionCmd::AppendUiNote(record)) => shows_note(
                    *old(mirror),
                    *final(mirror),
                    record.deep_view(),
                ),
                _ => *final(mirror) == *old(mirror),
            },
    {
        let ghost given = cmd.deep_view();
        let ghost before = self.deep_view();
        let mut out: Vec<Action> = Vec::new();
        assert(out.deep_view() =~= Seq::<ActionView>::empty());
        let cmd = match cmd {
            Some(c) => c,
            None => {
                self.shutdown_after_run = true;
                if !aborted {
                    out.push(Action::Abort);
                    assert(out.deep_view() =~= seq![ActionView::Abort]);
                }
                return MidRun { actions: out, aborted: true, open: false };
            },
        };
        let mut now_aborted = aborted;
        match cmd {
            SessionCmd::Abort => {
                now_aborted = true;
                out.push(Action::Abort);
            },
            SessionCmd::Steer { id, text, images } => {
                out.push(crate::actor::steer_action(text, images));
                self.run_steers.push(id);
                assert(self.run_steers.deep_view() =~= before.run_steers.push(id@));
            },
            SessionCmd::CancelSteer(id) => {
                out.push(Action::CancelSteer(id));
            },
            SessionCmd::Shutdown => {
                self.shutdown_after_run = true;
            },
            SessionCmd::SetModel(m) => {
                out.push(Action::SetModel(m.clone()));
                self.model = Some(m);
            },
            SessionCmd::SetThinkingLevel(level) => {
                out = crate::actor::level_actions(path, level);
            },
            SessionCmd::PersistGeneratedTitle { session_path, title } => {
                if is_same_file(session_path.as_str(), path) {
                    out.push(Action::PersistTitle { path: session_path, title });
                } else {
                    let cmd = SessionCmd::PersistGeneratedTitle { session_path, title };
                    self.pending_session_cmds.push(cmd);
                    assert(self.pending_session_cmds.deep_view()
                        =~= before.pending_session_cmds.push(cmd.deep_view()));
                }
            },
            SessionCmd::AppendUiNote(record) => {
                let shown = record.clone();
                mirror.mirror_ui_note(shown);
                self.pending_ui_notes.push(record);
                assert(self.pending_ui_notes.deep_view() =~= before.pending_ui_notes.push(
                    record.deep_view(),
                ));
            },
            SessionCmd::SetBrowserSuite { suite, enable } => {
                self.pending_browser_suite = Some((suite, enable));
            },
            other => {
                self.pending_session_cmds.push(other);
                assert(self.pending_session_cmds.deep_view() =~= before.pending_session_cmds.push(
                    other.deep_view(),
                ));
            },
        }
        assert(out.deep_view() =~= mid_run_work(given, path@, aborted));
        assert(self.deep_view() =~= after_mid_run(before, given, path@));
        MidRun { actions: out, aborted: now_aborted, open: true }
    }
}

/// No command is lost while a run is in flight: it is taken, or it is parked and
/// comes back, behind those parked before it, once the run has ended.
pub proof fn a_parked_command_comes_back(
    state: ActorStateView,
    cmd: SessionCmdView,
    path: Seq<char>,
)
    requires
        waits(cmd, path),
    ensures
        ({
            let next = after_mid_run(state, Some(cmd), path);
            let todo = crate::actor::parked_work(next);
            &&& todo.len() > 0
            &&& todo.last() == ActionView::Requeue(cmd)
            &&& todo.drop_last() == crate::actor::parked_work(state)
        }),
{
    let next = after_mid_run(state, Some(cmd), path);
    let todo = crate::actor::parked_work(next);
    let before = crate::actor::requeued(state.pending_session_cmds);
    assert(crate::actor::requeued(next.pending_session_cmds) =~= before.push(
        ActionView::Requeue(cmd),
    ));
    assert(todo =~= crate::actor::parked_work(state).push(ActionView::Requeue(cmd)));
    assert(todo.drop_last() =~= crate::actor::parked_work(state));
}

/// A card that arrives while a run is in flight is stored when the run has ended.
pub proof fn a_parked_card_is_stored(
    state: ActorStateView,
    record: UiNoteRecordView,
    path: Seq<char>,
)
    ensures
        ({
            let next = after_mid_run(state, Some(SessionCmdView::AppendUiNote(record)), path);
            stored_notes(next.pending_ui_notes) == stored_notes(state.pending_ui_notes).push(
                ActionView::PersistNote(record),
            )
        }),
{
    let next = after_mid_run(state, Some(SessionCmdView::AppendUiNote(record)), path);
    assert(stored_notes(next.pending_ui_notes) =~= stored_notes(state.pending_ui_notes).push(
        ActionView::PersistNote(record),
    ));
}

// ---------------------------------------------------------------------------
// When a run ends
// ---------------------------------------------------------------------------

pub open spec fn stop_payload(cancelled: bool, failed: bool) -> JsonView {
    JsonView::Object(
        seq![("cancelled"@, JsonView::Bool(cancelled)), ("failed"@, JsonView::Bool(failed))],
    )
}

/// What the end of a run asks for: the error, the cards that were parked, the
/// mirrors, the notice that the turn ended, and the hook. A message handed to a
/// turn that was aborted or failed is stranded.
pub open spec fn settled(
    state: ActorStateView,
    error: Option<Seq<char>>,
    aborted: bool,
) -> Seq<ActionView> {
    let failed = error is Some;
    let told = match error {
        Some(e) => seq![event(ThreadEventView::Error(e))],
        None => seq![],
    };
    told + stored_notes(state.pending_ui_notes) + crate::actor::resynced() + seq![
        ActionView::Notice(
            BackendNoticeView::Settled {
                cancelled: aborted,
                failed,
                steered: if aborted || failed {
                    seq![]
                } else {
                    state.run_steers
                },
                stranded: if aborted || failed {
                    state.run_steers
                } else {
                    seq![]
                },
            },
        ),
        ActionView::FireHook { event: HookEvent::Stop, payload: stop_payload(aborted, failed) },
    ]
}

/// The state after the end of a run.
pub open spec fn at_rest(state: ActorStateView) -> ActorStateView {
    ActorStateView { running: false, pending_ui_notes: seq![], run_steers: seq![], ..state }
}

/// What the goals ask for after a run: a cancelled or failed run stops the
/// automatic continuation, and a goal round in flight is admitted.
pub open spec fn housekeeping(
    goals: bool,
    round_active: bool,
    aborted: bool,
    failed: bool,
) -> Seq<ActionView> {
    let disarm = if goals && (aborted || failed) {
        seq![ActionView::DisarmGoal]
    } else {
        seq![]
    };
    let settle = if goals && round_active {
        seq![ActionView::SettleGoalRound]
    } else {
        seq![]
    };
    disarm + settle
}

/// What comes after a run.
#[derive(Debug, Clone, Copy, PartialEq, Eq, Structural)]
pub enum Next {
    /// Wait for the next command.
    Idle,
    /// Ask whether a goal round is owed.
    AskRound,
    /// Stop.
    Exit,
}

/// The seed turn of a plan hands over to the idle actor; every other run stops
/// the actor where that was asked for, and chains goal rounds otherwise.
pub open spec fn next_of(kind: RunKindView, shutdown: bool) -> Next {
    if kind is Seed {
        Next::Idle
    } else if shutdown {
        Next::Exit
    } else {
        Next::AskRound
    }
}

impl ActorState {
    /// Takes the end of a run.
    pub fn settle_run(&mut self, error: Option<String>, aborted: bool) -> (r: Vec<Action>)
        ensures
            r.deep_view() == settled(old(self).deep_view(), error.deep_view(), aborted),
            final(self).deep_view() == at_rest(old(self).deep_view()),
    {
        let ghost before = self.deep_view();
        let ghost given = error.deep_view();
        let failed = error.is_some();
        let mut out: Vec<Action> = Vec::new();
        match error {
            Some(e) => {
                out.push(Action::Notice(BackendNotice::Event(ThreadEvent::Error(e))));
            },
            None => {},
        }
        let ghost told = out.deep_view();
        self.running = false;
        let mut notes: Vec<UiNoteRecord> = Vec::new();
        std::mem::swap(&mut notes, &mut self.pending_ui_notes);
        let mut stored = crate::actor::note_actions(notes);
        let ghost kept = stored.deep_view();
        out.append(&mut stored);
        assert(out.deep_view() =~= told + kept);
        crate::actor::push_resync(&mut out);
        let mut steers: Vec<String> = Vec::new();
        std::mem::swap(&mut steers, &mut self.run_steers);
        let none: Vec<String> = Vec::new();
        assert(none.deep_view() =~= seq![]);
        let (steered, stranded) = if aborted || failed {
            (none, steers)
        } else {
            (steers, none)
        };
        let ghost so_far = out.deep_view();
        let notice = Action::Notice(
            BackendNotice::Settled { cancelled: aborted, failed, steered, stranded },
        );
        let ghost ended = notice.deep_view();
        out.push(notice);
        let mut es: Vec<(String, Json)> = Vec::new();
        es.push(("cancelled".to_owned(), Json::Bool(aborted)));
        es.push(("failed".to_owned(), Json::Bool(failed)));
        assert(entry_models(es@) =~= stop_payload(aborted, failed)->Object_0);
        let payload = jobj(es);
        let hook = Action::FireHook { event: HookEvent::Stop, payload };
        let ghost fired = hook.deep_view();
        out.push(hook);
        assert(self.pending_ui_notes.deep_view() =~= seq![]);
        assert(self.run_steers.deep_view() =~= seq![]);
        assert(out.deep_view() =~= so_far + seq![ended, fired]);
        assert(so_far =~= told + kept + crate::actor::resynced());
        assert(told =~= match given {
            Some(e) => seq![event(ThreadEventView::Error(e))],
            None => seq![],
        });
        assert(ended == settled(before, given, aborted)[settled(before, given, aborted).len() - 2]);
        assert(out.deep_view() =~= settled(before, given, aborted));
        out
    }

    /// Looks after the goals once a run has ended.
    pub fn goal_housekeeping(&self, round_active: bool, aborted: bool, failed: bool) -> (r: Vec<
        Action,
    >)
        ensures
            r.deep_view() == housekeeping(self.deep_view().goals, round_active, aborted, failed),
    {
        let mut out: Vec<Action> = Vec::new();
        if self.goals && (aborted || failed) {
            out.push(Action::DisarmGoal);
        }
        if self.goals && round_active {
            out.push(Action::SettleGoalRound);
        }
        assert(out.deep_view() =~= housekeeping(self.goals, round_active, aborted, failed));
        out
    }

    /// Takes the end of a run and says what comes next. `round_active` says
    /// whether the run was a goal round.
    pub fn run_ended(
        &mut self,
        kind: &RunKind,
        error: Option<String>,
        aborted: bool,
        round_active: bool,
    ) -> (r: (Vec<Action>, Next))
        ensures
            final(self).deep_view() == at_rest(old(self).deep_view()),
            r.1 == next_of(kind.deep_view(), old(self).deep_view().shutdown_after_run),
            r.0.deep_view() == settled(old(self).deep_view(), error.deep_view(), aborted)
                + if r.1 == Next::AskRound {
                housekeeping(old(self).deep_view().goals, round_active, aborted, error is Some)
            } else {
                seq![]
            },
    {
        let failed = error.is_some();
        let ghost todo = settled(self.deep_view(), error.deep_view(), aborted);
        let mut out = self.settle_run(error, aborted);
        assert(todo + seq![] =~= todo);
        match kind {
            RunKind::Seed { .. } => {
                return (out, Next::Idle);
            },
            _ => {},
        }
        if self.shutdown_after_run {
            return (out, Next::Exit);
        }
        let mut more = self.goal_housekeeping(round_active, aborted, failed);
        let ghost cared = more.deep_view();
        out.append(&mut more);
        assert(out.deep_view() =~= todo + cared);
        (out, Next::AskRound)
    }

    /// The goal round to run, if one is owed: `queued` is the answer of the goal
    /// driver, which is asked only where goals are available.
    pub fn round_asked(&self, queued: bool) -> (r: Option<RunKind>)
        ensures
            r.deep_view() == if self.deep_view().goals && queued {
                Some(RunKindView::Continue)
            } else {
                None
            },
    {
        if self.goals && queued {
            Some(RunKind::Continue)
        } else {
            None
        }
    }
}

/// Every message handed to a turn is accounted for once when the turn ends:
/// injected if it ended well, stranded otherwise; and the next turn starts with
/// none.
pub proof fn every_steer_is_accounted_for(
    state: ActorStateView,
    error: Option<Seq<char>>,
    aborted: bool,
)
    ensures
        ({
            let todo = settled(state, error, aborted);
            let notice = todo[todo.len() - 2];
            &&& notice matches ActionView::Notice(BackendNoticeView::Settled {
                cancelled,
                failed,
                steered,
                stranded,
            })
            &&& steered + stranded == state.run_steers
            &&& (cancelled || failed) ==> steered.len() == 0
            &&& !(cancelled || failed) ==> stranded.len() == 0
            &&& at_rest(state).run_steers.len() == 0
            &&& !at_rest(state).running
        }),
{
    let todo = settled(state, error, aborted);
    let none = Seq::<Seq<char>>::empty();
    assert(none + state.run_steers =~= state.run_steers);
    assert(state.run_steers + none =~= state.run_steers);
}

// ---------------------------------------------------------------------------
// What a run takes and what it leaves
// ---------------------------------------------------------------------------

/// Abort, steering, the model, the effort, cards, the browser suite and shutdown reach
/// a run in flight, and so does the title of the very session that runs. Everything
/// else waits for its end.
pub proof fn only_controls_reach_a_run(cmd: SessionCmdView, path: Seq<char>)
    ensures
        waits(cmd, path) <==> !(cmd is Abort || cmd is Steer || cmd is CancelSteer || cmd is Shutdown
            || cmd is SetModel || cmd is SetThinkingLevel || cmd is AppendUiNote
            || cmd is SetBrowserSuite || (cmd matches SessionCmdView::PersistGeneratedTitle {
            session_path,
            ..
        } && same_file(session_path, path))),
{
}

/// A prompt that arrives while a run is in flight starts nothing: it is kept, behind
/// what was kept before it, and nothing else of the state changes.
pub proof fn a_waiting_command_is_kept_in_order(
    state: ActorStateView,
    cmd: SessionCmdView,
    path: Seq<char>,
    aborted: bool,
)
    requires
        cmd is Prompt || waits(cmd, path),
    ensures
        mid_run_work(Some(cmd), path, aborted).len() == 0,
        after_mid_run(state, Some(cmd), path) == (ActorStateView {
            pending_session_cmds: state.pending_session_cmds.push(cmd),
            ..state
        }),
{
}

/// A message to a running turn is handed to it with its text and its images, and is
/// noted as handed over.
pub proof fn a_steer_reaches_the_run(
    state: ActorStateView,
    cmd: SessionCmdView,
    path: Seq<char>,
    aborted: bool,
)
    ensures
        cmd matches SessionCmdView::Steer { id, text, images } ==> {
            let todo = mid_run_work(Some(cmd), path, aborted);
            &&& todo.len() == 1
            &&& todo[0] matches ActionView::Steer(crate::harness::AgentMessageView::User { content })
            &&& content.len() == images.len() + 1
            &&& content[0] == crate::harness::ContentBlockView::Text { text, signature: None }
            &&& content.skip(1) == images
            &&& after_mid_run(state, Some(cmd), path) == (ActorStateView {
                run_steers: state.run_steers.push(id),
                ..state
            })
        },
        cmd matches SessionCmdView::CancelSteer(id) ==> mid_run_work(Some(cmd), path, aborted)
            == seq![ActionView::CancelSteer(id)] && after_mid_run(state, Some(cmd), path) == state,
{
    match cmd {
        SessionCmdView::Steer { id, text, images } => {
            let content = seq![
                crate::harness::ContentBlockView::Text { text, signature: None },
            ] + images;
            assert(content.skip(1) =~= images);
        },
        _ => {},
    }
}

/// Abort reaches the run and changes nothing else; where nobody can send commands any
/// more the run is aborted, once, and the actor stops after it. Shutdown lets the run
/// end first.
pub proof fn a_run_can_be_ended(state: ActorStateView, path: Seq<char>, aborted: bool)
    ensures
        mid_run_work(Some(SessionCmdView::Abort), path, aborted) == seq![ActionView::Abort],
        after_mid_run(state, Some(SessionCmdView::Abort), path) == state,
        mid_run_work(None, path, false) == seq![ActionView::Abort],
        mid_run_work(None, path, true).len() == 0,
        after_mid_run(state, None, path) == (ActorStateView { shutdown_after_run: true, ..state }),
        mid_run_work(Some(SessionCmdView::Shutdown), path, aborted).len() == 0,
        after_mid_run(state, Some(SessionCmdView::Shutdown), path) == (ActorStateView {
            shutdown_after_run: true,
            ..state
        }),
{
}

/// What is chosen while a run is in flight holds at once: the model, the effort and the
/// title of the session that runs. Cards and the browser suite are kept for later.
pub proof fn what_is_chosen_mid_run_holds(
    state: ActorStateView,
    cmd: SessionCmdView,
    path: Seq<char>,
    aborted: bool,
)
    ensures
        match cmd {
            SessionCmdView::SetModel(m) => mid_run_work(Some(cmd), path, aborted) == seq![
                ActionView::SetModel(m),
            ] && after_mid_run(state, Some(cmd), path) == (ActorStateView {
                model: Some(m),
                ..state
            }),
            SessionCmdView::SetThinkingLevel(level) => mid_run_work(Some(cmd), path, aborted).len()
                > 0 && mid_run_work(Some(cmd), path, aborted)[0] == ActionView::SetThinkingLevel(
                level,
            ) && after_mid_run(state, Some(cmd), path) == state,
            SessionCmdView::PersistGeneratedTitle { session_path, title } => same_file(
                session_path,
                path,
            ) ==> mid_run_work(Some(cmd), path, aborted) == seq![
                ActionView::PersistTitle { path: session_path, title },
            ] && after_mid_run(state, Some(cmd), path) == state,
            SessionCmdView::AppendUiNote(record) => mid_run_work(Some(cmd), path, aborted).len() == 0
                && after_mid_run(state, Some(cmd), path) == (ActorStateView {
                pending_ui_notes: state.pending_ui_notes.push(record),
                ..state
            }),
            SessionCmdView::SetBrowserSuite { suite, enable } => mid_run_work(
                Some(cmd),
                path,
                aborted,
            ).len() == 0 && after_mid_run(state, Some(cmd), path) == (ActorStateView {
                pending_browser_suite: Some((suite, enable)),
                ..state
            }),
            _ => true,
        },
{
}

/// The end of a run is told in order: first the error, if it failed, then every card
/// that was kept, then the mirrors, the notice and the hook. The notice and the hook
/// say whether it was cancelled and whether it failed.
pub proof fn the_end_of_a_run_is_told(
    state: ActorStateView,
    error: Option<Seq<char>>,
    aborted: bool,
    i: int,
)
    ensures
        ({
            let todo = settled(state, error, aborted);
            let told: int = if error is Some { 1 } else { 0 };
            let n = state.pending_ui_notes.len() as int;
            &&& todo.len() == told + n + 5
            &&& error matches Some(e) ==> todo[0] == ActionView::Notice(
                BackendNoticeView::Event(ThreadEventView::Error(e)),
            )
            &&& 0 <= i < n ==> todo[told + i] == ActionView::PersistNote(state.pending_ui_notes[i])
            &&& todo[told + n] == ActionView::SyncHistory
            &&& todo[told + n + 1] == ActionView::SyncUsage
            &&& todo[told + n + 2] == ActionView::RefreshSessionList
            &&& todo[told + n + 3] == ActionView::Notice(
                BackendNoticeView::Settled {
                    cancelled: aborted,
                    failed: error is Some,
                    steered: if aborted || error is Some {
                        Seq::<Seq<char>>::empty()
                    } else {
                        state.run_steers
                    },
                    stranded: if aborted || error is Some {
                        state.run_steers
                    } else {
                        Seq::<Seq<char>>::empty()
                    },
                },
            )
            &&& todo[told + n + 4] == ActionView::FireHook {
                event: HookEvent::Stop,
                payload: JsonView::Object(
                    seq![
                        ("cancelled"@, JsonView::Bool(aborted)),
                        ("failed"@, JsonView::Bool(error is Some)),
                    ],
                ),
            }
        }),
        at_rest(state) == (ActorStateView {
            running: false,
            pending_ui_notes: Seq::<UiNoteRecordView>::empty(),
            run_steers: Seq::<Seq<char>>::empty(),
            ..state
        }),
{
}

/// Goals are looked after only where they are available: a run that was cancelled or
/// failed stops the automatic continuation, and a goal round is admitted at its end.
pub proof fn goals_are_looked_after(goals: bool, round_active: bool, aborted: bool, failed: bool)
    ensures
        !goals ==> housekeeping(goals, round_active, aborted, failed).len() == 0,
        goals ==> (housekeeping(goals, round_active, aborted, failed).contains(
            ActionView::DisarmGoal,
        ) <==> aborted || failed),
        goals ==> (housekeeping(goals, round_active, aborted, failed).contains(
            ActionView::SettleGoalRound,
        ) <==> round_active),
        housekeeping(goals, round_active, aborted, failed).len() <= 2,
        goals && round_active && (aborted || failed) ==> housekeeping(
            goals,
            round_active,
            aborted,
            failed,
        ) == seq![ActionView::DisarmGoal, ActionView::SettleGoalRound],
{
    let todo = housekeeping(goals, round_active, aborted, failed);
    if goals && (aborted || failed) {
        assert(todo[0] == ActionView::DisarmGoal);
    }
    if goals && round_active {
        assert(todo.last() == ActionView::SettleGoalRound);
    }
}

/// After the seed turn of a plan the actor waits. After any other run it stops where
/// that was asked for and asks for a goal round otherwise.
pub proof fn what_comes_after_a_run(kind: RunKindView, shutdown: bool)
    ensures
        kind is Seed ==> next_of(kind, shutdown) == Next::Idle,
        kind !is Seed && shutdown ==> next_of(kind, shutdown) == Next::Exit,
        kind !is Seed && !shutdown ==> next_of(kind, shutdown) == Next::AskRound,
{
}

} // verus!
