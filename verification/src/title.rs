//! When the title of a thread is generated again.
//!
//! One title run is in flight at a time; wakes that arrive meanwhile coalesce to
//! the latest reason, which starts the next run. A run that outlives a session
//! switch is dropped.

use crate::harness::{AgentEvent, AgentMessage, HarnessStopReason};
use crate::sidecar::PersistedTitleScheduler;
use crate::text::{opt_str_view, str_eq};
use crate::tools::CREATE_GOAL;
use vstd::prelude::*;

verus! {

/// Why a title is generated.
#[derive(Debug, Clone, Copy, PartialEq, Eq, Structural)]
pub enum TitleWakeReason {
    FirstResponse,
    Stop,
    GoalStarted,
    PlanStarted,
}

impl DeepView for TitleWakeReason {
    type V = TitleWakeReason;

    open spec fn deep_view(&self) -> TitleWakeReason {
        *self
    }
}

/// The title of the thread and the run that may replace it.
#[derive(Debug, PartialEq, Eq)]
pub struct TitleSchedulerState {
    pub title: Option<String>,
    pub in_flight: bool,
    /// The latest wake that arrived while a run was in flight.
    pub rerun: Option<TitleWakeReason>,
    /// Counts session switches, so that a run knows whether it is still wanted.
    pub generation: u64,
}

/// The mathematical value of a [`TitleSchedulerState`].
#[verifier::ext_equal]
pub struct TitleSchedulerStateView {
    pub title: Option<Seq<char>>,
    pub in_flight: bool,
    pub rerun: Option<TitleWakeReason>,
    pub generation: u64,
}

impl DeepView for TitleSchedulerState {
    type V = TitleSchedulerStateView;

    open spec fn deep_view(&self) -> TitleSchedulerStateView {
        TitleSchedulerStateView {
            title: self.title.deep_view(),
            in_flight: self.in_flight,
            rerun: self.rerun,
            generation: self.generation,
        }
    }
}

impl Default for TitleSchedulerState {
    fn default() -> (r: Self)
        ensures
            r.deep_view() == (TitleSchedulerStateView {
                title: None,
                in_flight: false,
                rerun: None,
                generation: 0,
            }),
    {
        TitleSchedulerState { title: None, in_flight: false, rerun: None, generation: 0 }
    }
}

impl TitleSchedulerStateView {
    /// The state after a wake.
    pub open spec fn woken(self, reason: TitleWakeReason) -> TitleSchedulerStateView {
        if self.in_flight {
            TitleSchedulerStateView { rerun: Some(reason), ..self }
        } else {
            TitleSchedulerStateView { in_flight: true, ..self }
        }
    }

    /// The state after a run.
    pub open spec fn rested(self) -> TitleSchedulerStateView {
        TitleSchedulerStateView { in_flight: false, rerun: None, ..self }
    }

    /// The state after a switch to a session with the given title.
    pub open spec fn retargeted(self, title: Option<Seq<char>>) -> TitleSchedulerStateView {
        TitleSchedulerStateView {
            title,
            in_flight: false,
            rerun: None,
            generation: self.generation.wrapping_add(1),
        }
    }

    /// The state after a run that found the given title, if any. A run of an
    /// earlier session changes nothing.
    pub open spec fn after_run(
        self,
        run: TitleRun,
        result: Option<Seq<char>>,
    ) -> TitleSchedulerStateView {
        if run.generation != self.generation {
            self
        } else {
            TitleSchedulerStateView {
                title: if result is Some {
                    result
                } else {
                    self.title
                },
                ..self.rested()
            }
        }
    }
}

/// A title run to start.
#[derive(Debug, Clone, Copy, PartialEq, Eq, Structural)]
pub struct TitleRun {
    pub reason: TitleWakeReason,
    pub generation: u64,
}

/// What is left to do after a title run.
#[derive(Debug, PartialEq, Eq)]
pub struct TitleOutcome {
    /// The new title to store.
    pub persist: Option<String>,
    /// The wake that arrived meanwhile.
    pub next: Option<TitleWakeReason>,
}

impl TitleSchedulerState {
    /// The state for a session: nothing in flight, the stored title.
    pub fn new(persisted: PersistedTitleScheduler) -> (r: Self)
        ensures
            r.deep_view() == (TitleSchedulerStateView {
                title: persisted.title.deep_view(),
                in_flight: false,
                rerun: None,
                generation: 0,
            }),
    {
        TitleSchedulerState {
            title: persisted.title,
            in_flight: false,
            rerun: None,
            generation: 0,
        }
    }

    /// Claims the run, or records the wake where one is in flight.
    pub fn begin(&mut self, reason: TitleWakeReason) -> (r: bool)
        ensures
            r == !old(self).deep_view().in_flight,
            final(self).deep_view() == old(self).deep_view().woken(reason),
    {
        if self.in_flight {
            self.rerun = Some(reason);
            false
        } else {
            self.in_flight = true;
            true
        }
    }

    /// Ends the run and hands out the wake that arrived meanwhile.
    pub fn finish(&mut self) -> (r: Option<TitleWakeReason>)
        ensures
            r == old(self).deep_view().rerun,
            final(self).deep_view() == old(self).deep_view().rested(),
    {
        self.in_flight = false;
        let next = self.rerun;
        self.rerun = None;
        next
    }

    /// Points the scheduler at another session: runs in flight belong to the
    /// past.
    pub fn retarget(&mut self, persisted: PersistedTitleScheduler)
        ensures
            final(self).deep_view() == old(self).deep_view().retargeted(
                persisted.title.deep_view(),
            ),
    {
        self.generation = self.generation.wrapping_add(1);
        self.title = persisted.title;
        self.in_flight = false;
        self.rerun = None;
    }

    /// The title taken from the first message, unless there is one already.
    pub fn set_initial(&mut self, title: &str) -> (r: bool)
        ensures
            r == (old(self).deep_view().title is None),
            final(self).deep_view() == (TitleSchedulerStateView {
                title: if old(self).deep_view().title is None {
                    Some(title@)
                } else {
                    old(self).deep_view().title
                },
                ..old(self).deep_view()
            }),
    {
        match &self.title {
            Some(_) => false,
            None => {
                self.title = Some(title.to_owned());
                true
            },
        }
    }

    /// Starts a run, unless titles are off or one is in flight.
    pub fn wake(&mut self, enabled: bool, reason: TitleWakeReason) -> (r: Option<TitleRun>)
        ensures
            r == if enabled && !old(self).deep_view().in_flight {
                Some(TitleRun { reason, generation: old(self).deep_view().generation })
            } else {
                None
            },
            final(self).deep_view() == if enabled {
                old(self).deep_view().woken(reason)
            } else {
                old(self).deep_view()
            },
    {
        if !enabled {
            return None;
        }
        if self.begin(reason) {
            Some(TitleRun { reason, generation: self.generation })
        } else {
            None
        }
    }

    /// Takes the result of a run: `current` is the title it started from, `result`
    /// the title it found, `None` where it found none or failed. A run of an
    /// earlier session changes nothing.
    pub fn finish_run(
        &mut self,
        run: TitleRun,
        current: Option<&str>,
        result: Option<String>,
    ) -> (r: TitleOutcome)
        ensures
            final(self).deep_view() == old(self).deep_view().after_run(run, result.deep_view()),
            if run.generation != old(self).deep_view().generation {
                r.persist is None && r.next is None
            } else {
                &&& r.next == old(self).deep_view().rerun
                &&& r.persist.deep_view() == if result.deep_view() is Some
                    && result.deep_view() != opt_str_view(current) {
                    result.deep_view()
                } else {
                    None
                }
            },
    {
        if self.generation != run.generation {
            return TitleOutcome { persist: None, next: None };
        }
        let persist = match &result {
            Some(title) => {
                let same = match current {
                    Some(c) => str_eq(c, title.as_str()),
                    None => false,
                };
                if same {
                    None
                } else {
                    Some(title.clone())
                }
            },
            None => None,
        };
        if result.is_some() {
            self.title = result;
        }
        let next = self.finish();
        TitleOutcome { persist, next }
    }
}

/// What an event of the session means for the title.
#[derive(Debug, Clone, Copy, PartialEq, Eq, Structural)]
pub enum TitleSignal {
    Ignored,
    TurnStarted,
    /// A response arrived; why the model stopped.
    Response(Option<HarnessStopReason>),
    /// A goal starts executing: wake at once.
    Execution(TitleWakeReason),
    /// A tool ended the turn.
    Terminated,
}

/// What an event means for the title. `terminate` says whether the result of a
/// tool ends the turn.
pub open spec fn signal_of(event: AgentEvent, terminate: bool) -> TitleSignal {
    match event {
        AgentEvent::TurnStart => TitleSignal::TurnStarted,
        AgentEvent::MessageEnd { message } => match message {
            AgentMessage::Assistant { stop_reason, .. } => if stop_reason == Some(
                HarnessStopReason::Error,
            ) || stop_reason == Some(HarnessStopReason::Aborted) {
                TitleSignal::Ignored
            } else {
                TitleSignal::Response(stop_reason)
            },
            _ => TitleSignal::Ignored,
        },
        AgentEvent::ToolExecutionEnd { tool_name, is_error, .. } => if tool_name@ == CREATE_GOAL@
            && !is_error {
            TitleSignal::Execution(TitleWakeReason::GoalStarted)
        } else if terminate {
            TitleSignal::Terminated
        } else {
            TitleSignal::Ignored
        },
        _ => TitleSignal::Ignored,
    }
}

/// What an event of the session means for the title: responses that failed or
/// were aborted mean nothing.
pub fn observe(event: &AgentEvent, terminate: bool) -> (r: TitleSignal)
    ensures
        r == signal_of(*event, terminate),
{
    match event {
        AgentEvent::TurnStart => TitleSignal::TurnStarted,
        AgentEvent::MessageEnd { message } => match message {
            AgentMessage::Assistant { stop_reason, .. } => match stop_reason {
                Some(HarnessStopReason::Error) => TitleSignal::Ignored,
                Some(HarnessStopReason::Aborted) => TitleSignal::Ignored,
                other => TitleSignal::Response(*other),
            },
            _ => TitleSignal::Ignored,
        },
        AgentEvent::ToolExecutionEnd { tool_name, is_error, .. } => if str_eq(
            tool_name.as_str(),
            CREATE_GOAL,
        ) && !*is_error {
            TitleSignal::Execution(TitleWakeReason::GoalStarted)
        } else if terminate {
            TitleSignal::Terminated
        } else {
            TitleSignal::Ignored
        },
        _ => TitleSignal::Ignored,
    }
}

/// Wakes during a run coalesce: whatever wakes came before, the latest one alone
/// is handed out at the end, and nothing is in flight or waiting after that.
pub proof fn wakes_coalesce_to_the_latest(
    state: TitleSchedulerStateView,
    earlier: Seq<TitleWakeReason>,
    latest: TitleWakeReason,
)
    requires
        state.in_flight,
    ensures
        after_wakes(state, earlier.push(latest)).rerun == Some(latest),
        after_wakes(state, earlier.push(latest)).in_flight,
        after_wakes(state, earlier.push(latest)).rested() == (TitleSchedulerStateView {
            in_flight: false,
            rerun: None,
            ..state
        }),
    decreases earlier.len(),
{
    assert(earlier.push(latest).drop_last() =~= earlier);
    if earlier.len() > 0 {
        assert(earlier.drop_last().push(earlier.last()) =~= earlier);
        wakes_coalesce_to_the_latest(state, earlier.drop_last(), earlier.last());
    } else {
        assert(after_wakes(state, earlier) == state);
    }
    assert(earlier.push(latest).last() == latest);
    assert(after_wakes(state, earlier.push(latest)) == after_wakes(state, earlier).woken(latest));
}

/// The state after a sequence of wakes.
pub open spec fn after_wakes(
    state: TitleSchedulerStateView,
    reasons: Seq<TitleWakeReason>,
) -> TitleSchedulerStateView
    decreases reasons.len(),
{
    if reasons.len() == 0 {
        state
    } else {
        after_wakes(state, reasons.drop_last()).woken(reasons.last())
    }
}

/// A run that outlives a switch to another session is dropped: whatever it finds,
/// the state of the new session stays as it is.
pub proof fn a_switch_drops_the_run(
    state: TitleSchedulerStateView,
    run: TitleRun,
    title: Option<Seq<char>>,
    result: Option<Seq<char>>,
)
    requires
        run.generation == state.generation,
    ensures
        state.retargeted(title).after_run(run, result) == state.retargeted(title),
{
}

/// A wake starts a run where none is in flight and otherwise waits for its end; either
/// way the title and the session stay.
pub proof fn a_wake_starts_or_waits(state: TitleSchedulerStateView, reason: TitleWakeReason)
    ensures
        state.woken(reason).in_flight,
        state.woken(reason).title == state.title,
        state.woken(reason).generation == state.generation,
        !state.in_flight ==> state.woken(reason).rerun == state.rerun,
        state.in_flight ==> state.woken(reason).rerun == Some(reason),
{
}

/// The end of a run of the session at hand stores the title it found, keeps the title
/// where it found none, and leaves nothing in flight or waiting.
pub proof fn a_run_stores_what_it_found(
    state: TitleSchedulerStateView,
    run: TitleRun,
    found: Seq<char>,
)
    requires
        run.generation == state.generation,
    ensures
        state.after_run(run, Some(found)).title == Some(found),
        state.after_run(run, None).title == state.title,
        !state.after_run(run, Some(found)).in_flight && !state.after_run(run, None).in_flight,
        state.after_run(run, Some(found)).rerun is None,
        state.after_run(run, None).rerun is None,
        state.after_run(run, Some(found)).generation == state.generation,
{
}

/// A switch takes the title of the other session and leaves nothing in flight or
/// waiting.
pub proof fn a_switch_takes_the_other_title(
    state: TitleSchedulerStateView,
    title: Option<Seq<char>>,
)
    ensures
        state.retargeted(title).title == title,
        !state.retargeted(title).in_flight,
        state.retargeted(title).rerun is None,
        state.retargeted(title).generation != state.generation,
{
}

/// A response counts unless it failed or was aborted; a tool that ends the turn counts;
/// a goal that was created wakes at once.
pub proof fn responses_and_goals_count_for_the_title(event: AgentEvent, terminate: bool)
    ensures
        match event {
            AgentEvent::TurnStart => signal_of(event, terminate) == TitleSignal::TurnStarted,
            AgentEvent::MessageEnd {
                message: AgentMessage::Assistant { stop_reason, .. },
            } => {
                &&& stop_reason == Some(HarnessStopReason::Error) || stop_reason == Some(
                    HarnessStopReason::Aborted,
                ) ==> signal_of(event, terminate) == TitleSignal::Ignored
                &&& stop_reason != Some(HarnessStopReason::Error) && stop_reason != Some(
                    HarnessStopReason::Aborted,
                ) ==> signal_of(event, terminate) == TitleSignal::Response(stop_reason)
            },
            AgentEvent::ToolExecutionEnd { tool_name, is_error, .. } => {
                &&& tool_name@ == "CreateGoal"@ && !is_error ==> signal_of(event, terminate)
                    == TitleSignal::Execution(TitleWakeReason::GoalStarted)
                &&& (tool_name@ != "CreateGoal"@ || is_error) && terminate ==> signal_of(
                    event,
                    terminate,
                ) == TitleSignal::Terminated
                &&& (tool_name@ != "CreateGoal"@ || is_error) && !terminate ==> signal_of(
                    event,
                    terminate,
                ) == TitleSignal::Ignored
            },
            _ => signal_of(event, terminate) == TitleSignal::Ignored,
        },
{
}

/// The view of a [`TitleSchedulerState`] is made of all its parts, each as it is.
pub proof fn title_scheduler_state_is_viewed_whole(x: &TitleSchedulerState)
    ensures
        x.deep_view() == (TitleSchedulerStateView {
            title: x.title.deep_view(),
            in_flight: x.in_flight,
            rerun: x.rerun,
            generation: x.generation,
        }),
{
}

} // verus!
