//! Background tasks in the task registry: monitors and background shells show
//! there under their own ids, and every change of state is shown.

use crate::table::Table;
use vstd::prelude::*;
use vstd::utf8::encode_utf8;

verus! {

/// Output lines collected before a monitor is shown again.
pub const OUTPUT_EMIT_THRESHOLD: u32 = 5;

/// What a monitor watches.
#[derive(Debug, Clone, Copy, PartialEq, Eq, Structural)]
pub enum MonitorKind {
    Command,
    WebSocket,
}

impl DeepView for MonitorKind {
    type V = MonitorKind;

    open spec fn deep_view(&self) -> MonitorKind {
        *self
    }
}

/// What a task is.
#[derive(Debug, Clone, Copy, PartialEq, Eq, Structural)]
pub enum TaskKind {
    MonitorCommand,
    MonitorWebSocket,
    BackgroundBash,
}

impl DeepView for TaskKind {
    type V = TaskKind;

    open spec fn deep_view(&self) -> TaskKind {
        *self
    }
}

/// State of a monitor.
#[derive(Debug, Clone, Copy, PartialEq, Eq, Structural)]
pub enum MonitorStatus {
    Running,
    Completed,
    TimedOut,
    Stopped,
    Failed,
}

impl DeepView for MonitorStatus {
    type V = MonitorStatus;

    open spec fn deep_view(&self) -> MonitorStatus {
        *self
    }
}

/// State of a task.
#[derive(Debug, Clone, Copy, PartialEq, Eq, Structural)]
pub enum TaskStatus {
    Running,
    Completed,
    TimedOut,
    Stopped,
    Failed,
}

impl DeepView for TaskStatus {
    type V = TaskStatus;

    open spec fn deep_view(&self) -> TaskStatus {
        *self
    }
}

/// An event of a monitor.
#[derive(Debug, PartialEq, Eq)]
pub enum MonitorEvent {
    Spawned {
        id: String,
        description: String,
        kind: MonitorKind,
    },
    Completed {
        id: String,
        exit_code: Option<i32>,
    },
    TimedOut {
        id: String,
    },
    Stopped {
        id: String,
    },
    Failed {
        id: String,
        reason: String,
    },
    Killed {
        id: String,
    },
}

/// The mathematical value of a [`MonitorEvent`].
#[verifier::ext_equal]
pub enum MonitorEventView {
    Spawned {
        id: Seq<char>,
        description: Seq<char>,
        kind: MonitorKind,
    },
    Completed {
        id: Seq<char>,
        exit_code: Option<i32>,
    },
    TimedOut {
        id: Seq<char>,
    },
    Stopped {
        id: Seq<char>,
    },
    Failed {
        id: Seq<char>,
        reason: Seq<char>,
    },
    Killed {
        id: Seq<char>,
    },
}

impl DeepView for MonitorEvent {
    type V = MonitorEventView;

    open spec fn deep_view(&self) -> MonitorEventView {
        match self {
            MonitorEvent::Spawned { id, description, kind } => MonitorEventView::Spawned {
                id: id@,
                description: description@,
                kind: *kind,
            },
            MonitorEvent::Completed { id, exit_code } => MonitorEventView::Completed {
                id: id@,
                exit_code: *exit_code,
            },
            MonitorEvent::TimedOut { id } => MonitorEventView::TimedOut {
                id: id@,
            },
            MonitorEvent::Stopped { id } => MonitorEventView::Stopped {
                id: id@,
            },
            MonitorEvent::Failed { id, reason } => MonitorEventView::Failed {
                id: id@,
                reason: reason@,
            },
            MonitorEvent::Killed { id } => MonitorEventView::Killed {
                id: id@,
            },
        }
    }
}

/// An event of a background shell.
#[derive(Debug, PartialEq, Eq)]
pub enum BackgroundEvent {
    Spawned {
        id: String,
        command: String,
    },
    Completed {
        id: String,
        exit_code: Option<i32>,
    },
    Killed {
        id: String,
    },
    Failed {
        id: String,
        reason: String,
    },
}

/// The mathematical value of a [`BackgroundEvent`].
#[verifier::ext_equal]
pub enum BackgroundEventView {
    Spawned {
        id: Seq<char>,
        command: Seq<char>,
    },
    Completed {
        id: Seq<char>,
        exit_code: Option<i32>,
    },
    Killed {
        id: Seq<char>,
    },
    Failed {
        id: Seq<char>,
        reason: Seq<char>,
    },
}

impl DeepView for BackgroundEvent {
    type V = BackgroundEventView;

    open spec fn deep_view(&self) -> BackgroundEventView {
        match self {
            BackgroundEvent::Spawned { id, command } => BackgroundEventView::Spawned {
                id: id@,
                command: command@,
            },
            BackgroundEvent::Completed { id, exit_code } => BackgroundEventView::Completed {
                id: id@,
                exit_code: *exit_code,
            },
            BackgroundEvent::Killed { id } => BackgroundEventView::Killed {
                id: id@,
            },
            BackgroundEvent::Failed { id, reason } => BackgroundEventView::Failed {
                id: id@,
                reason: reason@,
            },
        }
    }
}

/// Work on the task registry.
#[derive(Debug, PartialEq, Eq)]
pub enum BridgeAction {
    /// Add a task.
    Register {
        id: String,
        kind: TaskKind,
        owner: String,
        description: String,
    },
    SetCommand {
        id: String,
        command: String,
    },
    SetExitCode {
        id: String,
        code: i32,
    },
    SetFailure {
        id: String,
        reason: String,
    },
    /// Add output.
    Push {
        id: String,
        line: String,
    },
    /// Bring a task to its end.
    Finish {
        id: String,
        status: TaskStatus,
    },
    /// Show the state of a task.
    Show {
        id: String,
    },
    /// Watch the output of a task.
    Poll {
        id: String,
    },
}

/// The mathematical value of a [`BridgeAction`].
#[verifier::ext_equal]
pub enum BridgeActionView {
    Register {
        id: Seq<char>,
        kind: TaskKind,
        owner: Seq<char>,
        description: Seq<char>,
    },
    SetCommand {
        id: Seq<char>,
        command: Seq<char>,
    },
    SetExitCode {
        id: Seq<char>,
        code: i32,
    },
    SetFailure {
        id: Seq<char>,
        reason: Seq<char>,
    },
    Push {
        id: Seq<char>,
        line: Seq<char>,
    },
    Finish {
        id: Seq<char>,
        status: TaskStatus,
    },
    Show {
        id: Seq<char>,
    },
    Poll {
        id: Seq<char>,
    },
}

impl DeepView for BridgeAction {
    type V = BridgeActionView;

    open spec fn deep_view(&self) -> BridgeActionView {
        match self {
            BridgeAction::Register { id, kind, owner, description } => BridgeActionView::Register {
                id: id@,
                kind: *kind,
                owner: owner@,
                description: description@,
            },
            BridgeAction::SetCommand { id, command } => BridgeActionView::SetCommand {
                id: id@,
                command: command@,
            },
            BridgeAction::SetExitCode { id, code } => BridgeActionView::SetExitCode {
                id: id@,
                code: *code,
            },
            BridgeAction::SetFailure { id, reason } => BridgeActionView::SetFailure {
                id: id@,
                reason: reason@,
            },
            BridgeAction::Push { id, line } => BridgeActionView::Push {
                id: id@,
                line: line@,
            },
            BridgeAction::Finish { id, status } => BridgeActionView::Finish {
                id: id@,
                status: *status,
            },
            BridgeAction::Show { id } => BridgeActionView::Show {
                id: id@,
            },
            BridgeAction::Poll { id } => BridgeActionView::Poll {
                id: id@,
            },
        }
    }
}

pub open spec fn task_kind(kind: MonitorKind) -> TaskKind {
    match kind {
        MonitorKind::Command => TaskKind::MonitorCommand,
        MonitorKind::WebSocket => TaskKind::MonitorWebSocket,
    }
}

pub fn map_kind(kind: MonitorKind) -> (r: TaskKind)
    ensures
        r == task_kind(kind),
{
    match kind {
        MonitorKind::Command => TaskKind::MonitorCommand,
        MonitorKind::WebSocket => TaskKind::MonitorWebSocket,
    }
}

pub open spec fn task_status(status: MonitorStatus) -> TaskStatus {
    match status {
        MonitorStatus::Running => TaskStatus::Running,
        MonitorStatus::Completed => TaskStatus::Completed,
        MonitorStatus::TimedOut => TaskStatus::TimedOut,
        MonitorStatus::Stopped => TaskStatus::Stopped,
        MonitorStatus::Failed => TaskStatus::Failed,
    }
}

pub fn map_terminal(status: MonitorStatus) -> (r: TaskStatus)
    ensures
        r == task_status(status),
{
    match status {
        MonitorStatus::Running => TaskStatus::Running,
        MonitorStatus::Completed => TaskStatus::Completed,
        MonitorStatus::TimedOut => TaskStatus::TimedOut,
        MonitorStatus::Stopped => TaskStatus::Stopped,
        MonitorStatus::Failed => TaskStatus::Failed,
    }
}

/// The tasks that run, and how much output each gave since it was last shown.
#[derive(Debug)]
pub struct BridgeState {
    pub proxies: Table<TaskKind>,
    pub output_since_emit: Table<u32>,
}

/// The work at the end of a task.
pub open spec fn ending(
    id: Seq<char>,
    status: TaskStatus,
    exit_code: Option<i32>,
    failure: Option<Seq<char>>,
) -> Seq<BridgeActionView> {
    let code = match exit_code {
        Some(code) => seq![BridgeActionView::SetExitCode { id, code }],
        None => seq![],
    };
    let reason = match failure {
        Some(reason) => seq![BridgeActionView::SetFailure { id, reason }],
        None => seq![],
    };
    code + reason + seq![
        BridgeActionView::Finish { id, status },
        BridgeActionView::Show { id },
    ]
}

/// How a monitor ends: its id, its state, its exit code and the reason of a
/// failure.
pub open spec fn monitor_end(ev: MonitorEventView) -> Option<
    (Seq<char>, MonitorStatus, Option<i32>, Option<Seq<char>>),
> {
    match ev {
        MonitorEventView::Spawned { .. } => None,
        MonitorEventView::Completed { id, exit_code } => Some(
            (id, MonitorStatus::Completed, exit_code, None),
        ),
        MonitorEventView::TimedOut { id } => Some((id, MonitorStatus::TimedOut, None, None)),
        MonitorEventView::Stopped { id } => Some((id, MonitorStatus::Stopped, None, None)),
        MonitorEventView::Failed { id, reason } => Some(
            (id, MonitorStatus::Failed, None, Some(reason)),
        ),
        MonitorEventView::Killed { id } => Some((id, MonitorStatus::Stopped, None, None)),
    }
}

/// How a background shell ends.
pub open spec fn background_end(ev: BackgroundEventView) -> Option<
    (Seq<char>, TaskStatus, Option<i32>, Option<Seq<char>>),
> {
    match ev {
        BackgroundEventView::Spawned { .. } => None,
        BackgroundEventView::Completed { id, exit_code } => Some(
            (id, TaskStatus::Completed, exit_code, None),
        ),
        BackgroundEventView::Killed { id } => Some((id, TaskStatus::Stopped, None, None)),
        BackgroundEventView::Failed { id, reason } => Some(
            (id, TaskStatus::Failed, None, Some(reason)),
        ),
    }
}

/// The monitor that an event ends.
pub open spec fn monitor_ended(ev: MonitorEventView) -> Option<Seq<char>> {
    match monitor_end(ev) {
        Some((id, ..)) => Some(id),
        None => None,
    }
}

/// The background shell that an event ends.
pub open spec fn background_ended(ev: BackgroundEventView) -> Option<Seq<char>> {
    match background_end(ev) {
        Some((id, ..)) => Some(id),
        None => None,
    }
}

/// The state in which an event leaves a monitor.
pub open spec fn monitor_left(ev: MonitorEventView) -> TaskStatus {
    match monitor_end(ev) {
        Some((_, status, ..)) => task_status(status),
        None => TaskStatus::Running,
    }
}

/// The work that an end of a task calls for: none where the task does not run.
pub open spec fn end_work(
    running: Map<Seq<char>, TaskKind>,
    id: Seq<char>,
    status: TaskStatus,
    exit_code: Option<i32>,
    failure: Option<Seq<char>>,
) -> Seq<BridgeActionView> {
    if running.contains_key(id) {
        ending(id, status, exit_code, failure)
    } else {
        seq![]
    }
}

/// The work that an event of a monitor calls for.
pub open spec fn monitor_work(
    running: Map<Seq<char>, TaskKind>,
    ev: MonitorEventView,
    owner: Seq<char>,
) -> Seq<BridgeActionView> {
    match monitor_end(ev) {
        Some((id, status, exit_code, failure)) => end_work(
            running,
            id,
            task_status(status),
            exit_code,
            failure,
        ),
        None => seq![
            BridgeActionView::Register {
                id: ev->Spawned_id,
                kind: task_kind(ev->Spawned_kind),
                owner,
                description: ev->Spawned_description,
            },
            BridgeActionView::Show { id: ev->Spawned_id },
        ],
    }
}

/// The tasks that run after an event of a monitor.
pub open spec fn after_monitor(running: Map<Seq<char>, TaskKind>, ev: MonitorEventView) -> Map<
    Seq<char>,
    TaskKind,
> {
    match monitor_end(ev) {
        Some((id, ..)) => running.remove(id),
        None => running.insert(ev->Spawned_id, task_kind(ev->Spawned_kind)),
    }
}

/// The work that an event of a background shell calls for.
pub open spec fn background_work(
    running: Map<Seq<char>, TaskKind>,
    ev: BackgroundEventView,
    owner: Seq<char>,
) -> Seq<BridgeActionView> {
    match background_end(ev) {
        Some((id, status, exit_code, failure)) => end_work(
            running,
            id,
            status,
            exit_code,
            failure,
        ),
        None => seq![
            BridgeActionView::Register {
                id: ev->Spawned_id,
                kind: TaskKind::BackgroundBash,
                owner,
                description: "background bash: "@ + ev->Spawned_command,
            },
            BridgeActionView::SetCommand { id: ev->Spawned_id, command: ev->Spawned_command },
            BridgeActionView::Show { id: ev->Spawned_id },
            BridgeActionView::Poll { id: ev->Spawned_id },
        ],
    }
}

/// The tasks that run after an event of a background shell.
pub open spec fn after_background(
    running: Map<Seq<char>, TaskKind>,
    ev: BackgroundEventView,
) -> Map<Seq<char>, TaskKind> {
    match background_end(ev) {
        Some((id, ..)) => running.remove(id),
        None => running.insert(ev->Spawned_id, TaskKind::BackgroundBash),
    }
}

impl BridgeState {
    pub fn new() -> (r: Self)
        ensures
            r.proxies@ == Map::<Seq<char>, TaskKind>::empty(),
            r.output_since_emit@ == Map::<Seq<char>, u32>::empty(),
    {
        BridgeState { proxies: Table::new(), output_since_emit: Table::new() }
    }

    /// Ends a task, if it runs: a task ends once.
    fn finish(
        &mut self,
        id: String,
        status: TaskStatus,
        exit_code: Option<i32>,
        failure: Option<String>,
    ) -> (r: Vec<BridgeAction>)
        ensures
            r.deep_view() == end_work(
                old(self).proxies@,
                id@,
                status,
                exit_code,
                failure.deep_view(),
            ),
            final(self).proxies@ == old(self).proxies@.remove(id@),
            final(self).output_since_emit == old(self).output_since_emit,
    {
        let mut out: Vec<BridgeAction> = Vec::new();
        if !self.proxies.contains_key(id.as_str()) {
            assert(out.deep_view() =~= seq![]);
            assert(self.proxies@.remove(id@) =~= self.proxies@);
            return out;
        }
        self.proxies.remove(id.as_str());
        let ghost reason_view = failure.deep_view();
        match exit_code {
            Some(code) => {
                out.push(BridgeAction::SetExitCode { id: id.clone(), code });
            },
            None => {},
        }
        match failure {
            Some(reason) => {
                out.push(BridgeAction::SetFailure { id: id.clone(), reason });
            },
            None => {},
        }
        out.push(BridgeAction::Finish { id: id.clone(), status });
        out.push(BridgeAction::Show { id });
        assert(out.deep_view() =~= ending(id@, status, exit_code, reason_view));
        out
    }

    /// Takes an event of a monitor of the thread `owner`.
    pub fn handle_monitor_event(&mut self, ev: MonitorEvent, owner: &str) -> (r: Vec<BridgeAction>)
        ensures
            r.deep_view() == monitor_work(old(self).proxies@, ev.deep_view(), owner@),
            final(self).proxies@ == after_monitor(old(self).proxies@, ev.deep_view()),
            final(self).output_since_emit == old(self).output_since_emit,
    {
        match ev {
            MonitorEvent::Spawned { id, description, kind } => {
                let kind = map_kind(kind);
                self.proxies.insert(id.clone(), kind);
                let mut out: Vec<BridgeAction> = Vec::new();
                out.push(
                    BridgeAction::Register {
                        id: id.clone(),
                        kind,
                        owner: owner.to_owned(),
                        description,
                    },
                );
                out.push(BridgeAction::Show { id });
                assert(out.deep_view() =~= seq![
                    BridgeActionView::Register {
                        id: id@,
                        kind,
                        owner: owner@,
                        description: description@,
                    },
                    BridgeActionView::Show { id: id@ },
                ]);
                out
            },
            MonitorEvent::Completed { id, exit_code } => {
                self.finish(id, map_terminal(MonitorStatus::Completed), exit_code, None)
            },
            MonitorEvent::TimedOut { id } => {
                self.finish(id, map_terminal(MonitorStatus::TimedOut), None, None)
            },
            MonitorEvent::Stopped { id } => {
                self.finish(id, map_terminal(MonitorStatus::Stopped), None, None)
            },
            MonitorEvent::Failed { id, reason } => {
                self.finish(id, map_terminal(MonitorStatus::Failed), None, Some(reason))
            },
            MonitorEvent::Killed { id } => {
                self.finish(id, map_terminal(MonitorStatus::Stopped), None, None)
            },
        }
    }

    /// Takes a line of output of a monitor: every fifth line the task is shown.
    pub fn handle_monitor_output(&mut self, id: String, line: String) -> (r: Vec<BridgeAction>)
        ensures
            final(self).proxies == old(self).proxies,
            if old(self).proxies@.contains_key(id@) {
                let seen = if old(self).output_since_emit@.contains_key(id@) {
                    old(self).output_since_emit@[id@]
                } else {
                    0
                };
                let push = BridgeActionView::Push { id: id@, line: line@ };
                if seen + 1 >= OUTPUT_EMIT_THRESHOLD {
                    &&& r.deep_view() == seq![push, BridgeActionView::Show { id: id@ }]
                    &&& final(self).output_since_emit@ == old(self).output_since_emit@.insert(
                        id@,
                        0,
                    )
                } else {
                    &&& r.deep_view() == seq![push]
                    &&& final(self).output_since_emit@ == old(self).output_since_emit@.insert(
                        id@,
                        (seen + 1) as u32,
                    )
                }
            } else {
                &&& r.deep_view() == Seq::<BridgeActionView>::empty()
                &&& final(self).output_since_emit == old(self).output_since_emit
            },
    {
        let mut out: Vec<BridgeAction> = Vec::new();
        if !self.proxies.contains_key(id.as_str()) {
            assert(out.deep_view() =~= Seq::<BridgeActionView>::empty());
            return out;
        }
        let seen: u32 = match self.output_since_emit.get(id.as_str()) {
            Some(n) => *n,
            None => 0,
        };
        let ghost push = BridgeActionView::Push { id: id@, line: line@ };
        out.push(BridgeAction::Push { id: id.clone(), line });
        if seen >= OUTPUT_EMIT_THRESHOLD - 1 {
            self.output_since_emit.insert(id.clone(), 0);
            out.push(BridgeAction::Show { id });
            assert(out.deep_view() =~= seq![push, BridgeActionView::Show { id: id@ }]);
        } else {
            self.output_since_emit.insert(id, seen + 1);
            assert(out.deep_view() =~= seq![push]);
        }
        out
    }

    /// Takes an event of a background shell of the thread `owner`.
    pub fn handle_background_event(
        &mut self,
        ev: BackgroundEvent,
        owner: &str,
    ) -> (r: Vec<BridgeAction>)
        ensures
            r.deep_view() == background_work(old(self).proxies@, ev.deep_view(), owner@),
            final(self).proxies@ == after_background(old(self).proxies@, ev.deep_view()),
            final(self).output_since_emit == old(self).output_since_emit,
    {
        match ev {
            BackgroundEvent::Spawned { id, command } => {
                self.proxies.insert(id.clone(), TaskKind::BackgroundBash);
                let mut description = "background bash: ".to_owned();
                description.append(command.as_str());
                let mut out: Vec<BridgeAction> = Vec::new();
                out.push(
                    BridgeAction::Register {
                        id: id.clone(),
                        kind: TaskKind::BackgroundBash,
                        owner: owner.to_owned(),
                        description,
                    },
                );
                out.push(BridgeAction::SetCommand { id: id.clone(), command });
                out.push(BridgeAction::Show { id: id.clone() });
                out.push(BridgeAction::Poll { id });
                assert(out.deep_view() =~= seq![
                    BridgeActionView::Register {
                        id: id@,
                        kind: TaskKind::BackgroundBash,
                        owner: owner@,
                        description: "background bash: "@ + command@,
                    },
                    BridgeActionView::SetCommand { id: id@, command: command@ },
                    BridgeActionView::Show { id: id@ },
                    BridgeActionView::Poll { id: id@ },
                ]);
                out
            },
            BackgroundEvent::Completed { id, exit_code } => {
                self.finish(id, TaskStatus::Completed, exit_code, None)
            },
            BackgroundEvent::Killed { id } => self.finish(id, TaskStatus::Stopped, None, None),
            BackgroundEvent::Failed { id, reason } => {
                self.finish(id, TaskStatus::Failed, None, Some(reason))
            },
        }
    }
}

// ---------------------------------------------------------------------------
// Polling
// ---------------------------------------------------------------------------

/// What a look at the output of a background shell gave.
#[derive(Debug, PartialEq, Eq)]
pub struct PollStep {
    /// Output to add, after which the task is shown.
    pub push: Option<String>,
    /// How many bytes were seen.
    pub seen: usize,
    /// Whether to stop watching.
    pub stop: bool,
}

/// Looks at the end of the output of a background shell; `seen` bytes of it were
/// seen before. What is new is added; output that rotated past what was seen is
/// taken from its current end.
pub fn poll_output(seen: usize, tail: &str, is_running: bool) -> (r: PollStep)
    requires
        encode_utf8(tail@).len() > seen ==> vstd::utf8::is_char_boundary(
            encode_utf8(tail@),
            seen as int,
        ),
    ensures
        ({
            let bytes = encode_utf8(tail@);
            &&& r.seen == bytes.len()
            &&& r.stop == !is_running
            &&& if bytes.len() > seen {
                r.push matches Some(s) && encode_utf8(s@) == bytes.skip(seen as int)
            } else if bytes.len() < seen && bytes.len() > 0 {
                r.push matches Some(s) && s@ == tail@
            } else {
                r.push is None
            }
        }),
{
    let n: usize = tail.as_bytes().len();
    let push = if n > seen {
        let (_, fresh) = tail.split_at(seen);
        assert(encode_utf8(fresh@) =~= encode_utf8(tail@).skip(seen as int));
        Some(fresh.to_owned())
    } else if n < seen && n > 0 {
        Some(tail.to_owned())
    } else {
        None
    };
    PollStep { push, seen: n, stop: !is_running }
}

/// A monitor ends once: an end that comes after its end does nothing.
pub proof fn a_monitor_ends_once(
    running: Map<Seq<char>, TaskKind>,
    end: MonitorEventView,
    later: MonitorEventView,
    owner: Seq<char>,
)
    requires
        monitor_ended(end) is Some,
        monitor_ended(later) == monitor_ended(end),
    ensures
        monitor_work(after_monitor(running, end), later, owner) == Seq::<BridgeActionView>::empty(),
        after_monitor(after_monitor(running, end), later) == after_monitor(running, end),
{
    let id = monitor_ended(end)->0;
    assert(running.remove(id).remove(id) =~= running.remove(id));
}

/// A background shell ends once: an end that comes after its end does nothing.
pub proof fn a_shell_ends_once(
    running: Map<Seq<char>, TaskKind>,
    end: BackgroundEventView,
    later: BackgroundEventView,
    owner: Seq<char>,
)
    requires
        background_ended(end) is Some,
        background_ended(later) == background_ended(end),
    ensures
        background_work(after_background(running, end), later, owner) == Seq::<
            BridgeActionView,
        >::empty(),
        after_background(after_background(running, end), later) == after_background(running, end),
{
    let id = background_ended(end)->0;
    assert(running.remove(id).remove(id) =~= running.remove(id));
}

/// A monitor that was started is brought to its end, and is forgotten then.
pub proof fn a_started_monitor_is_finished(
    running: Map<Seq<char>, TaskKind>,
    start: MonitorEventView,
    end: MonitorEventView,
    owner: Seq<char>,
)
    requires
        start is Spawned,
        monitor_ended(end) == Some(start->Spawned_id),
    ensures
        ({
            let id = start->Spawned_id;
            let done = monitor_work(after_monitor(running, start), end, owner);
            &&& done.len() >= 2
            &&& done[done.len() - 2] == (BridgeActionView::Finish {
                id,
                status: monitor_left(end),
            })
            &&& done.last() == (BridgeActionView::Show { id })
            &&& !after_monitor(after_monitor(running, start), end).contains_key(id)
        }),
{
}

/// A monitor that starts is registered under its id with its owner, its description and
/// its kind, and is shown; from then on it runs.
pub proof fn a_monitor_is_registered_when_it_starts(
    running: Map<Seq<char>, TaskKind>,
    id: Seq<char>,
    description: Seq<char>,
    kind: MonitorKind,
    owner: Seq<char>,
)
    ensures
        ({
            let ev = MonitorEventView::Spawned { id, description, kind };
            let task = match kind {
                MonitorKind::Command => TaskKind::MonitorCommand,
                MonitorKind::WebSocket => TaskKind::MonitorWebSocket,
            };
            &&& monitor_work(running, ev, owner) == seq![
                BridgeActionView::Register { id, kind: task, owner, description },
                BridgeActionView::Show { id },
            ]
            &&& after_monitor(running, ev) == running.insert(id, task)
        }),
{
}

/// A shell command in the background is registered with its owner and its command, is
/// shown, and its output is followed.
pub proof fn a_shell_is_registered_when_it_starts(
    running: Map<Seq<char>, TaskKind>,
    id: Seq<char>,
    command: Seq<char>,
    owner: Seq<char>,
)
    ensures
        ({
            let ev = BackgroundEventView::Spawned { id, command };
            &&& background_work(running, ev, owner) == seq![
                BridgeActionView::Register {
                    id,
                    kind: TaskKind::BackgroundBash,
                    owner,
                    description: "background bash: "@ + command,
                },
                BridgeActionView::SetCommand { id, command },
                BridgeActionView::Show { id },
                BridgeActionView::Poll { id },
            ]
            &&& after_background(running, ev) == running.insert(id, TaskKind::BackgroundBash)
        }),
{
}

/// A monitor that runs ends with the status of its end: an exit code or a reason comes
/// before it, and it is shown. It then no longer runs, and every other one does as
/// before.
pub proof fn a_monitor_ends_as_it_ended(
    running: Map<Seq<char>, TaskKind>,
    id: Seq<char>,
    code: i32,
    reason: Seq<char>,
    owner: Seq<char>,
)
    requires
        running.contains_key(id),
    ensures
        monitor_work(running, MonitorEventView::Completed { id, exit_code: Some(code) }, owner)
            == seq![
            BridgeActionView::SetExitCode { id, code },
            BridgeActionView::Finish { id, status: TaskStatus::Completed },
            BridgeActionView::Show { id },
        ],
        monitor_work(running, MonitorEventView::Completed { id, exit_code: None }, owner) == seq![
            BridgeActionView::Finish { id, status: TaskStatus::Completed },
            BridgeActionView::Show { id },
        ],
        monitor_work(running, MonitorEventView::TimedOut { id }, owner) == seq![
            BridgeActionView::Finish { id, status: TaskStatus::TimedOut },
            BridgeActionView::Show { id },
        ],
        monitor_work(running, MonitorEventView::Stopped { id }, owner) == seq![
            BridgeActionView::Finish { id, status: TaskStatus::Stopped },
            BridgeActionView::Show { id },
        ],
        monitor_work(running, MonitorEventView::Killed { id }, owner) == seq![
            BridgeActionView::Finish { id, status: TaskStatus::Stopped },
            BridgeActionView::Show { id },
        ],
        monitor_work(running, MonitorEventView::Failed { id, reason }, owner) == seq![
            BridgeActionView::SetFailure { id, reason },
            BridgeActionView::Finish { id, status: TaskStatus::Failed },
            BridgeActionView::Show { id },
        ],
        after_monitor(running, MonitorEventView::Completed { id, exit_code: Some(code) })
            == running.remove(id),
        after_monitor(running, MonitorEventView::TimedOut { id }) == running.remove(id),
        after_monitor(running, MonitorEventView::Stopped { id }) == running.remove(id),
        after_monitor(running, MonitorEventView::Killed { id }) == running.remove(id),
        after_monitor(running, MonitorEventView::Failed { id, reason }) == running.remove(id),
{
}

/// A shell command in the background that runs ends as it ended.
pub proof fn a_shell_ends_as_it_ended(
    running: Map<Seq<char>, TaskKind>,
    id: Seq<char>,
    code: i32,
    reason: Seq<char>,
    owner: Seq<char>,
)
    requires
        running.contains_key(id),
    ensures
        background_work(running, BackgroundEventView::Completed { id, exit_code: Some(code) }, owner)
            == seq![
            BridgeActionView::SetExitCode { id, code },
            BridgeActionView::Finish { id, status: TaskStatus::Completed },
            BridgeActionView::Show { id },
        ],
        background_work(running, BackgroundEventView::Completed { id, exit_code: None }, owner)
            == seq![
            BridgeActionView::Finish { id, status: TaskStatus::Completed },
            BridgeActionView::Show { id },
        ],
        background_work(running, BackgroundEventView::Killed { id }, owner) == seq![
            BridgeActionView::Finish { id, status: TaskStatus::Stopped },
            BridgeActionView::Show { id },
        ],
        background_work(running, BackgroundEventView::Failed { id, reason }, owner) == seq![
            BridgeActionView::SetFailure { id, reason },
            BridgeActionView::Finish { id, status: TaskStatus::Failed },
            BridgeActionView::Show { id },
        ],
        after_background(running, BackgroundEventView::Completed { id, exit_code: Some(code) })
            == running.remove(id),
        after_background(running, BackgroundEventView::Killed { id }) == running.remove(id),
        after_background(running, BackgroundEventView::Failed { id, reason }) == running.remove(id),
{
}

/// An end that nothing is known to run for does nothing.
pub proof fn an_unknown_end_does_nothing(
    running: Map<Seq<char>, TaskKind>,
    id: Seq<char>,
    code: Option<i32>,
    owner: Seq<char>,
)
    requires
        !running.contains_key(id),
    ensures
        monitor_work(running, MonitorEventView::Completed { id, exit_code: code }, owner).len() == 0,
        background_work(
            running,
            BackgroundEventView::Completed { id, exit_code: code },
            owner,
        ).len() == 0,
        task_status(MonitorStatus::Running) == TaskStatus::Running,
        task_status(MonitorStatus::Completed) == TaskStatus::Completed,
        task_status(MonitorStatus::TimedOut) == TaskStatus::TimedOut,
        task_status(MonitorStatus::Stopped) == TaskStatus::Stopped,
        task_status(MonitorStatus::Failed) == TaskStatus::Failed,
        task_kind(MonitorKind::Command) == TaskKind::MonitorCommand,
        task_kind(MonitorKind::WebSocket) == TaskKind::MonitorWebSocket,
{
}

/// The view of a [`MonitorEvent`] is made of all its parts, each as it is.
pub proof fn monitor_event_is_viewed_whole(x: &MonitorEvent)
    ensures
        match x {
            MonitorEvent::Spawned { id, description, kind } => x.deep_view() == (MonitorEventView::Spawned {
                id: id@,
                description: description@,
                kind: *kind,
            }),
            MonitorEvent::Completed { id, exit_code } => x.deep_view() == (MonitorEventView::Completed {
                id: id@,
                exit_code: *exit_code,
            }),
            MonitorEvent::TimedOut { id } => x.deep_view() == (MonitorEventView::TimedOut {
                id: id@,
            }),
            MonitorEvent::Stopped { id } => x.deep_view() == (MonitorEventView::Stopped {
                id: id@,
            }),
            MonitorEvent::Failed { id, reason } => x.deep_view() == (MonitorEventView::Failed {
                id: id@,
                reason: reason@,
            }),
            MonitorEvent::Killed { id } => x.deep_view() == (MonitorEventView::Killed {
                id: id@,
            }),
        },
{
}

/// The view of a [`BackgroundEvent`] is made of all its parts, each as it is.
pub proof fn background_event_is_viewed_whole(x: &BackgroundEvent)
    ensures
        match x {
            BackgroundEvent::Spawned { id, command } => x.deep_view() == (BackgroundEventView::Spawned {
                id: id@,
                command: command@,
            }),
            BackgroundEvent::Completed { id, exit_code } => x.deep_view() == (BackgroundEventView::Completed {
                id: id@,
                exit_code: *exit_code,
            }),
            BackgroundEvent::Killed { id } => x.deep_view() == (BackgroundEventView::Killed {
                id: id@,
            }),
            BackgroundEvent::Failed { id, reason } => x.deep_view() == (BackgroundEventView::Failed {
                id: id@,
                reason: reason@,
            }),
        },
{
}

/// The view of a [`BridgeAction`] is made of all its parts, each as it is.
pub proof fn bridge_action_is_viewed_whole(x: &BridgeAction)
    ensures
        match x {
            BridgeAction::Register { id, kind, owner, description } => x.deep_view() == (BridgeActionView::Register {
                id: id@,
                kind: *kind,
                owner: owner@,
                description: description@,
            }),
            BridgeAction::SetCommand { id, command } => x.deep_view() == (BridgeActionView::SetCommand {
                id: id@,
                command: command@,
            }),
            BridgeAction::SetExitCode { id, code } => x.deep_view() == (BridgeActionView::SetExitCode {
                id: id@,
                code: *code,
            }),
            BridgeAction::SetFailure { id, reason } => x.deep_view() == (BridgeActionView::SetFailure {
                id: id@,
                reason: reason@,
            }),
            BridgeAction::Push { id, line } => x.deep_view() == (BridgeActionView::Push {
                id: id@,
                line: line@,
            }),
            BridgeAction::Finish { id, status } => x.deep_view() == (BridgeActionView::Finish {
                id: id@,
                status: *status,
            }),
            BridgeAction::Show { id } => x.deep_view() == (BridgeActionView::Show {
                id: id@,
            }),
            BridgeAction::Poll { id } => x.deep_view() == (BridgeActionView::Poll {
                id: id@,
            }),
        },
{
}

/// Every fifth line of output is shown.
pub proof fn every_fifth_line_is_shown()
    ensures
        OUTPUT_EMIT_THRESHOLD == 5,
{
}

} // verus!
