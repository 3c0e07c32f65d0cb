//! Starting a session: which file is restored, what it brings along, and the
//! preview that shows while it loads.

use crate::actor::{event, sidecar, ActorState, ActorStateView};
use crate::adapt::{harness_messages_to_messages, message_row_entries, transcript_rows};
use crate::engine::{Action, ActionView, BackendNotice, BackendNoticeView, ReadyInfo, ReadyInfoView};
use crate::harness::AgentMessage;
use crate::history::{bodies, ids_drawn, row_ids_drawn, rows, HistoryEntry};
use crate::json::Json;
use crate::language_model::ReasoningEffort;
use crate::models::Model;
use crate::outside::{debug_quote, debug_quoted};
use crate::pathname::{file_name, file_name_of, is_same_file, join_path, joined, same_file};
use crate::plan_mode::PlanSessionStateView;
use crate::session::{metadata_model, session_metadata};
use crate::sidecar::{
    load_plan_review_pending, load_plan_snapshot, load_plan_state, load_reasoning_effort,
    load_worktree_state, stored_mode, SessionMeta, SidecarUpdate, SidecarUpdateView,
};
use crate::text::{clone_opt_string, join, join_strings, opt_str_view, str_eq, strs};
use crate::thread::{ThreadEvent, ThreadEventView};
use crate::toolset::{default_active_tool_names, not_browser, BrowserSuite};
use vstd::prelude::*;

verus! {

// ---------------------------------------------------------------------------
// Which session
// ---------------------------------------------------------------------------

/// A session file that may be restored.
#[derive(Debug, PartialEq, Eq)]
pub struct SessionCandidate {
    pub id: String,
    pub path: String,
    pub cwd: String,
    pub message_count: usize,
    /// Whether this host created it.
    pub ours: bool,
}

/// Whether a session is restored: the requested one, else one with messages; in
/// any case one of this host.
pub open spec fn eligible(c: SessionCandidate, requested: Option<Seq<char>>) -> bool {
    c.ours && match requested {
        Some(p) => same_file(c.path@, p),
        None => c.message_count > 0,
    }
}

/// The position of the first session to restore at or behind `i`.
pub open spec fn eligible_at(
    cs: Seq<SessionCandidate>,
    requested: Option<Seq<char>>,
    i: int,
) -> int
    decreases cs.len() - i,
{
    if i >= cs.len() || eligible(cs[i], requested) {
        i
    } else {
        eligible_at(cs, requested, i + 1)
    }
}

/// The session to restore: none for a fresh thread, else the first eligible one
/// of the list, which starts with the newest.
pub fn choose_session(
    fresh: bool,
    candidates: &Vec<SessionCandidate>,
    requested: Option<&str>,
) -> (r: Option<usize>)
    ensures
        ({
            let i = eligible_at(candidates@, opt_str_view(requested), 0);
            match r {
                Some(k) => !fresh && k == i && k < candidates@.len(),
                None => fresh || i >= candidates@.len(),
            }
        }),
{
    if fresh {
        return None;
    }
    let mut i: usize = 0;
    while i < candidates.len()
        invariant
            i <= candidates@.len(),
            !fresh,
            eligible_at(candidates@, opt_str_view(requested), 0) == eligible_at(
                candidates@,
                opt_str_view(requested),
                i as int,
            ),
        decreases candidates@.len() - i,
    {
        let c = &candidates[i];
        let fits = match requested {
            Some(p) => is_same_file(c.path.as_str(), p),
            None => c.message_count > 0,
        };
        if c.ours && fits {
            return Some(i);
        }
        i += 1;
    }
    None
}

/// A session of another host is never restored, not even on request.
pub proof fn another_hosts_session_is_not_restored(
    cs: Seq<SessionCandidate>,
    requested: Option<Seq<char>>,
    i: int,
)
    requires
        0 <= i <= cs.len(),
    ensures
        ({
            let k = eligible_at(cs, requested, i);
            &&& i <= k <= cs.len()
            &&& k < cs.len() ==> cs[k].ours
            &&& k < cs.len() && requested is Some ==> same_file(cs[k].path@, requested->0)
        }),
    decreases cs.len() - i,
{
    if i < cs.len() && !eligible(cs[i], requested) {
        another_hosts_session_is_not_restored(cs, requested, i + 1);
    }
}

/// A session started without a project recorded the root directory; it runs in
/// `fallback` instead.
pub open spec fn healed(recorded: Seq<char>, fallback: Seq<char>) -> Seq<char> {
    if recorded == "/"@ {
        fallback
    } else {
        recorded
    }
}

/// The directory that a restored session runs in.
pub fn healed_cwd(recorded: &str, fallback: &str) -> (r: String)
    ensures
        r@ == healed(recorded@, fallback@),
{
    if str_eq(recorded, "/") {
        fallback.to_owned()
    } else {
        recorded.to_owned()
    }
}

/// The position of the first session in `path` at or behind `i`.
pub open spec fn recorded_at(cs: Seq<SessionCandidate>, path: Seq<char>, i: int) -> int
    decreases cs.len() - i,
{
    if i >= cs.len() || same_file(cs[i].path@, path) {
        i
    } else {
        recorded_at(cs, path, i + 1)
    }
}

/// The directory that the session in `path` runs in: the recorded one, healed,
/// else `fallback`.
pub fn session_cwd(candidates: &Vec<SessionCandidate>, path: &str, fallback: &str) -> (r: String)
    ensures
        ({
            let i = recorded_at(candidates@, path@, 0);
            r@ == if i < candidates@.len() {
                healed(candidates@[i].cwd@, fallback@)
            } else {
                fallback@
            }
        }),
{
    let mut i: usize = 0;
    while i < candidates.len()
        invariant
            i <= candidates@.len(),
            recorded_at(candidates@, path@, 0) == recorded_at(candidates@, path@, i as int),
        decreases candidates@.len() - i,
    {
        if is_same_file(candidates[i].path.as_str(), path) {
            return healed_cwd(candidates[i].cwd.as_str(), fallback);
        }
        i += 1;
    }
    fallback.to_owned()
}

/// The model to work with, or the notice that there is none.
pub fn resolve_model(model: Option<Model>, default: Option<Model>) -> (r: Result<
    Model,
    BackendNotice,
>)
    ensures
        match model {
            Some(m) => r == Ok::<Model, BackendNotice>(m),
            None => match default {
                Some(m) => r == Ok::<Model, BackendNotice>(m),
                None => r matches Err(n) && n.deep_view() == BackendNoticeView::Fatal(
                    "no model configured — add a provider in Settings"@,
                ),
            },
        },
{
    match model {
        Some(m) => Ok(m),
        None => match default {
            Some(m) => Ok(m),
            None => Err(
                BackendNotice::Fatal("no model configured — add a provider in Settings".to_owned()),
            ),
        },
    }
}

// ---------------------------------------------------------------------------
// How it is built
// ---------------------------------------------------------------------------

/// What a session is built from.
#[derive(Debug)]
pub struct SessionSpec {
    pub cwd: String,
    pub sessions_dir: String,
    /// The model to start with; a restored session brings its own.
    pub model: Option<Model>,
    pub active_tools: Vec<String>,
    /// Where edit snapshots are kept across restarts.
    pub snapshot_dir: Option<String>,
    pub metadata: Json,
}

/// What a session is built from: the tools but the browser suites are active, and
/// the header names the host, the thread and, for a team worker, the leader.
pub fn session_builder(
    cwd: &str,
    sessions_dir: &str,
    model: Option<&Model>,
    tools: &Vec<String>,
    config_dir: Option<&str>,
    host: &str,
    thread_id: &str,
    parent_session: Option<&str>,
) -> (r: SessionSpec)
    ensures
        r.cwd@ == cwd@,
        r.sessions_dir@ == sessions_dir@,
        match model {
            Some(m) => r.model matches Some(own) && own.deep_view() == m.deep_view(),
            None => r.model is None,
        },
        strs(r.active_tools@) == strs(tools@).filter(not_browser()),
        match config_dir {
            Some(d) => r.snapshot_dir matches Some(s) && s@ == joined(
                d@,
                "hashline-snapshots"@,
            ),
            None => r.snapshot_dir is None,
        },
        r.metadata.model() == metadata_model(host@, thread_id@, opt_str_view(parent_session)),
{
    let model = match model {
        Some(m) => Some(m.clone()),
        None => None,
    };
    let snapshot_dir = match config_dir {
        Some(d) => Some(join_path(d, "hashline-snapshots")),
        None => None,
    };
    SessionSpec {
        cwd: cwd.to_owned(),
        sessions_dir: sessions_dir.to_owned(),
        model,
        active_tools: default_active_tool_names(tools),
        snapshot_dir,
        metadata: session_metadata(host, thread_id, parent_session),
    }
}

pub open spec fn quoted_names(quoted: Seq<Seq<char>>) -> Seq<char> {
    "["@ + join(quoted, ", "@) + "]"@
}

/// What a failed build is answered with; `quoted` are the names of the registered
/// providers between quotes.
pub open spec fn build_failure_text(error: Seq<char>, quoted: Seq<Seq<char>>) -> Seq<char> {
    "pi session build failed: "@ + error + " (registered providers: "@ + quoted_names(quoted) + ")"@
}

/// The notice of a failed build, with the names between quotes.
pub fn build_failure_of(error: &str, quoted: &Vec<String>) -> (r: BackendNotice)
    ensures
        r.deep_view() == BackendNoticeView::Fatal(build_failure_text(error@, strs(quoted@))),
{
    let mut text = "pi session build failed: ".to_owned();
    text.append(error);
    text.append(" (registered providers: ");
    text.append("[");
    let names = join_strings(quoted, ", ");
    text.append(names.as_str());
    text.append("]");
    text.append(")");
    assert(text@ =~= build_failure_text(error@, strs(quoted@)));
    BackendNotice::Fatal(text)
}

/// The notice of a failed build: it names the providers that were registered.
pub fn build_failure(error: &str, registered: &Vec<String>) -> (r: BackendNotice)
    ensures
        r.deep_view() == BackendNoticeView::Fatal(
            build_failure_text(
                error@,
                Seq::new(registered@.len(), |i: int| debug_quoted(registered@[i]@)),
            ),
        ),
{
    let ghost wanted = Seq::new(registered@.len(), |i: int| debug_quoted(registered@[i]@));
    let mut quoted: Vec<String> = Vec::new();
    for i in 0..registered.len()
        invariant
            wanted == Seq::new(registered@.len(), |i: int| debug_quoted(registered@[i]@)),
            strs(quoted@) == wanted.take(i as int),
    {
        let ghost before = strs(quoted@);
        quoted.push(debug_quote(registered[i].as_str()));
        assert(strs(quoted@) =~= before.push(wanted[i as int]));
        assert(strs(quoted@) =~= wanted.take(i + 1));
    }
    assert(strs(quoted@) =~= wanted);
    build_failure_of(error, &quoted)
}

/// The name of an instruction file; `fallback` where the path has none.
pub fn context_file_name(path: &str, fallback: &str) -> (r: String)
    ensures
        r@ == match file_name_of(path@) {
            Some(n) => n,
            None => fallback@,
        },
{
    match file_name(path) {
        Some(n) => n,
        None => fallback.to_owned(),
    }
}

// ---------------------------------------------------------------------------
// What it brings along
// ---------------------------------------------------------------------------

impl ActorState {
    /// Before a session is restored its worktree is known: the tools of the
    /// session are confined by it.
    pub fn hydrate(&mut self, meta: Option<&SessionMeta>)
        ensures
            final(self).deep_view() == (ActorStateView {
                worktree: match meta {
                    Some(m) => m.deep_view().worktree,
                    None => None,
                },
                ..old(self).deep_view()
            }),
    {
        self.worktree = load_worktree_state(meta);
    }

    /// Takes the end of a restore: the session brings its model along; where the
    /// restore failed, a fresh session follows, without a worktree.
    pub fn on_restored(&mut self, opened: Option<Model>)
        ensures
            final(self).deep_view() == match opened {
                Some(m) => ActorStateView { model: Some(m.deep_view()), ..old(self).deep_view() },
                None => ActorStateView { worktree: None, ..old(self).deep_view() },
            },
    {
        match opened {
            Some(m) => {
                self.model = Some(m);
            },
            None => {
                self.worktree = None;
            },
        }
    }
}

/// What a session is started with.
#[derive(Debug)]
pub struct StartFacts {
    /// The file of the session.
    pub path: String,
    pub restored: bool,
    pub project: Option<String>,
    pub suites: Vec<BrowserSuite>,
    /// The plan-mode instructions, rendered.
    pub instructions: Option<String>,
    /// The worktree that the sidecar of the restored session names.
    pub worktree_path: Option<String>,
}

/// The plan state that the sidecar names.
pub open spec fn restored_plan(
    meta: Option<SessionMeta>,
    instructions: Option<Seq<char>>,
) -> PlanSessionStateView {
    let on = meta matches Some(m) && m.deep_view().planning();
    PlanSessionStateView {
        enabled: on,
        plan_file: match meta {
            Some(m) => m.deep_view().plan_file,
            None => None,
        },
        active_instructions: if on {
            instructions
        } else {
            None
        },
    }
}

pub open spec fn opt_meta(meta: Option<&SessionMeta>) -> Option<SessionMeta> {
    match meta {
        Some(m) => Some(*m),
        None => None,
    }
}

/// What a session that is ready reports.
pub open spec fn ready_info(
    state: ActorStateView,
    meta: Option<SessionMeta>,
    restored: bool,
    suites: Seq<BrowserSuite>,
) -> ReadyInfoView {
    ReadyInfoView {
        restored,
        model: state.model,
        permission_mode: match meta {
            Some(m) => m.deep_view().mode(),
            None => crate::sidecar::empty_meta().mode(),
        },
        reasoning_effort: match meta {
            Some(m) => m.deep_view().effort(),
            None => ReasoningEffort::High,
        },
        browser_suites: suites,
        plan_mode: meta matches Some(m) && m.deep_view().planning(),
        plan_file: match meta {
            Some(m) => m.deep_view().plan_file,
            None => None,
        },
        plan_review_pending: meta matches Some(m) && m.deep_view().plan_review_pending == Some(
            true,
        ),
        plan_snapshot: match meta {
            Some(m) => m.deep_view().plan_snapshot,
            None => None,
        },
    }
}

/// The work of a start, in order: the project, the list, the stored mode and
/// effort, the mirrors, the notice, and last the worktree, which the thread can
/// show only once it is ready.
pub open spec fn start_work(
    state: ActorStateView,
    meta: Option<SessionMeta>,
    facts: StartFacts,
) -> Seq<ActionView> {
    let info = ready_info(state, meta, facts.restored, facts.suites.deep_view());
    let project = match facts.project {
        Some(p) => seq![sidecar(facts.path@, SidecarUpdateView::Project(p@))],
        None => seq![],
    };
    let listed = seq![
        ActionView::RefreshSessionList,
        ActionView::Subscribe { path: facts.path@ },
        ActionView::SetPermissionMode(info.permission_mode),
    ];
    let effort = if info.reasoning_effort == ReasoningEffort::High {
        seq![]
    } else {
        seq![ActionView::SetThinkingLevel(Some(info.reasoning_effort.wire()))]
    };
    let usage = if facts.restored {
        seq![ActionView::SyncUsage]
    } else {
        seq![]
    };
    let worktree = match facts.worktree_path {
        Some(p) => seq![
            event(ThreadEventView::WorktreeChanged { active: true, path: Some(p@) }),
        ],
        None => seq![],
    };
    project + listed + effort + seq![ActionView::SyncHistory] + usage + seq![
        ActionView::Notice(BackendNoticeView::Ready(info)),
    ] + worktree
}

impl ActorState {
    /// Starts the session that was restored or built. Everything is mirrored
    /// before the notice that it is ready, and a restored session counts as
    /// started in the eyes of the plugins.
    pub fn start(&mut self, meta: Option<&SessionMeta>, facts: StartFacts) -> (r: Vec<Action>)
        ensures
            r.deep_view() == start_work(old(self).deep_view(), opt_meta(meta), facts),
            final(self).deep_view() == (ActorStateView {
                active_path: Some(facts.path@),
                plan: restored_plan(opt_meta(meta), facts.instructions.deep_view()),
                session_start_fired: old(self).deep_view().session_start_fired || facts.restored,
                ..old(self).deep_view()
            }),
    {
        let ghost before = self.deep_view();
        let mut out: Vec<Action> = Vec::new();
        match &facts.project {
            Some(p) => {
                out.push(
                    Action::Sidecar {
                        path: facts.path.clone(),
                        update: SidecarUpdate::Project(p.clone()),
                    },
                );
            },
            None => {},
        }
        out.push(Action::RefreshSessionList);
        out.push(Action::Subscribe { path: facts.path.clone() });
        let permission_mode = stored_mode(meta);
        out.push(Action::SetPermissionMode(permission_mode));
        let reasoning_effort = load_reasoning_effort(meta);
        if reasoning_effort != ReasoningEffort::High {
            out.push(Action::SetThinkingLevel(Some(reasoning_effort.wire_value().to_owned())));
        }
        let (plan_mode, plan_file) = load_plan_state(meta);
        self.plan.set(plan_mode, clone_opt_string(&plan_file));
        if plan_mode {
            self.plan.set_active_instructions(facts.instructions);
        }
        out.push(Action::SyncHistory);
        if facts.restored {
            out.push(Action::SyncUsage);
        }
        let model = match &self.model {
            Some(m) => Some(m.clone()),
            None => None,
        };
        let info = ReadyInfo {
            restored: facts.restored,
            model,
            permission_mode,
            reasoning_effort,
            browser_suites: facts.suites,
            plan_mode,
            plan_file,
            plan_review_pending: load_plan_review_pending(meta),
            plan_snapshot: load_plan_snapshot(meta),
        };
        assert(info.deep_view() == ready_info(
            before,
            opt_meta(meta),
            facts.restored,
            facts.suites.deep_view(),
        ));
        out.push(Action::Notice(BackendNotice::Ready(info)));
        if facts.restored {
            self.session_start_fired = true;
        }
        match facts.worktree_path {
            Some(p) => {
                out.push(
                    Action::Notice(
                        BackendNotice::Event(
                            ThreadEvent::WorktreeChanged { active: true, path: Some(p) },
                        ),
                    ),
                );
            },
            None => {},
        }
        self.active_path = Some(facts.path);
        assert(out.deep_view() =~= start_work(before, opt_meta(meta), facts));
        out
    }
}

// ---------------------------------------------------------------------------
// The preview
// ---------------------------------------------------------------------------

/// What a batch did to the preview.
#[derive(Debug, Clone, Copy, PartialEq, Eq, Structural)]
pub enum PreviewStep {
    /// Nothing to show; go on.
    Skip,
    /// The mirror is no longer the preview's; stop.
    Stop,
    /// The mirror grew to this length; tell the thread.
    Progress(usize),
}

/// Appends a batch of the session file to the mirror, as long as nobody else
/// wrote to it: `expected` is its length after the last batch.
pub fn preview_batch(
    history: &mut Vec<HistoryEntry>,
    expected: usize,
    batch: &Vec<AgentMessage>,
) -> (r: PreviewStep)
    ensures
        ({
            let shown = message_row_entries(transcript_rows(batch.deep_view()));
            if shown.len() == 0 {
                r == PreviewStep::Skip && *final(history) == *old(history)
            } else if old(history)@.len() != expected {
                r == PreviewStep::Stop && *final(history) == *old(history)
            } else {
                &&& rows(final(history)@) == rows(old(history)@) + shown
                &&& final(history).deep_view().take(old(history)@.len() as int)
                    == old(history).deep_view()
                &&& row_ids_drawn(final(history).deep_view().skip(old(history)@.len() as int))
                &&& r == PreviewStep::Progress(final(history)@.len() as usize)
                &&& final(history)@.len() == expected + shown.len()
            }
        }),
{
    let mapped = harness_messages_to_messages(batch);
    let ghost shown = message_row_entries(transcript_rows(batch.deep_view()));
    assert(shown.len() == mapped@.len()) by {
        assert(bodies(mapped@).len() == transcript_rows(batch.deep_view()).len());
    }
    if mapped.len() == 0 {
        return PreviewStep::Skip;
    }
    if history.len() != expected {
        return PreviewStep::Stop;
    }
    let ghost first = rows(history@);
    let ghost n = history@.len() as int;
    assert(history.deep_view().take(n) =~= history.deep_view());
    for i in 0..mapped.len()
        invariant
            first == rows(old(history)@),
            bodies(mapped@) == transcript_rows(batch.deep_view()),
            ids_drawn(mapped@),
            n == old(history)@.len(),
            history@.len() == n + i,
            history.deep_view().take(n) == old(history).deep_view(),
            row_ids_drawn(history.deep_view().skip(n)),
            shown == message_row_entries(transcript_rows(batch.deep_view())),
            rows(history@) == first + shown.take(i as int),
    {
        let ghost before = rows(history@);
        let ghost entries = history.deep_view();
        let entry = HistoryEntry::Message(mapped[i].clone());
        history.push(entry);
        assert(history.deep_view() =~= entries.push(entry.deep_view()));
        assert(history.deep_view().take(n) =~= entries.take(n));
        assert(history.deep_view().skip(n) =~= entries.skip(n).push(entry.deep_view()));
        assert(bodies(mapped@)[i as int] == mapped@[i as int].body());
        assert(entry.row() == shown[i as int]);
        assert(rows(history@) =~= before.push(shown[i as int]));
        assert(rows(history@) =~= first + shown.take(i + 1));
    }
    assert(shown.take(mapped@.len() as int) =~= shown);
    assert(rows(history@).len() == history@.len());
    assert(first.len() == expected);
    PreviewStep::Progress(history.len())
}

// ---------------------------------------------------------------------------
// What starting is for
// ---------------------------------------------------------------------------

/// The session that is restored is one of this host and fits: the requested one, or,
/// where none was requested, one with messages. No session before it in the list does,
/// and where none is restored none does at all.
pub proof fn the_first_fitting_session_is_restored(
    cs: Seq<SessionCandidate>,
    requested: Option<Seq<char>>,
    other: int,
)
    requires
        0 <= other < cs.len(),
    ensures
        ({
            let at = eligible_at(cs, requested, 0);
            let fits = |c: SessionCandidate|
                c.ours && (match requested {
                    Some(p) => same_file(c.path@, p),
                    None => c.message_count > 0,
                });
            &&& 0 <= at <= cs.len()
            &&& at < cs.len() ==> fits(cs[at])
            &&& other < at ==> !fits(cs[other])
        }),
{
    lemma_first_eligible(cs, requested, 0, other);
}

proof fn lemma_first_eligible(
    cs: Seq<SessionCandidate>,
    requested: Option<Seq<char>>,
    i: int,
    other: int,
)
    requires
        0 <= i <= cs.len(),
        0 <= other < cs.len(),
    ensures
        i <= eligible_at(cs, requested, i) <= cs.len(),
        eligible_at(cs, requested, i) < cs.len() ==> eligible(
            cs[eligible_at(cs, requested, i)],
            requested,
        ),
        i <= other < eligible_at(cs, requested, i) ==> !eligible(cs[other], requested),
    decreases cs.len() - i,
{
    if i < cs.len() && !eligible(cs[i], requested) {
        lemma_first_eligible(cs, requested, i + 1, other);
    }
}

/// A session runs in the directory that it recorded, but for the root directory, which
/// the fallback stands in for.
pub proof fn the_recorded_directory_is_used(recorded: Seq<char>, fallback: Seq<char>)
    ensures
        recorded != "/"@ ==> healed(recorded, fallback) == recorded,
        healed("/"@, fallback) == fallback,
{
}

/// The directory of a session is looked up by its file: the first entry with that file
/// counts.
pub proof fn the_first_entry_of_a_file_counts(cs: Seq<SessionCandidate>, path: Seq<char>, other: int)
    requires
        0 <= other < cs.len(),
    ensures
        ({
            let at = recorded_at(cs, path, 0);
            &&& 0 <= at <= cs.len()
            &&& at < cs.len() ==> same_file(cs[at].path@, path)
            &&& other < at ==> !same_file(cs[other].path@, path)
        }),
{
    lemma_first_recorded(cs, path, 0, other);
}

proof fn lemma_first_recorded(cs: Seq<SessionCandidate>, path: Seq<char>, i: int, other: int)
    requires
        0 <= i <= cs.len(),
        0 <= other < cs.len(),
    ensures
        i <= recorded_at(cs, path, i) <= cs.len(),
        recorded_at(cs, path, i) < cs.len() ==> same_file(cs[recorded_at(cs, path, i)].path@, path),
        i <= other < recorded_at(cs, path, i) ==> !same_file(cs[other].path@, path),
    decreases cs.len() - i,
{
    if i < cs.len() && !same_file(cs[i].path@, path) {
        lemma_first_recorded(cs, path, i + 1, other);
    }
}

/// The notice of a failed build carries the error and every registered provider.
pub proof fn a_failed_build_names_the_providers(
    error: Seq<char>,
    first: Seq<char>,
    second: Seq<char>,
)
    ensures
        build_failure_text(error, Seq::<Seq<char>>::empty()) == "pi session build failed: "@ + error
            + " (registered providers: "@ + ("["@ + "]"@) + ")"@,
        build_failure_text(error, seq![first]) == "pi session build failed: "@ + error
            + " (registered providers: "@ + ("["@ + first + "]"@) + ")"@,
        build_failure_text(error, seq![first, second]) == "pi session build failed: "@ + error
            + " (registered providers: "@ + ("["@ + (first + ", "@ + second) + "]"@) + ")"@,
{
    assert(seq![first, second].drop_last() =~= seq![first]);
    reveal_with_fuel(join, 3);
    assert("["@ + Seq::<char>::empty() + "]"@ =~= "["@ + "]"@);
}

/// A session brings along what its sidecar holds: the mode, the effort, the plan and
/// its file, a pending review and the snapshot; and the model is the one at hand.
pub proof fn a_ready_session_reports_its_sidecar(
    state: ActorStateView,
    meta: SessionMeta,
    restored: bool,
    suites: Seq<BrowserSuite>,
)
    ensures
        ({
            let info = ready_info(state, Some(meta), restored, suites);
            let kept = meta.deep_view();
            &&& info.restored == restored
            &&& info.model == state.model
            &&& info.browser_suites == suites
            &&& info.permission_mode == kept.mode()
            &&& info.reasoning_effort == kept.effort()
            &&& info.plan_mode <==> kept.plan_mode == Some(true)
            &&& info.plan_file == kept.plan_file
            &&& info.plan_review_pending <==> kept.plan_review_pending == Some(true)
            &&& info.plan_snapshot == kept.plan_snapshot
        }),
        restored_plan(Some(meta), None).enabled <==> meta.deep_view().plan_mode == Some(true),
        restored_plan(Some(meta), None).plan_file == meta.deep_view().plan_file,
{
}

/// Without a sidecar a session starts in workspace-write mode with high effort and
/// without a plan.
pub proof fn a_session_without_sidecar_starts_plain(
    state: ActorStateView,
    restored: bool,
    suites: Seq<BrowserSuite>,
    instructions: Option<Seq<char>>,
)
    ensures
        ({
            let info = ready_info(state, None, restored, suites);
            &&& info.restored == restored
            &&& info.model == state.model
            &&& info.browser_suites == suites
            &&& info.permission_mode == crate::thread::PermissionMode::WorkspaceWrite
            &&& info.reasoning_effort == ReasoningEffort::High
            &&& !info.plan_mode && !info.plan_review_pending
            &&& info.plan_file is None && info.plan_snapshot is None
        }),
        restored_plan(None, instructions) == (PlanSessionStateView {
            enabled: false,
            plan_file: None,
            active_instructions: None,
        }),
{
}

/// The instructions of plan mode hold just while the restored session plans.
pub proof fn instructions_hold_while_planning(
    meta: SessionMeta,
    instructions: Option<Seq<char>>,
)
    ensures
        meta.deep_view().plan_mode == Some(true) ==> restored_plan(
            Some(meta),
            instructions,
        ).active_instructions == instructions,
        meta.deep_view().plan_mode != Some(true) ==> restored_plan(
            Some(meta),
            instructions,
        ).active_instructions is None,
{
}

/// A start that has no project and no worktree to tell of, with high effort: the list,
/// the subscription, the mode, the history, for a restored session its usage, and last
/// the notice that it is ready.
pub proof fn a_plain_start_ends_in_ready(
    state: ActorStateView,
    meta: Option<SessionMeta>,
    facts: StartFacts,
)
    requires
        facts.project is None,
        facts.worktree_path is None,
        ready_info(state, meta, facts.restored, facts.suites.deep_view()).reasoning_effort
            == ReasoningEffort::High,
    ensures
        ({
            let info = ready_info(state, meta, facts.restored, facts.suites.deep_view());
            let todo = start_work(state, meta, facts);
            let first = seq![
                ActionView::RefreshSessionList,
                ActionView::Subscribe { path: facts.path@ },
                ActionView::SetPermissionMode(info.permission_mode),
                ActionView::SyncHistory,
            ];
            &&& !facts.restored ==> todo == first.push(
                ActionView::Notice(BackendNoticeView::Ready(info)),
            )
            &&& facts.restored ==> todo == first.push(ActionView::SyncUsage).push(
                ActionView::Notice(BackendNoticeView::Ready(info)),
            )
        }),
{
}

/// Every start tells of its project first and of its worktree last, behind the notice
/// that it is ready; a stored effort other than high is set before the history is
/// mirrored.
pub proof fn a_start_tells_of_project_and_worktree(
    state: ActorStateView,
    meta: Option<SessionMeta>,
    facts: StartFacts,
)
    ensures
        ({
            let info = ready_info(state, meta, facts.restored, facts.suites.deep_view());
            let todo = start_work(state, meta, facts);
            &&& facts.project matches Some(p) ==> todo[0] == (ActionView::Sidecar {
                path: facts.path@,
                update: SidecarUpdateView::Project(p@),
            })
            &&& facts.project is None ==> todo[0] == ActionView::RefreshSessionList
            &&& facts.worktree_path matches Some(p) ==> todo.last() == ActionView::Notice(
                BackendNoticeView::Event(
                    ThreadEventView::WorktreeChanged { active: true, path: Some(p@) },
                ),
            ) && todo[todo.len() - 2] == ActionView::Notice(BackendNoticeView::Ready(info))
            &&& facts.worktree_path is None ==> todo.last() == ActionView::Notice(
                BackendNoticeView::Ready(info),
            )
            &&& info.reasoning_effort == ReasoningEffort::Max ==> {
                let at: int = if facts.project is Some { 4 } else { 3 };
                &&& todo[at] == ActionView::SetThinkingLevel(Some("max"@))
                &&& todo[at + 1] == ActionView::SyncHistory
            }
        }),
{
}

} // verus!
