//! Session files: their header metadata and the list that mirrors them.

use crate::json::{entry_models, jobj, jstr, Json, JsonView};
use crate::language_model::ReasoningEffort;
use crate::text::str_eq;
use crate::thread::PermissionMode;
use vstd::prelude::*;

verus! {

/// What the session repository knows of a session file.
#[derive(Debug, PartialEq, Eq)]
pub struct SessionInfo {
    pub id: String,
    pub first_message: String,
    pub cwd: String,
    pub parent_session_path: Option<String>,
    /// The leader's session, for a team worker.
    pub team_parent: Option<String>,
    pub metadata: Option<Json>,
    pub created_at: i64,
    pub modified_at: i64,
}

/// The mathematical value of a [`SessionInfo`].
#[verifier::ext_equal]
pub struct SessionInfoView {
    pub id: Seq<char>,
    pub first_message: Seq<char>,
    pub cwd: Seq<char>,
    pub parent_session_path: Option<Seq<char>>,
    pub team_parent: Option<Seq<char>>,
    pub metadata: Option<JsonView>,
    pub created_at: i64,
    pub modified_at: i64,
}

impl DeepView for SessionInfo {
    type V = SessionInfoView;

    open spec fn deep_view(&self) -> SessionInfoView {
        SessionInfoView {
            id: self.id@,
            first_message: self.first_message@,
            cwd: self.cwd@,
            parent_session_path: self.parent_session_path.deep_view(),
            team_parent: self.team_parent.deep_view(),
            metadata: self.metadata.deep_view(),
            created_at: self.created_at,
            modified_at: self.modified_at,
        }
    }
}

/// One row of the session list.
#[derive(Debug, PartialEq, Eq)]
pub struct ThreadSummary {
    pub id: String,
    pub summary: String,
    pub title: Option<String>,
    pub title_override: Option<String>,
    pub model_id: String,
    pub provider_id: Option<String>,
    pub approval_mode: PermissionMode,
    pub project: String,
    pub depth: u32,
    pub parent_id: Option<String>,
    pub archived: bool,
    pub pinned: bool,
    pub tag: Option<String>,
    pub has_unread: bool,
    pub errored: bool,
    pub created_at: i64,
    pub interacted_at: i64,
    pub updated_at: i64,
    pub cumulative_total_tokens: u64,
}

/// The mathematical value of a [`ThreadSummary`].
#[verifier::ext_equal]
pub struct ThreadSummaryView {
    pub id: Seq<char>,
    pub summary: Seq<char>,
    pub title: Option<Seq<char>>,
    pub title_override: Option<Seq<char>>,
    pub model_id: Seq<char>,
    pub provider_id: Option<Seq<char>>,
    pub approval_mode: PermissionMode,
    pub project: Seq<char>,
    pub depth: u32,
    pub parent_id: Option<Seq<char>>,
    pub archived: bool,
    pub pinned: bool,
    pub tag: Option<Seq<char>>,
    pub has_unread: bool,
    pub errored: bool,
    pub created_at: i64,
    pub interacted_at: i64,
    pub updated_at: i64,
    pub cumulative_total_tokens: u64,
}

impl DeepView for ThreadSummary {
    type V = ThreadSummaryView;

    open spec fn deep_view(&self) -> ThreadSummaryView {
        ThreadSummaryView {
            id: self.id@,
            summary: self.summary@,
            title: self.title.deep_view(),
            title_override: self.title_override.deep_view(),
            model_id: self.model_id@,
            provider_id: self.provider_id.deep_view(),
            approval_mode: self.approval_mode,
            project: self.project@,
            depth: self.depth,
            parent_id: self.parent_id.deep_view(),
            archived: self.archived,
            pinned: self.pinned,
            tag: self.tag.deep_view(),
            has_unread: self.has_unread,
            errored: self.errored,
            created_at: self.created_at,
            interacted_at: self.interacted_at,
            updated_at: self.updated_at,
            cumulative_total_tokens: self.cumulative_total_tokens,
        }
    }
}

/// Header metadata: the creating host, the owning thread, and for a team worker
/// the leader's session.
pub open spec fn metadata_model(
    host: Seq<char>,
    thread_id: Seq<char>,
    parent: Option<Seq<char>>,
) -> JsonView {
    let base = seq![("host"@, JsonView::Str(host)), ("thread"@, JsonView::Str(thread_id))];
    JsonView::Object(
        match parent {
            Some(p) => base.push(
                ("team"@, JsonView::Object(seq![("parent"@, JsonView::Str(p))])),
            ),
            None => base,
        },
    )
}

/// Session header metadata for a session of `thread_id` on `host`.
pub fn session_metadata(host: &str, thread_id: &str, parent_session: Option<&str>) -> (r: Json)
    ensures
        r.model() == metadata_model(
            host@,
            thread_id@,
            crate::text::opt_str_view(parent_session),
        ),
{
    let mut es: Vec<(String, Json)> = Vec::new();
    es.push(("host".to_owned(), jstr(host)));
    es.push(("thread".to_owned(), jstr(thread_id)));
    match parent_session {
        Some(parent) => {
            let mut team: Vec<(String, Json)> = Vec::new();
            team.push(("parent".to_owned(), jstr(parent)));
            assert(entry_models(team@) =~= seq![("parent"@, JsonView::Str(parent@))]);
            es.push(("team".to_owned(), jobj(team)));
        },
        None => {},
    }
    assert(entry_models(es@) =~= metadata_model(
        host@,
        thread_id@,
        crate::text::opt_str_view(parent_session),
    )->Object_0);
    jobj(es)
}

/// Whether a session shows in the list: sessions of this host, without the
/// transcripts of subagents.
pub fn is_listed(belongs_to_host: bool, metadata: &Option<Json>) -> (r: bool)
    ensures
        r == (belongs_to_host && !(metadata.deep_view() matches Some(m) && m.get(
            "subagent"@,
        ) is Some)),
{
    let subagent = match metadata {
        Some(m) => m.get("subagent").is_some(),
        None => false,
    };
    belongs_to_host && !subagent
}

pub open spec fn summary_of(info: SessionInfoView) -> ThreadSummaryView {
    ThreadSummaryView {
        id: info.id,
        summary: info.first_message,
        title: None,
        title_override: None,
        model_id: seq![],
        provider_id: None,
        approval_mode: PermissionMode::WorkspaceWrite,
        project: if info.cwd == "/"@ {
            seq![]
        } else {
            info.cwd
        },
        depth: 0,
        parent_id: match info.team_parent {
            Some(p) => Some(p),
            None => info.parent_session_path,
        },
        archived: false,
        pinned: false,
        tag: None,
        has_unread: false,
        errored: false,
        created_at: info.created_at,
        interacted_at: info.modified_at,
        updated_at: info.modified_at,
        cumulative_total_tokens: 0,
    }
}

/// Map a session onto the mirrored session list. Rows stay at depth zero: the
/// mirror is never rendered as a tree.
pub fn session_info_to_summary(info: &SessionInfo) -> (r: ThreadSummary)
    ensures
        r.deep_view() == summary_of(info.deep_view()),
{
    let project = if str_eq(info.cwd.as_str(), "/") {
        String::new()
    } else {
        info.cwd.clone()
    };
    let parent_id = match &info.team_parent {
        Some(p) => Some(p.clone()),
        None => info.parent_session_path.clone(),
    };
    let r = ThreadSummary {
        id: info.id.clone(),
        summary: info.first_message.clone(),
        title: None,
        title_override: None,
        model_id: String::new(),
        provider_id: None,
        approval_mode: PermissionMode::WorkspaceWrite,
        project,
        depth: 0,
        parent_id,
        archived: false,
        pinned: false,
        tag: None,
        has_unread: false,
        errored: false,
        created_at: info.created_at,
        interacted_at: info.modified_at,
        updated_at: info.modified_at,
        cumulative_total_tokens: 0,
    };
    assert(r.deep_view() =~= summary_of(info.deep_view()));
    r
}

/// A session file, and whether it is one of this host.
#[derive(Debug, PartialEq, Eq)]
pub struct FoundSession {
    pub info: SessionInfo,
    pub belongs_to_host: bool,
}

pub open spec fn listed(f: FoundSession) -> bool {
    f.belongs_to_host && !(f.info.deep_view().metadata matches Some(m) && m.get("subagent"@) is Some)
}

/// The rows of the session list.
pub open spec fn session_rows(found: Seq<FoundSession>) -> Seq<ThreadSummaryView>
    decreases found.len(),
{
    if found.len() == 0 {
        seq![]
    } else if listed(found.last()) {
        session_rows(found.drop_last()).push(summary_of(found.last().info.deep_view()))
    } else {
        session_rows(found.drop_last())
    }
}

/// The session list that mirrors the session files.
pub fn refresh_session_list(found: &Vec<FoundSession>) -> (r: Vec<ThreadSummary>)
    ensures
        r.deep_view() == session_rows(found@),
{
    let mut out: Vec<ThreadSummary> = Vec::new();
    assert(out.deep_view() =~= seq![]);
    for i in 0..found.len()
        invariant
            out.deep_view() == session_rows(found@.take(i as int)),
    {
        let ghost before = out.deep_view();
        assert(found@.take(i + 1).drop_last() =~= found@.take(i as int));
        if is_listed(found[i].belongs_to_host, &found[i].info.metadata) {
            let row = session_info_to_summary(&found[i].info);
            out.push(row);
            assert(out.deep_view() =~= before.push(row.deep_view()));
        }
    }
    assert(found@.take(found@.len() as int) =~= found@);
    out
}

impl PermissionMode {
    pub open spec fn wire(self) -> Seq<char> {
        match self {
            PermissionMode::ReadOnly => "read-only"@,
            PermissionMode::WorkspaceWrite => "workspace-write"@,
            PermissionMode::DangerFullAccess => "danger-full-access"@,
        }
    }

    /// The name that the session sidecar keeps.
    pub fn wire_value(self) -> (r: &'static str)
        ensures
            r@ == self.wire(),
    {
        match self {
            PermissionMode::ReadOnly => "read-only",
            PermissionMode::WorkspaceWrite => "workspace-write",
            PermissionMode::DangerFullAccess => "danger-full-access",
        }
    }
}

pub open spec fn mode_of(raw: Option<Seq<char>>) -> PermissionMode {
    if raw == Some("read-only"@) {
        PermissionMode::ReadOnly
    } else if raw == Some("danger-full-access"@) {
        PermissionMode::DangerFullAccess
    } else {
        PermissionMode::WorkspaceWrite
    }
}

/// The permission mode that a sidecar names; a missing or unknown name lands on
/// the bounded default.
pub fn load_approval_mode(raw: Option<&str>) -> (r: PermissionMode)
    ensures
        r == mode_of(crate::text::opt_str_view(raw)),
{
    match raw {
        Some(name) => if str_eq(name, "read-only") {
            PermissionMode::ReadOnly
        } else if str_eq(name, "danger-full-access") {
            PermissionMode::DangerFullAccess
        } else {
            PermissionMode::WorkspaceWrite
        },
        None => PermissionMode::WorkspaceWrite,
    }
}

/// The name that is persisted gives the mode back.
pub proof fn permission_mode_round_trips(mode: PermissionMode)
    ensures
        mode_of(Some(mode.wire())) == mode,
{
    reveal_strlit("read-only");
    reveal_strlit("workspace-write");
    reveal_strlit("danger-full-access");
    assert("workspace-write"@.len() != "read-only"@.len());
    assert("danger-full-access"@.len() != "read-only"@.len());
    assert("danger-full-access"@.len() != "workspace-write"@.len());
}

/// The effort that a knob's wire value names; other levels are not offered to
/// the user.
pub fn parse_reasoning_effort(raw: &str) -> (r: Option<ReasoningEffort>)
    ensures
        r == (if raw@ == "high"@ {
            Some(ReasoningEffort::High)
        } else if raw@ == "max"@ {
            Some(ReasoningEffort::Max)
        } else {
            None
        }),
{
    if str_eq(raw, "high") {
        Some(ReasoningEffort::High)
    } else if str_eq(raw, "max") {
        Some(ReasoningEffort::Max)
    } else {
        None
    }
}

/// The header of a session names its host and its thread, and for a team worker the
/// session of the leader.
pub proof fn the_header_names_host_and_thread(
    host: Seq<char>,
    thread: Seq<char>,
    leader: Seq<char>,
)
    ensures
        metadata_model(host, thread, None).str_at("host"@) == Some(host),
        metadata_model(host, thread, None).str_at("thread"@) == Some(thread),
        metadata_model(host, thread, None).get("team"@) is None,
        metadata_model(host, thread, Some(leader)).str_at("host"@) == Some(host),
        metadata_model(host, thread, Some(leader)).str_at("thread"@) == Some(thread),
        metadata_model(host, thread, Some(leader)).get("team"@) matches Some(team)
            && team.str_at("parent"@) == Some(leader),
{
    reveal_strlit("host");
    reveal_strlit("thread");
    reveal_strlit("team");
    assert("host"@[0] != "thread"@[0]);
    assert("host"@[0] != "team"@[0]);
    assert("thread"@.len() != "team"@.len());
    let plain = metadata_model(host, thread, None)->Object_0;
    let worker = metadata_model(host, thread, Some(leader))->Object_0;
    reveal_with_fuel(crate::json::lookup, 4);
    assert(plain.skip(1) =~= seq![plain[1]]);
    assert(plain.skip(1).skip(1) =~= seq![]);
    assert(worker.skip(1) =~= seq![worker[1], worker[2]]);
    assert(worker.skip(1).skip(1) =~= seq![worker[2]]);
}

/// A row of the list shows its session: the id, the first message, the directory but
/// for the root, the times, and as parent the leader before the session it came from.
pub proof fn a_row_shows_its_session(info: SessionInfoView)
    ensures
        summary_of(info).id == info.id,
        summary_of(info).summary == info.first_message,
        summary_of(info).created_at == info.created_at,
        summary_of(info).updated_at == info.modified_at,
        summary_of(info).interacted_at == info.modified_at,
        info.cwd != "/"@ ==> summary_of(info).project == info.cwd,
        info.cwd == "/"@ ==> summary_of(info).project.len() == 0,
        info.team_parent is Some ==> summary_of(info).parent_id == info.team_parent,
        info.team_parent is None ==> summary_of(info).parent_id == info.parent_session_path,
        summary_of(info).title is None && summary_of(info).title_override is None,
        !summary_of(info).archived && !summary_of(info).pinned && !summary_of(info).has_unread
            && !summary_of(info).errored,
{
}

/// The list holds the sessions of this host that are no subagent's, and no other, in
/// the order in which they were found.
pub proof fn the_list_grows_by_sessions_of_this_host(found: Seq<FoundSession>, next: FoundSession)
    ensures
        session_rows(Seq::<FoundSession>::empty()).len() == 0,
        !next.belongs_to_host ==> session_rows(found.push(next)) == session_rows(found),
        (next.info.metadata.deep_view() matches Some(m) && m.get("subagent"@) is Some)
            ==> session_rows(found.push(next)) == session_rows(found),
        next.belongs_to_host && (next.info.metadata is None || next.info.metadata.deep_view()->0.get(
            "subagent"@,
        ) is None) ==> session_rows(found.push(next)) == session_rows(found).push(
            summary_of(next.info.deep_view()),
        ),
{
    assert(found.push(next).drop_last() =~= found);
}

/// A mode that is not known by name stands for the bounded default.
pub proof fn modes_are_stored_by_name(raw: Option<Seq<char>>)
    ensures
        mode_of(Some("read-only"@)) == PermissionMode::ReadOnly,
        mode_of(Some("danger-full-access"@)) == PermissionMode::DangerFullAccess,
        raw != Some("read-only"@) && raw != Some("danger-full-access"@) ==> mode_of(raw)
            == PermissionMode::WorkspaceWrite,
{
    permission_mode_round_trips(PermissionMode::ReadOnly);
    permission_mode_round_trips(PermissionMode::DangerFullAccess);
}

/// The view of a [`SessionInfo`] is made of all its parts, each as it is.
pub proof fn session_info_is_viewed_whole(x: &SessionInfo)
    ensures
        x.deep_view() == (SessionInfoView {
            id: x.id@,
            first_message: x.first_message@,
            cwd: x.cwd@,
            parent_session_path: x.parent_session_path.deep_view(),
            team_parent: x.team_parent.deep_view(),
            metadata: x.metadata.deep_view(),
            created_at: x.created_at,
            modified_at: x.modified_at,
        }),
{
}

/// The view of a [`ThreadSummary`] is made of all its parts, each as it is.
pub proof fn thread_summary_is_viewed_whole(x: &ThreadSummary)
    ensures
        x.deep_view() == (ThreadSummaryView {
            id: x.id@,
            summary: x.summary@,
            title: x.title.deep_view(),
            title_override: x.title_override.deep_view(),
            model_id: x.model_id@,
            provider_id: x.provider_id.deep_view(),
            approval_mode: x.approval_mode,
            project: x.project@,
            depth: x.depth,
            parent_id: x.parent_id.deep_view(),
            archived: x.archived,
            pinned: x.pinned,
            tag: x.tag.deep_view(),
            has_unread: x.has_unread,
            errored: x.errored,
            created_at: x.created_at,
            interacted_at: x.interacted_at,
            updated_at: x.updated_at,
            cumulative_total_tokens: x.cumulative_total_tokens,
        }),
{
}

} // verus!
