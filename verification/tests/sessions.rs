use agent::actor::{note_persisted, title_persisted, ActorContext, ActorState, CompactOutcome};
use agent::adapt::{
    agent_event_to_thread_events, child_events_of, entries_to_display,
    harness_messages_to_messages, message_error_text, message_stop_reason, tool_title, CustomData,
    SessionEntry, UI_NOTE_CUSTOM_TYPE,
};
use agent::approval::{
    ask_user_question_schema, confined_auto_allow, mode_from_wire, park_question,
    request_escalation, settle_escalation, settle_question, validate_ask_input, write_targets,
    Answer, ApprovalGate, ApprovalGatedTool, AskOutcome, EscalationOutcome,
    EscalationStep, GatedCall, PiAskUserQuestionTool, ToolError, DENY_OUT_OF_WORKSPACE,
    DENY_READ_ONLY,
};
use agent::attribution::{
    checked_attribution, in_lockstep, request_attribution, successful_provider_responses,
    token_usage_from_totals, usage_from_messages, usage_from_stats, StatsTotals,
};
use agent::engine::{Action, BackendNotice, CompactPurpose, HookEvent, RunKind, SessionCmd};
use agent::harness::{
    AgentEvent, AgentMessage, AssistantMessageEvent, ContentBlock, HarnessStopReason,
};
use agent::history::{HistoryEntry, PositionedNote, UiNoteRecord};
use agent::json::Json;
use agent::language_model::{LanguageModelToolResult, MessageContent, ReasoningEffort, TokenUsage};
use agent::message::{Message, MessageAuthor};
use agent::models::{Model, ThinkingKind};
use agent::pathname::{normalize_lexical, CleanPath};
use agent::permission::{PendingAuthMeta, PermissionDecision, ToolAuthorizationResponse};
use agent::plan_mode::{PlanSessionState, PROPOSE_PLAN};
use agent::runs::Next;
use agent::session::{
    load_approval_mode, refresh_session_list, session_metadata, FoundSession, SessionInfo,
};
use agent::sidecar::{
    fork_sidecar_inherit, load_plan_review_pending, load_plan_snapshot, load_plan_state,
    load_reasoning_effort, load_worktree_state, resync_approval_mode, resync_plan_state,
    resync_worktree_state, stored_mode, SessionMeta, SidecarUpdate, WorktreeMeta,
};
use agent::signals::{observe_session, on_harness_event, HarnessEvent};
use agent::startup::{
    build_failure, choose_session, context_file_name, preview_batch, resolve_model, session_builder,
    session_cwd, PreviewStep, SessionCandidate, StartFacts,
};
use agent::thread::{PermissionMode, SubagentChildEvent, ThreadEvent, ToolCallStatus};
use agent::title::{observe, TitleSchedulerState, TitleSignal, TitleWakeReason};
use agent::tools::{AGENT, ENTER_WORKTREE, EXIT_WORKTREE};
use agent::transcript::{
    attach_registry_displays, attach_user_attributions, live_fingerprint, merge_positioned_notes,
    steer_message, sync_live_history, HistoryMirror, LiveTranscript, UserAttributionMeta,
};
use std::collections::HashMap;

fn from_value(v: serde_json::Value) -> Json {
    match v {
        serde_json::Value::Null => Json::Null,
        serde_json::Value::Bool(b) => Json::Bool(b),
        serde_json::Value::Number(n) => {
            if let Some(u) = n.as_u64() {
                Json::Unsigned(u)
            } else if let Some(i) = n.as_i64() {
                Json::Negative(i)
            } else {
                Json::Decimal(n.to_string())
            }
        }
        serde_json::Value::String(s) => Json::Str(s),
        serde_json::Value::Array(xs) => Json::Array(xs.into_iter().map(from_value).collect()),
        serde_json::Value::Object(es) => {
            Json::Object(es.into_iter().map(|(k, v)| (k, from_value(v))).collect())
        }
    }
}

fn json(text: &str) -> Json {
    from_value(serde_json::from_str(text).unwrap())
}

fn at<'a>(j: &'a Json, keys: &[&str]) -> &'a Json {
    keys.iter().fold(j, |j, k| j.get(k).unwrap())
}

fn strings(names: &[&str]) -> Vec<String> {
    names.iter().map(|s| s.to_string()).collect()
}

// --- approval ---------------------------------------------------------------

#[test]
fn gate_register_respond_round_trip() {
    let mut gate = ApprovalGate::new();
    gate.register(
        "call-1".into(),
        PendingAuthMeta {
            tool_name: "AskUserQuestion".into(),
            summary: "q".into(),
            input: json("{}"),
        },
    );
    assert_eq!(gate.pending_entries().len(), 1);
    let response = gate.respond(
        "call-1",
        ToolAuthorizationResponse::Decision(PermissionDecision::AllowOnce),
    );
    assert!(gate.pending_entries().is_empty());
    assert!(matches!(
        response,
        Some(ToolAuthorizationResponse::Decision(PermissionDecision::AllowOnce))
    ));
    // Unknown ids are silently ignored.
    assert!(gate
        .respond(
            "nope",
            ToolAuthorizationResponse::Decision(PermissionDecision::Deny)
        )
        .is_none());
}

#[test]
fn gate_mode_switches() {
    let mut gate = ApprovalGate::new();
    assert_eq!(gate.mode(), PermissionMode::WorkspaceWrite);
    gate.set_mode(PermissionMode::DangerFullAccess);
    assert_eq!(gate.mode(), PermissionMode::DangerFullAccess);
}

fn ask(options: usize) -> Json {
    let options: Vec<String> = (0..options)
        .map(|i| format!("{{\"label\": \"{i}\", \"description\": \"\"}}"))
        .collect();
    json(&format!(
        "{{\"questions\": [{{\"question\": \"q\", \"header\": \"h\", \"multiSelect\": false, \"options\": [{}]}}]}}",
        options.join(",")
    ))
}

#[test]
fn validate_ask_input_envelopes_counts() {
    assert!(validate_ask_input(&ask(2)).is_ok());
    assert!(validate_ask_input(&ask(4)).is_err());
    assert!(validate_ask_input(&json("{}")).is_err());
    assert_eq!(
        validate_ask_input(&ask(1)),
        Err("AskUserQuestion question 1 requires 2-3 options, got 1".to_string())
    );
    assert_eq!(
        validate_ask_input(&json(r#"{"questions": []}"#)),
        Err("AskUserQuestion requires 1-3 questions, got 0".to_string())
    );
}

#[test]
fn ask_schema_declares_limits() {
    let tool = PiAskUserQuestionTool;
    assert_eq!(tool.name(), "AskUserQuestion");
    assert!(tool.is_read_only());
    assert!(tool.description().starts_with("Ask the user clarifying questions"));
    assert_eq!(tool.parameters_schema(), ask_user_question_schema());
    let schema = ask_user_question_schema();
    let questions = at(&schema, &["properties", "questions"]);
    assert_eq!(at(questions, &["minItems"]), &Json::Unsigned(1));
    assert_eq!(at(questions, &["maxItems"]), &Json::Unsigned(3));
    let options = at(questions, &["items", "properties", "options"]);
    assert_eq!(at(options, &["minItems"]), &Json::Unsigned(2));
    assert_eq!(at(options, &["maxItems"]), &Json::Unsigned(3));
}

const CWD: &str = "/work";

/// A call of a tool on a disk without links.
fn call(
    name: &str,
    params: &str,
    patch_files: Option<Vec<String>>,
    approval: bool,
    read_only: bool,
    standing: PermissionMode,
    roots: &[&str],
) -> GatedCall {
    let targets = write_targets(name, &json(params), CWD, &patch_files);
    let canon: Vec<CleanPath> = match &targets {
        agent::approval::WriteTargets::Files(files) => {
            files.iter().map(|f| normalize_lexical(f)).collect()
        }
        _ => vec![],
    };
    GatedCall {
        drafts_plan: false,
        confined: false,
        requires_approval: approval,
        read_only,
        standing,
        targets,
        canon,
        roots: roots.iter().map(|r| normalize_lexical(r)).collect(),
        worktree: vec![],
    }
}

/// The policy around Write and Edit.
fn gate_of_write() -> ApprovalGatedTool {
    ApprovalGatedTool::new()
        .with_plan_policy()
        .with_worktree_roots()
        .with_escalation()
}

fn denied(r: Result<(), ToolError>, marker: &str) -> bool {
    matches!(r, Err(ToolError::Other(m)) if m == format!("{marker}\nhint"))
}

#[test]
fn read_only_tools_pass_through_ungated() {
    let c = call("Mock", "{}", None, false, true, PermissionMode::ReadOnly, &[CWD]);
    assert!(gate_of_write().run_gated(&c, None, "hint").is_ok());
}

#[test]
fn full_access_delegates_gated_tools_without_prompting() {
    let c = call("Mock", "{}", None, true, false, PermissionMode::DangerFullAccess, &[CWD]);
    assert!(gate_of_write().run_gated(&c, None, "hint").is_ok());
}

#[test]
fn read_only_mode_denies_mutating_tools_with_tool_error() {
    let c = call("Mock", "{}", None, true, false, PermissionMode::ReadOnly, &[CWD]);
    assert!(denied(gate_of_write().run_gated(&c, None, "hint"), DENY_READ_ONLY));
}

fn write(path: &str, standing: PermissionMode, roots: &[&str]) -> GatedCall {
    call(
        "Write",
        &format!("{{\"path\": \"{path}\", \"content\": \"x\"}}"),
        None,
        false,
        false,
        standing,
        roots,
    )
}

#[test]
fn workspace_write_allows_in_workspace_write() {
    let c = write("/work/src/ok.txt", PermissionMode::WorkspaceWrite, &[CWD]);
    assert!(gate_of_write().run_gated(&c, None, "hint").is_ok());
    let relative = write("src/ok.txt", PermissionMode::WorkspaceWrite, &[CWD]);
    assert!(gate_of_write().run_gated(&relative, None, "hint").is_ok());
}

#[test]
fn workspace_write_allows_entered_worktree_roots() {
    let granted = "/usr/local/manox-wt-fence-proj";
    let target = format!("{granted}/probe.txt");
    let mut c = write(&target, PermissionMode::WorkspaceWrite, &["/wt"]);
    c.worktree = vec![normalize_lexical(granted)];
    assert!(gate_of_write().run_gated(&c, None, "hint").is_ok());
    // A tool without the worktree's roots is not widened by them.
    assert!(denied(
        ApprovalGatedTool::new().run_gated(&c, None, "hint"),
        DENY_OUT_OF_WORKSPACE
    ));
    let c = write(&target, PermissionMode::WorkspaceWrite, &["/wt"]);
    assert!(denied(gate_of_write().run_gated(&c, None, "hint"), DENY_OUT_OF_WORKSPACE));
}

#[test]
fn workspace_write_allows_manox_home_write() {
    let roots = [CWD, "/home/u/.manox"];
    let target = "/home/u/.manox/plans/gate-probe-plan.md";
    let c = write(target, PermissionMode::WorkspaceWrite, &roots);
    assert!(gate_of_write().run_gated(&c, None, "hint").is_ok());
    let c = call(
        "Edit",
        r#"{"patch": "p"}"#,
        Some(strings(&[target])),
        false,
        false,
        PermissionMode::WorkspaceWrite,
        &roots,
    );
    assert!(gate_of_write().run_gated(&c, None, "hint").is_ok());
}

#[test]
fn workspace_write_denies_out_of_workspace_write() {
    let c = write("/etc/manox-gate-test/x.txt", PermissionMode::WorkspaceWrite, &[CWD]);
    assert!(denied(gate_of_write().run_gated(&c, None, "hint"), DENY_OUT_OF_WORKSPACE));
    let c = write("../x.txt", PermissionMode::WorkspaceWrite, &[CWD]);
    assert!(denied(gate_of_write().run_gated(&c, None, "hint"), DENY_OUT_OF_WORKSPACE));
}

#[test]
fn workspace_write_edit_patch_confines_targets() {
    let edit = |file: &str| {
        call(
            "Edit",
            r#"{"patch": "p"}"#,
            Some(strings(&[file])),
            false,
            false,
            PermissionMode::WorkspaceWrite,
            &[CWD],
        )
    };
    assert!(gate_of_write().run_gated(&edit("src/ok.rs"), None, "hint").is_ok());
    assert!(denied(
        gate_of_write().run_gated(&edit("/etc/manox-gate-test/bad.rs"), None, "hint"),
        DENY_OUT_OF_WORKSPACE
    ));
}

#[test]
fn workspace_write_denies_unclassifiable_targets() {
    let c = call("Mock", "{}", None, true, false, PermissionMode::WorkspaceWrite, &[CWD]);
    assert!(denied(gate_of_write().run_gated(&c, None, "hint"), DENY_OUT_OF_WORKSPACE));
    // A patch that cannot be parsed.
    let c = call(
        "Edit",
        r#"{"patch": "p"}"#,
        None,
        false,
        false,
        PermissionMode::WorkspaceWrite,
        &[CWD],
    );
    assert!(denied(gate_of_write().run_gated(&c, None, "hint"), DENY_OUT_OF_WORKSPACE));
}

#[test]
fn workspace_write_admits_session_scoped_tools() {
    for name in [
        ENTER_WORKTREE,
        EXIT_WORKTREE,
        "TaskCreate",
        "TaskList",
        "TaskUpdate",
        "TaskGet",
    ] {
        let c = call(name, "{}", None, false, false, PermissionMode::WorkspaceWrite, &[CWD]);
        assert!(
            gate_of_write().run_gated(&c, None, "hint").is_ok(),
            "{name} admitted under WorkspaceWrite"
        );
        let c = call(name, "{}", None, false, false, PermissionMode::ReadOnly, &[CWD]);
        assert!(
            denied(gate_of_write().run_gated(&c, None, "hint"), DENY_READ_ONLY),
            "{name} denied in ReadOnly"
        );
    }
}

#[test]
fn mutating_tools_reach_the_gate() {
    assert!(ApprovalGatedTool::new().needs_gate(false, false, false, false));
    // No exemption without its policy.
    assert!(ApprovalGatedTool::new().needs_gate(true, true, false, false));
    let exempt = ApprovalGatedTool::new().with_plan_policy();
    assert!(!exempt.needs_gate(true, false, false, false));
    assert!(exempt.needs_gate(false, true, false, false));
}

#[test]
fn explicit_auto_allow_preserves_sandboxed_bash_bypass_contract() {
    let wrapper = ApprovalGatedTool::new().with_auto_allow();
    let auto_allow = |params: &str| !json(params).bool_at("unsandboxed").unwrap_or(false);
    assert!(!wrapper.needs_gate(false, auto_allow(r#"{"unsandboxed": false}"#), false, false));
    assert!(wrapper.needs_gate(false, auto_allow(r#"{"unsandboxed": true}"#), false, false));
    assert!(confined_auto_allow("Bash", &json("{}")));
    assert!(confined_auto_allow("Monitor", &json(r#"{"command": "ls"}"#)));
    assert!(!confined_auto_allow("Monitor", &json(r#"{"command": " "}"#)));
    assert!(!confined_auto_allow("Write", &json("{}")));
}

#[test]
fn read_only_escalation_rejected_by_verdict_does_not_leak_grant() {
    let c = write(
        "/etc/manox-grant-leak-test/x.txt",
        PermissionMode::ReadOnly,
        &[CWD],
    );
    // The first call was granted workspace-write; its target is outside.
    assert!(denied(
        gate_of_write().run_gated(&c, Some(PermissionMode::WorkspaceWrite), "hint"),
        DENY_OUT_OF_WORKSPACE
    ));
    // The next call has no grant.
    assert!(denied(gate_of_write().run_gated(&c, None, "hint"), DENY_READ_ONLY));
}

#[test]
fn parallel_non_escalated_call_is_unaffected_by_in_flight_grant() {
    let escalated = write("/etc/manox-parallel-race/x.txt", PermissionMode::ReadOnly, &[CWD]);
    let plain = write("/etc/manox-parallel-race/y.txt", PermissionMode::ReadOnly, &[CWD]);
    let a = gate_of_write().run_gated(&escalated, Some(PermissionMode::WorkspaceWrite), "hint");
    let b = gate_of_write().run_gated(&plain, None, "hint");
    assert!(denied(a, DENY_OUT_OF_WORKSPACE));
    assert!(denied(b, DENY_READ_ONLY));
}

const TARGETS: [PermissionMode; 2] =
    [PermissionMode::WorkspaceWrite, PermissionMode::DangerFullAccess];

#[test]
fn escalation_fields_advertised_on_wrapped_write_edit_schema() {
    let schema = || {
        json(
            r#"{"type": "object", "properties": {"path": {"type": "string"}}, "required": ["path"]}"#,
        )
    };
    let wrapped = gate_of_write().parameters_schema(schema(), &TARGETS.to_vec());
    let props = at(&wrapped, &["properties"]);
    assert!(props.get("sandbox_permissions").is_some());
    assert!(props.get("justification").is_some());
    assert!(props.get("path").is_some());
    let bare = ApprovalGatedTool::new().parameters_schema(schema(), &TARGETS.to_vec());
    assert!(at(&bare, &["properties"]).get("sandbox_permissions").is_none());
}

#[test]
fn a_wider_mode_is_asked_for_and_granted_once() {
    let mut gate = ApprovalGate::new();
    let params = json(r#"{"sandbox_permissions": "workspace-write", "justification": "need it"}"#);
    let plan = |pairing: Result<(), String>, params: &Json, approver: bool| {
        let gate = ApprovalGatedTool::new();
        let gate = if approver { gate.with_escalation() } else { gate };
        gate.resolve_escalation(
            pairing,
            params,
            &TARGETS.to_vec(),
            PermissionMode::ReadOnly,
            "Write",
            "c1",
        )
    };
    assert_eq!(plan(Ok(()), &json("{}"), true), EscalationStep::NotRequested);
    assert!(matches!(
        plan(Err("pair".into()), &params, true),
        EscalationStep::Refuse(ToolError::InvalidArguments(m)) if m == "pair"
    ));
    assert!(matches!(
        plan(Ok(()), &params, false),
        EscalationStep::Refuse(ToolError::Other(_))
    ));
    assert!(matches!(
        plan(Ok(()), &json(r#"{"sandbox_permissions": "yolo"}"#), true),
        EscalationStep::Refuse(ToolError::InvalidArguments(m))
            if m == "sandbox_permissions must be one of: workspace-write, danger-full-access"
    ));
    let EscalationStep::Ask(req) = plan(Ok(()), &params, true) else {
        panic!("expected a request");
    };
    let event = request_escalation(&mut gate, &req);
    assert!(matches!(
        &event,
        ThreadEvent::ToolCallAuthorization { id, summary, .. }
            if id == "c1" && summary == "escalate sandbox to workspace-write: need it"
    ));
    assert_eq!(gate.pending_entries()[0].0, "c1");
    let allow = Answer::Response(ToolAuthorizationResponse::Decision(
        PermissionDecision::AllowOnce,
    ));
    assert_eq!(
        settle_escalation(&mut gate, "c1", allow),
        EscalationOutcome::AllowedOnce
    );
    assert!(gate.pending_entries().is_empty());
    assert_eq!(
        settle_escalation(&mut gate, "c1", Answer::Dropped),
        EscalationOutcome::Rejected
    );
    assert_eq!(
        settle_escalation(&mut gate, "c1", Answer::Cancelled),
        EscalationOutcome::Cancelled
    );
    assert_eq!(mode_from_wire("read-only"), Some(PermissionMode::ReadOnly));
}

#[test]
fn a_question_is_parked_and_settled() {
    let mut gate = ApprovalGate::new();
    let (card, request) = park_question(&mut gate, "q1", "Title", &ask(2));
    assert!(matches!(
        card,
        ThreadEvent::ToolCall { status: ToolCallStatus::PendingApproval, .. }
    ));
    assert!(matches!(request, ThreadEvent::ToolCallAuthorization { .. }));
    let answer = Answer::Response(ToolAuthorizationResponse::AskUserQuestion {
        answers: vec![("q".into(), "a".into())],
        response: None,
    });
    assert!(matches!(
        settle_question(&mut gate, "q1", answer),
        AskOutcome::Answers { answers, .. } if answers == vec![("q".to_string(), "a".to_string())]
    ));
    assert!(matches!(
        settle_question(&mut gate, "q1", Answer::Dropped),
        AskOutcome::Denied
    ));
}

// --- sidecar ----------------------------------------------------------------

#[test]
fn session_metadata_tags_host_thread_and_optional_team_parent() {
    let tagged = session_metadata("manox", "thread-1", Some("leader-1"));
    assert_eq!(tagged.str_at("host"), Some("manox"));
    assert_eq!(tagged.str_at("thread"), Some("thread-1"));
    assert_eq!(at(&tagged, &["team"]).str_at("parent"), Some("leader-1"));

    let plain = session_metadata("manox", "thread-1", None);
    assert_eq!(plain.str_at("host"), Some("manox"));
    assert_eq!(plain.str_at("thread"), Some("thread-1"));
    assert!(plain.get("team").is_none(), "no team key without a parent");
}

#[test]
fn permission_mode_sidecar_round_trips() {
    // Fresh session: no sidecar -> default.
    assert_eq!(stored_mode(None), PermissionMode::WorkspaceWrite);
    let mut meta = SessionMeta::new();
    meta.apply(SidecarUpdate::ApprovalMode(PermissionMode::DangerFullAccess));
    assert_eq!(stored_mode(Some(&meta)), PermissionMode::DangerFullAccess);
    meta.apply(SidecarUpdate::ApprovalMode(PermissionMode::ReadOnly));
    assert_eq!(stored_mode(Some(&meta)), PermissionMode::ReadOnly);
    let mut gate = ApprovalGate::new();
    resync_approval_mode(&mut gate, Some(&meta));
    assert_eq!(gate.mode(), PermissionMode::ReadOnly);
}

#[test]
fn permission_mode_sidecar_tolerates_unknown_values() {
    let mut meta = SessionMeta::new();
    meta.approval_mode = Some("yolo".to_string());
    assert_eq!(
        stored_mode(Some(&meta)),
        PermissionMode::WorkspaceWrite,
        "unknown persisted modes fall back to the bounded default"
    );
    assert_eq!(load_approval_mode(Some("yolo")), PermissionMode::WorkspaceWrite);
}

#[test]
fn permission_mode_write_preserves_other_sidecar_fields() {
    let mut meta = SessionMeta::new();
    meta.title = Some("my thread".to_string());
    meta.project = Some("/tmp/proj".to_string());
    meta.apply(SidecarUpdate::ApprovalMode(PermissionMode::DangerFullAccess));
    assert_eq!(meta.title.as_deref(), Some("my thread"));
    assert_eq!(meta.project.as_deref(), Some("/tmp/proj"));
    assert_eq!(meta.approval_mode.as_deref(), Some("danger-full-access"));
}

#[test]
fn reasoning_effort_sidecar_round_trips() {
    // Fresh session: no sidecar -> default High.
    assert_eq!(load_reasoning_effort(None), ReasoningEffort::High);
    let mut meta = SessionMeta::new();
    meta.apply(SidecarUpdate::Effort(ReasoningEffort::Max));
    assert_eq!(load_reasoning_effort(Some(&meta)), ReasoningEffort::Max);
    meta.apply(SidecarUpdate::Effort(ReasoningEffort::High));
    assert_eq!(load_reasoning_effort(Some(&meta)), ReasoningEffort::High);
}

#[test]
fn reasoning_effort_sidecar_tolerates_unknown_values() {
    let mut meta = SessionMeta::new();
    meta.reasoning_effort = Some("medium".to_string());
    assert_eq!(
        load_reasoning_effort(Some(&meta)),
        ReasoningEffort::High,
        "unknown persisted efforts fall back to the default"
    );
}

#[test]
fn clear_user_chrome_drops_sidecar_ordinals() {
    let mut meta = SessionMeta::new();
    meta.registry_displays
        .insert(0, "/gitwork:deliver fast".to_string());
    meta.user_attributions.insert(
        0,
        UserAttributionMeta {
            author: "lead".into(),
            peer: false,
            display_text: None,
        },
    );
    assert!(!meta.already_holds(&SidecarUpdate::ClearChrome));
    meta.apply(SidecarUpdate::ClearChrome);
    assert!(
        meta.registry_displays.is_empty(),
        "a compaction clears the stale display ordinals"
    );
    assert!(
        meta.user_attributions.is_empty(),
        "a compaction clears the stale attributions"
    );
}

#[test]
fn clear_user_chrome_is_noop_when_empty() {
    let meta = SessionMeta::new();
    assert!(meta.already_holds(&SidecarUpdate::ClearChrome));
    assert!(meta.registry_displays.is_empty());
}

fn worktree_fixture() -> WorktreeMeta {
    WorktreeMeta {
        worktree_path: "/tmp/wt".into(),
        branch: "b".into(),
        original_session_path: "/sessions/source.jsonl".into(),
        original_cwd: "/proj/a".into(),
        git_common_dir: "/proj/a/.git".into(),
    }
}

#[test]
fn fork_sidecar_inherit_seeds_source_identity() {
    let mut source = SessionMeta::new();
    source.apply(SidecarUpdate::Title("the title".into()));
    source.apply(SidecarUpdate::Project("/proj/a".into()));
    let mut meta = SessionMeta::new();
    fork_sidecar_inherit(&mut meta, Some(&source), worktree_fixture());
    assert_eq!(meta.title.as_deref(), Some("the title"));
    assert_eq!(meta.project.as_deref(), Some("/proj/a"));
    assert_eq!(meta.worktree, Some(worktree_fixture()));
}

#[test]
fn fork_sidecar_inherit_degrades_without_source() {
    let mut meta = SessionMeta::new();
    fork_sidecar_inherit(&mut meta, None, worktree_fixture());
    assert!(meta.title.is_none());
    assert!(meta.project.is_none());
    assert_eq!(meta.worktree, Some(worktree_fixture()));
    assert_eq!(load_worktree_state(Some(&meta)), Some(worktree_fixture()));
}

#[test]
fn plan_mode_is_stored_while_on() {
    let mut meta = SessionMeta::new();
    meta.apply(SidecarUpdate::Plan {
        enabled: true,
        plan_file: Some("/p.md".into()),
    });
    assert_eq!(load_plan_state(Some(&meta)), (true, Some("/p.md".into())));
    meta.apply(SidecarUpdate::Plan {
        enabled: false,
        plan_file: Some("/p.md".into()),
    });
    assert_eq!(meta.plan_mode, None);
    assert_eq!(load_plan_state(Some(&meta)), (false, Some("/p.md".into())));
}

#[test]
fn the_plan_is_read_back_from_the_sidecar() {
    let mut meta = SessionMeta::new();
    assert!(!load_plan_review_pending(Some(&meta)) && !load_plan_review_pending(None));
    assert_eq!(load_plan_snapshot(Some(&meta)), None);
    meta.apply(SidecarUpdate::PlanReviewPending(true));
    meta.apply(SidecarUpdate::PlanSnapshot(Some(json("{\"steps\": []}"))));
    assert!(load_plan_review_pending(Some(&meta)));
    assert_eq!(load_plan_snapshot(Some(&meta)), Some(json("{\"steps\": []}")));

    meta.apply(SidecarUpdate::Plan {
        enabled: true,
        plan_file: Some("/p.md".into()),
    });
    let mut plan = PlanSessionState::new();
    let event = resync_plan_state(&mut plan, Some(&meta), Some("plan first".into()));
    assert!(matches!(event, ThreadEvent::PlanModeChanged { enabled: true }));
    assert!(plan.enabled);
    assert_eq!(plan.plan_file.as_deref(), Some("/p.md"));
    assert_eq!(plan.active_instructions.as_deref(), Some("plan first"));
    let event = resync_plan_state(&mut plan, None, Some("plan first".into()));
    assert!(matches!(event, ThreadEvent::PlanModeChanged { enabled: false }));
    assert!(!plan.enabled && plan.plan_file.is_none() && plan.active_instructions.is_none());
}

// --- transcript -------------------------------------------------------------

fn tool_result_message() -> Message {
    Message::user_with_content(vec![MessageContent::ToolResult(LanguageModelToolResult {
        tool_use_id: "tu_1".into(),
        tool_name: "Read".into(),
        is_error: false,
        content: "ok".into(),
    })])
}

#[test]
fn attach_registry_displays_restores_sidecar_compact_forms() {
    let displays: HashMap<usize, String> = [
        (0usize, "/gitwork:deliver fast".to_string()),
        (2usize, "/healthz".to_string()),
    ]
    .into_iter()
    .collect();
    let mut history: Vec<HistoryEntry> = vec![
        Message::user("expanded macro body".to_string()), // ordinal 0
        Message::user("plain turn".to_string()),          // ordinal 1
        tool_result_message(),
        Message::assistant(vec![MessageContent::Text("reply".into())]),
        Message::user("expanded skill body".to_string()), // ordinal 2
    ]
    .into_iter()
    .map(HistoryEntry::Message)
    .collect();
    attach_registry_displays(&mut history, &displays);

    let ui = |ix: usize| match &history[ix] {
        HistoryEntry::Message(m) => m.ui.as_ref().and_then(|ui| ui.display_text.clone()),
        _ => None,
    };
    let no_ui = |ix: usize| match &history[ix] {
        HistoryEntry::Message(m) => m.ui.is_none(),
        _ => false,
    };
    assert_eq!(ui(0).as_deref(), Some("/gitwork:deliver fast"));
    assert!(no_ui(1), "plain turn keeps no display text");
    assert!(no_ui(2), "tool result never consumes a display ordinal");
    assert!(no_ui(3), "assistant turns never get display text");
    assert_eq!(ui(4).as_deref(), Some("/healthz"));
}

#[test]
fn attach_user_attributions_restores_sidecar_authorship() {
    let meta = |author: &str, peer: bool, display: Option<&str>| UserAttributionMeta {
        author: author.into(),
        peer,
        display_text: display.map(|s| s.to_string()),
    };
    let attributions: HashMap<usize, UserAttributionMeta> = [
        (0usize, meta("lead", false, None)),
        (1usize, meta("Sailor", true, Some("unwrapped body"))),
        // Beyond the transcript's ordinals: tolerated, attaches nowhere.
        (5usize, meta("lead", false, None)),
    ]
    .into_iter()
    .collect();
    let mut history: Vec<HistoryEntry> = vec![
        Message::user("plan seed".to_string()), // ordinal 0
        Message::assistant(vec![MessageContent::Text("ok".into())]),
        tool_result_message(),
        Message::user("[from Sailor]: wrapped".to_string()), // ordinal 1
    ]
    .into_iter()
    .map(HistoryEntry::Message)
    .collect();
    attach_user_attributions(&mut history, &attributions);

    let ui_at = |ix: usize| match &history[ix] {
        HistoryEntry::Message(m) => m.ui.clone(),
        _ => None,
    };
    let seed = ui_at(0).expect("seed carries attribution");
    assert_eq!(seed.author, Some(MessageAuthor::Lead));
    assert!(!seed.peer);
    assert!(ui_at(1).is_none(), "assistant turns stay unattributed");
    let peer = ui_at(3).expect("peer delivery carries attribution");
    assert_eq!(peer.author, Some(MessageAuthor::Agent("Sailor".into())));
    assert!(peer.peer);
    assert_eq!(
        peer.display_text.as_deref(),
        Some("unwrapped body"),
        "the send-time display form survives the sidecar round-trip"
    );
    assert!(
        ui_at(2).is_none(),
        "tool results never consume an ordinal nor carry attribution"
    );
}

#[test]
fn steer_message_carries_images_behind_text() {
    let msg = steer_message(
        "look at this".to_string(),
        vec![ContentBlock::Image {
            data: "aW1hZ2U=".to_string(),
            mime_type: "image/png".to_string(),
        }],
    );
    let AgentMessage::User { content, .. } = &msg else {
        panic!("steer message must be a user message");
    };
    assert_eq!(content.len(), 2, "text first, then the image block");
    assert!(matches!(
        &content[0],
        ContentBlock::Text { text, .. } if text == "look at this"
    ));
    assert!(matches!(
        &content[1],
        ContentBlock::Image { mime_type, .. } if mime_type == "image/png"
    ));
}

fn text_block(text: &str) -> ContentBlock {
    ContentBlock::Text {
        text: text.into(),
        signature: None,
    }
}

fn user(text: &str) -> AgentMessage {
    AgentMessage::User {
        content: vec![text_block(text)],
    }
}

fn partial_assistant(text: &str) -> AgentMessage {
    AgentMessage::Assistant {
        content: vec![text_block(text)],
        model: "test".into(),
        provider: "test".into(),
        response_model: None,
        stop_reason: None,
        usage: TokenUsage::default(),
        error_message: None,
    }
}

fn shows(entry: &HistoryEntry, text: &str) -> bool {
    matches!(entry, HistoryEntry::Message(m)
        if matches!(&m.content[0], MessageContent::Text(t) if t == text))
}

#[test]
fn sync_live_history_mirrors_completed_plus_streaming_and_reports_change() {
    let mut mirror = HistoryMirror::new();
    let mut live = LiveTranscript::new();
    live.messages.push(user("hi"));
    live.streaming = Some(partial_assistant("part"));

    assert!(sync_live_history(&live, &mut mirror));
    assert_eq!(mirror.history.len(), 2);
    assert!(shows(&mirror.history[0], "hi"));
    assert!(shows(&mirror.history[1], "part"));

    // Identical snapshot: no change.
    assert!(!sync_live_history(&live, &mut mirror));

    // The streaming partial growing re-syncs.
    live.streaming = Some(partial_assistant("partial-answer"));
    assert!(sync_live_history(&live, &mut mirror));
    assert!(shows(&mirror.history[1], "partial-answer"));
}

fn note(text: &str) -> UiNoteRecord {
    UiNoteRecord {
        kind: "error".into(),
        data: json(&format!("{{\"text\": \"{text}\"}}")),
    }
}

fn message_entry(text: &str) -> SessionEntry {
    SessionEntry::Context {
        messages: vec![user(text)],
    }
}

fn note_entry(text: &str) -> SessionEntry {
    SessionEntry::Custom {
        custom_type: UI_NOTE_CUSTOM_TYPE.to_string(),
        data: CustomData::Note(note(text)),
    }
}

fn kinds(display: &[HistoryEntry]) -> Vec<&'static str> {
    display
        .iter()
        .map(|e| match e {
            HistoryEntry::Message(_) => "m",
            HistoryEntry::Note(_) => "n",
        })
        .collect()
}

#[test]
fn entries_to_display_interleaves_notes_and_skips_unknown_customs() {
    let entries = vec![
        message_entry("one"),
        note_entry("boom"),
        SessionEntry::Custom {
            custom_type: "some_extension".into(),
            data: CustomData::Absent,
        },
        message_entry("two"),
    ];
    let (display, notes) = entries_to_display(&entries);
    assert_eq!(notes.len(), 1);
    assert_eq!(notes[0].after_message, 1);
    assert_eq!(kinds(&display), vec!["m", "n", "m"]);
}

#[test]
fn entries_to_display_counts_positions_over_projected_compaction_list() {
    // The summary of a compaction stands in front of what it keeps.
    let entries = vec![
        message_entry("recap"),
        message_entry("two"),
        note_entry("kept"),
        message_entry("three"),
    ];
    let (display, notes) = entries_to_display(&entries);
    assert_eq!(notes.len(), 1);
    assert_eq!(notes[0].note.data.str_at("text"), Some("kept"));
    // summary + m2 precede the kept note.
    assert_eq!(notes[0].after_message, 2);
    assert_eq!(kinds(&display), vec!["m", "m", "n", "m"]);
}

#[test]
fn the_mirror_is_rebuilt_from_the_entries() {
    let mut mirror = HistoryMirror::new();
    let displays: HashMap<usize, String> = [(1usize, "/two".to_string())].into_iter().collect();
    let entries = vec![message_entry("one"), note_entry("n"), message_entry("two")];
    mirror.sync_history(Some(&entries), &displays, &HashMap::new());
    assert_eq!(kinds(&mirror.history), vec!["m", "n", "m"]);
    assert!(matches!(&mirror.history[2], HistoryEntry::Message(m)
        if m.ui.as_ref().unwrap().display_text.as_deref() == Some("/two")));
    assert_eq!(mirror.notes_gen, 1);
    mirror.sync_history(None, &displays, &HashMap::new());
    assert_eq!(mirror.history.len(), 3);
}

#[test]
fn tool_titles_carry_browser_targets() {
    assert_eq!(
        tool_title("ChromeUseOpen", &json(r#"{"url": "https://example.com"}"#)),
        "ChromeUseOpen https://example.com"
    );
    assert_eq!(
        tool_title(
            "ChromeUseOpen",
            &json(r#"{"cdp_endpoint": "ws://127.0.0.1:9222/x"}"#)
        ),
        "ChromeUseOpen ws://127.0.0.1:9222/x"
    );
    assert_eq!(
        tool_title("ChromeUseClick", &json(r#"{"tab_id": 2, "ref": "e7"}"#)),
        "ChromeUseClick tab 2 [e7]"
    );
    assert_eq!(
        tool_title("WebExploreScreenshot", &json(r#"{"tab_id": 1}"#)),
        "WebExploreScreenshot tab 1"
    );
    // Unrecognized shapes fall back to the bare name.
    assert_eq!(tool_title("ChromeUseClose", &json("{}")), "ChromeUseClose");
    assert_eq!(tool_title("Bash", &json("{}")), "Bash");
}

// --- events -----------------------------------------------------------------

const TOPIC: &str = "find the auth module and summarize its structure";

#[test]
fn agent_tool_start_maps_to_subagent_progress_row() {
    let events = agent_event_to_thread_events(
        &AgentEvent::ToolExecutionStart {
            tool_call_id: "call-1".into(),
            tool_name: AGENT.into(),
            arguments: json(
                r#"{"subagent_type": "Explore", "prompt": "find the auth module and summarize its structure"}"#,
            ),
        },
        TOPIC,
    );
    assert_eq!(events.len(), 2, "tool card + rail observation row");
    match &events[1] {
        ThreadEvent::SubagentProgress {
            id,
            subagent_type,
            latest_activity,
            status,
            ..
        } => {
            assert_eq!(id, "call-1");
            assert_eq!(subagent_type, "Explore");
            assert_eq!(latest_activity.as_deref(), Some(TOPIC));
            assert_eq!(*status, ToolCallStatus::Running);
        }
        other => panic!("expected SubagentProgress, got {other:?}"),
    }
}

#[test]
fn agent_tool_end_closes_subagent_progress_row() {
    let events = agent_event_to_thread_events(
        &AgentEvent::ToolExecutionEnd {
            tool_call_id: "call-1".into(),
            tool_name: AGENT.into(),
            result: vec![text_block("done")],
            is_error: false,
        },
        "",
    );
    assert_eq!(events.len(), 3, "tool card + result + rail row");
    match &events[2] {
        ThreadEvent::SubagentProgress { id, status, .. } => {
            assert_eq!(id, "call-1");
            assert_eq!(*status, ToolCallStatus::Success);
        }
        other => panic!("expected SubagentProgress, got {other:?}"),
    }
}

#[test]
fn non_agent_tools_emit_no_subagent_progress() {
    let events = agent_event_to_thread_events(
        &AgentEvent::ToolExecutionStart {
            tool_call_id: "call-2".into(),
            tool_name: "Read".into(),
            arguments: json(r#"{"path": "src/main.rs"}"#),
        },
        "",
    );
    assert_eq!(events.len(), 1, "plain tools keep a single tool card");
}

fn update(id: &str, tool: &str, partial: &str) -> Vec<ThreadEvent> {
    agent_event_to_thread_events(
        &AgentEvent::ToolExecutionUpdate {
            tool_call_id: id.into(),
            tool_name: tool.into(),
            arguments: json("{}"),
            partial_result: json(partial),
        },
        "",
    )
}

#[test]
fn agent_child_text_delta_maps_to_subagent_child() {
    let events = update(
        "call-1",
        AGENT,
        r#"{"subagent_event": { "kind": "text", "text": "found it" }}"#,
    );
    assert_eq!(events.len(), 1);
    match &events[0] {
        ThreadEvent::SubagentChild { id, child } => {
            assert_eq!(id, "call-1");
            assert_eq!(child, &SubagentChildEvent::Text("found it".into()));
        }
        other => panic!("expected SubagentChild, got {other:?}"),
    }
}

#[test]
fn agent_child_tool_lifecycle_maps_to_child_and_rail_activity() {
    let start = update(
        "call-1",
        AGENT,
        r#"{"subagent_event": { "kind": "tool_start", "id": "child-1", "tool": "Read", "summary_key": "path", "summary": "src/main.rs" }}"#,
    );
    assert_eq!(start.len(), 2, "drill-down event + rail activity");
    assert!(matches!(
        &start[0],
        ThreadEvent::SubagentChild {
            child: SubagentChildEvent::ToolStart { .. },
            ..
        }
    ));
    match &start[1] {
        ThreadEvent::SubagentProgress {
            latest_activity, ..
        } => assert_eq!(latest_activity.as_deref(), Some("▸ Read src/main.rs")),
        other => panic!("expected SubagentProgress, got {other:?}"),
    }
    let end = update(
        "call-1",
        AGENT,
        r#"{"subagent_event": { "kind": "tool_end", "id": "child-1", "tool": "Read", "is_error": true }}"#,
    );
    assert_eq!(end.len(), 2);
    assert!(matches!(
        &end[0],
        ThreadEvent::SubagentChild {
            child: SubagentChildEvent::ToolEnd { is_error: true, .. },
            ..
        }
    ));
}

#[test]
fn bash_output_update_still_maps_to_tool_output() {
    let events = update("call-3", "Bash", r#"{ "output": "line one" }"#);
    assert_eq!(events.len(), 1);
    assert!(matches!(
        &events[0],
        ThreadEvent::ToolOutput { chunk, .. } if chunk == "line one"
    ));
}

#[test]
fn adapt_strips_proposed_plan_blocks_from_assistant_text() {
    let plan = "## Steps\n- do the thing";
    let mut message = partial_assistant(&format!(
        "Here is my plan.\n\n<proposed_plan>\n{plan}\n</proposed_plan>\n\nShall we?"
    ));
    if let AgentMessage::Assistant { stop_reason, .. } = &mut message {
        *stop_reason = Some(HarnessStopReason::Stop);
    }
    let mapped = harness_messages_to_messages(&vec![message]);
    assert_eq!(mapped.len(), 1);
    let text = mapped[0]
        .content
        .iter()
        .find_map(|c| match c {
            MessageContent::Text(t) => Some(t.as_str()),
            _ => None,
        })
        .unwrap();
    assert!(
        !text.contains("<proposed_plan>"),
        "plan block must not render"
    );
    assert!(text.contains("Here is my plan."));
    assert!(text.contains("Shall we?"));
}

#[test]
fn tool_terminate_observe_releases_state_guard_before_wake() {
    let event = AgentEvent::ToolExecutionEnd {
        tool_call_id: "call-1".into(),
        tool_name: PROPOSE_PLAN.into(),
        result: vec![text_block("plan submitted")],
        is_error: false,
    };
    let mut scheduler = TitleSchedulerState::default();
    scheduler.in_flight = true;
    assert_eq!(observe(&event, true), TitleSignal::Terminated);
    // The wake that follows is parked, for a run is in flight.
    assert_eq!(scheduler.wake(true, TitleWakeReason::Stop), None);
    assert_eq!(observe(&event, false), TitleSignal::Ignored);
}

#[test]
fn the_thread_hears_of_new_messages() {
    let mut live = LiveTranscript::new();
    let mut answered = false;
    let end = AgentEvent::MessageEnd {
        message: user("hi"),
    };
    let out = observe_session(&end, &mut live, &mut answered, "");
    assert_eq!(out[0], BackendNotice::SessionListDirty);
    assert_eq!(live.messages, vec![user("hi")]);
    let answer = AgentEvent::MessageEnd {
        message: partial_assistant("yes"),
    };
    let out = observe_session(&answer, &mut live, &mut answered, "");
    assert_eq!(out[0], BackendNotice::SessionListDirty);
    assert!(answered);
    let signal = on_harness_event(HarnessEvent::QueueUpdate { steer: 1 }, "/s.jsonl");
    assert!(signal.wake);
    let signal = on_harness_event(
        HarnessEvent::CompactionEnd {
            summary: Some("recap".into()),
            tokens_before: 9,
            aborted: false,
        },
        "/s.jsonl",
    );
    assert_eq!(
        signal.actions[0],
        Action::Sidecar {
            path: "/s.jsonl".into(),
            update: SidecarUpdate::ClearChrome
        }
    );
}

// --- usage ------------------------------------------------------------------

fn usage(cache_read: u64) -> TokenUsage {
    TokenUsage {
        input_tokens: 10,
        cache_read_input_tokens: cache_read,
        ..TokenUsage::default()
    }
}

fn assistant_request(usage: TokenUsage) -> AgentMessage {
    AgentMessage::Assistant {
        content: Vec::new(),
        model: "deepseek-v4-flash".into(),
        provider: "DeepSeek".into(),
        response_model: None,
        stop_reason: Some(HarnessStopReason::Stop),
        usage,
        error_message: None,
    }
}

fn empty_user() -> AgentMessage {
    AgentMessage::User {
        content: Vec::new(),
    }
}

fn mapped(messages: &Vec<AgentMessage>) -> Vec<HistoryEntry> {
    harness_messages_to_messages(messages)
        .into_iter()
        .map(HistoryEntry::Message)
        .collect()
}

#[test]
fn request_attribution_keys_turns_and_keeps_only_latest_request_per_model() {
    let (u1, u2, u3) = (usage(100), usage(200), usage(300));
    let messages = vec![
        empty_user(),
        assistant_request(u1),
        assistant_request(u2),
        empty_user(),
        assistant_request(u3),
    ];
    let history = mapped(&messages);
    assert!(in_lockstep(&history, &messages));
    let (per_turn, per_model_last) = request_attribution(&history, &messages);
    assert!(checked_attribution(&history, &messages).is_ok());
    let id = |ix: usize| match &history[ix] {
        HistoryEntry::Message(m) => m.id.clone(),
        _ => String::new(),
    };
    // Each turn accumulates under its own triggering user message.
    assert_eq!(per_turn.len(), 2);
    assert_eq!(per_turn.get(&id(0)), Some(&(u1 + u2)));
    assert_eq!(per_turn.get(&id(3)), Some(&u3));
    // The budget numerator is the single latest request, never a sum.
    let last = per_model_last
        .get("DeepSeek/deepseek-v4-flash")
        .expect("latest request keyed by provider/model");
    assert_eq!(last.cache_read_input_tokens, 300);
    // The totals over the messages.
    let (total, per_model) = usage_from_messages(&messages);
    assert_eq!(total, u1 + u2 + u3);
    assert_eq!(per_model.get("DeepSeek/deepseek-v4-flash"), Some(&total));
    assert_eq!(successful_provider_responses(&messages), 3);
}

#[test]
#[should_panic(expected = "out of lockstep")]
fn request_attribution_backstop_trips_on_leftover_mapped_rows() {
    let messages = vec![empty_user(), assistant_request(usage(100))];
    let mut history = mapped(&messages);
    // One mapped row that the walk never consumes.
    history.push(history[0].clone());
    checked_attribution(&history, &messages).unwrap();
}

#[test]
#[should_panic(expected = "out of lockstep")]
fn request_attribution_backstop_trips_on_over_consumption() {
    let messages = vec![empty_user(), assistant_request(usage(100))];
    // The walk consumes an id for a message that is not mapped.
    let history = mapped(&vec![empty_user()]);
    checked_attribution(&history, &messages).unwrap();
}

#[test]
fn statistics_are_usage() {
    let t = StatsTotals {
        input: 1,
        output: 2,
        cache_write: 3,
        cache_read: 4,
    };
    let u = token_usage_from_totals(&t);
    assert_eq!(
        (u.input_tokens, u.output_tokens, u.cache_creation_input_tokens, u.cache_read_input_tokens),
        (1, 2, 3, 4)
    );
    let (total, per_model) = usage_from_stats(&t, &vec![("p/m".into(), t)]);
    assert_eq!(total, u);
    assert_eq!(per_model.get("p/m"), Some(&u));
}

// --- the actor --------------------------------------------------------------

fn model(id: &str) -> Model {
    Model {
        provider: "test".into(),
        api: "test".into(),
        id: id.into(),
        context_window: 100_000,
        max_tokens: 8_192,
        thinking: ThinkingKind::Disabled,
        metadata: json("{}"),
    }
}

fn context() -> ActorContext {
    ActorContext {
        thread_id: "t1".into(),
        cwd: "/w".into(),
        session_path: "/s/one.jsonl".into(),
        instructions: Some("PLAN".into()),
    }
}

#[test]
fn mid_run_model_switch_applies_to_next_turn_and_stats() {
    let mut state = ActorState::new(Some(model("test")), None, false);
    let mut mirror = HistoryMirror::new();
    let out = state.on_mid_run(
        Some(SessionCmd::SetModel(model("new"))),
        "/s/one.jsonl",
        false,
        &mut mirror,
    );
    // The running turn gets the model, and so does the actor.
    assert!(out
        .actions
        .iter()
        .any(|a| matches!(a, Action::SetModel(m) if m.id == "new")));
    assert_eq!(state.model.as_ref().map(|m| m.id.as_str()), Some("new"));
}

#[test]
fn mid_run_append_ui_note_mirrors_now_and_parks_persist() {
    let mut state = ActorState::new(Some(model("test")), None, false);
    let mut mirror = HistoryMirror::new();
    let out = state.on_mid_run(
        Some(SessionCmd::AppendUiNote(note("mid-run card"))),
        "/s/one.jsonl",
        false,
        &mut mirror,
    );
    assert!(out.actions.is_empty() && out.open && !out.aborted);
    assert_eq!(
        mirror.notes.len(),
        1,
        "mid-run AppendUiNote must merge into the mirror immediately"
    );
    assert!(matches!(mirror.history.last(), Some(HistoryEntry::Note(_))));
    let (settled, next) = state.run_ended(&RunKind::Continue, None, false, false);
    assert!(
        state.pending_ui_notes.is_empty(),
        "settlement drains the parked queue"
    );
    // The card is stored before the mirror is rebuilt.
    let stored = settled
        .iter()
        .position(|a| matches!(a, Action::PersistNote(n) if n == &note("mid-run card")))
        .expect("settlement must persist the parked note");
    let synced = settled
        .iter()
        .position(|a| matches!(a, Action::SyncHistory))
        .unwrap();
    assert!(stored < synced);
    assert_eq!(next, Next::AskRound);
}

#[test]
fn reopened_session_restores_its_own_model() {
    let mut state = ActorState::new(Some(model("test")), None, false);
    state.on_restored(Some(model("new")));
    assert_eq!(
        state.model.as_ref().map(|m| m.id.as_str()),
        Some("new"),
        "the shared model slot follows the restored session"
    );
    assert!(state.on_opened(Ok(model("third"))).is_empty());
    assert_eq!(state.model.as_ref().map(|m| m.id.as_str()), Some("third"));
    assert_eq!(
        state.on_opened(Err("gone".into())),
        vec![Action::Notice(BackendNotice::Fatal(
            "pi session open failed: gone".into()
        ))]
    );
}

#[test]
fn a_prompt_starts_the_session_once() {
    let mut state = ActorState::new(Some(model("m")), None, true);
    let prompt = || SessionCmd::Prompt {
        text: "hi".into(),
        images: vec![],
    };
    let starts = |out: &[Action]| {
        out.iter()
            .filter(|a| matches!(a, Action::FireHook { event: HookEvent::SessionStart, .. }))
            .count()
    };
    let first = state.on_command(prompt(), &context());
    assert_eq!(starts(&first), 1);
    assert!(state.running);
    assert!(matches!(first.last(), Some(Action::Run(RunKind::Prompt { text, .. })) if text == "hi"));
    state.run_ended(
        &RunKind::Prompt {
            text: "hi".into(),
            images: vec![],
        },
        None,
        false,
        false,
    );
    assert_eq!(starts(&state.on_command(prompt(), &context())), 0);
}

#[test]
fn an_approved_plan_leaves_plan_mode() {
    let mut state = ActorState::new(Some(model("m")), None, false);
    state.on_command(SessionCmd::SetPlanMode { enabled: true }, &context());
    assert!(state.plan.enabled());
    let out = state.on_command(
        SessionCmd::ApprovePlan {
            compact: true,
            compact_instructions: Some("short".into()),
            seed_text: "go".into(),
        },
        &context(),
    );
    assert!(!state.plan.enabled());
    let purpose = out
        .into_iter()
        .find_map(|a| match a {
            Action::Compact { purpose, .. } => Some(purpose),
            _ => None,
        })
        .expect("compaction first");
    assert_eq!(purpose, CompactPurpose::Approval { seed_text: "go".into() });
    let out = state.on_compacted(purpose, CompactOutcome::Failed("e".into()), &context());
    // The seed turn runs whatever became of the compaction.
    assert!(matches!(out.last(), Some(Action::Run(RunKind::Seed { text })) if text == "go"));
}

#[test]
fn steers_are_accounted_for() {
    let mut state = ActorState::new(Some(model("m")), None, false);
    let mut mirror = HistoryMirror::new();
    let steer = SessionCmd::Steer {
        id: "s1".into(),
        text: "left".into(),
        images: vec![],
    };
    state.on_mid_run(Some(steer), "/s/one.jsonl", false, &mut mirror);
    assert_eq!(state.run_steers, vec!["s1"]);
    let out = state.settle_run(None, true);
    assert!(out.iter().any(|a| matches!(a,
        Action::Notice(BackendNotice::Settled { cancelled: true, stranded, steered, .. })
            if stranded == &vec!["s1".to_string()] && steered.is_empty())));
    assert!(state.run_steers.is_empty());
    let gone = state.on_mid_run(None, "/s/one.jsonl", false, &mut mirror);
    assert_eq!(gone.actions, vec![Action::Abort]);
    assert!(!gone.open && state.shutdown_after_run);
}

#[test]
fn what_a_run_cannot_take_is_parked() {
    let mut state = ActorState::new(Some(model("m")), None, false);
    let mut mirror = HistoryMirror::new();
    let open = || SessionCmd::Open {
        path: "/s/two.jsonl".into(),
    };
    state.on_mid_run(Some(open()), "/s/one.jsonl", false, &mut mirror);
    assert_eq!(state.take_parked(), vec![Action::Requeue(open())]);
    assert!(state.take_parked().is_empty());
    assert!(state.on_wakeup(true).is_empty());
    assert_eq!(state.on_wakeup(false).len(), 2);
    assert_eq!(title_persisted(true), Some(BackendNotice::SessionListDirty));
    assert_eq!(title_persisted(false), None);
    note_persisted(&mut mirror, note("late"), false);
    assert!(mirror.history.is_empty());
    note_persisted(&mut mirror, note("late"), true);
    assert_eq!(mirror.history.len(), 1);
}

#[test]
fn leaving_a_worktree_returns() {
    let mut state = ActorState::new(Some(model("m")), None, false);
    let out = state.on_forked(
        "/s/one.jsonl".into(),
        worktree_fixture(),
        Ok("/s/fork.jsonl".into()),
    );
    assert_eq!(
        out[0],
        Action::SetActive {
            session_id: "fork".into()
        }
    );
    assert!(out.iter().any(|a| matches!(a,
        Action::ResyncWorktree { path } if path == "/s/fork.jsonl")));
    let mut meta = SessionMeta::new();
    fork_sidecar_inherit(&mut meta, None, worktree_fixture());
    let event = resync_worktree_state(&mut state.worktree, Some(&meta));
    assert!(matches!(event, ThreadEvent::WorktreeChanged { active: true, .. }));
    let out = state.on_command(SessionCmd::ExitWorktree, &context());
    assert!(out.iter().any(|a| matches!(a,
        Action::OpenSession { path } if path == "/sessions/source.jsonl")));
}

// --- start ------------------------------------------------------------------

fn candidate(path: &str, ours: bool, messages: usize, cwd: &str) -> SessionCandidate {
    SessionCandidate {
        id: path.into(),
        path: path.into(),
        ours,
        message_count: messages,
        cwd: cwd.into(),
    }
}

#[test]
fn the_newest_session_of_this_host_is_restored() {
    let cs = vec![
        candidate("/s/other", false, 9, "/x"),
        candidate("/s/empty", true, 0, "/x"),
        candidate("/s/mine", true, 3, "/"),
    ];
    assert_eq!(choose_session(false, &cs, None), Some(2));
    assert_eq!(choose_session(false, &cs, Some("/s/empty")), Some(1));
    assert_eq!(choose_session(false, &cs, Some("/s/other")), None);
    assert_eq!(choose_session(true, &cs, None), None);
    assert_eq!(session_cwd(&cs, "/s/mine", "/home"), "/home");
    assert_eq!(session_cwd(&cs, "/s/empty", "/home"), "/x");
    assert_eq!(session_cwd(&cs, "/s/none", "/home"), "/home");
}

#[test]
fn a_session_needs_a_model() {
    assert_eq!(
        resolve_model(None, None),
        Err(BackendNotice::Fatal(
            "no model configured — add a provider in Settings".into()
        ))
    );
    assert_eq!(resolve_model(None, Some(model("d"))).unwrap().id, "d");
    assert_eq!(
        build_failure("boom", &strings(&["a\"b"])),
        BackendNotice::Fatal(format!(
            "pi session build failed: boom (registered providers: {:?})",
            vec!["a\"b"]
        ))
    );
    let spec = session_builder(
        "/w",
        "/sessions",
        None,
        &strings(&["Read", "ChromeUseOpen"]),
        Some("/cfg"),
        "manox",
        "t1",
        None,
    );
    assert_eq!(spec.active_tools, vec!["Read"]);
    assert_eq!(spec.snapshot_dir.as_deref(), Some("/cfg/hashline-snapshots"));
    assert_eq!(context_file_name("/w/RULES.txt", "NOTES.md"), "RULES.txt");
    assert_eq!(context_file_name("/", "NOTES.md"), "NOTES.md");
}

#[test]
fn a_restored_session_reports_that_it_is_ready() {
    let mut meta = SessionMeta::new();
    meta.apply(SidecarUpdate::Plan {
        enabled: true,
        plan_file: Some("/p.md".into()),
    });
    meta.apply(SidecarUpdate::Effort(ReasoningEffort::Max));
    let mut state = ActorState::new(Some(model("m")), None, false);
    state.hydrate(Some(&meta));
    let out = state.start(
        Some(&meta),
        StartFacts {
            path: "/s/one.jsonl".into(),
            restored: true,
            project: None,
            suites: vec![],
            instructions: Some("PLAN".into()),
            worktree_path: None,
        },
    );
    let ready = out
        .iter()
        .find_map(|a| match a {
            Action::Notice(BackendNotice::Ready(info)) => Some(info),
            _ => None,
        })
        .expect("ready");
    assert!(ready.restored && ready.plan_mode);
    assert_eq!(ready.reasoning_effort, ReasoningEffort::Max);
    assert_eq!(ready.plan_file.as_deref(), Some("/p.md"));
    assert!(state.session_start_fired);
    assert_eq!(state.active_path.as_deref(), Some("/s/one.jsonl"));
}

#[test]
fn a_preview_yields_to_whoever_writes() {
    let mut history: Vec<HistoryEntry> = vec![];
    let batch = vec![user("one"), user("two")];
    assert_eq!(preview_batch(&mut history, 0, &batch), PreviewStep::Progress(2));
    assert_eq!(preview_batch(&mut history, 1, &batch), PreviewStep::Stop);
    assert_eq!(preview_batch(&mut history, 2, &vec![]), PreviewStep::Skip);
    assert_eq!(history.len(), 2);
    // A further batch leaves the rows that are there alone.
    let shown = history.clone();
    assert_eq!(
        preview_batch(&mut history, 2, &vec![user("three")]),
        PreviewStep::Progress(3)
    );
    assert_eq!(history[..2], shown[..]);
}

#[test]
fn mapped_messages_draw_ids() {
    let custom = AgentMessage::Custom {
        content: vec![ContentBlock::Text {
            text: "card".into(),
            signature: None,
        }],
        display: true,
    };
    let messages = vec![user("one"), custom.clone(), assistant_request(usage(1))];
    let mut history = mapped(&messages);
    preview_batch(&mut history, 3, &messages);
    let entries = vec![SessionEntry::Context {
        messages: messages.clone(),
    }];
    history.extend(entries_to_display(&entries).0);
    let mut mirror = HistoryMirror::new();
    let live = LiveTranscript {
        messages,
        streaming: Some(custom),
    };
    assert!(sync_live_history(&live, &mut mirror));
    history.extend(mirror.history.clone());
    mirror.sync_history(Some(&entries), &HashMap::new(), &HashMap::new());
    history.extend(mirror.history);
    let ids: Vec<&String> = history
        .iter()
        .map(|e| match e {
            HistoryEntry::Message(m) => &m.id,
            HistoryEntry::Note(_) => unreachable!(),
        })
        .collect();
    assert_eq!(ids.len(), 16);
    assert!(ids.iter().all(|id| id.len() == 36));
}

#[test]
fn the_session_list_shows_threads_of_this_host() {
    let info = |id: &str, metadata: &str| SessionInfo {
        id: id.into(),
        first_message: "hi".into(),
        cwd: "/".into(),
        parent_session_path: Some("/parent".into()),
        team_parent: None,
        metadata: Some(json(metadata)),
        created_at: 1,
        modified_at: 2,
    };
    let found = vec![
        FoundSession {
            info: info("a", "{}"),
            belongs_to_host: true,
        },
        FoundSession {
            info: info("b", r#"{"subagent": {}}"#),
            belongs_to_host: true,
        },
        FoundSession {
            info: info("c", "{}"),
            belongs_to_host: false,
        },
    ];
    let rows = refresh_session_list(&found);
    assert_eq!(rows.len(), 1);
    assert_eq!(rows[0].id, "a");
    assert_eq!(rows[0].project, "");
    assert_eq!(rows[0].parent_id.as_deref(), Some("/parent"));
    assert_eq!((rows[0].created_at, rows[0].updated_at), (1, 2));
}

#[test]
fn notes_are_placed_behind_their_messages() {
    let mut display: Vec<HistoryEntry> = vec![
        HistoryEntry::Message(Message::user("one".into())),
        HistoryEntry::Message(Message::user("three".into())),
    ];
    assert_eq!(live_fingerprint(&display), (2, 5));
    let at = |after_message: usize, text: &str| PositionedNote {
        note: note(text),
        after_message,
    };
    let messages: Vec<HistoryEntry> = display.clone();
    merge_positioned_notes(
        &mut display,
        &vec![at(0, "top"), at(1, "first"), at(1, "second"), at(9, "tail")],
    );
    // The messages are the very ones from before, ids and times included.
    let kept: Vec<&HistoryEntry> = display
        .iter()
        .filter(|e| matches!(e, HistoryEntry::Message(_)))
        .collect();
    assert_eq!(kept, messages.iter().collect::<Vec<_>>());
    assert_eq!(
        kinds(&display),
        vec!["n", "m", "n", "n", "m", "n"]
    );
    assert!(matches!(&display[0], HistoryEntry::Note(n) if n == &note("top")));
    assert!(matches!(&display[2], HistoryEntry::Note(n) if n == &note("first")));
    assert!(matches!(&display[3], HistoryEntry::Note(n) if n == &note("second")));
    // Notes do not count.
    assert_eq!(live_fingerprint(&display), (2, 5));
}

#[test]
fn stop_reasons_and_errors_are_those_of_the_assistant() {
    assert_eq!(message_stop_reason(&user("hi")), None);
    assert_eq!(message_error_text(&user("hi")), "the pi session hit an error");
    let failed = AgentMessage::Assistant {
        content: vec![],
        model: "m".into(),
        provider: "p".into(),
        response_model: None,
        stop_reason: Some(HarnessStopReason::Error),
        usage: TokenUsage::default(),
        error_message: Some("overloaded".into()),
    };
    assert_eq!(message_stop_reason(&failed), Some(HarnessStopReason::Error));
    assert_eq!(message_error_text(&failed), "overloaded");
    let events = agent_event_to_thread_events(&AgentEvent::MessageEnd { message: failed }, "");
    assert!(matches!(&events[..], [ThreadEvent::Error(e)] if e == "overloaded"));
}

#[test]
fn events_of_a_child_reach_its_panel() {
    let text = child_events_of(
        "agent-1",
        &AgentEvent::MessageUpdate {
            message: user("unused"),
            assistant_message_event: AssistantMessageEvent::TextDelta {
                delta: "hello".into(),
            },
        },
    );
    assert!(matches!(&text[..],
        [ThreadEvent::SubagentChild { id, child: SubagentChildEvent::Text(t) }]
            if id == "agent-1" && t == "hello"));
    let start = child_events_of(
        "agent-1",
        &AgentEvent::ToolExecutionStart {
            tool_call_id: "t1".into(),
            tool_name: "Read".into(),
            arguments: json("{\"path\": \"/a.rs\"}"),
        },
    );
    assert_eq!(start.len(), 2);
    assert!(matches!(&start[0],
        ThreadEvent::SubagentChild { child: SubagentChildEvent::ToolStart { id, name, .. }, .. }
            if id == "t1" && name == "Read"));
    assert!(matches!(&start[1],
        ThreadEvent::SubagentProgress { status: ToolCallStatus::Running, .. }));
    assert!(child_events_of("agent-1", &AgentEvent::MessageEnd { message: user("x") }).is_empty());
}

#[test]
fn a_fresh_session_inherits_nothing() {
    let mut state = ActorState::new(Some(model("test")), Some("/s/old.jsonl".into()), false);
    state.session_start_fired = true;
    state.plan.enabled = true;
    state.worktree = Some(worktree_fixture());
    let ctx = context();
    let actions = state.on_built(
        "/w".into(),
        Some("proj".into()),
        Ok("/s/new.jsonl".into()),
        &ctx,
    );
    assert_eq!(state.active_path.as_deref(), Some("/s/new.jsonl"));
    assert!(!state.session_start_fired && !state.plan.enabled && state.worktree.is_none());
    assert!(actions
        .iter()
        .any(|a| matches!(a, Action::Subscribe { path } if path == "/s/new.jsonl")));
    assert!(actions.iter().any(|a| matches!(a,
        Action::Sidecar { update: SidecarUpdate::Project(p), .. } if p == "proj")));

    let failed = state.on_built("/w".into(), None, Err("disk full".into()), &ctx);
    assert!(matches!(&failed[..],
        [Action::Notice(BackendNotice::Fatal(e)), Action::Exit { close: false }]
            if e == "pi session create failed: disk full"));
    assert_eq!(state.active_path.as_deref(), Some("/s/new.jsonl"));
}

#[test]
fn goals_are_looked_after_where_there_are_any() {
    let without = ActorState::new(None, None, false);
    assert_eq!(without.round_asked(true), None);
    assert!(without.goal_housekeeping(true, true, true).is_empty());
    let with = ActorState::new(None, None, true);
    assert_eq!(with.round_asked(true), Some(RunKind::Continue));
    assert_eq!(with.round_asked(false), None);
    assert!(matches!(&with.goal_housekeeping(true, false, true)[..],
        [Action::DisarmGoal, Action::SettleGoalRound]));
    assert!(with.goal_housekeeping(false, false, false).is_empty());
}
