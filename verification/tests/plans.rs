use agent::harness::AgentMessage;
use agent::json::Json;
use agent::language_model::{LanguageModelToolResult, LanguageModelToolUse, MessageContent};
use agent::message::Message;
use agent::pathname::{canonicalize_best_effort, normalize_lexical, CleanPath, ExistingAncestor};
use agent::plan::{
    rebuild_from_messages, PlanSnapshot, PlanStepCapsule, PlanStepStatus, MAX_PLAN_STEPS,
    MAX_STEP_LEN,
};
use agent::plan_mode::{
    gate_handler, injection_handler, is_plan_dir_path_param, plan_write_target,
    resolve_plan_title, validate_slug, CallFacts, PlanGatePolicy, PlanSessionState,
    ProposePlanTool, PROPOSE_PLAN,
};
use agent::approval::ToolError;
use agent::tools::UPDATE_PLAN;

fn from_value(v: serde_json::Value) -> Json {
    match v {
        serde_json::Value::Null => Json::Null,
        serde_json::Value::Bool(b) => Json::Bool(b),
        serde_json::Value::Number(n) => {
            if let Some(u) = n.as_u64() {
                Json::Unsigned(u)
            } else if let Some(i) = n.as_i64() {
                Json::Negative(i)
            } else {
                Json::Decimal(n.to_string())
            }
        }
        serde_json::Value::String(s) => Json::Str(s),
        serde_json::Value::Array(xs) => Json::Array(xs.into_iter().map(from_value).collect()),
        serde_json::Value::Object(es) => {
            Json::Object(es.into_iter().map(|(k, v)| (k, from_value(v))).collect())
        }
    }
}

fn json(text: &str) -> Json {
    from_value(serde_json::from_str(text).unwrap())
}

fn input(plan: &str) -> Json {
    json(&format!("{{\"plan\": {plan}}}"))
}

#[test]
fn valid_snapshot_trims_and_preserves_order() {
    let snap = PlanSnapshot::from_input(&json(
        r#"{
            "explanation": "  starting  ",
            "plan": [
                { "step": "  First  ", "status": "completed" },
                { "step": "Second", "status": "in_progress" },
                { "step": "Third", "status": "pending" }
            ]
        }"#,
    ))
    .unwrap();
    assert_eq!(snap.explanation.as_deref(), Some("starting"));
    assert_eq!(snap.steps.len(), 3);
    assert_eq!(snap.steps[0].step, "First");
    assert_eq!(snap.steps[0].status, PlanStepStatus::Completed);
    assert_eq!(snap.current().unwrap().step, "Second");
    assert_eq!(snap.progress(), (1, 3));
    assert!(!snap.all_completed());
}

#[test]
fn empty_plan_is_valid_and_clears() {
    let snap = PlanSnapshot::from_input(&input("[]")).unwrap();
    assert!(snap.is_empty());
    assert_eq!(snap.current(), None);
}

#[test]
fn rejects_more_than_max_steps() {
    let plan: Vec<String> = (0..MAX_PLAN_STEPS + 1)
        .map(|i| format!("{{\"step\": \"s{i}\", \"status\": \"pending\"}}"))
        .collect();
    let err = PlanSnapshot::from_input(&input(&format!("[{}]", plan.join(",")))).unwrap_err();
    assert!(err.contains("too many steps"), "{err}");
    let fewer = &plan[..MAX_PLAN_STEPS];
    assert!(PlanSnapshot::from_input(&input(&format!("[{}]", fewer.join(",")))).is_ok());
}

#[test]
fn rejects_empty_multiline_and_overlong_titles() {
    assert!(
        PlanSnapshot::from_input(&input(r#"[{ "step": "   ", "status": "pending" }]"#))
            .unwrap_err()
            .contains("empty title")
    );
    assert!(
        PlanSnapshot::from_input(&input(r#"[{ "step": "a\nb", "status": "pending" }]"#))
            .unwrap_err()
            .contains("single line")
    );
    let long = "x".repeat(MAX_STEP_LEN + 1);
    assert!(PlanSnapshot::from_input(&input(&format!(
        "[{{ \"step\": \"{long}\", \"status\": \"pending\" }}]"
    )))
    .unwrap_err()
    .contains("exceeds"));
}

#[test]
fn rejects_duplicate_titles_case_insensitive() {
    let err = PlanSnapshot::from_input(&input(
        r#"[
            { "step": "Build", "status": "pending" },
            { "step": "build", "status": "pending" }
        ]"#,
    ))
    .unwrap_err();
    assert!(err.contains("duplicate"), "{err}");
    // The title stands in the message as Rust quotes it.
    let quoted = PlanSnapshot::from_input(&input(
        r#"[
            { "step": "say \"hi\"", "status": "pending" },
            { "step": "SAY \"HI\"", "status": "pending" }
        ]"#,
    ))
    .unwrap_err();
    assert!(quoted.contains(&format!("{:?}", "SAY \"HI\"")), "{quoted}");
}

#[test]
fn rejects_multiple_in_progress() {
    let err = PlanSnapshot::from_input(&input(
        r#"[
            { "step": "A", "status": "in_progress" },
            { "step": "B", "status": "in_progress" }
        ]"#,
    ))
    .unwrap_err();
    assert!(err.contains("at most one"), "{err}");
}

#[test]
fn zero_in_progress_is_allowed() {
    let snap = PlanSnapshot::from_input(&input(
        r#"[
            { "step": "A", "status": "pending" },
            { "step": "B", "status": "pending" }
        ]"#,
    ))
    .unwrap();
    assert_eq!(snap.current().unwrap().step, "A");
}

#[test]
fn rejects_unknown_fields_and_bad_status() {
    assert!(
        PlanSnapshot::from_input(&json(r#"{ "plan": [], "extra": 1 }"#)).is_err(),
        "unknown top-level field must be rejected"
    );
    assert!(
        PlanSnapshot::from_input(&input(r#"[{ "step": "A", "status": "blocked" }]"#)).is_err(),
        "unknown status must be rejected"
    );
}

#[test]
fn a_malformed_plan_is_answered_with_what_is_wrong() {
    let refused = |text: &str| {
        let e = PlanSnapshot::from_input(&json(text)).unwrap_err();
        e.strip_prefix("invalid UpdatePlan input: ").unwrap().to_string()
    };
    assert_eq!(
        refused(r#"{ "plan": [], "extra": 1 }"#),
        "unknown field `extra`, expected `explanation` or `plan`"
    );
    assert_eq!(refused(r#"{ "explanation": "no plan" }"#), "missing field `plan`");
    assert_eq!(
        refused("3"),
        "invalid type: integer `3`, expected struct UpdatePlanInput"
    );
    for short in ["[]", "[null]"] {
        assert_eq!(
            refused(short),
            "invalid length 1, expected struct UpdatePlanInput with 2 elements"
        );
    }
    assert_eq!(
        refused("[null, [], 1]"),
        "invalid length 3, expected fewer elements in array"
    );
    // The words are those of `serde_json` for texts, lists and units.
    let value = |text: &str| serde_json::from_str::<serde_json::Value>(text).unwrap();
    for text in ["true", "false", "7", "-7", "0.5", "1e300", "[]", "{}"] {
        assert_eq!(
            refused(&format!(r#"{{ "explanation": {text}, "plan": [] }}"#)),
            serde_json::from_value::<String>(value(text)).unwrap_err().to_string()
        );
    }
    for text in ["null", "true", "7", "-7", "0.5", r#""do \"it\"\n""#, "{}"] {
        assert_eq!(
            refused(&format!(r#"{{ "plan": {text} }}"#)),
            serde_json::from_value::<Vec<u8>>(value(text)).unwrap_err().to_string()
        );
    }
    let step = |text: &str| refused(&format!(r#"{{ "plan": [["A", "pending"], {text}] }}"#));
    assert_eq!(
        step(r#"{ "step": "B", "status": "blocked" }"#),
        "unknown variant `blocked`, expected one of `pending`, `in_progress`, `completed`"
    );
    assert_eq!(
        step(r#"{ "step": "B", "status": {"blocked": 1} }"#),
        "unknown variant `blocked`, expected one of `pending`, `in_progress`, `completed`"
    );
    assert_eq!(
        step(r#"{ "step": "B", "status": {"pending": 1} }"#),
        serde_json::from_value::<()>(value("1")).unwrap_err().to_string()
    );
    assert_eq!(
        step(r#"{ "step": "B", "status": {} }"#),
        "invalid value: map, expected map with a single key"
    );
    assert_eq!(
        step(r#"{ "step": "B", "status": 1 }"#),
        "invalid type: integer `1`, expected string or map"
    );
    assert_eq!(step(r#"{ "status": "pending" }"#), "missing field `step`");
    assert_eq!(step(r#"{ "step": "B" }"#), "missing field `status`");
    assert_eq!(
        step(r#"{ "step": 7, "status": "pending" }"#),
        "invalid type: integer `7`, expected a string"
    );
    assert_eq!(
        step(r#"{ "step": "B", "status": "pending", "who": "me" }"#),
        "unknown field `who`, expected `step` or `status`"
    );
    // The first of several faults counts, members in the order of their keys.
    assert_eq!(
        step(r#"{ "step": 7, "status": "blocked", "also": 1 }"#),
        "unknown field `also`, expected `step` or `status`"
    );
    assert_eq!(
        step(r#"{ "step": 7, "status": "blocked" }"#),
        "unknown variant `blocked`, expected one of `pending`, `in_progress`, `completed`"
    );
    assert_eq!(
        step(r#""B""#),
        "invalid type: string \"B\", expected struct PlanStep"
    );
    assert_eq!(step("[]"), "invalid length 0, expected struct PlanStep with 2 elements");
    assert_eq!(
        step(r#"["B"]"#),
        "invalid length 1, expected struct PlanStep with 2 elements"
    );
    assert_eq!(
        step(r#"["B", "pending", 1]"#),
        "invalid length 3, expected fewer elements in array"
    );
}

#[test]
fn all_completed_detects_done_plan() {
    let snap = PlanSnapshot::from_input(&input(
        r#"[
            { "step": "A", "status": "completed" },
            { "step": "B", "status": "completed" }
        ]"#,
    ))
    .unwrap();
    assert!(snap.all_completed());
    assert_eq!(snap.current(), None);
}

fn tool_use(id: &str, plan: &str) -> Message {
    Message::assistant(vec![MessageContent::ToolUse(LanguageModelToolUse {
        id: id.to_string(),
        name: UPDATE_PLAN.into(),
        raw_input: String::new(),
        input: input(plan),
        is_input_complete: true,
        thought_signature: None,
    })])
}

fn tool_result(id: &str, is_error: bool) -> Message {
    Message::user_with_content(vec![MessageContent::ToolResult(LanguageModelToolResult {
        tool_use_id: id.to_string(),
        tool_name: UPDATE_PLAN.into(),
        is_error,
        content: "ok".to_string(),
    })])
}

#[test]
fn rebuild_recovers_latest_successful_snapshot() {
    let messages = vec![
        tool_use("1", r#"[{ "step": "First", "status": "completed" }]"#),
        tool_result("1", false),
        tool_use("2", r#"[{ "step": "Second", "status": "in_progress" }]"#),
        tool_result("2", false),
    ];
    let snap = rebuild_from_messages(&messages, None).unwrap();
    assert_eq!(snap.steps.len(), 1);
    assert_eq!(snap.steps[0].step, "Second");
}

#[test]
fn structured_plan_yields_clean_titles_not_bullet_dump() {
    let messages = vec![
        tool_use(
            "1",
            r#"[
                { "step": "Add shared PlanStep / PlanSnapshot types", "status": "completed" },
                { "step": "Implement the UpdatePlan tool + schema", "status": "completed" },
                { "step": "Wire PlanUpdated through the thread", "status": "in_progress" },
                { "step": "Delete the milestone state machine", "status": "pending" },
                { "step": "Rewrite the Context Rail", "status": "pending" },
                { "step": "Update prompts and i18n", "status": "pending" },
                { "step": "Tests, docs, and delivery", "status": "pending" }
            ]"#,
        ),
        tool_result("1", false),
    ];
    let snap = rebuild_from_messages(&messages, None).unwrap();
    assert_eq!(snap.steps.len(), 7, "exactly the published steps, no explosion");
    for step in &snap.steps {
        assert!(
            !step.step.contains("**") && !step.step.contains('`') && !step.step.contains('#'),
            "titles carry no Markdown noise: {:?}",
            step.step
        );
    }
    assert_eq!(snap.progress(), (2, 7));
    assert_eq!(
        snap.current().unwrap().step,
        "Wire PlanUpdated through the thread"
    );
}

#[test]
fn rebuild_skips_errored_call() {
    let messages = vec![
        tool_use("1", r#"[{ "step": "Good", "status": "in_progress" }]"#),
        tool_result("1", false),
        tool_use("2", r#"[{ "step": "Bad", "status": "pending" }]"#),
        tool_result("2", true),
    ];
    let snap = rebuild_from_messages(&messages, None).unwrap();
    assert_eq!(snap.steps[0].step, "Good");
}

#[test]
fn rebuild_empty_plan_recovers_none() {
    let messages = vec![
        tool_use("1", r#"[{ "step": "Old", "status": "pending" }]"#),
        tool_result("1", false),
        tool_use("2", "[]"),
        tool_result("2", false),
    ];
    assert!(rebuild_from_messages(&messages, None).is_none());
}

#[test]
fn rebuild_recovers_plan_from_latest_compaction_capsule() {
    let steps = vec![
        PlanStepCapsule {
            title: "Recovered".into(),
            status: "in_progress".into(),
        },
        PlanStepCapsule {
            title: "Then verify".into(),
            status: "pending".into(),
        },
    ];
    let messages = vec![Message::user_with_content(vec![MessageContent::Compaction(
        "handoff".into(),
    )])];
    let snapshot = rebuild_from_messages(&messages, Some(&steps)).unwrap();
    assert_eq!(snapshot.steps[0].step, "Recovered");
    assert_eq!(snapshot.steps[0].status, PlanStepStatus::InProgress);
    assert_eq!(snapshot.steps[1].step, "Then verify");
}

#[test]
fn rebuild_none_without_any_call() {
    assert!(rebuild_from_messages(&[], None).is_none());
}

#[test]
fn propose_plan_ends_the_turn() {
    let mut state = PlanSessionState::new();
    let proposal =
        ProposePlanTool::proposal(&json(r#"{ "slug": "audit" }"#), "/plans").unwrap();
    assert_eq!(proposal.path, "/plans/audit-plan.md");
    let result =
        ProposePlanTool::submit(&mut state, &proposal, Some("# Audit\n\nbody\n")).unwrap();
    assert!(result.terminate);
    assert_eq!(state.plan_file().as_deref(), Some("/plans/audit-plan.md"));
    assert!(result.text.starts_with("Plan submitted for review: Audit ("));
}

#[test]
fn a_proposal_needs_a_file_with_a_plan() {
    let mut state = PlanSessionState::new();
    let bad = ProposePlanTool::proposal(&json(r#"{ "slug": "a/b" }"#), "/plans");
    assert!(matches!(&bad, Err(ToolError::InvalidArguments(m)) if m.contains("\"a/b\"")));
    let p = ProposePlanTool::proposal(&json(r#"{ "slug": " audit ", "title": "T" }"#), "/plans")
        .unwrap();
    assert_eq!((p.slug.as_str(), p.title.as_deref()), ("audit", Some("T")));
    let missing = ProposePlanTool::submit(&mut state, &p, None);
    assert!(
        matches!(&missing, Err(ToolError::ExecutionFailed(m)) if m.starts_with("plan file not found at /plans/audit-plan.md"))
    );
    let empty = ProposePlanTool::submit(&mut state, &p, Some(" \n"));
    assert!(
        matches!(&empty, Err(ToolError::ExecutionFailed(m)) if m.contains("is empty"))
    );
    assert_eq!(state.plan_file(), None);
}

#[test]
fn slug_validation() {
    assert!(validate_slug("auth-token-refresh").is_ok());
    assert!(validate_slug("plan_1").is_ok());
    assert!(validate_slug("").is_err());
    assert!(validate_slug("a/b").is_err());
    assert!(validate_slug("a b").is_err());
    assert!(validate_slug("../evil").is_err());
}

#[test]
fn title_resolution_chain() {
    // Supplied wins.
    assert_eq!(
        resolve_plan_title(Some("My Plan"), "# Heading", "slug"),
        "My Plan"
    );
    // Else first heading.
    assert_eq!(
        resolve_plan_title(None, "intro\n## Steps\n- x", "slug"),
        "Steps"
    );
    // Bare '#' with no text is not a heading.
    assert_eq!(resolve_plan_title(None, "#\n## Real", "slug"), "Real");
    // Else slug.
    assert_eq!(resolve_plan_title(None, "no heading here", "slug"), "slug");
    // Whitespace-only supplied falls through.
    assert_eq!(resolve_plan_title(Some("  "), "# H", "slug"), "H");
}

const PLANS: &str = "/home/u/.manox/plans";
const CWD: &str = "/home/u/proj";

/// Where the file of a call lies, on a disk without links.
fn target(params: &Json) -> CleanPath {
    normalize_lexical(&plan_write_target(params, CWD).unwrap_or_default())
}

fn contained(params: &Json) -> bool {
    is_plan_dir_path_param(params, &target(params), &normalize_lexical(PLANS))
}

#[test]
fn plan_dir_containment() {
    let params = |p: &str| json(&format!("{{\"path\": \"{p}\"}}"));
    // Absolute inside.
    assert!(contained(&params("/home/u/.manox/plans/auth-plan.md")));
    // Traversal cannot escape.
    assert!(!contained(&params(
        "/home/u/.manox/plans/../../proj/src/main.rs"
    )));
    // Relative resolves against cwd → outside.
    assert!(!contained(&params("src/main.rs")));
    // A sibling prefix dir is not contained.
    assert!(!contained(&params("/home/u/.manox/plans-evil/x.md")));
    // Missing path param.
    assert!(!contained(&json("{}")));
}

#[test]
fn containment_follows_links() {
    let root = normalize_lexical("/t/plans");
    let params = json(r#"{"path": "/t/plans/escape/evil.md"}"#);
    // The directory in front of the last name is a link to `/t/outside`.
    let resolved = canonicalize_best_effort(
        "/t/plans/escape/evil.md",
        Some(ExistingAncestor {
            index: 1,
            resolved: normalize_lexical("/t/outside"),
        }),
    );
    assert!(!is_plan_dir_path_param(&params, &resolved, &root));
    let inner = canonicalize_best_effort(
        "/t/plans/inner/ok-plan.md",
        Some(ExistingAncestor {
            index: 1,
            resolved: normalize_lexical("/t/plans/real"),
        }),
    );
    assert!(is_plan_dir_path_param(&params, &inner, &root));
}

fn run(state: &PlanSessionState, tool: &str, args: &str) -> Option<String> {
    let args = json(args);
    let facts = CallFacts {
        target: target(&args),
        plans_root: normalize_lexical(PLANS),
        read_only_subagent: args.str_at("subagent_type") == Some("Explore"),
    };
    let data = Json::Object(vec![
        ("tool_call_id".into(), Json::Str("c1".into())),
        ("tool_name".into(), Json::Str(tool.into())),
        ("args".into(), args),
    ]);
    gate_handler(state, &data, PLANS, &facts)
}

#[test]
fn gate_blocks_mutating_tools_while_active() {
    let mut state = PlanSessionState::new();
    // Inactive: nothing blocked.
    assert!(run(&state, "Bash", r#"{"command": "ls"}"#).is_none());

    state.set(true, None);
    // Research + devices pass.
    assert!(run(&state, "Read", r#"{"path": "src/main.rs"}"#).is_none());
    assert!(run(&state, "Grep", "{}").is_none());
    assert!(run(&state, "AskUserQuestion", "{}").is_none());
    assert!(run(&state, PROPOSE_PLAN, r#"{"slug": "x"}"#).is_none());
    // Plan-file writes pass; working-tree writes don't.
    assert!(run(
        &state,
        "Write",
        r#"{"path": "/home/u/.manox/plans/x-plan.md"}"#
    )
    .is_none());
    assert!(run(&state, "Write", r#"{"path": "src/main.rs"}"#).is_some());
    assert!(run(
        &state,
        "Edit",
        r#"{"path": "/home/u/.manox/plans/../../x.md"}"#
    )
    .is_some());
    // Bash / other mutating tools blocked.
    assert!(run(&state, "Bash", r#"{"command": "ls"}"#).is_some());
    assert!(run(&state, "Monitor", "{}").is_some());
    assert!(run(&state, "mcp__srv__tool", "{}").is_some());
    // Read-only subagent (Explore) passes; write/bash (Sailor) and
    // worktree-isolated dispatch are blocked.
    assert!(run(
        &state,
        "Agent",
        r#"{"subagent_type": "Explore", "prompt": "x"}"#
    )
    .is_none());
    assert!(run(
        &state,
        "Agent",
        r#"{"subagent_type": "Sailor", "prompt": "x"}"#
    )
    .is_some());
    assert!(run(
        &state,
        "Agent",
        r#"{"subagent_type": "Explore", "prompt": "x", "isolation": "worktree"}"#
    )
    .is_some());
    assert!(run(&state, "Agent", r#"{"prompt": "x"}"#).is_some());
    // The reason names the plans directory.
    assert!(run(&state, "Bash", "{}").unwrap().contains(PLANS));

    // Exit plan mode: everything passes again.
    state.set(false, None);
    assert!(run(&state, "Bash", r#"{"command": "ls"}"#).is_none());
}

#[test]
fn plan_files_need_no_approval_while_planning() {
    let mut state = PlanSessionState::new();
    let policy = PlanGatePolicy {
        plans_root: normalize_lexical(PLANS),
    };
    let params = json(r#"{"path": "/home/u/.manox/plans/x-plan.md"}"#);
    assert!(!policy.is_exempt(&state, "Write", &params, &target(&params)));
    state.set(true, None);
    assert!(policy.is_exempt(&state, "Write", &params, &target(&params)));
    assert!(!policy.is_exempt(&state, "Bash", &params, &target(&params)));
}

#[test]
fn injection_only_while_active() {
    let mut state = PlanSessionState::new();
    // Inactive: no injection even with instructions staged.
    state.set_active_instructions(Some("PLAN MODE".to_string()));
    assert!(injection_handler(&state).is_none());

    // Active: instructions injected as a user message.
    state.set(true, None);
    state.set_active_instructions(Some("PLAN MODE".to_string()));
    assert!(matches!(
        injection_handler(&state),
        Some(AgentMessage::User { .. })
    ));

    // Exit clears the staged instructions.
    state.set(false, None);
    assert!(state.active_instructions().is_none());
    assert!(injection_handler(&state).is_none());
}
