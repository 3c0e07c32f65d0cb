use agent::json::Json;
use agent::language_model::{
    LanguageModelRequestMessage, LanguageModelRequestTool, LanguageModelToolResult,
    LanguageModelToolUse, MessageContent, Role,
};
use agent::lsp::tools::{
    client_for_path, default_wait_secs, fmt_loc, render_diagnostics, resolve_language,
    server_status, Diagnostic, DiagnosticsTool, DocumentSymbol, DocumentSymbolsTool,
    FindReferencesTool, GoToDefinitionTool, HoverTool, Location, LspEnsureTool, LspOutput,
    LspStatusTool, LspWaitReadyTool, ServerStatus, ServerStep, Severity, WorkspaceSymbol,
    WorkspaceSymbolsTool, DIAGNOSTICS, FIND_REFERENCES, GO_TO_DEFINITION, LSP_STATUS,
};
use agent::lsp::{changed_source_paths, code_intel_tools, is_semantic_tool, status_tool, tools};
use agent::marketplace::{CachedMarketplace, CloneWork, InspectedPlugin};
use agent::mcp::client::{McpServerConfig, McpToolDef};
use agent::mcp::registry::{
    collect_configs, connect_timed_out, list_failed, ConnectedServer, McpRegistry, PluginServers,
    ReadyTool,
};
use agent::message::Message;
use agent::model_alias::{
    default_model, matches_segment, model_reference, resolve_pi_model_ref,
    resolve_side_call_model_in, ListedModel,
};
use agent::models::{
    config_id, display_name, display_provider_name, legacy_provider, map_model, stream_resolver,
    LegacyAliasCatalog, Model, ModelSource, ThinkingKind, WireApi,
};
use agent::monitor_bridge::{
    poll_output, BackgroundEvent, BridgeAction, BridgeState, MonitorEvent, MonitorKind, TaskKind,
    TaskStatus, OUTPUT_EMIT_THRESHOLD,
};
use agent::optimizer::{
    compact_tool_output, optimize, strip_hashline_numbering, tool_budget, truncate_with_budget,
    BUDGET_DEFAULT, BUDGET_GREP, BUDGET_READ,
};
use agent::pathname::normalize_lexical;
use agent::plugin::{
    compose_enabled_body, git_remote_origin, install_source, parse_enabled, remove_enabled_body,
    InstalledPlugin, MarketplaceIndex, MarketplacePluginEntry, PluginManager, PluginManifest,
};
use agent::prefix_stability::{
    message_digest, tools_fingerprint, AppendOnlyContextManager, AppendOnlyLog, StablePrefix,
};
use agent::sidecar::PersistedTitleScheduler;
use agent::sorting::sort_order;
use agent::subagent::{
    effective_mode, is_read_only_subagent, subagent_capability, subagent_tool_names,
    worktree_policy, StopStep, SubagentBashTool, TaskStop, WorktreeGrant,
    SUBAGENT_BASH_DESCRIPTION,
};
use agent::thread::PermissionMode;
use agent::title::{TitleRun, TitleSchedulerState, TitleWakeReason};
use agent::tools::{EDIT, WRITE};

fn from_value(v: serde_json::Value) -> Json {
    match v {
        serde_json::Value::Null => Json::Null,
        serde_json::Value::Bool(b) => Json::Bool(b),
        serde_json::Value::Number(n) => {
            if let Some(u) = n.as_u64() {
                Json::Unsigned(u)
            } else if let Some(i) = n.as_i64() {
                Json::Negative(i)
            } else {
                Json::Decimal(n.to_string())
            }
        }
        serde_json::Value::String(s) => Json::Str(s),
        serde_json::Value::Array(xs) => Json::Array(xs.into_iter().map(from_value).collect()),
        serde_json::Value::Object(es) => {
            Json::Object(es.into_iter().map(|(k, v)| (k, from_value(v))).collect())
        }
    }
}

fn json(text: &str) -> Json {
    from_value(serde_json::from_str(text).unwrap())
}

fn strings(names: &[&str]) -> Vec<String> {
    names.iter().map(|s| s.to_string()).collect()
}

// --- tool output ------------------------------------------------------------

#[test]
fn small_output_passes_through() {
    let out = compact_tool_output("Read", "hello world", 1024);
    assert_eq!(out, "hello world");
}

#[test]
fn hashline_stripping_removes_line_numbers() {
    let raw = "[src/main.rs#L1]\n1:fn main() {\n2:    println!(\"hi\");\n3:}\n";
    let out = strip_hashline_numbering("Read", raw);
    assert!(!out.contains("[src/main.rs#L1]"), "header removed");
    assert!(!out.contains("1:fn"), "line numbers stripped: {out}");
    assert!(out.contains("fn main()"), "code preserved: {out}");
}

#[test]
fn bash_output_not_hashline_stripped() {
    let raw = "1:error: something failed\n2:  at line 42\n";
    let out = strip_hashline_numbering("Bash", raw);
    assert_eq!(out, raw);
}

#[test]
fn truncation_preserves_head_and_tail() {
    let big = "A".repeat(2000);
    let out = truncate_with_budget(&big, 1000);
    assert!(out.starts_with('A'));
    assert!(out.contains("truncated"));
    assert!(out.len() <= 1200); // budget + marker overhead
}

#[test]
fn budgets_are_reasonable() {
    assert!(BUDGET_READ >= 16 * 1024);
    assert!(BUDGET_GREP >= 4 * 1024);
    assert!(BUDGET_DEFAULT >= 8 * 1024);
    assert_eq!(tool_budget("Read"), BUDGET_READ);
    assert_eq!(tool_budget("anything else"), BUDGET_DEFAULT);
}

#[test]
fn truncation_cuts_between_characters() {
    let big = "é".repeat(1000);
    let out = truncate_with_budget(&big, 1001);
    assert!(out.starts_with("é") && out.ends_with("é"));
    let tail = out.chars().rev().take_while(|c| *c == 'é').count();
    assert!(tail * 2 <= 1001 / 4);
}

#[test]
fn only_tool_results_are_cut() {
    let long = "x".repeat(BUDGET_GREP + 1);
    let result = |name: &str| {
        Message::user_with_content(vec![MessageContent::ToolResult(LanguageModelToolResult {
            tool_use_id: "1".into(),
            tool_name: name.into(),
            is_error: false,
            content: long.clone(),
        })])
    };
    let messages = vec![Message::user(long.clone()), result("Grep"), result("Read")];
    let out = optimize(&messages);
    assert_eq!(out[0], messages[0]);
    assert_ne!(out[1], messages[1]);
    assert_eq!(out[2], messages[2]);
}

// --- prefix stability -------------------------------------------------------

fn user_msg(text: &str) -> LanguageModelRequestMessage {
    LanguageModelRequestMessage {
        role: Role::User,
        content: vec![MessageContent::Text(text.to_string())],
        cache: false,
    }
}

fn system_msg(text: &str) -> LanguageModelRequestMessage {
    LanguageModelRequestMessage {
        role: Role::System,
        content: vec![MessageContent::Text(text.to_string())],
        cache: false,
    }
}

fn result_msg(id: &str) -> LanguageModelRequestMessage {
    LanguageModelRequestMessage {
        role: Role::Assistant,
        content: vec![MessageContent::ToolResult(LanguageModelToolResult {
            tool_use_id: id.into(),
            tool_name: "read_file".into(),
            is_error: false,
            content: "out".into(),
        })],
        cache: false,
    }
}

#[test]
fn digest_changes_on_tool_result_id() {
    assert_ne!(
        message_digest(&result_msg("id-1")),
        message_digest(&result_msg("id-2"))
    );
}

#[test]
fn longest_stable_prefix_finds_divergence() {
    let mut log = AppendOnlyLog::default();
    let initial = vec![user_msg("a"), user_msg("b"), user_msg("c")];
    log.sync_messages(&initial);
    // Rewrite the second message — prefix of 1 should survive.
    let rewritten = vec![user_msg("a"), user_msg("B"), user_msg("c")];
    log.sync_messages(&rewritten);
    assert_eq!(log.len(), 3);
    assert_eq!(log.messages(), rewritten.as_slice());
}

#[test]
fn append_grows_log() {
    let mut log = AppendOnlyLog::default();
    log.sync_messages(&[user_msg("a"), user_msg("b")]);
    assert_eq!(log.len(), 2);
    log.sync_messages(&[user_msg("a"), user_msg("b"), user_msg("c")]);
    assert_eq!(log.len(), 3);
}

#[test]
fn the_tail_of_the_log_can_be_replaced_and_cut() {
    let mut log = AppendOnlyLog::default();
    assert!(log.is_empty());
    log.replace_tail(user_msg("nothing to replace"));
    assert!(log.is_empty());
    log.append(user_msg("a"));
    log.append(user_msg("b"));
    log.replace_tail(user_msg("c"));
    assert_eq!(log.messages()[1].string_contents(), "c");
    log.truncate(5);
    assert_eq!(log.len(), 2);
    log.truncate(1);
    assert_eq!(log.messages()[0].string_contents(), "a");
    assert_eq!(log.len(), 1);
    log.reset_sync_cursor();
    assert!(log.is_empty());
    log.append(user_msg("d"));
    log.clear();
    assert!(log.is_empty());
}

#[test]
fn compaction_shorter_clears_and_replays() {
    let mut log = AppendOnlyLog::default();
    log.sync_messages(&[user_msg("a"), user_msg("b"), user_msg("c")]);
    log.sync_messages(&[user_msg("summarized")]);
    assert_eq!(log.len(), 1);
}

#[test]
fn stable_prefix_build_detects_change() {
    let mut sp = StablePrefix::default();
    let req = [system_msg("sys")];
    assert!(sp.build(&req, &[])); // first build → changed
    assert!(!sp.build(&req, &[])); // same → unchanged
    assert_eq!(sp.version(), 1);
}

#[test]
fn system_getter_exposes_frozen_text() {
    let mut sp = StablePrefix::default();
    assert!(sp.system().is_none()); // unbuilt
    sp.build(&[system_msg("frozen")], &[]);
    assert_eq!(sp.system().unwrap()[0], "frozen");
    sp.invalidate();
    assert!(sp.system().is_none()); // invalidated → no frozen prefix
}

fn image_msg(data: &str) -> LanguageModelRequestMessage {
    LanguageModelRequestMessage {
        role: Role::User,
        content: vec![MessageContent::Image {
            data: data.into(),
            mime_type: "image/png".into(),
        }],
        cache: false,
    }
}

fn call_msg(signature: Option<&str>) -> LanguageModelRequestMessage {
    LanguageModelRequestMessage {
        role: Role::Assistant,
        content: vec![MessageContent::ToolUse(LanguageModelToolUse {
            id: "call".into(),
            name: "Read".into(),
            raw_input: "{}".into(),
            input: json("{}"),
            is_input_complete: true,
            thought_signature: signature.map(|s| s.to_owned()),
        })],
        cache: false,
    }
}

#[test]
fn a_log_in_step_holds_what_was_synced_last() {
    let mut log = AppendOnlyLog::default();
    // An image replaced by another of the same type and size.
    log.sync_messages(&[user_msg("a"), image_msg("AAAA"), user_msg("b")]);
    let rewritten = vec![user_msg("a"), image_msg("BBBB"), user_msg("b")];
    log.sync_messages(&rewritten);
    assert_eq!(log.messages(), rewritten.as_slice());
    assert_ne!(message_digest(&image_msg("AAAA")), message_digest(&image_msg("BBBB")));
    // A call whose signature alone changes.
    log.sync_messages(&[user_msg("a"), call_msg(None), user_msg("b"), user_msg("c")]);
    let rewritten = vec![user_msg("a"), call_msg(Some("s")), user_msg("b"), user_msg("c")];
    log.sync_messages(&rewritten);
    assert_eq!(log.messages(), rewritten.as_slice());
    assert_ne!(message_digest(&call_msg(None)), message_digest(&call_msg(Some("s"))));
    // A shorter list, and one after the log was cleared.
    log.sync_messages(&[user_msg("summary")]);
    assert_eq!(log.messages(), &[user_msg("summary")]);
    log.reset_sync_cursor();
    log.sync_messages(&[user_msg("x"), user_msg("y")]);
    assert_eq!(log.messages(), &[user_msg("x"), user_msg("y")]);
    // A replaced tail stays while the list does.
    log.replace_tail(user_msg("z"));
    log.sync_messages(&[user_msg("x"), user_msg("y"), user_msg("w")]);
    assert_eq!(log.messages(), &[user_msg("x"), user_msg("z"), user_msg("w")]);
}

#[test]
fn equal_digests_do_not_hide_a_rewrite() {
    let mut log = AppendOnlyLog::default();
    log.sync_with(&[user_msg("a"), user_msg("b")], &vec![7, 8]);
    log.sync_with(&[user_msg("a"), user_msg("c")], &vec![7, 8]);
    assert_eq!(log.messages(), &[user_msg("a"), user_msg("c")]);
}

#[test]
fn an_invalidated_prefix_changes_with_the_next_build() {
    let mut sp = StablePrefix::default();
    let req = [system_msg("sys"), user_msg("u"), system_msg(""), system_msg("more")];
    assert_eq!(sp.try_build(&req, &[]), Some(true));
    assert_eq!(sp.try_build(&req, &[]), Some(false));
    assert_eq!(sp.system().unwrap(), ["sys", "more"]);
    sp.invalidate();
    assert!(sp.system().is_none());
    assert_eq!(sp.version(), 1);
    assert!(sp.build(&req, &[]));
    assert_eq!(sp.version(), 2);
    assert_eq!(sp.system().unwrap(), ["sys", "more"]);
}

#[test]
fn fingerprints_are_hashes_of_the_bytes() {
    // The digest of the text of a message is the hash of its role and text.
    let bytes = agent::prefix_stability::digest_bytes(&user_msg("a"));
    assert_eq!(
        message_digest(&user_msg("a")),
        xxhash_rust::xxh32::xxh32(&bytes, 0)
    );
    let tool = |name: &str| LanguageModelRequestTool {
        name: name.into(),
        description: "d".into(),
        input_schema: json(r#"{"type": "object"}"#),
        use_input_streaming: false,
    };
    assert_ne!(tools_fingerprint(&[tool("a")]), tools_fingerprint(&[tool("b")]));
    let mut manager = AppendOnlyContextManager::new();
    manager.prefix.build(&[system_msg("s")], &[tool("a")]);
    manager.invalidate_for_model_change();
    assert!(manager.prefix.system().is_none());
}

// --- plugins ----------------------------------------------------------------

#[test]
fn compose_enabled_body_replaces_in_place_without_prefix_collision() {
    let existing = "foo\told-market\nfoobar\tmarket-a\n";
    let body = compose_enabled_body(existing, "foo", "new-market");
    let lines: Vec<&str> = body.lines().collect();
    assert!(lines.contains(&"foobar\tmarket-a"));
    assert!(lines.contains(&"foo\tnew-market"));
    assert!(!lines.contains(&"foo\told-market"));
}

#[test]
fn compose_enabled_body_inserts_when_absent() {
    let body = compose_enabled_body("", "gitwork", "agent-marketplace");
    assert_eq!(body, "gitwork\tagent-marketplace\n");
}

#[test]
fn plugins_are_listed_and_removed_by_name() {
    let body = compose_enabled_body("b\tm\n", "a", "m2");
    assert_eq!(body, "b\tm\na\tm2\n");
    assert_eq!(remove_enabled_body(&body, "b"), "a\tm2\n");
    assert_eq!(remove_enabled_body("a\tm2\n", "a"), "");
    let entries = parse_enabled(&body);
    assert_eq!((entries[0].name.as_str(), entries[0].marketplace.as_str()), ("b", "m"));
    let found = PluginManager::installed(&body, "/home/u", &strings(&["a", "b"]));
    assert_eq!(
        found.iter().map(|p| p.name.as_str()).collect::<Vec<_>>(),
        vec!["a", "b"]
    );
    assert_eq!(found[0].root, "/home/u/.manox/plugins/a");
    assert!(PluginManager::installed(&body, "/home/u", &strings(&[])).is_empty());
    assert_eq!(sort_order(&strings(&["c", "a", "b", "a"])), vec![1, 3, 2, 0]);
}

fn market() -> MarketplaceIndex {
    let entry = |name: &str, source: &str| MarketplacePluginEntry {
        name: name.into(),
        description: None,
        source: source.into(),
    };
    MarketplaceIndex {
        name: "demo".into(),
        description: Some("d".into()),
        plugins: vec![entry("z", "plugins/z"), entry("gitwork", "./plugins/gitwork")],
    }
}

#[test]
fn marketplaces_offer_plugins() {
    let rows = PluginManager::list_marketplace_plugins("demo", &market(), &strings(&["z"]));
    assert_eq!(rows[0].name, "gitwork");
    assert!(!rows[0].installed && rows[1].installed);
    assert_eq!(
        install_source(&market(), "/m", "demo", "gitwork"),
        Ok("/m/plugins/gitwork".to_string())
    );
    assert_eq!(
        install_source(&market(), "/m", "demo", "nope"),
        Err("plugin nope not in marketplace demo".to_string())
    );
    assert_eq!(git_remote_origin(Some(" https://x/y.git\n")).as_deref(), Some("https://x/y.git"));
    assert_eq!(git_remote_origin(Some("\n")), None);
    assert_eq!(git_remote_origin(None), None);
}

#[test]
fn marketplaces_are_cloned_once_and_then_refreshed() {
    assert_eq!(PluginManager::add_marketplace(false), CloneWork::Clone);
    assert_eq!(PluginManager::add_marketplace(true), CloneWork::Fetch);
    assert_eq!(
        PluginManager::added("u", CloneWork::Clone, false, Some(-1)),
        Err(format!("git clone failed: u (exit {:?})", Some(-1)))
    );
    assert_eq!(
        PluginManager::added("u", CloneWork::Clone, false, None),
        Err("git clone failed: u (exit None)".to_string())
    );
    // A refresh on re-registration is best-effort.
    assert_eq!(
        PluginManager::added("u", CloneWork::Fetch, false, None),
        Ok(CloneWork::LoadIndex)
    );
    assert_eq!(
        PluginManager::added("u", CloneWork::Fetch, true, None),
        Ok(CloneWork::Reset)
    );
    // A refresh on request is not.
    assert_eq!(
        PluginManager::refresh_marketplace("/m", false),
        Err("marketplace clone missing at /m".to_string())
    );
    assert_eq!(
        PluginManager::refreshed("/m", CloneWork::Fetch, false),
        Err("git fetch failed for /m".to_string())
    );
    assert_eq!(
        PluginManager::refreshed("/m", CloneWork::Reset, false),
        Err("git reset failed for /m".to_string())
    );
    assert_eq!(
        PluginManager::refreshed("/m", CloneWork::Reset, true),
        Ok(CloneWork::LoadIndex)
    );
    let plan = PluginManager::install("/home/u", "p", "/m/plugins/p".into(), true).unwrap();
    assert_eq!(plan.dest, "/home/u/.manox/plugins/p");
    assert_eq!(
        PluginManager::install("/home/u", "p", "/m/p".into(), false),
        Err("plugin source /m/p missing".to_string())
    );
}

#[test]
fn lists_come_by_name() {
    let cached = |slug: &str, cloned: bool, index: Option<MarketplaceIndex>| CachedMarketplace {
        slug: slug.into(),
        root: format!("/m/{slug}"),
        cloned,
        git_url: None,
        index,
    };
    let found = vec![
        cached("z", true, Some(market())),
        cached("a", true, Some(market())),
        cached("broken", true, None),
        cached("plain", false, Some(market())),
    ];
    assert_eq!(
        PluginManager::list_marketplaces(&found),
        vec!["z", "a", "broken"]
    );
    let records = PluginManager::list_marketplace_records(&found);
    assert_eq!(
        records.iter().map(|r| (r.slug.as_str(), r.plugin_count)).collect::<Vec<_>>(),
        vec![("a", 2), ("z", 2)]
    );
    let inspected = |name: &str, version: Option<&str>| InspectedPlugin {
        plugin: InstalledPlugin {
            name: name.into(),
            root: format!("/p/{name}"),
            marketplace: "demo".into(),
        },
        manifest: version.map(|v| PluginManifest {
            name: name.into(),
            description: Some("x".into()),
            version: Some(v.into()),
        }),
    };
    let details =
        PluginManager::installed_details(&vec![inspected("mimo", Some("0.2.0")), inspected("b", None)]);
    assert_eq!(details[0].name, "b");
    assert_eq!(details[0].version, None);
    assert_eq!(details[1].version.as_deref(), Some("0.2.0"));
}

// --- models -----------------------------------------------------------------

fn model(provider: &str, id: &str, metadata: &str) -> Model {
    Model {
        provider: provider.into(),
        api: "anthropic".into(),
        id: id.into(),
        context_window: 200_000,
        max_tokens: 8_192,
        thinking: ThinkingKind::Disabled,
        metadata: json(metadata),
    }
}

fn source(wire_api: WireApi) -> ModelSource {
    ModelSource {
        id: "mock-1m".into(),
        provider_id: "mock".into(),
        wire_api,
        api_key: "k".into(),
        base_url: "https://x".into(),
        max_token_count: 1_000_000,
        max_output_tokens: 8192,
        supports_thinking: false,
    }
}

#[test]
fn map_model_keeps_window_and_output_budget_apart() {
    let pi_model = map_model(&source(WireApi::Anthropic)).unwrap();
    assert_eq!(pi_model.context_window, 1_000_000);
    assert_eq!(pi_model.max_tokens, 8192);
    assert_eq!(pi_model.api, "anthropic");
    assert_eq!(pi_model.id, "mock-1m");
}

#[test]
fn a_model_without_a_wire_is_refused() {
    assert_eq!(
        map_model(&source(WireApi::Unavailable)),
        Err("model wire is unavailable".to_string())
    );
    // A resolver is there in any case; it fails when it is used.
    let asked = model("other", "m", "{}");
    let resolver = stream_resolver(&source(WireApi::Unavailable)).unwrap();
    assert_eq!(
        resolver.resolve(&asked),
        Err("model wire is unavailable".to_string())
    );
    let endpoint = stream_resolver(&source(WireApi::Completions))
        .unwrap()
        .resolve(&asked)
        .unwrap();
    assert_eq!(endpoint.wire, WireApi::Completions);
    assert_eq!(endpoint.api_key, "k");
    assert_eq!(endpoint.base_url, "https://x");
}

#[test]
fn config_id_prefers_metadata_over_registration_id() {
    let at = |metadata: &str| config_id(&model("bailian-a", "deepseek-v4-flash", metadata));
    assert_eq!(at("{}"), "deepseek-v4-flash");
    assert_eq!(
        at(r#"{"config_id": "bailian:deepseek-v4-flash"}"#),
        "bailian:deepseek-v4-flash"
    );
    // Non-string metadata values fall back to the registration id.
    assert_eq!(at(r#"{"config_id": 42}"#), "deepseek-v4-flash");
    let named = model("p", "id", r#"{"name": "N", "provider_display_name": "P"}"#);
    assert_eq!(display_name(&named), "N");
    assert_eq!(display_provider_name(&named), "P");
    assert_eq!(display_provider_name(&model("p", "id", "{}")), "p");
}

/// A registry with one provider, over a chain of models known by default.
fn answer(provider: &str, id: &str) -> Option<Model> {
    let registered = [("DeepSeek-anthropic", "deepseek-v4-flash")];
    let known = [("anthropic", "sonnet-4-6")];
    registered
        .into_iter()
        .chain(known)
        .find(|&(p, i)| p == provider && i == id)
        .map(|(p, i)| model(p, i, "{}"))
}

#[test]
fn legacy_alias_catalog_resolves_old_provider_ids() {
    let catalog = LegacyAliasCatalog::new();
    let resolve = |provider: &str, id: &str| {
        let aliased = legacy_provider(provider).and_then(|name| answer(&name, id));
        catalog.resolve(provider, answer(provider, id), aliased)
    };
    // Current registration names resolve directly.
    assert!(resolve("DeepSeek-anthropic", "deepseek-v4-flash").is_some());
    // Legacy ids alias onto them.
    assert!(resolve("anthropic:DeepSeek", "deepseek-v4-flash").is_some());
    // Unknown ids fall through to the default catalog chain.
    assert!(resolve("anthropic", "sonnet-4-6").is_some());
    assert!(resolve("anthropic:DeepSeek", "nope").is_none());
    // The direct answer wins, and a plain provider has no other name.
    let direct = model("a:b", "m", "{}");
    let other = model("b-a", "m", "{}");
    assert_eq!(
        catalog.resolve("a:b", Some(direct.clone()), Some(other.clone())),
        Some(direct)
    );
    assert_eq!(catalog.resolve("a", None, Some(other)), None);
    assert_eq!(legacy_provider("anthropic:Deep:Seek").as_deref(), Some("Deep:Seek-anthropic"));
    assert_eq!(legacy_provider("anthropic"), None);
}

/// What a registry that holds one model finds for a reference.
fn found(reference: Option<String>) -> Option<Model> {
    let models = vec![model("p-haiku", "haiku", "{}")];
    reference.and_then(|r| resolve_pi_model_ref(&models, &r, "vendor"))
}

fn side_call(setting: &str) -> Option<Model> {
    resolve_side_call_model_in(setting, found(model_reference(Some(setting))))
}

#[test]
fn side_call_override_empty_inherits() {
    assert!(side_call("").is_none());
    assert!(side_call("  ").is_none());
    // Whatever a registry says of a blank reference.
    assert!(resolve_side_call_model_in("  ", found(Some("haiku".into()))).is_none());
}

#[test]
fn side_call_override_resolves_reference() {
    assert_eq!(side_call("haiku").unwrap().id, "haiku");
    assert_eq!(model_reference(Some(" haiku\n")).as_deref(), Some("haiku"));
}

#[test]
fn side_call_override_unresolvable_inherits() {
    assert!(side_call("no-such-model").is_none());
}

#[test]
fn references_find_models_by_whole_tokens() {
    assert!(matches_segment("anthropic/o3-mini", "o3"));
    assert!(matches_segment("Anthropic/O3-mini", "o3"));
    assert!(!matches_segment("proto3-server", "o3"));
    assert!(!matches_segment("crimsonsonnet-x", "sonnet"));
    let models = vec![
        model("a", "x/proto3-server", "{}"),
        model("a", "x/vendor-sonnet", "{}"),
        model("a", "x/sonnet-4", "{}"),
    ];
    let find = |r: &str| resolve_pi_model_ref(&models, r, "vendor").map(|m| m.id);
    // An exact id wins over what it stands for as an alias.
    assert_eq!(find("x/vendor-sonnet").as_deref(), Some("x/vendor-sonnet"));
    assert_eq!(find("Vendor-Sonnet").as_deref(), Some("x/sonnet-4"));
    assert_eq!(find("SONNET").as_deref(), Some("x/sonnet-4"));
    assert_eq!(find("o3"), None);
}

#[test]
fn the_default_is_the_reference_or_the_first_visible_model() {
    let listed = vec![
        ListedModel {
            model: model("a", "hidden", "{}"),
            visible: false,
        },
        ListedModel {
            model: model("a", "shown", "{}"),
            visible: true,
        },
    ];
    let named = || Some(model("a", "hidden", "{}"));
    let pick = |r: Option<&str>, m| default_model(r, m, &listed).unwrap().id;
    assert_eq!(pick(Some("hidden"), named()), "hidden");
    assert_eq!(pick(Some("nothing"), None), "shown");
    assert_eq!(pick(Some(" "), named()), "shown");
    assert_eq!(pick(None, None), "shown");
    assert!(default_model(None, None, &vec![]).is_none());
    let hidden = vec![ListedModel {
        model: model("a", "hidden", "{}"),
        visible: false,
    }];
    assert_eq!(default_model(None, None, &hidden).unwrap().id, "hidden");
}

// --- language servers -------------------------------------------------------

#[test]
fn semantic_tool_classification_excludes_lifecycle_and_diagnostics() {
    assert!(is_semantic_tool(GO_TO_DEFINITION));
    assert!(is_semantic_tool(FIND_REFERENCES));
    assert!(!is_semantic_tool(LSP_STATUS));
    assert!(!is_semantic_tool(DIAGNOSTICS));
}

#[test]
fn changed_source_paths_resolves_write_and_multi_file_edit() {
    let cwd = "/tmp/manox-lsp-paths";
    assert_eq!(
        changed_source_paths(
            WRITE,
            &json(r#"{"path": "src/lib.rs", "content": ""}"#),
            None,
            cwd
        ),
        vec![format!("{cwd}/src/lib.rs")]
    );
    let edit = json(
        r#"{"patch": "[src/lib.rs#ABCD]\nINS.TAIL:\n+x\n[src/main.rs#EF01]\nINS.TAIL:\n+y"}"#,
    );
    assert_eq!(
        changed_source_paths(
            EDIT,
            &edit,
            Some(&strings(&["src/lib.rs", "src/main.rs"])),
            cwd
        ),
        vec![format!("{cwd}/src/lib.rs"), format!("{cwd}/src/main.rs")]
    );
}

#[test]
fn changed_files_come_in_path_order_and_once() {
    let edit = json(r#"{"patch": "p"}"#);
    let files = strings(&["a-b/x", "a/x", "./a/x", "a//x", "/z"]);
    let mut expected: Vec<std::path::PathBuf> = files
        .iter()
        .map(|f| std::path::Path::new("/w").join(f))
        .collect();
    expected.sort();
    expected.dedup();
    let found = changed_source_paths(EDIT, &edit, Some(&files), "/w");
    assert_eq!(
        found.iter().map(std::path::PathBuf::from).collect::<Vec<_>>(),
        expected
    );
    assert!(changed_source_paths(EDIT, &edit, None, "/w").is_empty());
    assert!(changed_source_paths("Bash", &edit, Some(&files), "/w").is_empty());
}

#[test]
fn nine_tools_that_only_read() {
    let names: Vec<&str> = tools().into_iter().map(|t| t.name()).collect();
    assert_eq!(
        names,
        vec![
            "lsp_status",
            "lsp_ensure",
            "lsp_wait_ready",
            "go_to_definition",
            "find_references",
            "hover",
            "document_symbols",
            "workspace_symbols",
            "diagnostics"
        ]
    );
    assert_eq!(status_tool().name(), "lsp_status");
    assert_eq!(code_intel_tools().len(), 8);
    assert!(tools().into_iter().all(|t| t.is_read_only() && !t.description().is_empty()));
}

#[test]
fn languages_name_servers() {
    let known = strings(&["gopls", "zls"]);
    assert_eq!(resolve_language(" Rust ", &known).as_deref(), Some("rust-analyzer"));
    assert_eq!(resolve_language("golang", &known).as_deref(), Some("gopls"));
    assert_eq!(resolve_language("ZLS", &known).as_deref(), Some("zls"));
    assert_eq!(resolve_language("cobol", &known), None);
    let all = vec![
        ServerStatus {
            id: "gopls".into(),
            status: "Ready".into(),
        },
        ServerStatus {
            id: "rust-analyzer".into(),
            status: "Starting".into(),
        },
    ];
    assert_eq!(
        LspStatusTool::report(None, Some(&all), &known),
        "gopls: Ready\nrust-analyzer: Starting"
    );
    assert_eq!(
        LspStatusTool::report(Some("rust"), Some(&all), &known),
        "rust-analyzer: Starting"
    );
    assert_eq!(
        LspStatusTool::report(Some("cobol"), Some(&all), &known),
        "unknown language `cobol`"
    );
    assert_eq!(LspStatusTool::report(None, None, &known), "LSP not initialized");
    assert!(LspStatusTool::report(None, Some(&vec![]), &known).starts_with("No LSP servers"));
    assert_eq!(
        LspEnsureTool::plan("go", &known, Some(&strings(&["gopls"]))),
        ServerStep::Ask("gopls".into())
    );
    assert_eq!(
        LspEnsureTool::plan("rust", &known, Some(&strings(&["gopls"]))),
        ServerStep::Answer("rust-analyzer: not_installed".into())
    );
    assert_eq!(
        LspEnsureTool::plan("rust", &known, None),
        ServerStep::Answer("LSP not initialized".into())
    );
    assert_eq!(
        LspWaitReadyTool::plan("rust", &known, true),
        ServerStep::Ask("rust-analyzer".into())
    );
    assert_eq!(server_status("gopls", "Ready"), "gopls: Ready");
}

#[test]
fn inputs_are_records() {
    let p = GoToDefinitionTool::parse(&json(r#"{"path": "a.rs", "line": 3, "symbol": "f"}"#))
        .unwrap();
    assert_eq!((p.path.as_str(), p.line, p.symbol.as_str()), ("a.rs", 3, "f"));
    assert!(GoToDefinitionTool::parse(&json(r#"["a.rs", 3, "f"]"#)).is_some());
    assert!(GoToDefinitionTool::parse(&json(r#"["a.rs", 3, "f", 1]"#)).is_none());
    assert!(
        HoverTool::parse(&json(r#"{"path": "a.rs", "line": 4294967296, "symbol": "f"}"#))
            .is_none()
    );
    assert!(HoverTool::parse(&json(r#"{"path": "a.rs", "line": -1, "symbol": "f"}"#)).is_none());
    let q = FindReferencesTool::parse(&json(r#"{"path": "a", "line": 1, "symbol": "f"}"#)).unwrap();
    assert!(q.include_declaration);
    let w = LspWaitReadyTool::parse(&json(r#"{"language": "go"}"#)).unwrap();
    assert_eq!(w.timeout_secs, default_wait_secs());
    assert_eq!(LspStatusTool::parse(&json("{}")), Some(None));
    assert_eq!(
        LspStatusTool::parse(&json(r#"{"language": null}"#)),
        Some(None)
    );
    assert_eq!(LspStatusTool::parse(&json("3")), None);
    assert_eq!(DiagnosticsTool::parse(&json(r#"{"path": 1}"#)), None);
    assert_eq!(
        WorkspaceSymbolsTool::parse(&json(r#"{"query": "q"}"#)).as_deref(),
        Some("q")
    );
    assert_eq!(DocumentSymbolsTool::parse(&json("{}")), None);
    assert_eq!(LspEnsureTool::parse(&json("[]")), None);
}

#[test]
fn files_are_routed_by_extension() {
    let r = client_for_path("src/a.rs", "/w", true, Some("rust-analyzer".into())).unwrap();
    assert_eq!((r.server.as_str(), r.path.as_str()), ("rust-analyzer", "/w/src/a.rs"));
    assert_eq!(
        client_for_path("x/y.tar.gz", "/w", true, None).unwrap_err(),
        "no LSP server handles `.gz` — not a routed language (rust/go/python/typescript), or its server isn't on PATH"
    );
    assert!(client_for_path(".env", "/w", true, None)
        .unwrap_err()
        .starts_with("no LSP server handles `.` —"));
    assert_eq!(
        client_for_path("a.rs", "/w", false, None).unwrap_err(),
        "LSP not initialized"
    );
}

#[test]
fn answers_are_lines() {
    assert_eq!(fmt_loc("a.rs", 3, 7), "a.rs:3:7");
    let locs = vec![
        Location {
            path: "a".into(),
            line: 1,
            col: 2,
        },
        Location {
            path: "b".into(),
            line: 3,
            col: 4,
        },
    ];
    assert_eq!(
        GoToDefinitionTool::render(&locs),
        LspOutput::Capped {
            body: "a:1:2\nb:3:4".into(),
            hint: "narrow the symbol or call document_symbols first".into()
        }
    );
    assert!(matches!(FindReferencesTool::render(&vec![]), LspOutput::Plain(_)));
    assert_eq!(
        HoverTool::render(None),
        LspOutput::Plain("No hover information available".into())
    );
    let syms = vec![DocumentSymbol {
        name: "f".into(),
        kind: "Function".into(),
        line: 9,
    }];
    assert!(
        matches!(DocumentSymbolsTool::render(&syms), LspOutput::Capped { body, .. } if body == "Function f :9")
    );
    let at = |name: &str, line: u32| WorkspaceSymbol {
        path: "p".into(),
        name: name.into(),
        line,
        col: 1,
    };
    // By line; what shares a line keeps its order.
    assert!(
        matches!(WorkspaceSymbolsTool::render(vec![at("c", 5), at("a", 2), at("b", 5)]),
            LspOutput::Capped { body, .. } if body == "p:2:1 a\np:5:1 c\np:5:1 b")
    );
    let d = Diagnostic {
        severity: Severity::Warning,
        line: 0,
        character: u32::MAX,
        message: " unused \n".into(),
    };
    assert!(
        matches!(render_diagnostics("a.rs", &vec![d]), LspOutput::Capped { body, .. } if body == "a.rs:1:4294967296 [warning] unused")
    );
    assert_eq!(
        render_diagnostics("a.rs", &vec![]),
        LspOutput::Plain("a.rs: no diagnostics".into())
    );
    assert!(
        matches!(DiagnosticsTool::render_all(&strings(&["x", "y"])), LspOutput::Capped { body, .. } if body == "x\n\ny")
    );
}

// --- subagents --------------------------------------------------------------

#[test]
fn subagent_capability_tags_write_bash_vs_read_only() {
    let sailor: Vec<String> = vec![];
    let explore = strings(&["Read", "Grep", "Glob", "Ls"]);
    assert_eq!(subagent_capability(&sailor), "write+bash");
    assert_ne!(
        subagent_capability(&sailor),
        "read-only",
        "Sailor routes async (not read-only)"
    );
    assert_eq!(
        subagent_capability(&explore),
        "read-only",
        "Explore stays synchronous"
    );
    assert_eq!(subagent_capability(&strings(&["Edit"])), "write");
    assert_eq!(subagent_capability(&strings(&["Bash", "Read"])), "bash");
    assert!(is_read_only_subagent(Some(&explore)) && !is_read_only_subagent(None));
    assert_eq!(subagent_capability(&subagent_tool_names()), "write+bash");
}

#[test]
fn subagent_bash_description_forbids_background_and_drops_host_claims() {
    assert!(
        SUBAGENT_BASH_DESCRIPTION.contains("run_in_background"),
        "description flags background refusal"
    );
    assert!(
        !SUBAGENT_BASH_DESCRIPTION.contains("State persists"),
        "no state-persistence claim"
    );
    assert!(
        !SUBAGENT_BASH_DESCRIPTION.contains("requires user approval"),
        "no approval-gating claim for the ungated subagent session"
    );
}

#[test]
fn subagent_bash_refuses_background_but_allows_foreground() {
    let bg = SubagentBashTool::check(&json(r#"{"command": "echo hi", "run_in_background": true}"#));
    let err = bg.unwrap_err();
    assert!(
        err.contains("not available inside a subagent"),
        "background refused: {err}"
    );
    assert!(SubagentBashTool::check(&json(r#"{"command": "echo hi"}"#)).is_ok());
    assert!(SubagentBashTool::check(&json(r#"{"run_in_background": false}"#)).is_ok());
}

#[test]
fn subagent_bash_schema_strips_background_and_escalation_fields() {
    let schema = SubagentBashTool::parameters_schema(json(
        r#"{
            "type": "object",
            "properties": {
                "command": {"type": "string"},
                "run_in_background": {"type": "boolean"},
                "sandbox_permissions": {"type": "string"},
                "justification": {"type": "string"},
                "unsandboxed": {"type": "boolean"}
            },
            "required": ["command"]
        }"#,
    ));
    let props = schema.get("properties").expect("schema has properties");
    assert!(
        props.get("run_in_background").is_none(),
        "run_in_background stripped from the subagent schema"
    );
    assert!(
        props.get("sandbox_permissions").is_none(),
        "sandbox_permissions stripped from the subagent schema"
    );
    assert!(
        props.get("justification").is_none(),
        "justification stripped from the subagent schema"
    );
    assert!(props.get("command").is_some(), "command still advertised");
}

#[test]
fn task_stop_asks_the_subagents_first() {
    let running = strings(&["sailor-1"]);
    assert_eq!(
        TaskStop::route(&json(r#"{"task_id": "sailor-1"}"#), &running),
        StopStep::Subagent("sailor-1".into())
    );
    assert_eq!(
        TaskStop::route(&json(r#"{"task_id": "bash-1"}"#), &running),
        StopStep::Delegate
    );
    assert_eq!(TaskStop::route(&json("{}"), &running), StopStep::Delegate);
    assert_eq!(TaskStop::stopped("x"), "Stopped background task `x`");
}

#[test]
fn worktree_policy_scopes_to_the_active_worktree_and_falls_back() {
    let base = normalize_lexical("/tmp/manox-wt-policy-proj");
    let wt = normalize_lexical("/tmp/manox-wt-policy-proj/wt");
    let roots = strings(&[
        "/tmp/manox-wt-policy-proj/wt",
        "/tmp/manox-wt-policy-proj/.git",
        "/tmp/manox-wt-policy-proj",
    ]);
    assert!(worktree_policy(&wt, &None).is_empty());
    let grant = Some(WorktreeGrant {
        path: wt.clone(),
        roots: roots.clone(),
    });
    assert_eq!(worktree_policy(&wt, &grant), roots);
    assert!(worktree_policy(&base, &grant).is_empty());
}

#[test]
fn a_grant_outranks_the_standing_mode() {
    assert_eq!(
        effective_mode(Some(PermissionMode::DangerFullAccess), PermissionMode::ReadOnly),
        PermissionMode::DangerFullAccess
    );
    assert_eq!(
        effective_mode(None, PermissionMode::ReadOnly),
        PermissionMode::ReadOnly
    );
}

// --- titles -----------------------------------------------------------------

#[test]
fn in_flight_wakes_coalesce_to_the_latest_reason() {
    let mut state = TitleSchedulerState::default();
    assert!(state.begin(TitleWakeReason::FirstResponse));
    assert!(!state.begin(TitleWakeReason::Stop));
    assert!(!state.begin(TitleWakeReason::GoalStarted));
    assert_eq!(state.finish(), Some(TitleWakeReason::GoalStarted));
    assert!(!state.in_flight);
}

#[test]
fn a_title_run_of_another_session_changes_nothing() {
    let mut state = TitleSchedulerState::default();
    assert!(state.set_initial("first"));
    assert!(!state.set_initial("second"));
    let run = state.wake(true, TitleWakeReason::Stop).unwrap();
    assert_eq!(state.wake(true, TitleWakeReason::PlanStarted), None);
    assert_eq!(state.wake(false, TitleWakeReason::Stop), None);
    let stale = TitleRun {
        generation: run.generation.wrapping_add(1),
        ..run
    };
    let out = state.finish_run(stale, Some("first"), Some("new".into()));
    assert_eq!((out.persist, out.next), (None, None));
    let out = state.finish_run(run, Some("first"), Some("new".into()));
    assert_eq!(out.persist.as_deref(), Some("new"));
    assert_eq!(out.next, Some(TitleWakeReason::PlanStarted));
    state.retarget(PersistedTitleScheduler {
        title: Some("kept".into()),
        ..load_nothing()
    });
    assert_eq!(state.title.as_deref(), Some("kept"));
}

fn load_nothing() -> PersistedTitleScheduler {
    agent::sidecar::load_title_scheduler(None, 0)
}

// --- background tasks -------------------------------------------------------

#[test]
fn monitors_are_shown_from_start_to_end() {
    let mut bridge = BridgeState::new();
    let out = bridge.handle_monitor_event(
        MonitorEvent::Spawned {
            id: "m1".into(),
            description: "bridge watcher".into(),
            kind: MonitorKind::Command,
        },
        "t1",
    );
    assert!(
        matches!(&out[0], BridgeAction::Register { id, owner, .. } if id == "m1" && owner == "t1")
    );
    assert!(matches!(out.last(), Some(BridgeAction::Show { .. })));
    let mut shown = 0;
    for _ in 0..OUTPUT_EMIT_THRESHOLD {
        let out = bridge.handle_monitor_output("m1".into(), "bridge-line".into());
        assert_eq!(
            out[0],
            BridgeAction::Push {
                id: "m1".into(),
                line: "bridge-line".into()
            }
        );
        shown += out.len() - 1;
    }
    assert_eq!(shown, 1);
    let end = bridge.handle_monitor_event(
        MonitorEvent::Completed {
            id: "m1".into(),
            exit_code: Some(0),
        },
        "t1",
    );
    assert_eq!(
        end,
        vec![
            BridgeAction::SetExitCode {
                id: "m1".into(),
                code: 0
            },
            BridgeAction::Finish {
                id: "m1".into(),
                status: TaskStatus::Completed
            },
            BridgeAction::Show { id: "m1".into() },
        ]
    );
    // What is over is over.
    assert!(bridge
        .handle_monitor_event(MonitorEvent::Killed { id: "m1".into() }, "t1")
        .is_empty());
    assert!(bridge.handle_monitor_output("m1".into(), "late".into()).is_empty());
}

#[test]
fn background_shells_are_polled() {
    let mut bridge = BridgeState::new();
    let out = bridge.handle_background_event(
        BackgroundEvent::Spawned {
            id: "b1".into(),
            command: "make".into(),
        },
        "t1",
    );
    assert_eq!(
        out[0],
        BridgeAction::Register {
            id: "b1".into(),
            kind: TaskKind::BackgroundBash,
            owner: "t1".into(),
            description: "background bash: make".into()
        }
    );
    assert_eq!(out[3], BridgeAction::Poll { id: "b1".into() });
    let step = poll_output(2, "abcd", true);
    assert_eq!((step.push.as_deref(), step.seen, step.stop), (Some("cd"), 4, false));
    let step = poll_output(9, "abcd", false);
    assert_eq!((step.push.as_deref(), step.seen, step.stop), (Some("abcd"), 4, true));
    assert_eq!(poll_output(4, "abcd", true).push, None);
}

// --- MCP servers that answered ---------------------------------------------

#[test]
fn servers_that_answer_offer_their_tools() {
    assert!(ReadyTool::check_running(false).is_ok());
    assert_eq!(ReadyTool::check_running(true).unwrap_err(), "MCP tool cancelled");
    let server = |name: &str| ConnectedServer {
        name: name.into(),
        tools: vec![McpToolDef {
            name: "read".into(),
            description: "d".into(),
            input_schema: json("{}"),
        }],
    };
    let (registry, failed) = McpRegistry::connect_all(vec![
        Ok(server("fs")),
        Err(connect_timed_out("slow")),
        Ok(server("web")),
    ]);
    assert_eq!(failed, vec!["MCP server `slow` connect timed out after 30s"]);
    assert_eq!(registry.tool_count(), 2);
    let tools = registry.ready_tools();
    assert_eq!(tools[1].name, "mcp__web__read");
    assert_eq!(tools[1].tool_name, "read");
    assert_eq!(registry.servers()[0].name, "fs");
    assert!(McpRegistry::load().ready_tools().is_empty());
    assert_eq!(
        list_failed("fs", "eof"),
        "MCP server `fs` tools/list failed: eof"
    );
}

#[test]
fn plugins_keep_the_names_of_their_servers() {
    let found = collect_configs(&vec![PluginServers {
        root: "/p/a".into(),
        servers: vec![(
            "fs".into(),
            McpServerConfig {
                command: "npx".into(),
                args: strings(&["-y"]),
                env: vec![("K".into(), "V".into())],
            },
        )],
    }]);
    assert_eq!(found.len(), 1);
    assert_eq!((found[0].name.as_str(), found[0].root.as_str()), ("fs", "/p/a"));
    assert_eq!(found[0].config.args, vec!["-y"]);
    assert_eq!(found[0].config.env, vec![("K".to_string(), "V".to_string())]);
}
