use agent::approval::ApprovalGatedTool;
use agent::toolset::{
    build_tools, default_active_tool_names, project_browser_suites, toggle_browser_suite_names,
    BrowserSuite, McpServerTools, MountedTool, ToolsetHost,
};

#[test]
fn default_active_tool_names_excludes_browser_suites() {
    let tools: Vec<String> = BrowserSuite::ChromeUse
        .tool_names()
        .iter()
        .chain(BrowserSuite::WebExplore.tool_names())
        .map(|s| s.to_string())
        .collect();
    let default_names = default_active_tool_names(&tools);
    assert!(default_names.is_empty(), "{default_names:?}");
}

#[test]
fn toggle_browser_suite_enable_merges_into_default_set() {
    let defaults = vec!["Read".to_string(), "Bash".to_string(), "Edit".to_string()];
    let merged =
        toggle_browser_suite_names(defaults.clone(), BrowserSuite::ChromeUse.tool_names(), true);
    // Every default survives.
    for name in &defaults {
        assert!(merged.contains(name), "default {name} lost: {merged:?}");
    }
    // Every ChromeUse tool is present.
    for name in BrowserSuite::ChromeUse.tool_names() {
        assert!(
            merged.iter().any(|n| n == name),
            "suite tool {name} missing: {merged:?}"
        );
    }
    assert_eq!(
        merged.len(),
        defaults.len() + BrowserSuite::ChromeUse.tool_names().len()
    );
}

#[test]
fn toggle_browser_suite_enable_is_idempotent() {
    let once = toggle_browser_suite_names(
        vec!["Read".to_string()],
        BrowserSuite::WebExplore.tool_names(),
        true,
    );
    let twice =
        toggle_browser_suite_names(once.clone(), BrowserSuite::WebExplore.tool_names(), true);
    assert_eq!(once, twice, "re-enabling must not duplicate");
}

#[test]
fn toggle_browser_suite_disable_strips_only_that_suite() {
    let mut names = vec!["Read".to_string(), "Bash".to_string()];
    names = toggle_browser_suite_names(names, BrowserSuite::ChromeUse.tool_names(), true);
    names = toggle_browser_suite_names(names, BrowserSuite::WebExplore.tool_names(), true);
    let stripped = toggle_browser_suite_names(names, BrowserSuite::ChromeUse.tool_names(), false);
    assert!(stripped.contains(&"Read".to_string()));
    assert!(stripped.contains(&"Bash".to_string()));
    for name in BrowserSuite::ChromeUse.tool_names() {
        assert!(!stripped.iter().any(|n| n == name), "{name} should be gone");
    }
    for name in BrowserSuite::WebExplore.tool_names() {
        assert!(stripped.iter().any(|n| n == name), "{name} should survive");
    }
}

#[test]
fn project_browser_suites_requires_the_full_suite_active() {
    let defaults = vec!["Read".to_string(), "Bash".to_string()];
    assert!(project_browser_suites(&defaults).is_empty());

    let partial: Vec<String> = BrowserSuite::ChromeUse.tool_names()[..3]
        .iter()
        .map(|s| s.to_string())
        .collect();
    assert!(project_browser_suites(&partial).is_empty());

    let mut full = defaults.clone();
    full.extend(
        BrowserSuite::ChromeUse
            .tool_names()
            .iter()
            .map(|s| s.to_string()),
    );
    assert_eq!(project_browser_suites(&full), vec![BrowserSuite::ChromeUse]);

    full.extend(
        BrowserSuite::WebExplore
            .tool_names()
            .iter()
            .map(|s| s.to_string()),
    );
    assert_eq!(
        project_browser_suites(&full),
        vec![BrowserSuite::ChromeUse, BrowserSuite::WebExplore]
    );
}

fn host(everything: bool) -> ToolsetHost {
    ToolsetHost {
        sandbox: everything,
        goals: everything,
        chrome_use: everything,
        lsp: if everything { vec!["LspStatus".to_string()] } else { vec![] },
        mcp: if everything {
            vec![McpServerTools {
                server: "files".into(),
                tools: vec!["read".into(), "write".into()],
            }]
        } else {
            vec![]
        },
    }
}

fn gate(tools: &[MountedTool], name: &str) -> Option<ApprovalGatedTool> {
    tools.iter().find(|t| t.name == name).expect(name).gate
}

#[test]
fn the_toolset_follows_what_the_host_offers() {
    let bare = build_tools(&host(false));
    assert_eq!(bare.len(), 11 + 7 + 10 + 2 + 2);
    assert_eq!(bare[0].name, "Read");
    assert_eq!(bare[bare.len() - 1].name, "SubagentStatus");
    assert!(!gate(&bare, "Bash").unwrap().auto_allow);
    assert!(bare.iter().all(|t| t.name != "GetGoal" && t.name != "ChromeUseOpen"));

    let full = build_tools(&host(true));
    assert_eq!(full.len(), bare.len() + 3 + 15 + 1 + 2);
    let core = ApprovalGatedTool::new()
        .with_plan_policy()
        .with_worktree_roots();
    assert_eq!(gate(&full, "Read"), Some(core));
    assert_eq!(gate(&full, "Bash"), Some(core.with_auto_allow()));
    assert_eq!(gate(&full, "Monitor"), Some(core.with_auto_allow()));
    assert_eq!(gate(&full, "Write"), Some(core.with_escalation()));
    assert_eq!(gate(&full, "Edit"), Some(core.with_escalation()));
    assert_eq!(gate(&full, "mcp_files_write"), Some(ApprovalGatedTool::new()));
    assert_eq!(
        gate(&full, "ChromeUseEvaluate"),
        Some(ApprovalGatedTool::new().with_plan_policy())
    );
    assert_eq!(gate(&full, "LspStatus"), None);
    assert_eq!(gate(&full, "ProposePlan"), None);
    assert_eq!(gate(&full, "ChromeUseSnapshot"), None);
}
