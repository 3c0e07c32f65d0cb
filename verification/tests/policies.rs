use agent::path_policy::{
    edit_target_path, home_denied_paths, is_likely_secret_file, EditTarget, ReadPolicy,
    WritePolicy,
};
use agent::pathname::{canonicalize_best_effort, normalize_lexical, CleanPath, ExistingAncestor};
use agent::paths::{
    agents_dir, commands_dir, disabled_plugins_file, enabled_plugins_file, home_dir,
    manox_config_dir, manox_home, marketplace_cache_dir, marketplace_dir, marketplace_slug,
    plans_dir, plugin_root, plugins_dir, settings_file, skills_dir, state_base, themes_dir,
};

fn canon(path: &str) -> CleanPath {
    canonicalize_best_effort(path, None)
}

fn text(p: &CleanPath) -> String {
    format!("/{}", p.names.join("/"))
}

fn read_policy() -> ReadPolicy {
    let roots = home_denied_paths(Some("/home/u"));
    ReadPolicy::new(roots.iter().map(|p| canon(p)).collect())
}

fn write_policy() -> WritePolicy {
    WritePolicy::for_project(
        canon("/tmp/manox-policy-test"),
        Some(canon(&plans_dir("/home/u"))),
    )
}

fn write_check(path: &str) -> Result<(), String> {
    write_policy().check(path, &canon(path))
}

fn targets(paths: &[&str]) -> Result<Vec<EditTarget>, String> {
    Ok(paths
        .iter()
        .map(|p| {
            let full = edit_target_path(p, "/tmp/manox-policy-test");
            let canon = canon(&full);
            EditTarget { path: full, canon }
        })
        .collect())
}

#[test]
fn read_policy_denies_sensitive_home_subtrees() {
    let policy = read_policy();
    assert!(policy.is_denied(&canon("/home/u/.ssh/id_rsa")));
    assert!(policy.is_denied(&canon("/home/u/.aws/credentials")));
    assert!(policy.is_denied(&canon("/home/u/.manox/cx.providers.config.yaml")));
    assert!(policy.is_denied(&canon("/home/u/.manox/cx.db")));
    assert!(policy.is_denied(&canon("/home/u/.manox/sessions/abc.sock")));
}

#[test]
fn read_policy_denies_manox_secrets_but_allows_plans() {
    let policy = read_policy();
    assert!(!policy.is_denied(&canon("/home/u/.manox/plans/example-plan.md")));
}

#[test]
fn read_policy_allows_project_and_public_keys() {
    let policy = read_policy();
    assert!(!policy.is_denied(&canon("/tmp/manox-policy-test/src/main.rs")));
    // Public key material is NOT secret.
    assert!(!is_likely_secret_file("/x/id_rsa.pub"));
}

#[test]
fn read_policy_denies_secret_filenames_anywhere() {
    let policy = read_policy();
    assert!(policy.is_denied(&canon("/tmp/manox-policy-test/.env")));
    assert!(policy.is_denied(&canon("/tmp/manox-policy-test/.env.local")));
    assert!(policy.is_denied(&canon("/tmp/manox-policy-test/.netrc")));
    // Ordinary `foo.env` files pass (`.env.` prefix required).
    assert!(!policy.is_denied(&canon("/tmp/manox-policy-test/send.env")));
}

#[test]
fn read_policy_check_message_is_actionable() {
    let policy = read_policy();
    let err = policy
        .check("/home/u/.ssh/id_rsa", &canon("/home/u/.ssh/id_rsa"))
        .unwrap_err();
    assert!(err.contains("bash"), "{err}");
    assert!(policy
        .check(
            "/tmp/manox-policy-test/ok.rs",
            &canon("/tmp/manox-policy-test/ok.rs")
        )
        .is_ok());
}

#[test]
fn write_policy_confines_to_project_temp_plans() {
    assert!(write_check("/tmp/manox-policy-test/src/lib.rs").is_ok());
    assert!(write_check("/tmp/scratch-file.txt").is_ok());
    assert!(write_check(&format!("{}/x-plan.md", plans_dir("/home/u"))).is_ok());
    let err = write_check("/etc/manox-policy-test/lib.rs").unwrap_err();
    assert!(err.contains("outside"), "{err}");
}

#[test]
fn write_policy_protects_git_dirs() {
    let err = write_check("/tmp/manox-policy-test/.git/config").unwrap_err();
    assert!(err.contains(".git"), "{err}");
    // A path merely containing "git" in a name is fine.
    assert!(write_check("/tmp/manox-policy-test/git_notes.md").is_ok());
}

#[test]
fn canonicalize_folds_traversal_through_missing_dirs() {
    let c = canonicalize_best_effort(
        "/tmp/missing-dir-x/../../etc/passwd",
        None,
    );
    assert!(!text(&c).contains(".."), "traversal survived: {c:?}");
    assert!(text(&c).ends_with("etc/passwd"), "{c:?}");
    // The existing ancestor resolves links (/tmp -> /private/tmp on macOS).
    let c = canonicalize_best_effort(
        "/tmp/new/file",
        Some(ExistingAncestor {
            index: 2,
            resolved: normalize_lexical("/private/tmp"),
        }),
    );
    assert_eq!(text(&c), "/private/tmp/new/file");
}

#[test]
fn edit_patch_confines_every_section() {
    let policy = write_policy();
    // In-project absolute and relative targets pass.
    assert!(policy
        .check_edit_patch(&targets(&["/tmp/manox-policy-test/src/lib.rs"]))
        .is_ok());
    assert!(policy.check_edit_patch(&targets(&["src/lib.rs"])).is_ok());
    // Out-of-project target is confined (absolute and relative escape).
    let err = policy
        .check_edit_patch(&targets(&["/etc/manox-policy-test/x.rs"]))
        .unwrap_err();
    assert!(err.contains("outside"), "{err}");
    let err = policy
        .check_edit_patch(&targets(&["../../etc/passwd"]))
        .unwrap_err();
    assert!(err.contains("outside"), "{err}");
    // `.git` targets stay protected through the patch path too.
    let err = policy
        .check_edit_patch(&targets(&["/tmp/manox-policy-test/.git/config"]))
        .unwrap_err();
    assert!(err.contains(".git"), "{err}");
}

#[test]
fn edit_patch_multi_section_blocks_on_bad_target() {
    let err = write_policy()
        .check_edit_patch(&targets(&["src/ok.rs", "/etc/manox-policy-test/bad.rs"]))
        .unwrap_err();
    assert!(err.contains("outside"), "{err}");
}

#[test]
fn edit_patch_fails_closed_on_unparseable_patch() {
    let err = write_policy()
        .check_edit_patch(&Err("section header not closed".into()))
        .unwrap_err();
    assert!(err.contains("unverifiable"), "{err}");
}

#[test]
fn marketplace_slug_strips_git_suffix() {
    assert_eq!(
        marketplace_slug("https://github.com/dspo/agent-marketplace.git"),
        "agent-marketplace"
    );
    assert_eq!(marketplace_slug("https://github.com/dspo/x"), "x");
}

#[test]
fn a_trailing_slash_does_not_change_the_slug() {
    assert_eq!(
        marketplace_slug("https://github.com/dspo/agent-marketplace.git/"),
        "agent-marketplace"
    );
}

#[test]
fn state_lives_under_home_or_the_working_directory() {
    assert_eq!(home_dir(Some("/home/u".into())), Some("/home/u".into()));
    assert_eq!(home_dir(None), None);
    assert_eq!(state_base(Some("/home/u".into()), Some("/w".into())), "/home/u");
    assert_eq!(state_base(None, Some("/w".into())), "/w");
    assert_eq!(plans_dir("/home/u"), "/home/u/.manox/plans");
    assert_eq!(plugin_root("/home/u", "p"), "/home/u/.manox/plugins/p");
    assert_eq!(
        enabled_plugins_file("/home/u"),
        "/home/u/.manox/enabled_plugins.txt"
    );
    assert!(marketplace_dir("/home/u", "https://x/y.git").ends_with("/y"));
}

#[test]
fn whitespace_is_that_of_char() {
    for n in 0..0x11_0000u32 {
        if let Some(c) = char::from_u32(n) {
            assert_eq!(
                agent::text::char_is_space(c),
                c.is_whitespace(),
                "{n:x}"
            );
        }
    }
}

#[test]
fn everything_is_kept_below_one_directory() {
    for (dir, name) in [
        (agents_dir("/h"), "agents"),
        (skills_dir("/h"), "skills"),
        (commands_dir("/h"), "commands"),
        (plugins_dir("/h"), "plugins"),
        (marketplace_cache_dir("/h"), "marketplaces"),
        (disabled_plugins_file("/h"), "disabled_plugins.txt"),
        (settings_file("/h"), "settings.toml"),
        (themes_dir("/h"), "themes"),
    ] {
        assert_eq!(dir, format!("/h/.manox/{name}"));
    }
    assert_eq!(manox_home("/h"), "/h/.manox");
    assert_eq!(manox_config_dir("/h"), manox_home("/h"));
}
