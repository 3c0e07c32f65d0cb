use agent::monitor_bridge::{BridgeState, MonitorEvent, MonitorKind};
use agent::path_policy::{is_under_any, ReadPolicy};
use agent::pathname::{is_same_file, normalize_lexical};
use agent::table::{is_before, Table};
use agent::text::str_trim;

#[test]
fn tables_keep_their_keys_in_order() {
    let mut table: Table<String> = Table::new();
    for key in ["b", "", "é", "a", "ab", "Z"] {
        table.insert(key.to_string(), key.to_uppercase());
    }
    let keys: Vec<&str> = (0..table.len()).map(|i| table.key_at(i)).collect();
    let mut sorted = keys.clone();
    sorted.sort();
    assert_eq!(keys, sorted);
    assert_eq!(keys, ["", "Z", "a", "ab", "b", "é"]);
    assert_eq!(table.value_at(3), "AB");
    table.or_insert("a".into(), "other".into());
    assert_eq!(table.get("a").map(|v| v.as_str()), Some("A"));
    table.remove("a");
    assert!(!table.contains_key("a") && table.len() == 5);
    assert!(is_before("a", "ab") && is_before("ab", "b") && is_before("a", "b"));
    assert!(!is_before("b", "a") && !is_before("a", "a"));
}

#[test]
fn what_lies_under_a_subtree_lies_under_the_tree() {
    let file = normalize_lexical("/a/b/c/../d");
    let dir = normalize_lexical("/a/b");
    let root = normalize_lexical("/a");
    assert!(file.starts_with(&dir) && dir.starts_with(&root) && file.starts_with(&root));
    assert!(!normalize_lexical("/ab").starts_with(&root));
    assert!(is_under_any(&file, &vec![normalize_lexical("/x"), root]));
    assert!(is_same_file("/a//b/./c", "/a/b/c") && !is_same_file("/a/b", "a/b"));

    // Denying a tree denies what is in it, and more roots deny no less.
    let narrow = ReadPolicy::new(vec![normalize_lexical("/a/b")]);
    let wide = ReadPolicy::new(vec![normalize_lexical("/a/b"), normalize_lexical("/z")]);
    assert!(narrow.is_denied(&file) && wide.is_denied(&file));
    assert!(!narrow.is_denied(&normalize_lexical("/z/k")));
    assert!(wide.is_denied(&normalize_lexical("/z/k")));
}

#[test]
fn trimming_twice_is_trimming_once() {
    for text in ["", "  ", " a b\t\n", "\u{3000}x\u{a0}"] {
        let once = str_trim(text);
        assert_eq!(once, text.trim());
        assert_eq!(str_trim(&once), once);
    }
}

#[test]
fn a_monitor_is_finished_once() {
    let mut bridge = BridgeState::new();
    let stop = || MonitorEvent::Stopped { id: "m".into() };
    assert!(bridge.handle_monitor_event(stop(), "t").is_empty());
    let spawned = MonitorEvent::Spawned {
        id: "m".into(),
        description: "d".into(),
        kind: MonitorKind::Command,
    };
    assert_eq!(bridge.handle_monitor_event(spawned, "t").len(), 2);
    assert_eq!(bridge.handle_monitor_event(stop(), "t").len(), 2);
    let late = MonitorEvent::Completed {
        id: "m".into(),
        exit_code: Some(0),
    };
    assert!(bridge.handle_monitor_event(late, "t").is_empty());
    assert!(bridge.handle_monitor_output("m".into(), "line".into()).is_empty());
}
