use openkite::config::OpenKiteConfig;
use openkite::plugin_js::{coalesce, collect_bundles, enabled_bundles, scan_and_reconcile, split_discovered, JsPluginRegistry, PluginAction, PluginChange, PluginManifest};

fn manifest(name: &str, version: &str) -> PluginManifest {
    PluginManifest {
        name: name.into(),
        version: version.into(),
        entry: "index.js".into(),
        description: String::new(),
        author: String::new(),
        sidebar: vec![],
    }
}

#[test]
fn manifest_validation_messages() {
    assert!(manifest("argo-cd_1", "0.1.0").validate().is_ok());
    assert_eq!(manifest(" ", "0.1.0").validate().unwrap_err(), "name must not be empty");
    assert_eq!(manifest("bad name", "0.1.0").validate().unwrap_err(), "name 'bad name' may only contain [a-zA-Z0-9-_]");
    let mut m = manifest("ok", "0.1.0");
    m.entry = "main.ts".into();
    assert_eq!(m.validate().unwrap_err(), "entry 'main.ts' must be a .js file");
    m.entry = "../escape.js".into();
    assert_eq!(m.validate().unwrap_err(), "entry '../escape.js' must be relative and inside the plugin dir");
    m.entry = "/opt/plugins/main.js".into();
    assert_eq!(m.validate().unwrap_err(), "entry '/opt/plugins/main.js' must be relative and inside the plugin dir");
    m.entry = "dist/main.js".into();
    assert!(m.validate().is_ok());
}

#[test]
fn registry_reconciles_added_changed_and_removed() {
    let mut reg = JsPluginRegistry::default();
    let changes = reg.reconcile(vec![("a".into(), manifest("a", "1")), ("b".into(), manifest("b", "1"))], true);
    assert_eq!(changes.len(), 2);
    assert!(changes.iter().all(|c| c.action == PluginAction::Added));
    assert!(reg.is_enabled("a"));
    let changes = reg.reconcile(vec![("a".into(), manifest("a", "2"))], true);
    assert_eq!(
        changes,
        vec![
            PluginChange { name: "a".into(), action: PluginAction::Changed },
            PluginChange { name: "b".into(), action: PluginAction::Removed },
        ]
    );
    assert_eq!(reg.names(), vec!["a".to_string()]);
    assert!(reg.set_enabled("a", false));
    assert!(!reg.is_enabled("a"));
    assert!(!reg.set_enabled("zzz", true));
}

#[test]
fn coalesce_keeps_the_last_action_per_plugin() {
    let changes = vec![
        PluginChange { name: "b".into(), action: PluginAction::Added },
        PluginChange { name: "a".into(), action: PluginAction::Added },
        PluginChange { name: "b".into(), action: PluginAction::Removed },
    ];
    assert_eq!(
        coalesce(changes),
        vec![
            PluginChange { name: "a".into(), action: PluginAction::Added },
            PluginChange { name: "b".into(), action: PluginAction::Removed },
        ]
    );
}

#[test]
fn enabled_bundles_follow_the_config() {
    let mut config = OpenKiteConfig::default();
    config.disabled_plugins = vec!["b".into()];
    let kept = enabled_bundles(vec![("a".into(), manifest("a", "1")), ("b".into(), manifest("b", "1"))], &config);
    assert_eq!(kept.len(), 1);
    assert_eq!(kept[0].0, "a");
    assert!(config.is_enabled("a"));
    assert!(!config.is_enabled("b"));
}

#[test]
fn discovery_sorts_loaded_by_name_and_keeps_errors_in_order() {
    let outcomes = vec![
        Ok(manifest("zeta", "1")),
        Err("unreadable manifest".to_string()),
        Ok(manifest("alpha", "1")),
        Err("name must not be empty".to_string()),
        Ok(manifest("mid", "2")),
    ];
    let (loaded, errors) = split_discovered(outcomes);
    let names: Vec<&str> = loaded.iter().map(|(n, _)| n.as_str()).collect();
    assert_eq!(names, vec!["alpha", "mid", "zeta"]);
    assert_eq!(loaded[1].1.version, "2");
    assert_eq!(
        errors,
        vec!["unreadable manifest".to_string(), "name must not be empty".to_string()]
    );
    let (none, no_errors) = split_discovered(vec![]);
    assert!(none.is_empty() && no_errors.is_empty());
}

#[test]
fn collected_bundles_point_at_the_entry_inside_the_plugin_dir() {
    let mut config = OpenKiteConfig::default();
    config.disabled_plugins = vec!["off".into()];
    let mut on = manifest("on", "1");
    on.entry = "dist/main.js".into();
    let bundles = collect_bundles(
        "/home/u/.openkite/plugins",
        vec![("off".into(), manifest("off", "1")), ("on".into(), on)],
        &config,
    );
    assert_eq!(bundles.len(), 1);
    assert_eq!(bundles[0].name, "on");
    assert_eq!(bundles[0].root, "/home/u/.openkite/plugins");
    assert_eq!(bundles[0].entry, "dist/main.js");
}

#[test]
fn scan_and_reconcile_reports_changes_and_passes_errors_through() {
    let mut reg = JsPluginRegistry::new();
    let scan = (vec![("a".into(), manifest("a", "1"))], vec!["parse b: eof".to_string()]);
    let (changes, errors) = scan_and_reconcile(scan, &mut reg, false);
    assert_eq!(changes, vec![PluginChange { name: "a".into(), action: PluginAction::Added }]);
    assert_eq!(errors, vec!["parse b: eof".to_string()]);
    assert!(!reg.is_enabled("a"));
    let (again, none) = scan_and_reconcile((vec![("a".into(), manifest("a", "1"))], vec![]), &mut reg, true);
    assert!(again.is_empty() && none.is_empty());
}

#[test]
fn upsert_keeps_the_enabled_state_on_replace() {
    let mut reg = JsPluginRegistry::new();
    reg.upsert(manifest("a", "1"), false);
    assert!(!reg.is_enabled("a"));
    reg.upsert(manifest("a", "2"), true);
    assert!(!reg.is_enabled("a"));
    assert_eq!(reg.len(), 1);
    reg.upsert(manifest("b", "1"), true);
    assert!(reg.is_enabled("b"));
    assert_eq!(reg.len(), 2);
}
