use openkite::plugin_api::{PluginRegistration, RegistrationStore, RouteSpec, SidebarItem, StatusItem};
use openkite::shell::{nav_item_from_plugin, sidebar_model, status_bar_model, status_items_of, ShellState};

fn reg_with_sidebar(plugin: &str, label: &str, route: &str) -> (String, PluginRegistration) {
    (
        plugin.into(),
        PluginRegistration {
            sidebar: vec![SidebarItem { label: label.into(), icon: String::new(), route: route.into() }],
            routes: vec![RouteSpec { path: route.into(), title: label.into() }],
            status: vec![StatusItem { label: format!("{plugin}: ok"), color: "green".into() }],
        },
    )
}

#[test]
fn sidebar_model_lists_core_first_then_plugin_sections() {
    let mut store = RegistrationStore::new();
    store.upsert("argocd", reg_with_sidebar("argocd", "Applications", "/argocd/apps").1);
    store.upsert("istio", reg_with_sidebar("istio", "Mesh", "/istio/mesh").1);
    let sections = sidebar_model(&store);

    assert_eq!(sections.len(), 3);
    assert_eq!(sections[0].label, "Overview");
    assert_eq!(sections[0].items.len(), 3);
    assert!(sections[0].items.iter().all(|i| i.plugin.is_none()));

    assert_eq!(sections[1].label, "argocd");
    assert_eq!(sections[1].items[0].label, "Applications");
    assert_eq!(sections[1].items[0].plugin.as_deref(), Some("argocd"));

    assert_eq!(sections[2].label, "istio");
}

#[test]
fn sidebar_model_skips_plugins_without_sidebar_items() {
    let mut store = RegistrationStore::new();
    store.upsert("silent", PluginRegistration::default());
    let sections = sidebar_model(&store);
    assert_eq!(sections.len(), 1);
    assert_eq!(sections[0].label, "Overview");
}

#[test]
fn shell_state_falls_back_to_no_cluster_and_disconnected() {
    let state = ShellState::default();
    assert_eq!(state.cluster_label(), "no cluster");
    assert_eq!(state.status_label(), "Disconnected");
    let connected = ShellState { cluster: Some("prod".into()), connected: true, ..ShellState::default() };
    assert_eq!(connected.cluster_label(), "prod");
    assert_eq!(connected.status_label(), "Connected");
}

#[test]
fn ensure_namespace_clamps_to_default_when_missing() {
    let mut state = ShellState { namespace: "team-a".into(), ..ShellState::default() };
    let available = vec!["default".to_string(), "team-b".to_string()];
    assert_eq!(state.ensure_namespace(&available), "default");
    assert_eq!(state.namespace, "default");

    let mut state = ShellState { namespace: "team-a".into(), ..ShellState::default() };
    let available = vec!["default".to_string(), "team-a".to_string()];
    assert_eq!(state.ensure_namespace(&available), "team-a");
}

#[test]
fn status_bar_model_merges_core_and_plugin_entries() {
    let mut store = RegistrationStore::new();
    store.upsert("argocd", reg_with_sidebar("argocd", "Applications", "/argocd/apps").1);
    let state = ShellState { cluster: Some("prod".into()), connected: true, ..ShellState::default() };
    let entries = status_bar_model(&state, &store, "0.8.0");
    assert_eq!(entries.len(), 3);
    assert_eq!(entries[0].label, "prod · Connected");
    assert_eq!(entries[0].color.as_deref(), Some("green"));
    assert_eq!(entries[1].label, "v0.8.0");
    assert_eq!(entries[2].label, "argocd: ok");
    assert_eq!(entries[2].plugin.as_deref(), Some("argocd"));
}

#[test]
fn helpers_expose_plugin_items_and_status() {
    let mut store = RegistrationStore::new();
    let (name, reg) = reg_with_sidebar("argocd", "Applications", "/argocd/apps");
    store.upsert(&name, reg);
    let item = store.get("argocd").unwrap().sidebar[0].clone();
    let nav = nav_item_from_plugin("argocd", &item);
    assert_eq!(nav.route, "/argocd/apps");
    assert_eq!(status_items_of(&store, "argocd").len(), 1);
    assert!(status_items_of(&store, "missing").is_empty());
}
