use openkite::bridge::{apply_register, contribution_kind, immediate_error, Contribution, ContributionKind};
use openkite::plugin_api::{
    ApiRequest, PluginRegistration, RegistrationStore, RouteSpec, SidebarItem, StatusItem,
    OPENKITE_BRIDGE_JS,
};

fn registration() -> PluginRegistration {
    PluginRegistration {
        sidebar: vec![SidebarItem { label: "Applications".into(), icon: "grid".into(), route: "/argocd/apps".into() }],
        routes: vec![RouteSpec { path: "/argocd/apps".into(), title: "ArgoCD Applications".into() }],
        status: vec![StatusItem { label: "ArgoCD: Synced".into(), color: "green".into() }],
    }
}

#[test]
fn registration_validation_catches_bad_routes_and_empty_labels() {
    let good = registration();
    assert!(good.validate().is_ok());

    let mut bad_route = good.clone();
    bad_route.routes[0].path = "argocd/apps".into();
    assert!(bad_route.validate().unwrap_err().contains("route"));

    let mut bad_label = good.clone();
    bad_label.status[0].label = "  ".into();
    assert!(bad_label.validate().unwrap_err().contains("status"));
}

#[test]
fn a_route_needs_a_title() {
    let mut untitled = registration();
    untitled.routes[0].title = " ".into();
    assert_eq!(untitled.validate().unwrap_err(), "route '/argocd/apps' title must not be empty");
    let only = PluginRegistration { sidebar: vec![], routes: vec![RouteSpec { path: "/x".into(), title: String::new() }], status: vec![] };
    assert!(only.validate().is_err());
    let mut both = registration();
    both.routes[0] = RouteSpec { path: "x".into(), title: String::new() };
    assert_eq!(both.validate().unwrap_err(), "route path 'x' must start with / and have no spaces");
}

#[test]
fn api_request_describe_is_human_readable() {
    assert_eq!(
        ApiRequest::Get { kind: "deployments".into(), ns: "default".into(), name: "web".into() }.describe(),
        "get deployments/web"
    );
    assert_eq!(
        ApiRequest::Exec {
            name: "pod-1".into(),
            ns: "default".into(),
            container: None,
            cmd: vec!["sh".into(), "-c".into(), "ls".into()],
        }
        .describe(),
        "exec pod-1 sh -c ls"
    );
}

#[test]
fn registration_store_tracks_plugins_and_clears_on_remove() {
    let mut store = RegistrationStore::new();
    assert!(store.is_empty());
    store.upsert("argocd", registration());
    assert_eq!(store.len(), 1);
    assert_eq!(store.all_sidebar_items().len(), 1);
    assert_eq!(store.all_routes().len(), 1);
    assert!(store.remove("argocd"));
    assert!(store.is_empty());
    assert!(!store.remove("argocd"));
}

#[test]
fn bridge_js_exposes_the_contract() {
    let js = OPENKITE_BRIDGE_JS;
    for needle in [
        "window.openkite",
        "registerSidebar",
        "registerRoute",
        "registerStatusItem",
        "api: {",
        "list: (kind, ns)",
        "get: (kind, ns, name)",
        "watch: (kind, ns)",
        "logs: (name, ns, container)",
        "exec: (name, ns, container, cmd)",
        r#"fetch("/openkite""#,
        "op: \"register\"",
        "__openkite_plugin",
    ] {
        assert!(js.contains(needle), "bridge JS missing {needle}");
    }
}

#[test]
fn registration_empty_label_is_reported_first() {
    let mut reg = registration();
    reg.sidebar[0].label = "".into();
    reg.routes[0].path = "bad".into();
    assert_eq!(reg.validate().unwrap_err(), "sidebar item label must not be empty");
    let mut reg = registration();
    reg.routes[0].path = "/has space".into();
    assert_eq!(reg.validate().unwrap_err(), "route path '/has space' must start with / and have no spaces");
}

#[test]
fn register_appends_and_keeps_the_store_on_a_bad_route() {
    let mut store = RegistrationStore::new();
    apply_register(
        &mut store,
        "argocd",
        Contribution::Sidebar(SidebarItem { label: "Apps".into(), icon: String::new(), route: "/argocd".into() }),
    )
    .unwrap();
    apply_register(
        &mut store,
        "argocd",
        Contribution::Route(RouteSpec { path: "/argocd".into(), title: "Apps".into() }),
    )
    .unwrap();
    let reg = store.get("argocd").unwrap();
    assert_eq!(reg.sidebar.len(), 1);
    assert_eq!(reg.routes.len(), 1);
    let err = apply_register(
        &mut store,
        "argocd",
        Contribution::Route(RouteSpec { path: "argocd".into(), title: "Bad".into() }),
    )
    .unwrap_err();
    assert_eq!(err, "route path 'argocd' must start with / and have no spaces");
    assert_eq!(store.get("argocd").unwrap().routes.len(), 1);
}

#[test]
fn register_kinds_and_immediate_answers() {
    assert_eq!(contribution_kind("sidebar").unwrap(), ContributionKind::Sidebar);
    assert_eq!(contribution_kind("route").unwrap(), ContributionKind::Route);
    assert_eq!(contribution_kind("status").unwrap(), ContributionKind::Status);
    assert_eq!(contribution_kind("menu").unwrap_err(), "unknown registration kind 'menu'");
    let exec = ApiRequest::Exec { name: "p".into(), ns: "d".into(), container: None, cmd: vec![] };
    assert_eq!(immediate_error(&exec, true).as_deref(), Some("exec is not supported yet"));
    let list = ApiRequest::List { kind: "pods".into(), ns: None };
    assert_eq!(immediate_error(&list, false).as_deref(), Some("no cluster connected"));
    assert_eq!(immediate_error(&list, true), None);
}
