use openkite::bridge::{eq_ignore_ascii_case, get_namespace, list_namespace, logs_namespace_error, pick_resource, unknown_kind};

fn discovered() -> Vec<(String, String)> {
    vec![
        ("pods".into(), "Pod".into()),
        ("events".into(), "Event".into()),
        ("events".into(), "Event".into()),
        ("applications".into(), "Application".into()),
    ]
}

#[test]
fn kind_strings_resolve_by_plural_or_kind_ignoring_case() {
    let resources = discovered();
    assert_eq!(pick_resource(&resources, "pods"), Some(0));
    assert_eq!(pick_resource(&resources, "Pod"), Some(0));
    assert_eq!(pick_resource(&resources, "PODS"), Some(0));
    assert_eq!(pick_resource(&resources, "events"), Some(1));
    assert_eq!(pick_resource(&resources, "application"), Some(3));
    assert_eq!(pick_resource(&resources, "widgets"), None);
    assert_eq!(unknown_kind("widgets"), "unknown resource kind 'widgets'");
    assert!(eq_ignore_ascii_case("ConfigMap", "configmap"));
    assert!(!eq_ignore_ascii_case("pod", "pods"));
    assert!(!eq_ignore_ascii_case("É", "é"));
}

#[test]
fn namespaces_narrow_lists_and_are_required_for_gets_and_logs() {
    assert_eq!(list_namespace(true, Some("default")), Some("default"));
    assert_eq!(list_namespace(true, Some("")), None);
    assert_eq!(list_namespace(false, Some("default")), None);
    assert_eq!(list_namespace(true, None), None);
    assert_eq!(get_namespace(true, "pods", "kube-system", "coredns"), Ok(Some("kube-system")));
    assert_eq!(get_namespace(false, "nodes", "", "node-1"), Ok(None));
    assert_eq!(get_namespace(true, "pods", "", "coredns"), Err("get pods/coredns: namespace required".to_string()));
    assert_eq!(logs_namespace_error("web-1", ""), Some("logs web-1: namespace required".to_string()));
    assert_eq!(logs_namespace_error("web-1", "default"), None);
}
