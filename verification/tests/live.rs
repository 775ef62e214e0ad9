use openkite::live::filter_ns;
use serde_json::Value;

fn row(text: &str) -> Value {
    serde_json::from_str(text).unwrap()
}

fn with_namespace(rows: Vec<Value>) -> Vec<(Option<String>, Value)> {
    rows.into_iter()
        .map(|v| {
            let ns = v.pointer("/metadata/namespace").and_then(Value::as_str).map(str::to_string);
            (ns, v)
        })
        .collect()
}

#[test]
fn filter_ns_keeps_cluster_scoped_objects_and_matches_namespaced_ones() {
    let rows = vec![
        row(r#"{"metadata": {"namespace": "default", "name": "a"}}"#),
        row(r#"{"metadata": {"namespace": "kube-system", "name": "b"}}"#),
        row(r#"{"metadata": {"name": "node-1"}}"#),
    ];
    let filtered = filter_ns(with_namespace(rows.clone()), Some("default"));
    assert_eq!(filtered.len(), 2, "default pod + cluster-scoped node");
    assert_eq!(filter_ns(with_namespace(rows.clone()), None).len(), 3, "no ns filter keeps all");
    assert_eq!(filter_ns(with_namespace(rows), Some("")).len(), 3, "empty ns means all");
}

#[test]
fn filter_ns_keeps_row_order() {
    let rows = vec![
        (Some("a".to_string()), 1),
        (None, 2),
        (Some("b".to_string()), 3),
        (Some("a".to_string()), 4),
    ];
    let kept: Vec<i32> = filter_ns(rows, Some("a")).into_iter().map(|(_, v)| v).collect();
    assert_eq!(kept, vec![1, 2, 4]);
}
