use openkite::promql::{build_pod_cpu_expr, build_pod_memory_expr, check_status, prometheus_base_url, url_encode_query, PromError};
use openkite::prometheus::{detect_prometheus, is_prometheus_service, ServiceMeta};

#[test]
fn build_pod_cpu_expr_quotes_namespace_and_pod() {
    let expr = build_pod_cpu_expr("default", "coredns-abc");
    assert!(expr.contains("container_cpu_usage_seconds_total"));
    assert!(expr.contains(r#"namespace="default""#));
    assert!(expr.contains(r#"pod="coredns-abc""#));
}

#[test]
fn build_pod_memory_expr_uses_working_set_bytes() {
    let expr = build_pod_memory_expr("default", "coredns-abc");
    assert!(expr.contains("container_memory_working_set_bytes"));
    assert!(expr.contains(r#"namespace="default""#));
    assert!(expr.contains(r#"pod="coredns-abc""#));
}

#[test]
fn url_encode_query_escapes_spaces_and_quotes() {
    let encoded = url_encode_query("up{job=\"prometheus\"} and {foo=\"bar\"}");
    assert!(encoded.contains("%20"));
    assert!(encoded.contains("%22"));
}

#[test]
fn url_encode_query_passes_unreserved_chars() {
    let encoded = url_encode_query("abc-DEF_1.2~3");
    assert_eq!(encoded, "abc-DEF_1.2~3");
}

#[test]
fn prometheus_base_url_formats_cluster_local() {
    assert_eq!(
        prometheus_base_url("prometheus-operated", Some("monitoring")),
        "http://prometheus-operated.monitoring.svc.cluster.local:9090"
    );
}

#[test]
fn prometheus_base_url_defaults_to_monitoring_namespace() {
    assert_eq!(prometheus_base_url("prometheus", None), "http://prometheus.monitoring.svc.cluster.local:9090");
}

#[test]
fn pod_exprs_are_exact() {
    assert_eq!(
        build_pod_cpu_expr("ns", "p"),
        r#"sum(rate(container_cpu_usage_seconds_total{namespace="ns",pod="p",container!=""}[2m]))"#
    );
    assert_eq!(
        build_pod_memory_expr("ns", "p"),
        r#"sum(container_memory_working_set_bytes{namespace="ns",pod="p",container!=""}) by (pod)"#
    );
}

#[test]
fn url_encode_query_uses_upper_case_hex_per_utf8_byte() {
    assert_eq!(url_encode_query("a b{}"), "a%20b%7B%7D");
    assert_eq!(url_encode_query("é"), "%C3%A9");
    assert_eq!(url_encode_query(""), "");
}

#[test]
fn prom_error_messages() {
    assert_eq!(PromError::Http(503, "down".into()).message(), "prometheus http 503: down");
    assert_eq!(PromError::Parse("x".into()).message(), "prometheus json parse: x");
    assert_eq!(PromError::Query("bad".into()).message(), "prometheus query error: bad");
    assert_eq!(PromError::Empty.message(), "prometheus returned no series");
    assert_eq!(PromError::Http(0, String::new()).message(), "prometheus http 0: ");
}

#[test]
fn prometheus_detection_by_label_or_known_name() {
    let labels = vec![("app.kubernetes.io/name".to_string(), "prometheus".to_string())];
    assert!(is_prometheus_service("metrics", Some(&labels)));
    let other = vec![("app.kubernetes.io/name".to_string(), "grafana".to_string())];
    assert!(!is_prometheus_service("metrics", Some(&other)));
    assert!(is_prometheus_service("prometheus-operated", Some(&other)));
    assert!(is_prometheus_service("prometheus", None));
    assert!(!is_prometheus_service("grafana", None));
    let services = vec![
        ServiceMeta { name: Some("grafana".into()), labels: None },
        ServiceMeta { name: Some("metrics".into()), labels: Some(labels.clone()) },
        ServiceMeta { name: Some("prometheus".into()), labels: None },
    ];
    assert_eq!(detect_prometheus(&services), Some("metrics".to_string()));
    assert_eq!(detect_prometheus(&services[..1]), None);
}

#[test]
fn reply_status_decides_parse_and_query_errors() {
    assert_eq!(check_status(Some("success"), None, None), Ok(()));
    assert_eq!(check_status(None, None, None), Err(PromError::Parse("missing `status` field".into())));
    assert_eq!(
        check_status(Some("error"), Some("bad_data: parse error"), Some("bad_data")),
        Err(PromError::Query("bad_data: parse error".into()))
    );
    assert_eq!(check_status(Some("error"), None, Some("timeout")), Err(PromError::Query("timeout".into())));
    assert_eq!(check_status(Some("error"), None, None), Err(PromError::Query("unknown".into())));
    assert_eq!(
        check_status(Some("pending"), None, None),
        Err(PromError::Parse("unknown status `pending`".into()))
    );
}
