use openkite::network::{
    config_map_entries, ingress_rules, int_or_string, secret_keys, service_ports, service_summary, IngressPathFields,
    IngressRuleFields, IntOrString, ServicePortFields, ServiceSpecFields,
};
use openkite::secret_detail::{RevealState, bulk_reveal_predicate, decoded_value_for_key, row_id_for_secret, secret_kind_label, SecretFields};

#[test]
fn service_rows_and_summary() {
    let spec = Some(ServiceSpecFields {
        type_: None,
        cluster_ip: Some("10.0.0.1".into()),
        external_name: None,
        selector: Some(vec![("app".into(), "web".into())]),
        ports: Some(vec![
            ServicePortFields { name: None, port: 80, target_port: Some(IntOrString::Int(8080)), protocol: None, node_port: None },
            ServicePortFields {
                name: Some("metrics".into()),
                port: 9090,
                target_port: Some(IntOrString::String("http".into())),
                protocol: Some("UDP".into()),
                node_port: Some(30000),
            },
        ]),
    });
    let ports = service_ports(&spec);
    assert_eq!(ports.len(), 2);
    assert_eq!((ports[0].name.as_str(), ports[0].target_port.as_str(), ports[0].protocol.as_str()), ("", "8080", "TCP"));
    assert_eq!(ports[1].target_port, "http");
    assert_eq!(ports[1].node_port, Some(30000));
    let summary = service_summary(&spec);
    assert_eq!(summary.type_, "ClusterIP");
    assert_eq!(summary.cluster_ip, "10.0.0.1");
    assert_eq!(summary.selector, vec![("app".to_string(), "web".to_string())]);
    assert_eq!(service_summary(&None).type_, "ClusterIP");
    assert!(service_ports(&None).is_empty());
    assert_eq!(int_or_string(&IntOrString::Int(-3)), "-3");
}

#[test]
fn ingress_rules_flatten_paths() {
    let rules = Some(vec![
        IngressRuleFields {
            host: Some("a.example".into()),
            http_paths: Some(vec![
                IngressPathFields { path: Some("/".into()), path_type: "Prefix".into(), backend_service: Some("web".into()) },
                IngressPathFields { path: None, path_type: "Exact".into(), backend_service: None },
            ]),
        },
        IngressRuleFields { host: None, http_paths: None },
    ]);
    let rows = ingress_rules(&rules);
    assert_eq!(rows.len(), 2);
    assert_eq!(rows[0].host, "a.example");
    assert_eq!(rows[0].backend, "web");
    assert_eq!(rows[1].path, "");
    assert!(ingress_rules(&None).is_empty());
}

#[test]
fn config_map_and_secret_keys() {
    let data = Some(vec![("a".to_string(), "1".to_string())]);
    assert_eq!(config_map_entries(&data), vec![("a".to_string(), "1".to_string())]);
    let keys = secret_keys(&Some(vec!["a".into(), "c".into()]), &Some(vec!["b".into(), "c".into(), "d".into()]));
    assert_eq!(keys, vec!["a", "b", "c", "d"]);
    assert!(secret_keys(&None, &None).is_empty());
}

#[test]
fn secret_values_rows_and_labels() {
    let secret = SecretFields {
        namespace: Some("default".into()),
        name: Some("db".into()),
        data: Some(vec![("password".into(), b"hunter2".to_vec()), ("raw".into(), vec![0xff])]),
        string_data: Some(vec![("password".into(), "ignored".into()), ("user".into(), "admin".into())]),
    };
    assert_eq!(decoded_value_for_key(&secret, "password"), "hunter2");
    assert_eq!(decoded_value_for_key(&secret, "user"), "admin");
    assert_eq!(decoded_value_for_key(&secret, "raw"), "\u{fffd}");
    assert_eq!(decoded_value_for_key(&secret, "none"), "");
    assert_eq!(row_id_for_secret(&secret), "default/db");
    assert!(bulk_reveal_predicate("  db ", "db"));
    assert!(!bulk_reveal_predicate("DB", "db"));
    assert_eq!(secret_kind_label(None), "Opaque");
    assert_eq!(secret_kind_label(Some("")), "Opaque");
    assert_eq!(secret_kind_label(Some("kubernetes.io/tls")), "TLS");
    assert_eq!(secret_kind_label(Some("example.com/custom")), "example.com/custom");
}

#[test]
fn secret_values_start_masked_and_reveal_one_by_one() {
    let keys = vec!["password".to_string(), "username".to_string()];
    let mut state = RevealState::new(&keys);
    assert!(!state.is_revealed("password"));
    assert!(!state.is_revealed("username"));
    state.reveal_key("password");
    assert!(state.is_revealed("password"));
    assert!(!state.is_revealed("username"));
    state.mask_key("password");
    assert!(!state.is_revealed("password"));
    assert!(!state.is_revealed("missing"));
}

#[test]
fn reveal_all_needs_the_typed_name() {
    let keys = vec!["a".to_string(), "b".to_string()];
    let mut state = RevealState::new(&keys);
    assert!(!state.reveal_all("db-cred", "db-creds"));
    assert!(!state.is_revealed("a"));
    assert!(state.reveal_all("  db-creds ", "db-creds"));
    assert!(state.is_revealed("a") && state.is_revealed("b"));
}
