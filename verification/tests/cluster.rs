use openkite::cluster::ClusterState;

fn unreachable_client() -> kube::Client {
    let url: http::Uri = "http://127.0.0.1:1".parse().unwrap();
    kube::Client::try_from(kube::Config::new(url)).unwrap()
}

#[test]
fn state_from_contexts_starts_on_the_current_context_without_clients() {
    let mut state = ClusterState::from_contexts(vec!["dev".into(), "prod".into()], Some("prod".into()));
    assert_eq!(state.contexts(), &["dev".to_string(), "prod".to_string()]);
    assert_eq!(state.active(), Some("prod"));
    assert!(state.client().is_none());
    assert!(!state.is_cached("prod"));
    assert!(!state.reuse("prod"));
    assert_eq!(state.active(), Some("prod"));
    state.disconnect();
    assert_eq!(state.active(), None);
    let empty = ClusterState::default();
    assert!(empty.contexts().is_empty());
    assert_eq!(empty.active(), None);
}

#[test]
fn connect_reuses_cached_client() {
    let rt = tokio::runtime::Runtime::new().unwrap();
    let _guard = rt.enter();
    let mut state = ClusterState::from_contexts(vec!["test-context".into()], None);
    state.remember("test-context", unreachable_client());
    assert_eq!(state.active(), Some("test-context"));
    state.disconnect();
    assert!(state.client().is_none());
    assert!(state.reuse("test-context"), "cached client must be reused, not rebuilt");
    assert_eq!(state.active(), Some("test-context"));
    assert!(state.client().is_some());
    state.invalidate("test-context");
    assert!(!state.is_cached("test-context"));
    assert!(!state.reuse("test-context"));
}

#[test]
fn parses_contexts_and_current_context() {
    let yaml = r#"apiVersion: v1
kind: Config
clusters:
- name: test-cluster
  cluster:
    server: http://127.0.0.1:1
contexts:
- name: test-context
  context:
    cluster: test-cluster
    user: test-user
current-context: test-context
users:
- name: test-user
  user: {}
"#;
    let kubeconfig = kube::config::Kubeconfig::from_yaml(yaml).unwrap();
    let contexts = kubeconfig.contexts.iter().map(|c| c.name.clone()).collect();
    let state = ClusterState::from_contexts(contexts, kubeconfig.current_context);
    assert_eq!(state.contexts(), &["test-context".to_string()]);
    assert_eq!(state.active(), Some("test-context"));
}
