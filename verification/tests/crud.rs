use openkite::crud::{
    apply_mutation, parse_replicas, scale_request, target_summary, typed_name_matches, validate_for_edit, validate_manifest, ManifestFields,
    MetadataFields, Mutation, PropagationPolicy,
};
use openkite::editor::{apply_request, can_apply, validation_error, code_editor_path, diagnostics_rows, format_resource_triple, EditorMode};
use openkite::yaml::Diagnostic;

fn pod_doc() -> ManifestFields {
    ManifestFields {
        api_version: Some("v1".into()),
        kind: Some("Pod".into()),
        metadata: Some(MetadataFields {
            name: Some("nginx-7c5d".into()),
            namespace: Some("default".into()),
            resource_version: None,
        }),
    }
}

fn deployment(rv: Option<&str>) -> ManifestFields {
    ManifestFields {
        api_version: Some("apps/v1".into()),
        kind: Some("Deployment".into()),
        metadata: Some(MetadataFields { name: Some("web".into()), namespace: None, resource_version: rv.map(String::from) }),
    }
}

#[test]
fn target_summary_for_create_extracts_triple() {
    let m = Mutation::Create(pod_doc());
    let r = target_summary(&m);
    assert_eq!(r.kind, "Pod");
    assert_eq!(r.name, "nginx-7c5d");
    assert_eq!(r.namespace.as_deref(), Some("default"));
}

#[test]
fn target_summary_for_delete_uses_explicit_fields() {
    let m = Mutation::Delete {
        kind: "Pod".into(),
        namespace: Some("default".into()),
        name: "nginx-7c5d".into(),
        propagation: PropagationPolicy::Default,
    };
    let r = target_summary(&m);
    assert_eq!(r.kind, "Pod");
    assert_eq!(r.name, "nginx-7c5d");
    assert_eq!(r.namespace.as_deref(), Some("default"));
    assert_eq!(r.api_version, "");
}

#[test]
fn validate_for_edit_accepts_doc_with_resource_version() {
    assert!(validate_for_edit(&deployment(Some("12345"))).is_ok());
}

#[test]
fn validate_for_edit_rejects_missing_resource_version() {
    assert_eq!(
        validate_for_edit(&deployment(None)).unwrap_err(),
        "missing metadata.resourceVersion (edit requires the live RV)"
    );
}

#[test]
fn validate_for_edit_rejects_empty_resource_version() {
    assert_eq!(validate_for_edit(&deployment(Some(""))).unwrap_err(), "metadata.resourceVersion must not be empty");
}

#[test]
fn typed_name_matches_is_case_sensitive_and_exact() {
    assert!(typed_name_matches("nginx-7c5d", "nginx-7c5d"));
    assert!(!typed_name_matches("nginx", "nginx-7c5d"));
    assert!(!typed_name_matches("Nginx-7c5d", "nginx-7c5d"));
    assert!(!typed_name_matches("nginx-7c5d ", "nginx-7c5d"));
    assert!(!typed_name_matches("", "nginx-7c5d"));
}

#[test]
fn validate_manifest_reports_the_first_missing_field() {
    let mut doc = pod_doc();
    let r = validate_manifest(&doc).unwrap();
    assert_eq!((r.api_version.as_str(), r.kind.as_str(), r.name.as_str()), ("v1", "Pod", "nginx-7c5d"));
    doc.metadata.as_mut().unwrap().name = None;
    assert_eq!(validate_manifest(&doc).unwrap_err(), "missing metadata.name");
    doc.metadata = None;
    assert_eq!(validate_manifest(&doc).unwrap_err(), "missing metadata");
    doc.kind = None;
    assert_eq!(validate_manifest(&doc).unwrap_err(), "missing kind");
    doc.api_version = None;
    assert_eq!(validate_manifest(&doc).unwrap_err(), "missing apiVersion");
}

#[test]
fn apply_mutation_answers_with_the_pending_error_and_verb() {
    let scale = Mutation::Scale { kind: "Deployment".into(), namespace: None, name: "web".into(), replicas: 3 };
    assert_eq!(apply_mutation(&scale).unwrap_err(), "scale: cluster mutation lands in Phase 1");
    let create = Mutation::Create(pod_doc());
    let err = apply_mutation(&create).unwrap_err();
    assert!(err.starts_with(create.verb()) && err.contains("Phase 1"));
    assert_eq!(Mutation::Edit(pod_doc()).verb(), "edit");
}

#[test]
fn propagation_policy_defaults_and_labels() {
    assert_eq!(PropagationPolicy::default(), PropagationPolicy::Default);
    assert_eq!(PropagationPolicy::Default.label(), "Default (foreground)");
}

#[test]
fn format_resource_triple_includes_namespace_when_present() {
    assert_eq!(format_resource_triple("Pod", Some("default"), "nginx"), "Pod · default/nginx");
    assert_eq!(format_resource_triple("Node", None, "node-1"), "Node · node-1");
}

#[test]
fn editor_modes_have_distinct_labels() {
    assert_eq!(EditorMode::New.label(), "New resource");
    assert_eq!(EditorMode::Edit.label(), "Edit resource");
}

#[test]
fn code_editor_path_returns_stable_id() {
    assert_eq!(code_editor_path(), "cm-bundle-v1");
}

#[test]
fn diagnostics_rows_keep_order() {
    let rows = diagnostics_rows(&[
        Diagnostic { line: 3, column: 1, message: "bad".into() },
        Diagnostic { line: 7, column: 2, message: "worse".into() },
    ]);
    assert_eq!(rows, vec![(3, 1, "bad".to_string()), (7, 2, "worse".to_string())]);
}

#[test]
fn apply_mutation_returns_phase1_placeholder_error_today() {
    let doc = pod_doc();
    for m in [
        Mutation::Create(doc.clone()),
        Mutation::Edit(doc.clone()),
        Mutation::Delete {
            kind: "Pod".into(),
            namespace: Some("default".into()),
            name: "nginx-7c5d".into(),
            propagation: PropagationPolicy::Default,
        },
        Mutation::Scale { kind: "Deployment".into(), namespace: Some("default".into()), name: "web".into(), replicas: 3 },
    ] {
        let err = apply_mutation(&m).unwrap_err();
        let expected_verb = m.verb();
        assert!(err.starts_with(expected_verb) && err.contains("Phase 1"), "expected `{expected_verb}…Phase 1`, got {err:?}");
    }
}

#[test]
fn replica_input_reads_trimmed_unsigned_counts() {
    assert_eq!(parse_replicas("3"), Some(3));
    assert_eq!(parse_replicas("  7 \n"), Some(7));
    assert_eq!(parse_replicas("+2"), Some(2));
    assert_eq!(parse_replicas("0"), Some(0));
    assert_eq!(parse_replicas("4294967295"), Some(u32::MAX));
    assert_eq!(parse_replicas("4294967296"), None);
    assert_eq!(parse_replicas(""), None);
    assert_eq!(parse_replicas("+"), None);
    assert_eq!(parse_replicas("-1"), None);
    assert_eq!(parse_replicas("3x"), None);
    assert_eq!(parse_replicas("1 2"), None);
}

#[test]
fn scale_request_needs_a_count_and_no_pending_request() {
    let m = scale_request("Deployment".into(), Some("web".into()), "api".into(), " 5 ", false);
    assert_eq!(
        m,
        Some(Mutation::Scale {
            kind: "Deployment".into(),
            namespace: Some("web".into()),
            name: "api".into(),
            replicas: 5,
        })
    );
    assert_eq!(scale_request("Deployment".into(), None, "api".into(), "5", true), None);
    assert_eq!(scale_request("Deployment".into(), None, "api".into(), "five", false), None);
}

#[test]
fn editor_gate_checks_by_mode() {
    assert_eq!(validation_error(EditorMode::New, &pod_doc()), None);
    assert_eq!(
        validation_error(EditorMode::Edit, &pod_doc()).as_deref(),
        Some("missing metadata.resourceVersion (edit requires the live RV)")
    );
    let mut no_kind = pod_doc();
    no_kind.kind = None;
    assert_eq!(validation_error(EditorMode::New, &no_kind).as_deref(), Some("missing kind"));

    assert!(can_apply(EditorMode::New, &Ok(pod_doc()), false));
    assert!(!can_apply(EditorMode::New, &Ok(pod_doc()), true));
    assert!(!can_apply(EditorMode::Edit, &Ok(pod_doc()), false));
    assert!(can_apply(EditorMode::Edit, &Ok(deployment(Some("42"))), false));
    let bad = Diagnostic { line: 1, column: 2, message: "oops".into() };
    assert!(!can_apply(EditorMode::New, &Err(bad), false));
}

#[test]
fn apply_dispatches_create_or_edit_by_mode() {
    assert_eq!(apply_request(EditorMode::New, pod_doc()), Mutation::Create(pod_doc()));
    assert_eq!(apply_request(EditorMode::Edit, deployment(Some("7"))), Mutation::Edit(deployment(Some("7"))));
}
