use openkite::editor::compute_diagnostics;
use openkite::crud::{parse_manifest, ManifestFields, MetadataFields, Mutation};
use openkite::editor::{apply_from_text, EditorMode};
use openkite::theme::JsonTree;
use openkite::yaml::parse_yaml;

#[test]
fn compute_diagnostics_returns_empty_for_valid_yaml() {
    let text = "apiVersion: v1\nkind: Pod\n";
    assert!(compute_diagnostics(text).is_empty());
}

#[test]
fn compute_diagnostics_returns_one_for_bad_yaml() {
    let text = "apiVersion: v1\nitems: [1, 2, 3\n";
    let diags = compute_diagnostics(text);
    assert_eq!(diags.len(), 1);
    assert!(!diags[0].message.is_empty());
    assert!(diags[0].line >= 1, "line should be reported, got {}", diags[0].line);
}

#[test]
fn compute_diagnostics_returns_empty_for_empty_text() {
    assert!(compute_diagnostics("").is_empty());
}

#[test]
fn parse_yaml_reads_a_manifest() {
    match parse_yaml("apiVersion: v1\nkind: Pod\n").unwrap() {
        JsonTree::Object(entries) => {
            let kind = entries.iter().find(|(k, _)| k == "kind").expect("kind entry");
            assert!(matches!(&kind.1, JsonTree::Str(s) if s == "Pod"));
        }
        other => panic!("expected an object, got {other:?}"),
    }
}

#[test]
fn parse_manifest_reads_the_validated_fields() {
    let text = "apiVersion: apps/v1\nkind: Deployment\nmetadata:\n  name: web\n  namespace: prod\n  resourceVersion: \"42\"\n";
    assert_eq!(
        parse_manifest(text).unwrap(),
        ManifestFields {
            api_version: Some("apps/v1".into()),
            kind: Some("Deployment".into()),
            metadata: Some(MetadataFields {
                name: Some("web".into()),
                namespace: Some("prod".into()),
                resource_version: Some("42".into()),
            }),
        }
    );
    let odd = parse_manifest("apiVersion: v1\nkind: 5\nmetadata: 3\n").unwrap();
    assert_eq!(odd.kind, None);
    assert_eq!(odd.metadata, Some(MetadataFields { name: None, namespace: None, resource_version: None }));
    assert_eq!(parse_manifest("kind: Pod\n").unwrap().metadata, None);
    assert!(parse_manifest("items: [1, 2\n").is_err());
}

#[test]
fn apply_from_text_builds_the_mutation_by_mode() {
    let text = "apiVersion: v1\nkind: Pod\nmetadata:\n  name: p\n";
    match apply_from_text(EditorMode::New, text).unwrap() {
        Mutation::Create(f) => assert_eq!(f.kind.as_deref(), Some("Pod")),
        other => panic!("unexpected {other:?}"),
    }
    match apply_from_text(EditorMode::Edit, text).unwrap() {
        Mutation::Edit(f) => assert_eq!(f.metadata.unwrap().name.as_deref(), Some("p")),
        other => panic!("unexpected {other:?}"),
    }
    assert!(apply_from_text(EditorMode::New, "a: [").is_err());
}
