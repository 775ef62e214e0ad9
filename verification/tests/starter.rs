use openkite::starter::{starter_for_kind, JsonDoc};

fn text_at<'a>(doc: &'a JsonDoc, path: &[&str]) -> Option<&'a str> {
    let mut at = doc;
    for key in path {
        at = at.get(key)?;
    }
    at.as_str()
}

#[test]
fn starter_for_kind_emits_typed_seeds() {
    let pod = starter_for_kind("Pod");
    assert_eq!(pod.get("apiVersion").and_then(JsonDoc::as_str), Some("v1"));
    assert_eq!(pod.get("kind").and_then(JsonDoc::as_str), Some("Pod"));
    assert_eq!(text_at(&pod, &["metadata", "namespace"]), Some("default"));
    let deploy = starter_for_kind("Deployment");
    assert_eq!(deploy.get("apiVersion").and_then(JsonDoc::as_str), Some("apps/v1"));
    assert_eq!(deploy.get("kind").and_then(JsonDoc::as_str), Some("Deployment"));
    let unknown = starter_for_kind("Other");
    assert_eq!(unknown.get("kind").and_then(JsonDoc::as_str), Some("Other"));
}

#[test]
fn batch_starters_carry_their_schedule_and_restart_policy() {
    let cron = starter_for_kind("CronJob");
    assert_eq!(cron.get("apiVersion").and_then(JsonDoc::as_str), Some("batch/v1"));
    assert_eq!(text_at(&cron, &["spec", "schedule"]), Some("*/5 * * * *"));
    assert_eq!(
        text_at(&cron, &["spec", "jobTemplate", "spec", "template", "spec", "restartPolicy"]),
        Some("OnFailure")
    );
    let job = starter_for_kind("Job");
    assert_eq!(text_at(&job, &["spec", "template", "spec", "restartPolicy"]), Some("Never"));
    let sts = starter_for_kind("StatefulSet");
    assert_eq!(text_at(&sts, &["spec", "serviceName"]), Some(""));
    assert!(matches!(sts.get("spec").and_then(|s| s.get("replicas")), Some(JsonDoc::Int(1))));
    assert!(starter_for_kind("DaemonSet").get("spec").and_then(|s| s.get("replicas")).is_none());
    assert!(starter_for_kind("ConfigMap").get("spec").is_none());
    assert_eq!(text_at(&starter_for_kind("ConfigMap"), &["metadata", "name"]), Some(""));
}
