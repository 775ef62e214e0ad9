use openkite::status_badge::StatusKind;
use openkite::workloads::{
    cron_job_status, deployment_columns, format_controller, humanize_duration, job_status, object_id, pod_columns,
    pod_phase_status, pod_ready, pod_restarts, ready_text, replicas_status, suspend_text, WorkloadKind,
    ALL_WORKLOAD_KINDS,
};

#[test]
fn workload_kinds_name_their_api() {
    assert_eq!(ALL_WORKLOAD_KINDS.len(), 7);
    assert_eq!(WorkloadKind::Pods.label(), "Pods");
    assert_eq!(WorkloadKind::CronJobs.kind_str(), "CronJob");
    assert_eq!(WorkloadKind::Pods.api_version(), "v1");
    assert_eq!(WorkloadKind::Jobs.api_version(), "batch/v1");
    assert_eq!(WorkloadKind::StatefulSets.api_version(), "apps/v1");
}

#[test]
fn replica_status_rules() {
    assert_eq!(replicas_status(0, 0), ("Pending".to_string(), StatusKind::Pending));
    assert_eq!(replicas_status(3, 3), ("Ready".to_string(), StatusKind::Ready));
    assert_eq!(replicas_status(0, 3), ("Pending".to_string(), StatusKind::Pending));
    assert_eq!(replicas_status(1, 3), ("Degraded".to_string(), StatusKind::Degraded));
    assert_eq!(replicas_status(2, 0), ("Pending".to_string(), StatusKind::Pending));
}

#[test]
fn durations_use_the_largest_whole_unit() {
    assert_eq!(humanize_duration(5), "5s");
    assert_eq!(humanize_duration(59), "59s");
    assert_eq!(humanize_duration(60), "1m");
    assert_eq!(humanize_duration(725), "12m");
    assert_eq!(humanize_duration(3 * 3600 + 5), "3h");
    assert_eq!(humanize_duration(2 * 86400), "2d");
    assert_eq!(humanize_duration(-30), "-30s");
    assert_eq!(humanize_duration(-90), "-1m");
    assert_eq!(humanize_duration(i64::MIN), format!("{}d", i64::MIN / 86400));
}

#[test]
fn ids_ratios_and_controllers() {
    assert_eq!(object_id(Some("default"), "web"), "default/web");
    assert_eq!(object_id(None, "node-1"), "node-1");
    assert_eq!(ready_text(2, 3), "2/3");
    assert_eq!(ready_text(-1, 0), "-1/0");
    assert_eq!(format_controller(&[("ReplicaSet".into(), "web-1".into())]), "ReplicaSet/web-1");
    assert_eq!(format_controller(&[]), "-");
}

#[test]
fn pod_status_counts_and_restarts() {
    assert_eq!(pod_phase_status(Some("Running")), ("Running".to_string(), StatusKind::Running));
    assert_eq!(pod_phase_status(Some("Weird")), ("Weird".to_string(), StatusKind::Unknown));
    assert_eq!(pod_phase_status(None), ("Unknown".to_string(), StatusKind::Unknown));
    assert_eq!(pod_ready(Some(&vec![true, false, true])), (2, 3));
    assert_eq!(pod_ready(None), (0, 0));
    assert_eq!(pod_restarts(Some(&vec![1, 2, 3])), 6);
    assert_eq!(pod_restarts(None), 0);
}

#[test]
fn job_and_cron_job_status() {
    assert_eq!(job_status(1, 1, 1), ("Failed".to_string(), StatusKind::Failed));
    assert_eq!(job_status(1, 0, 1), ("Succeeded".to_string(), StatusKind::Succeeded));
    assert_eq!(job_status(0, 0, 1), ("Running".to_string(), StatusKind::Running));
    assert_eq!(job_status(0, 0, 0), ("Pending".to_string(), StatusKind::Pending));
    assert_eq!(cron_job_status(true), ("Suspended".to_string(), StatusKind::Suspended));
    assert_eq!(cron_job_status(false), ("Active".to_string(), StatusKind::Running));
    assert_eq!(suspend_text(true), "Yes");
}

#[test]
fn column_layouts_frame_the_kind_columns() {
    let pods = pod_columns();
    let keys: Vec<&str> = pods.iter().map(|c| c.key).collect();
    assert_eq!(keys, ["name", "health", "ready", "restarts", "controller", "node", "qos", "age", "status"]);
    assert_eq!(pods[0].width, None);
    assert_eq!(pods[8].width, Some(110));
    let deployments = deployment_columns();
    assert_eq!(deployments.len(), 7);
    assert_eq!(deployments[2].label, "Up-to-date");
}
