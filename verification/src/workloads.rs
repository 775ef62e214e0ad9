//! Workload views: the seven workload kinds, the column layouts of their
//! tables, and the status and text each row shows. Reading the objects from
//! the cluster and building the numeric sort keys is the host's job.

use vstd::prelude::*;

use crate::status_badge::{status_label, StatusKind};
use crate::text::{decimal_digits, signed_decimal, signed_digits, text_eq, text_of};

verus! {

/// The seven workload kinds the Workloads view lists.
#[derive(Debug, Clone, Copy, PartialEq, Eq, Structural)]
pub enum WorkloadKind {
    Pods,
    Deployments,
    StatefulSets,
    DaemonSets,
    ReplicaSets,
    Jobs,
    CronJobs,
}

/// Every kind, in tab order.
pub const ALL_WORKLOAD_KINDS: [WorkloadKind; 7] = [
        WorkloadKind::Pods,
        WorkloadKind::Deployments,
        WorkloadKind::StatefulSets,
        WorkloadKind::DaemonSets,
        WorkloadKind::ReplicaSets,
        WorkloadKind::Jobs,
        WorkloadKind::CronJobs,
];

/// The tab label of a kind.
pub open spec fn kind_label(k: WorkloadKind) -> Seq<char> {
    match k {
        WorkloadKind::Pods => "Pods"@,
        WorkloadKind::Deployments => "Deployments"@,
        WorkloadKind::StatefulSets => "StatefulSets"@,
        WorkloadKind::DaemonSets => "DaemonSets"@,
        WorkloadKind::ReplicaSets => "ReplicaSets"@,
        WorkloadKind::Jobs => "Jobs"@,
        WorkloadKind::CronJobs => "CronJobs"@,
    }
}

/// The singular API kind of a workload kind.
pub open spec fn api_kind(k: WorkloadKind) -> Seq<char> {
    match k {
        WorkloadKind::Pods => "Pod"@,
        WorkloadKind::Deployments => "Deployment"@,
        WorkloadKind::StatefulSets => "StatefulSet"@,
        WorkloadKind::DaemonSets => "DaemonSet"@,
        WorkloadKind::ReplicaSets => "ReplicaSet"@,
        WorkloadKind::Jobs => "Job"@,
        WorkloadKind::CronJobs => "CronJob"@,
    }
}

/// The `apiVersion` of a workload kind.
pub open spec fn api_version_of(k: WorkloadKind) -> Seq<char> {
    match k {
        WorkloadKind::Pods => "v1"@,
        WorkloadKind::Jobs | WorkloadKind::CronJobs => "batch/v1"@,
        _ => "apps/v1"@,
    }
}

impl WorkloadKind {
    /// Human-readable tab label.
    pub fn label(self) -> (r: &'static str)
        ensures
            r@ == kind_label(self),
    {
        match self {
            WorkloadKind::Pods => "Pods",
            WorkloadKind::Deployments => "Deployments",
            WorkloadKind::StatefulSets => "StatefulSets",
            WorkloadKind::DaemonSets => "DaemonSets",
            WorkloadKind::ReplicaSets => "ReplicaSets",
            WorkloadKind::Jobs => "Jobs",
            WorkloadKind::CronJobs => "CronJobs",
        }
    }

    /// Singular API kind string (matches the `kind` field of a manifest).
    /// Used by the CRUD modal for the starter/Edit doc.
    pub fn kind_str(self) -> (r: &'static str)
        ensures
            r@ == api_kind(self),
    {
        match self {
            WorkloadKind::Pods => "Pod",
            WorkloadKind::Deployments => "Deployment",
            WorkloadKind::StatefulSets => "StatefulSet",
            WorkloadKind::DaemonSets => "DaemonSet",
            WorkloadKind::ReplicaSets => "ReplicaSet",
            WorkloadKind::Jobs => "Job",
            WorkloadKind::CronJobs => "CronJob",
        }
    }

    /// `apiVersion` prefix for the CRUD modal's starter/Edit doc.
    pub fn api_version(self) -> (r: &'static str)
        ensures
            r@ == api_version_of(self),
    {
        match self {
            WorkloadKind::Pods => "v1",
            WorkloadKind::Jobs | WorkloadKind::CronJobs => "batch/v1",
            _ => "apps/v1",
        }
    }
}

/// A column definition (cells are pre-built; no per-cell render closure).
#[derive(Debug, Clone, Copy, PartialEq, Eq)]
pub struct ColumnDef {
    pub key: &'static str,
    pub label: &'static str,
    pub width: Option<u32>,
    pub sortable: bool,
}

/// A column by its key, label, width and sortability.
pub type ColumnView = (Seq<char>, Seq<char>, Option<u32>, bool);

/// A column's view.
pub open spec fn column_view(key: Seq<char>, label: Seq<char>, width: Option<u32>, sortable: bool) -> ColumnView {
    (key, label, width, sortable)
}

/// The views of a list of columns.
pub open spec fn columns_view(s: Seq<ColumnDef>) -> Seq<ColumnView> {
    s.map_values(|c: ColumnDef| (c.key@, c.label@, c.width, c.sortable))
}

/// The shared skeleton around a kind's own columns: Name leading, then the
/// kind's columns, then Age and Status — the order `kubectl get` uses.
pub open spec fn framed(middle: Seq<ColumnView>) -> Seq<ColumnView> {
    seq![column_view("name"@, "Name"@, None, true)] + middle + seq![
        column_view("age"@, "Age"@, Some(80u32), true),
        column_view("status"@, "Status"@, Some(110u32), true),
    ]
}

/// Column skeleton shared by every kind: Name leading, the kind-specific
/// middle columns, Age second-to-last, Status last.
pub fn kind_columns(middle: &[ColumnDef]) -> (r: Vec<ColumnDef>)
    ensures
        columns_view(r@) == framed(columns_view(middle@)),
{
    let mut columns: Vec<ColumnDef> = Vec::new();
    columns.push(ColumnDef { key: "name", label: "Name", width: None, sortable: true });
    let mut i: usize = 0;
    while i < middle.len()
        invariant
            i <= middle@.len(),
            columns_view(columns@) == seq![column_view("name"@, "Name"@, None, true)]
                + columns_view(middle@).subrange(0, i as int),
        decreases middle@.len() - i,
    {
        let ghost before = columns@;
        columns.push(middle[i]);
        assert(columns_view(columns@) =~= columns_view(before).push(columns_view(middle@)[i as int]));
        i = i + 1;
        assert(columns_view(columns@) =~= seq![column_view("name"@, "Name"@, None, true)]
            + columns_view(middle@).subrange(0, i as int));
    }
    columns.push(ColumnDef { key: "age", label: "Age", width: Some(80), sortable: true });
    columns.push(ColumnDef { key: "status", label: "Status", width: Some(110), sortable: true });
    assert(columns_view(middle@).subrange(0, i as int) =~= columns_view(middle@));
    assert(columns_view(columns@) =~= framed(columns_view(middle@)));
    columns
}

/// The middle columns of the pod view.
pub open spec fn pod_middle() -> Seq<ColumnView> {
    seq![column_view("health"@, "Health"@, Some(70u32), true), column_view("ready"@, "Ready"@, Some(80u32), true), column_view("restarts"@, "Restarts"@, Some(90u32), true), column_view("controller"@, "Controller"@, Some(220u32), true), column_view("node"@, "Node"@, Some(140u32), true), column_view("qos"@, "QoS"@, Some(110u32), true)]
}

/// Pod columns: name, health, ready, restarts, controller, node, QoS, age, status.
pub fn pod_columns() -> (r: Vec<ColumnDef>)
    ensures
        columns_view(r@) == framed(pod_middle()),
{
    let middle = [
        ColumnDef { key: "health", label: "Health", width: Some(70), sortable: true },
        ColumnDef { key: "ready", label: "Ready", width: Some(80), sortable: true },
        ColumnDef { key: "restarts", label: "Restarts", width: Some(90), sortable: true },
        ColumnDef { key: "controller", label: "Controller", width: Some(220), sortable: true },
        ColumnDef { key: "node", label: "Node", width: Some(140), sortable: true },
        ColumnDef { key: "qos", label: "QoS", width: Some(110), sortable: true },
    ];
    assert(columns_view(middle@) =~= pod_middle());
    kind_columns(&middle)
}

/// The middle columns of the deployment view.
pub open spec fn deployment_middle() -> Seq<ColumnView> {
    seq![column_view("ready"@, "Ready"@, Some(90u32), true), column_view("updated"@, "Up-to-date"@, Some(100u32), true), column_view("available"@, "Available"@, Some(100u32), true), column_view("controller"@, "Controller"@, Some(220u32), true)]
}

/// Deployment columns: name, ready, up-to-date, available, controller, age, status.
pub fn deployment_columns() -> (r: Vec<ColumnDef>)
    ensures
        columns_view(r@) == framed(deployment_middle()),
{
    let middle = [
        ColumnDef { key: "ready", label: "Ready", width: Some(90), sortable: true },
        ColumnDef { key: "updated", label: "Up-to-date", width: Some(100), sortable: true },
        ColumnDef { key: "available", label: "Available", width: Some(100), sortable: true },
        ColumnDef { key: "controller", label: "Controller", width: Some(220), sortable: true },
    ];
    assert(columns_view(middle@) =~= deployment_middle());
    kind_columns(&middle)
}

/// The middle columns of the stateful set view.
pub open spec fn stateful_set_middle() -> Seq<ColumnView> {
    seq![column_view("ready"@, "Ready"@, Some(90u32), true), column_view("updated"@, "Up-to-date"@, Some(100u32), true)]
}

/// StatefulSet columns: name, ready, up-to-date, age, status.
pub fn stateful_set_columns() -> (r: Vec<ColumnDef>)
    ensures
        columns_view(r@) == framed(stateful_set_middle()),
{
    let middle = [
        ColumnDef { key: "ready", label: "Ready", width: Some(90), sortable: true },
        ColumnDef { key: "updated", label: "Up-to-date", width: Some(100), sortable: true },
    ];
    assert(columns_view(middle@) =~= stateful_set_middle());
    kind_columns(&middle)
}

/// The middle columns of the daemon set view.
pub open spec fn daemon_set_middle() -> Seq<ColumnView> {
    seq![column_view("ready"@, "Ready"@, Some(90u32), true), column_view("desired"@, "Desired"@, Some(90u32), true), column_view("current"@, "Current"@, Some(90u32), true), column_view("available"@, "Available"@, Some(100u32), true)]
}

/// DaemonSet columns: name, ready, desired, current, available, age, status.
pub fn daemon_set_columns() -> (r: Vec<ColumnDef>)
    ensures
        columns_view(r@) == framed(daemon_set_middle()),
{
    let middle = [
        ColumnDef { key: "ready", label: "Ready", width: Some(90), sortable: true },
        ColumnDef { key: "desired", label: "Desired", width: Some(90), sortable: true },
        ColumnDef { key: "current", label: "Current", width: Some(90), sortable: true },
        ColumnDef { key: "available", label: "Available", width: Some(100), sortable: true },
    ];
    assert(columns_view(middle@) =~= daemon_set_middle());
    kind_columns(&middle)
}

/// The middle columns of the replica set view.
pub open spec fn replica_set_middle() -> Seq<ColumnView> {
    seq![column_view("ready"@, "Ready"@, Some(90u32), true), column_view("desired"@, "Desired"@, Some(90u32), true)]
}

/// ReplicaSet columns: name, ready, desired, age, status.
pub fn replica_set_columns() -> (r: Vec<ColumnDef>)
    ensures
        columns_view(r@) == framed(replica_set_middle()),
{
    let middle = [
        ColumnDef { key: "ready", label: "Ready", width: Some(90), sortable: true },
        ColumnDef { key: "desired", label: "Desired", width: Some(90), sortable: true },
    ];
    assert(columns_view(middle@) =~= replica_set_middle());
    kind_columns(&middle)
}

/// The middle columns of the job view.
pub open spec fn job_middle() -> Seq<ColumnView> {
    seq![column_view("completions"@, "Completions"@, Some(110u32), true), column_view("duration"@, "Duration"@, Some(100u32), true)]
}

/// Job columns: name, completions, duration, age, status.
pub fn job_columns() -> (r: Vec<ColumnDef>)
    ensures
        columns_view(r@) == framed(job_middle()),
{
    let middle = [
        ColumnDef { key: "completions", label: "Completions", width: Some(110), sortable: true },
        ColumnDef { key: "duration", label: "Duration", width: Some(100), sortable: true },
    ];
    assert(columns_view(middle@) =~= job_middle());
    kind_columns(&middle)
}

/// The middle columns of the cron job view.
pub open spec fn cron_job_middle() -> Seq<ColumnView> {
    seq![column_view("schedule"@, "Schedule"@, Some(140u32), true), column_view("suspend"@, "Suspend"@, Some(90u32), true), column_view("last_schedule"@, "Last schedule"@, Some(120u32), true)]
}

/// CronJob columns: name, schedule, suspend, last schedule, age, status.
pub fn cron_job_columns() -> (r: Vec<ColumnDef>)
    ensures
        columns_view(r@) == framed(cron_job_middle()),
{
    let middle = [
        ColumnDef { key: "schedule", label: "Schedule", width: Some(140), sortable: true },
        ColumnDef { key: "suspend", label: "Suspend", width: Some(90), sortable: true },
        ColumnDef { key: "last_schedule", label: "Last schedule", width: Some(120), sortable: true },
    ];
    assert(columns_view(middle@) =~= cron_job_middle());
    kind_columns(&middle)
}

/// The status of a replicated workload from its ready and desired replica
/// counts: nothing desired is pending; all ready is ready; none ready is
/// pending; otherwise degraded.
pub open spec fn replicas_state(ready: i32, desired: i32) -> (Seq<char>, StatusKind) {
    if desired == 0 {
        ("Pending"@, StatusKind::Pending)
    } else if ready == desired {
        ("Ready"@, StatusKind::Ready)
    } else if ready == 0 {
        ("Pending"@, StatusKind::Pending)
    } else {
        ("Degraded"@, StatusKind::Degraded)
    }
}

/// Map ready-vs-desired replicas to a semantic status badge.
pub fn replicas_status(ready: i32, desired: i32) -> (r: (String, StatusKind))
    ensures
        (r.0@, r.1) == replicas_state(ready, desired),
{
    if desired == 0 {
        (text_of("Pending"), StatusKind::Pending)
    } else if ready == desired {
        (text_of("Ready"), StatusKind::Ready)
    } else if ready == 0 {
        (text_of("Pending"), StatusKind::Pending)
    } else {
        (text_of("Degraded"), StatusKind::Degraded)
    }
}

/// The id of an object: `namespace/name` when namespaced, else the name.
pub open spec fn object_id_of(namespace: Option<Seq<char>>, name: Seq<char>) -> Seq<char> {
    match namespace {
        Some(ns) => ns + "/"@ + name,
        None => name,
    }
}

/// Namespace-scoped object id (used as the row key and action target).
pub fn object_id(namespace: Option<&str>, name: &str) -> (r: String)
    ensures
        r@ == object_id_of(
            match namespace {
                Some(ns) => Some(ns@),
                None => None,
            },
            name@,
        ),
{
    match namespace {
        Some(ns) => {
            let mut r = text_of(ns);
            r.append("/");
            r.append(name);
            r
        },
        None => text_of(name),
    }
}

/// Rust's integer division (rounding toward zero).
pub open spec fn div_toward_zero(a: int, b: int) -> int {
    if a >= 0 {
        a / b
    } else {
        -((-a) / b)
    }
}

/// A duration in seconds as its largest whole unit: `5s`, `12m`, `3h`, `2d`
/// (the unit is chosen by the magnitude; the count keeps the sign).
pub open spec fn duration_text(seconds: int) -> Seq<char> {
    let abs = if seconds < 0 {
        -seconds
    } else {
        seconds
    };
    if abs < 60 {
        signed_digits(seconds) + "s"@
    } else if abs < 3600 {
        signed_digits(div_toward_zero(seconds, 60)) + "m"@
    } else if abs < 86400 {
        signed_digits(div_toward_zero(seconds, 3600)) + "h"@
    } else {
        signed_digits(div_toward_zero(seconds, 86400)) + "d"@
    }
}

/// Format a duration in seconds as the smallest non-zero unit: `5s`, `12m`,
/// `3h`, `2d`.
pub fn humanize_duration(seconds: i64) -> (r: String)
    ensures
        r@ == duration_text(seconds as int),
{
    let abs: u64 = if seconds < 0 {
        if seconds == i64::MIN {
            9223372036854775808u64
        } else {
            (-seconds) as u64
        }
    } else {
        seconds as u64
    };
    let (count, unit) = if abs < 60 {
        (seconds, "s")
    } else if abs < 3600 {
        (seconds / 60, "m")
    } else if abs < 86400 {
        (seconds / 3600, "h")
    } else {
        (seconds / 86400, "d")
    };
    let mut r = signed_decimal(count);
    r.append(unit);
    r
}

/// `ready/total`, as the ready column shows it.
pub open spec fn ratio_text(a: int, b: int) -> Seq<char> {
    signed_digits(a) + "/"@ + signed_digits(b)
}

/// `ready/total` for a ready column.
pub fn ready_text(ready: i32, total: i32) -> (r: String)
    ensures
        r@ == ratio_text(ready as int, total as int),
{
    let mut r = signed_decimal(ready as i64);
    r.append("/");
    r.append(signed_decimal(total as i64).as_str());
    r
}

/// A pod phase's semantic status (a missing phase reads `Unknown`).
pub open spec fn pod_phase_state(phase: Option<Seq<char>>) -> (Seq<char>, StatusKind) {
    let p = match phase {
        Some(p) => p,
        None => "Unknown"@,
    };
    let kind = if p == "Running"@ {
        StatusKind::Running
    } else if p == "Pending"@ {
        StatusKind::Pending
    } else if p == "Succeeded"@ {
        StatusKind::Succeeded
    } else if p == "Failed"@ {
        StatusKind::Failed
    } else {
        StatusKind::Unknown
    };
    (p, kind)
}

/// The pod phases Kubernetes reports that have a status of their own.
pub open spec fn known_pod_phases() -> Seq<Seq<char>> {
    seq!["Running"@, "Pending"@, "Succeeded"@, "Failed"@]
}

/// A pod's badge shows its phase text, and its status kind is the kind of
/// the same name for each known phase (Running, Pending, Succeeded, Failed);
/// only an unrecognised phase, or a missing one (shown as `Unknown`), gets
/// the `Unknown` kind.
pub proof fn law_pod_phase_kind_names_the_phase(p: Seq<char>)
    ensures
        pod_phase_state(Some(p)).0 == p,
        known_pod_phases().contains(p) ==> status_label(pod_phase_state(Some(p)).1) == p,
        !known_pod_phases().contains(p) <==> pod_phase_state(Some(p)).1 == StatusKind::Unknown,
        pod_phase_state(None) == ("Unknown"@, StatusKind::Unknown),
        pod_phase_state(Some("Failed"@)).1 == StatusKind::Failed,
{
    reveal_strlit("Running");
    reveal_strlit("Pending");
    reveal_strlit("Succeeded");
    reveal_strlit("Failed");
    reveal_strlit("Unknown");
    let k = known_pod_phases();
    assert(k[0] == "Running"@ && k[1] == "Pending"@ && k[2] == "Succeeded"@ && k[3] == "Failed"@);
    assert("Running"@ != "Pending"@) by {
        assert("Running"@[0] != "Pending"@[0]);
    }
    assert("Unknown"@[0] != "Running"@[0] && "Unknown"@[0] != "Pending"@[0]);
    assert("Unknown"@ != "Running"@ && "Unknown"@ != "Pending"@);
    if k.contains(p) {
        let i = choose|i: int| 0 <= i < k.len() && k[i] == p;
        assert(i == 0 || i == 1 || i == 2 || i == 3);
    } else {
        assert(p != k[0] && p != k[1] && p != k[2] && p != k[3]);
    }
}

/// Pod lifecycle phase → semantic status.
pub fn pod_phase_status(phase: Option<&str>) -> (r: (String, StatusKind))
    ensures
        (r.0@, r.1) == pod_phase_state(
            match phase {
                Some(p) => Some(p@),
                None => None,
            },
        ),
{
    let p = match phase {
        Some(p) => p,
        None => "Unknown",
    };
    let kind = if text_eq(p, "Running") {
        StatusKind::Running
    } else if text_eq(p, "Pending") {
        StatusKind::Pending
    } else if text_eq(p, "Succeeded") {
        StatusKind::Succeeded
    } else if text_eq(p, "Failed") {
        StatusKind::Failed
    } else {
        StatusKind::Unknown
    };
    (text_of(p), kind)
}

/// How many of `s` are true.
pub open spec fn count_true(s: Seq<bool>) -> nat
    decreases s.len(),
{
    if s.len() == 0 {
        0
    } else {
        count_true(s.drop_last()) + if s.last() {
            1nat
        } else {
            0nat
        }
    }
}

proof fn lemma_count_true_bound(s: Seq<bool>)
    ensures
        count_true(s) <= s.len(),
    decreases s.len(),
{
    if s.len() > 0 {
        lemma_count_true_bound(s.drop_last());
    }
}

/// (ready, total) container counts for a pod's ready column, from each
/// container's readiness (none reported counts as `(0, 0)`).
pub fn pod_ready(ready_flags: Option<&Vec<bool>>) -> (r: (i32, i32))
    ensures
        match ready_flags {
            Some(l) => r == (count_true(l@) as i32, l@.len() as i32),
            None => r == (0i32, 0i32),
        },
{
    match ready_flags {
        Some(list) => {
            let mut ready: usize = 0;
            let mut i: usize = 0;
            while i < list.len()
                invariant
                    i <= list@.len(),
                    ready == count_true(list@.subrange(0, i as int)),
                decreases list@.len() - i,
            {
                proof {
                    assert(list@.subrange(0, i + 1).drop_last() =~= list@.subrange(0, i as int));
                    lemma_count_true_bound(list@.subrange(0, i as int));
                }
                if list[i] {
                    ready = ready + 1;
                }
                i = i + 1;
            }
            assert(list@.subrange(0, i as int) =~= list@);
            (ready as i32, list.len() as i32)
        },
        None => (0, 0),
    }
}

/// The sum of a list of counts.
pub open spec fn total(s: Seq<i32>) -> int
    decreases s.len(),
{
    if s.len() == 0 {
        0
    } else {
        total(s.drop_last()) + s.last()
    }
}

/// Whether every running sum of `s` fits in an `i32`.
pub open spec fn sums_fit(s: Seq<i32>) -> bool {
    forall|i: int| 0 <= i <= s.len() ==> i32::MIN <= #[trigger] total(s.subrange(0, i)) <= i32::MAX
}

/// Total restart count across all containers (`0` when none are reported).
pub fn pod_restarts(restart_counts: Option<&Vec<i32>>) -> (r: i32)
    requires
        restart_counts matches Some(l) ==> sums_fit(l@),
    ensures
        match restart_counts {
            Some(l) => r == total(l@),
            None => r == 0,
        },
{
    match restart_counts {
        Some(list) => {
            let mut sum: i32 = 0;
            let mut i: usize = 0;
            while i < list.len()
                invariant
                    i <= list@.len(),
                    sums_fit(list@),
                    sum == total(list@.subrange(0, i as int)),
                decreases list@.len() - i,
            {
                proof {
                    assert(list@.subrange(0, i + 1).drop_last() =~= list@.subrange(0, i as int));
                    assert(i32::MIN <= total(list@.subrange(0, i + 1)) <= i32::MAX);
                }
                sum = sum + list[i];
                i = i + 1;
            }
            assert(list@.subrange(0, i as int) =~= list@);
            sum
        },
        None => 0,
    }
}

/// The controller column: the first owner as `Kind/name`, or `-`.
pub open spec fn controller_text(owners: Seq<(Seq<char>, Seq<char>)>) -> Seq<char> {
    if owners.len() > 0 {
        owners[0].0 + "/"@ + owners[0].1
    } else {
        "-"@
    }
}

/// Controller owner as `Kind/name`, or `"-"` when there are no owner
/// references. The API server lists the controlling owner first. `owners`
/// holds each reference's kind and name.
pub fn format_controller(owners: &[(String, String)]) -> (r: String)
    ensures
        r@ == controller_text(owners@.map_values(|o: (String, String)| (o.0@, o.1@))),
{
    if owners.len() > 0 {
        let mut r = text_of(owners[0].0.as_str());
        r.append("/");
        r.append(owners[0].1.as_str());
        r
    } else {
        text_of("-")
    }
}

/// A job's status: any failure wins, then any success, then activity.
pub open spec fn job_state(succeeded: i32, failed: i32, active: i32) -> (Seq<char>, StatusKind) {
    if failed > 0 {
        ("Failed"@, StatusKind::Failed)
    } else if succeeded > 0 {
        ("Succeeded"@, StatusKind::Succeeded)
    } else if active > 0 {
        ("Running"@, StatusKind::Running)
    } else {
        ("Pending"@, StatusKind::Pending)
    }
}

/// A job's status from its succeeded, failed and active pod counts.
pub fn job_status(succeeded: i32, failed: i32, active: i32) -> (r: (String, StatusKind))
    ensures
        (r.0@, r.1) == job_state(succeeded, failed, active),
{
    if failed > 0 {
        (text_of("Failed"), StatusKind::Failed)
    } else if succeeded > 0 {
        (text_of("Succeeded"), StatusKind::Succeeded)
    } else if active > 0 {
        (text_of("Running"), StatusKind::Running)
    } else {
        (text_of("Pending"), StatusKind::Pending)
    }
}

/// A cron job's status: suspended, or active.
pub fn cron_job_status(suspended: bool) -> (r: (String, StatusKind))
    ensures
        suspended ==> r.0@ == "Suspended"@ && r.1 == StatusKind::Suspended,
        !suspended ==> r.0@ == "Active"@ && r.1 == StatusKind::Running,
{
    if suspended {
        (text_of("Suspended"), StatusKind::Suspended)
    } else {
        (text_of("Active"), StatusKind::Running)
    }
}

/// The suspend column of a cron job.
pub fn suspend_text(suspended: bool) -> (r: &'static str)
    ensures
        suspended ==> r@ == "Yes"@,
        !suspended ==> r@ == "No"@,
{
    if suspended {
        "Yes"
    } else {
        "No"
    }
}

} // verus!
