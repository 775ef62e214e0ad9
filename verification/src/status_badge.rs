//! Semantic statuses a resource can be in, and how each is shown.

use vstd::prelude::*;

verus! {

/// Semantic statuses a resource can be in. The badge maps each to a CSS class
/// (`status-ok` / `status-warn` / `status-err` / `status-muted`) whose palette
/// lives in the theme CSS.
#[derive(Debug, Clone, Copy, PartialEq, Eq, Structural)]
pub enum StatusKind {
    Running,
    Ready,
    Pending,
    Succeeded,
    Failed,
    CrashLoop,
    Unknown,
    OutOfSync,
    Degraded,
    Suspended,
}

/// The CSS class of a status: by severity.
pub open spec fn status_class(s: StatusKind) -> Seq<char> {
    match s {
        StatusKind::Running | StatusKind::Ready | StatusKind::Succeeded => "status-ok"@,
        StatusKind::Pending | StatusKind::OutOfSync => "status-warn"@,
        StatusKind::Failed | StatusKind::CrashLoop | StatusKind::Degraded => "status-err"@,
        StatusKind::Unknown | StatusKind::Suspended => "status-muted"@,
    }
}

/// The label of a status.
pub open spec fn status_label(s: StatusKind) -> Seq<char> {
    match s {
        StatusKind::Running => "Running"@,
        StatusKind::Ready => "Ready"@,
        StatusKind::Pending => "Pending"@,
        StatusKind::Succeeded => "Succeeded"@,
        StatusKind::Failed => "Failed"@,
        StatusKind::CrashLoop => "CrashLoop"@,
        StatusKind::Unknown => "Unknown"@,
        StatusKind::OutOfSync => "OutOfSync"@,
        StatusKind::Degraded => "Degraded"@,
        StatusKind::Suspended => "Suspended"@,
    }
}

impl StatusKind {
    /// CSS class for the pill (semantic color).
    pub fn class(self) -> (r: &'static str)
        ensures
            r@ == status_class(self),
    {
        match self {
            StatusKind::Running | StatusKind::Ready | StatusKind::Succeeded => "status-ok",
            StatusKind::Pending | StatusKind::OutOfSync => "status-warn",
            StatusKind::Failed | StatusKind::CrashLoop | StatusKind::Degraded => "status-err",
            StatusKind::Unknown | StatusKind::Suspended => "status-muted",
        }
    }

    /// Human-readable label.
    pub fn label(self) -> (r: &'static str)
        ensures
            r@ == status_label(self),
    {
        match self {
            StatusKind::Running => "Running",
            StatusKind::Ready => "Ready",
            StatusKind::Pending => "Pending",
            StatusKind::Succeeded => "Succeeded",
            StatusKind::Failed => "Failed",
            StatusKind::CrashLoop => "CrashLoop",
            StatusKind::Unknown => "Unknown",
            StatusKind::OutOfSync => "OutOfSync",
            StatusKind::Degraded => "Degraded",
            StatusKind::Suspended => "Suspended",
        }
    }
}

} // verus!
