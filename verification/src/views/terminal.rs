//! Decisions behind the terminal view: its connect phases, the container it
//! opens, and how a bridge error is read.

use vstd::prelude::*;

use crate::terminal::OutputBuffer;
use crate::text::{is_prefix, text_eq, text_of, text_starts_with};
use crate::views::logs::{first_nonempty, first_nonempty_name, names_view, opt_view};

verus! {

/// The connect lifecycle the toolbar renders.
#[derive(Debug, Clone, PartialEq, Eq)]
pub enum TerminalPhase {
    /// No pod / no reconnect attempt yet.
    Disconnected,
    /// Reconnect clicked; fetch in flight.
    Connecting,
    /// The bridge accepted the exec; output streams.
    Connected,
    /// The bridge answered that exec is not available yet; the view keeps
    /// its typed input and shows a hint in the toolbar.
    BridgePending,
    /// Any other bridge error (network, RBAC, etc.) — message for the toolbar.
    Error(String),
}

/// The toolbar label of each phase.
pub open spec fn phase_text(phase: TerminalPhase) -> Seq<char> {
    match phase {
        TerminalPhase::Disconnected => "Disconnected"@,
        TerminalPhase::Connecting => "Connecting…"@,
        TerminalPhase::Connected => "Connected"@,
        TerminalPhase::BridgePending => "Bridge pending Phase 1"@,
        TerminalPhase::Error(_) => "Error"@,
    }
}

/// The toolbar's phase label.
pub fn phase_label(phase: &TerminalPhase) -> (r: &'static str)
    ensures
        r@ == phase_text(*phase),
{
    match phase {
        TerminalPhase::Disconnected => "Disconnected",
        TerminalPhase::Connecting => "Connecting…",
        TerminalPhase::Connected => "Connected",
        TerminalPhase::BridgePending => "Bridge pending Phase 1",
        TerminalPhase::Error(_) => "Error",
    }
}

/// The first non-empty container name, or `None` if there is none.
pub fn default_container(containers: &[String]) -> (r: Option<String>)
    ensures
        opt_view(r) == first_nonempty(names_view(containers@), 0),
{
    first_nonempty_name(containers)
}

/// Drain one coalesced chunk from an `OutputBuffer` (empty when there is
/// nothing pending).
pub fn drain_output_buffer(buffer: &mut OutputBuffer) -> (r: Vec<u8>)
    ensures
        final(buffer).chunk_limit() == old(buffer).chunk_limit(),
        r@ + final(buffer).pending() == old(buffer).pending(),
        old(buffer).pending().len() == 0 ==> r@.len() == 0,
        old(buffer).pending().len() > 0 ==> r@ == old(buffer).pending().subrange(
            0,
            if old(buffer).pending().len() < old(buffer).chunk_limit() {
                old(buffer).pending().len() as int
            } else {
                old(buffer).chunk_limit() as int
            },
        ),
{
    match buffer.next_chunk() {
        Some(chunk) => chunk,
        None => {
            let empty: Vec<u8> = Vec::new();
            assert(empty@ + final(buffer).pending() =~= old(buffer).pending());
            empty
        },
    }
}

/// Whether a bridge error is the answer that exec is not available yet:
/// exactly `exec is not supported yet`, or anything starting
/// `exec (pending`. Other `exec`-prefixed errors are real failures.
pub fn is_bridge_pending_error(message: &str) -> (r: bool)
    ensures
        r == (message@ == "exec is not supported yet"@ || is_prefix("exec (pending"@, message@)),
{
    let exact = text_eq(message, "exec is not supported yet");
    let pending = text_starts_with(message, "exec (pending");
    exact || pending
}

/// The phase once the bridge answers an exec request with `status` and
/// `error`: connected on `"ok"`; otherwise waiting on the deferred exec
/// channel when the error says so; otherwise an error with the bridge's
/// message, or "no bridge response" when there is none.
pub fn phase_after_reply(status: &str, error: &str) -> (r: TerminalPhase)
    ensures
        status@ == "ok"@ ==> r == TerminalPhase::Connected,
        status@ != "ok"@ && (error@ == "exec is not supported yet"@ || is_prefix(
            "exec (pending"@,
            error@,
        )) ==> r == TerminalPhase::BridgePending,
        status@ != "ok"@ && !(error@ == "exec is not supported yet"@ || is_prefix(
            "exec (pending"@,
            error@,
        )) ==> (r matches TerminalPhase::Error(m) && m@ == (if error@.len() == 0 {
            "no bridge response"@
        } else {
            error@
        })),
{
    if text_eq(status, "ok") {
        TerminalPhase::Connected
    } else if is_bridge_pending_error(error) {
        TerminalPhase::BridgePending
    } else if error.unicode_len() == 0 {
        TerminalPhase::Error(text_of("no bridge response"))
    } else {
        TerminalPhase::Error(text_of(error))
    }
}

} // verus!
