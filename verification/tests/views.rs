use openkite::logs::{FollowState, LineBuffer, MAX_LINES};
use openkite::terminal::{resolve_shell, OutputBuffer};
use openkite::views::logs::{after_follow_toggle, after_scroll, should_autoscroll, clear_and_reset, level_class, pick_default_container, should_show_paused_hint, view_buffers_snapshot};
use openkite::views::terminal::{phase_after_reply, default_container, drain_output_buffer, is_bridge_pending_error, phase_label, TerminalPhase};
use openkite::views::workloads::{row_target, split_row_id, RowAction, RowTarget};
use openkite::workloads::WorkloadKind;
use openkite::crud::{ManifestFields, MetadataFields};

#[test]
fn pick_default_container_returns_first_when_non_empty() {
    assert_eq!(pick_default_container(&["a".into(), "b".into(), "c".into()]), Some("a".into()));
}

#[test]
fn pick_default_container_skips_empty_string() {
    assert_eq!(pick_default_container(&["".into(), "a".into()]), Some("a".into()));
}

#[test]
fn pick_default_container_returns_none_for_empty() {
    assert_eq!(pick_default_container(&[]), None);
    assert_eq!(pick_default_container(&["".into()]), None);
}

#[test]
fn should_show_paused_hint_is_true_when_paused() {
    assert!(should_show_paused_hint(FollowState::Paused, true));
}

#[test]
fn should_show_paused_hint_is_true_when_scrolled_up() {
    assert!(should_show_paused_hint(FollowState::Following, false));
}

#[test]
fn should_show_paused_hint_is_false_when_following_at_bottom() {
    assert!(!should_show_paused_hint(FollowState::Following, true));
}

#[test]
fn level_class_recognises_warn_and_error() {
    assert_eq!(level_class("WARN foo"), "warn");
    assert_eq!(level_class("ERROR bar"), "error");
    assert_eq!(level_class("INFO baz"), "");
    assert_eq!(level_class("warning baz"), "");
}

#[test]
fn level_class_handles_empty_and_whitespace_only() {
    assert_eq!(level_class(""), "");
    assert_eq!(level_class("   "), "");
}

#[test]
fn clear_and_reset_empties_the_buffer() {
    let mut buf = LineBuffer::default();
    buf.push("a");
    buf.push("b");
    clear_and_reset(&mut buf);
    assert!(buf.is_empty());
}

#[test]
fn view_buffers_snapshot_returns_owned_clone() {
    let mut buf = LineBuffer::default();
    buf.push("a");
    buf.push("b");
    buf.push("c");
    let snap = view_buffers_snapshot(&buf);
    assert_eq!(snap, vec!["a".to_string(), "b".to_string(), "c".to_string()]);
    buf.push("d");
    assert_eq!(snap.len(), 3);
}

#[test]
fn level_class_reads_the_first_word_after_leading_space() {
    assert_eq!(level_class("  err\tdisk full"), "error");
    assert_eq!(level_class("ERR"), "error");
    assert_eq!(level_class("warn: x"), "");
}

#[test]
fn line_buffer_keeps_the_newest_lines() {
    let mut buf = LineBuffer::default();
    for i in 0..(MAX_LINES + 5) {
        buf.push(&format!("line {i}"));
    }
    assert_eq!(buf.len(), MAX_LINES);
    assert_eq!(buf.lines()[0], "line 5");
    assert_eq!(buf.lines()[MAX_LINES - 1], format!("line {}", MAX_LINES + 4));
}

#[test]
fn follow_state_pauses_and_resumes() {
    let mut state = FollowState::Following;
    state.pause();
    assert!(!state.is_following());
    state.resume();
    assert!(state.is_following());
}

#[test]
fn split_row_id_splits_namespaced_id() {
    assert_eq!(split_row_id("default/web"), (Some("default".to_string()), "web".to_string()));
}

#[test]
fn split_row_id_keeps_bare_id_and_extra_slashes() {
    assert_eq!(split_row_id("node-1"), (None, "node-1".to_string()));
    assert_eq!(split_row_id("ns/a/b"), (Some("ns".to_string()), "a/b".to_string()));
}

#[test]
fn shells_fall_back_per_platform() {
    assert_eq!(resolve_shell(Some("/bin/zsh"), false), "/bin/zsh");
    assert_eq!(resolve_shell(Some(""), false), "sh");
    assert_eq!(resolve_shell(None, true), "cmd");
}

#[test]
fn output_buffer_drains_bounded_chunks_in_order() {
    let mut out = OutputBuffer::new(3);
    assert_eq!(out.next_chunk(), None);
    out.push(b"hello");
    assert_eq!(out.next_chunk(), Some(b"hel".to_vec()));
    assert_eq!(drain_output_buffer(&mut out), b"lo".to_vec());
    assert_eq!(drain_output_buffer(&mut out), Vec::<u8>::new());
    out.push(b"abcdef");
    assert_eq!(out.flush(), Some(b"abcdef".to_vec()));
    assert_eq!(out.flush(), None);
}

#[test]
fn terminal_phases_and_bridge_errors() {
    assert_eq!(phase_label(&TerminalPhase::Connecting), "Connecting…");
    assert_eq!(phase_label(&TerminalPhase::Error("x".into())), "Error");
    assert_eq!(phase_label(&TerminalPhase::BridgePending), "Bridge pending Phase 1");
    assert!(is_bridge_pending_error("exec is not supported yet"));
    assert!(is_bridge_pending_error("exec (pending phase 1)"));
    assert!(!is_bridge_pending_error("exec: forbidden"));
    assert_eq!(default_container(&["".into(), "app".into()]), Some("app".to_string()));
}

#[test]
fn scrolling_up_pauses_and_scrolling_back_resumes() {
    assert_eq!(after_scroll(FollowState::Following, false, true), FollowState::Paused);
    assert_eq!(after_scroll(FollowState::Following, true, true), FollowState::Following);
    assert_eq!(after_scroll(FollowState::Paused, true, true), FollowState::Following);
    assert_eq!(after_scroll(FollowState::Paused, true, false), FollowState::Paused);
    assert_eq!(after_scroll(FollowState::Paused, false, true), FollowState::Paused);
}

#[test]
fn follow_checkbox_sets_the_follow_state() {
    assert_eq!(after_follow_toggle(FollowState::Paused, true), FollowState::Following);
    assert_eq!(after_follow_toggle(FollowState::Following, true), FollowState::Following);
    assert_eq!(after_follow_toggle(FollowState::Following, false), FollowState::Paused);
    assert!(should_autoscroll(FollowState::Following, true));
    assert!(!should_autoscroll(FollowState::Following, false));
    assert!(!should_autoscroll(FollowState::Paused, true));
}

#[test]
fn line_buffer_clone_keeps_lines() {
    let mut buf = LineBuffer::default();
    buf.push("a");
    buf.push("b");
    let copy = buf.clone();
    assert_eq!(copy.lines(), buf.lines());
    assert!(copy.len() <= MAX_LINES);
}

#[test]
fn bridge_reply_sets_the_terminal_phase() {
    assert_eq!(phase_after_reply("ok", ""), TerminalPhase::Connected);
    assert_eq!(phase_after_reply("error", "exec is not supported yet"), TerminalPhase::BridgePending);
    assert_eq!(phase_after_reply("error", "exec (pending phase 1)"), TerminalPhase::BridgePending);
    assert_eq!(phase_after_reply("", ""), TerminalPhase::Error("no bridge response".into()));
    assert_eq!(phase_after_reply("error", "forbidden"), TerminalPhase::Error("forbidden".into()));
}

#[test]
fn row_actions_open_the_matching_target() {
    assert_eq!(
        row_target(WorkloadKind::Deployments, RowAction::Edit, "prod/web"),
        RowTarget::Edit {
            kind: "Deployment".into(),
            doc: ManifestFields {
                api_version: Some("apps/v1".into()),
                kind: Some("Deployment".into()),
                metadata: Some(MetadataFields {
                    name: Some("web".into()),
                    namespace: Some("prod".into()),
                    resource_version: None,
                }),
            },
        }
    );
    assert_eq!(
        row_target(WorkloadKind::Pods, RowAction::Delete, "node-pod"),
        RowTarget::Delete { kind: "Pod".into(), namespace: None, name: "node-pod".into() }
    );
    assert_eq!(
        row_target(WorkloadKind::StatefulSets, RowAction::Scale, "db/pg"),
        RowTarget::Scale { kind: "StatefulSet".into(), namespace: Some("db".into()), name: "pg".into(), current_replicas: 1 }
    );
}
