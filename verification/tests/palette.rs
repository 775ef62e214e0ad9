use openkite::palette::{advance_cursor, commands, filter_commands, CommandAction, NavTarget};
use openkite::resource_table::{matches_query, SortDirection};
use openkite::routes::{full_path, plugin_route};
use openkite::settings::validate_font_size;
use openkite::status_badge::StatusKind;
use openkite::switcher::{advance_index, filter_contexts};

#[test]
fn advance_wraps_both_directions() {
    assert_eq!(advance_cursor(Some(0), 5, 1), Some(1));
    assert_eq!(advance_cursor(Some(0), 5, -1), Some(4));
    assert_eq!(advance_cursor(Some(4), 5, 1), Some(0));
}

#[test]
fn advance_empty_list_is_none() {
    assert_eq!(advance_cursor(Some(0), 0, 1), None);
    assert_eq!(advance_cursor(None, 0, -1), None);
}

#[test]
fn advance_clamps_stale_selection() {
    assert_eq!(advance_cursor(Some(9), 2, 1), Some(0));
    assert_eq!(advance_cursor(Some(9), 2, -1), Some(0));
}

#[test]
fn advance_none_starts_at_zero() {
    assert_eq!(advance_cursor(None, 3, 1), Some(1));
    assert_eq!(advance_cursor(None, 3, 0), Some(0));
}

#[test]
fn advance_handles_large_negative_steps() {
    assert_eq!(advance_index(Some(1), 3, -7), Some(0));
    assert_eq!(advance_index(Some(1), 3, isize::MIN + 3), advance_index(Some(1), 3, (isize::MIN + 3) % 3));
}

#[test]
fn command_registry_and_filter() {
    let cmds = commands();
    assert_eq!(cmds.len(), 12);
    assert_eq!(cmds[0].id, "view.workloads");
    assert_eq!(cmds[0].action, CommandAction::Navigate(NavTarget::Workloads));
    assert_eq!(cmds[11].action, CommandAction::CycleTheme);
    assert_eq!(filter_commands(&cmds, "   ").len(), 12);
    let hits = filter_commands(&cmds, "theme");
    assert_eq!(hits[0].id, "settings.theme");
    assert!(filter_commands(&cmds, "zzzz").is_empty());
}

#[test]
fn filter_contexts_orders_by_match_position() {
    let names = vec!["prod-eu".to_string(), "eu-west".to_string(), "staging".to_string(), "EU-central".to_string()];
    assert_eq!(filter_contexts(&names, " "), names);
    assert_eq!(
        filter_contexts(&names, " EU "),
        vec!["eu-west".to_string(), "EU-central".to_string(), "prod-eu".to_string()]
    );
    assert!(filter_contexts(&names, "qa").is_empty());
}

#[test]
fn sort_direction_toggles() {
    assert_eq!(SortDirection::Ascending.toggle(), SortDirection::Descending);
    assert_eq!(SortDirection::Descending.toggle(), SortDirection::Ascending);
}

#[test]
fn matches_query_is_case_insensitive_substring() {
    assert!(matches_query("nginx-deployment", "nginx"));
    assert!(matches_query("nginx-deployment", "NGINX"));
    assert!(matches_query("nginx-deployment", ""));
    assert!(matches_query("nginx-deployment", "   "));
    assert!(!matches_query("nginx-deployment", "redis"));
}

#[test]
fn every_status_has_class_and_label() {
    let all = [
        StatusKind::Running,
        StatusKind::Ready,
        StatusKind::Pending,
        StatusKind::Succeeded,
        StatusKind::Failed,
        StatusKind::CrashLoop,
        StatusKind::Unknown,
        StatusKind::OutOfSync,
        StatusKind::Degraded,
        StatusKind::Suspended,
    ];
    for status in all {
        assert!(!status.class().is_empty(), "{status:?} missing class");
        assert!(!status.label().is_empty(), "{status:?} missing label");
    }
}

#[test]
fn semantic_colors_group_by_severity() {
    assert_eq!(StatusKind::Running.class(), StatusKind::Ready.class());
    assert_eq!(StatusKind::Failed.class(), StatusKind::CrashLoop.class());
    assert_ne!(StatusKind::Running.class(), StatusKind::Failed.class());
}

#[test]
fn plugin_route_splits_path_into_segments() {
    assert_eq!(plugin_route("/argocd/apps"), vec!["argocd", "apps"]);
}

#[test]
fn plugin_route_strips_trailing_slash() {
    assert_eq!(plugin_route("/argocd/apps/"), vec!["argocd", "apps"]);
}

#[test]
fn full_path_round_trips_through_plugin_route() {
    let path = plugin_route("/argocd/apps");
    assert_eq!(full_path(&path), "/argocd/apps");
}

#[test]
fn font_size_validation_bounds() {
    assert!(validate_font_size(None).is_ok());
    assert!(validate_font_size(Some(9)).is_ok());
    assert!(validate_font_size(Some(24)).is_ok());
    assert!(validate_font_size(Some(8)).is_err());
    assert!(validate_font_size(Some(25)).is_err());
    assert_eq!(validate_font_size(Some(30)).unwrap_err(), "font size 30 is outside 9-24");
}
