use openkite::config::{MenuBarVisibility, OpenKiteConfig};
use openkite::menubar::{hideable, hideable_on, toggle, toggle_with};

#[test]
fn hideable_matches_the_configured_platform() {
    // This build carries no desktop renderer, so the configured platform is
    // never one whose menu bar can be hidden.
    let expected = false;
    assert_eq!(hideable(), expected);
}

#[test]
fn toggle_is_a_noop_when_not_hideable() {
    if !hideable() {
        let mut config = OpenKiteConfig::default();
        assert_eq!(toggle(&mut config), None);
        assert_eq!(config.menu_bar, MenuBarVisibility::Show);
    }
}

#[test]
fn menu_bar_visibility_toggles_back_and_forth() {
    assert_eq!(MenuBarVisibility::Show.toggled(), MenuBarVisibility::Hide);
    assert_eq!(MenuBarVisibility::Show.toggled().toggled(), MenuBarVisibility::Show);
    assert!(MenuBarVisibility::Show.is_visible());
    assert!(!MenuBarVisibility::Hide.is_visible());
}

#[test]
fn only_desktop_builds_on_linux_or_windows_can_hide_the_bar() {
    assert!(hideable_on(true, "linux"));
    assert!(hideable_on(true, "windows"));
    assert!(!hideable_on(true, "macos"));
    assert!(!hideable_on(true, "android"));
    assert!(!hideable_on(false, "linux"));
}

#[test]
fn a_hideable_build_flips_the_setting() {
    let mut config = OpenKiteConfig::default();
    config.theme = Some("nord".into());
    config.metrics_enabled = true;
    assert_eq!(toggle_with(&mut config, true), Some(false));
    assert_eq!(config.menu_bar, MenuBarVisibility::Hide);
    assert_eq!(config.theme.as_deref(), Some("nord"));
    assert!(config.metrics_enabled);
    assert_eq!(toggle_with(&mut config, true), Some(true));
    assert_eq!(config.menu_bar, MenuBarVisibility::Show);
    assert_eq!(toggle_with(&mut config, false), None);
    assert_eq!(config.menu_bar, MenuBarVisibility::Show);
}
