use openkite::config::{MenuBarVisibility, OpenKiteConfig, TitleBarTheme};
use openkite::settings::{apply_settings, SettingsUpdate};

fn update(font_size: Option<u16>) -> SettingsUpdate {
    SettingsUpdate {
        theme: Some("tokyo-night".into()),
        font_size,
        metrics_enabled: false,
        menu_bar: MenuBarVisibility::Hide,
        title_bar_theme: TitleBarTheme::Dark,
    }
}

#[test]
fn settings_replace_every_field_but_the_plugin_lists() {
    let mut config = OpenKiteConfig::default();
    config.disabled_plugins = vec!["argo".into()];
    assert_eq!(apply_settings(&mut config, update(Some(14))), Ok(()));
    assert_eq!(config.theme.as_deref(), Some("tokyo-night"));
    assert_eq!(config.font_size, Some(14));
    assert!(!config.metrics_enabled);
    assert_eq!(config.menu_bar, MenuBarVisibility::Hide);
    assert_eq!(config.title_bar_theme, TitleBarTheme::Dark);
    assert_eq!(config.disabled_plugins, vec!["argo".to_string()]);
}

#[test]
fn an_unrenderable_font_size_leaves_the_settings_alone() {
    let mut config = OpenKiteConfig::default();
    assert_eq!(apply_settings(&mut config, update(Some(40))), Err("font size 40 is outside 9-24".to_string()));
    assert_eq!(config, OpenKiteConfig::default());
    assert_eq!(apply_settings(&mut config, update(None)), Ok(()));
    assert_eq!(config.font_size, None);
}
