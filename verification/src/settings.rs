//! Settings the preferences surface may write.

use vstd::prelude::*;

use crate::config::{MenuBarVisibility, OpenKiteConfig, TitleBarTheme};
use crate::text::{decimal_digits, decimal, text_of};

verus! {

/// The answer for a font size: `None` keeps the default; a size outside
/// 9–24 pixels is refused.
pub open spec fn font_size_check(size: Option<u16>) -> Result<(), Seq<char>> {
    match size {
        Some(s) if !(9 <= s <= 24) => Err(
            "font size "@ + decimal_digits(s as nat) + " is outside 9-24"@,
        ),
        _ => Ok(()),
    }
}

/// Reject a font size the UI cannot render; `None` keeps the default.
pub fn validate_font_size(size: Option<u16>) -> (r: Result<(), String>)
    ensures
        match (r, font_size_check(size)) {
            (Ok(()), Ok(())) => true,
            (Err(e), Err(f)) => e@ == f,
            _ => false,
        },
{
    match size {
        Some(s) if !(9 <= s && s <= 24) => {
            let mut e = text_of("font size ");
            e.append(decimal(s as u64).as_str());
            e.append(" is outside 9-24");
            Err(e)
        },
        _ => Ok(()),
    }
}

/// A full settings snapshot as the preferences surface submits it.
#[derive(Debug, Clone, PartialEq)]
pub struct SettingsUpdate {
    pub theme: Option<String>,
    pub font_size: Option<u16>,
    pub metrics_enabled: bool,
    pub menu_bar: MenuBarVisibility,
    pub title_bar_theme: TitleBarTheme,
}

/// Apply a submitted snapshot to the configuration: a font size outside
/// 9–24 is refused and leaves the configuration as it was; otherwise every
/// setting of the snapshot replaces the stored one and the plugin lists are
/// kept. The caller persists the configuration after an `Ok`.
pub fn apply_settings(config: &mut OpenKiteConfig, update: SettingsUpdate) -> (r: Result<(), String>)
    ensures
        match (r, font_size_check(update.font_size)) {
            (Ok(()), Ok(())) => true,
            (Err(e), Err(f)) => e@ == f,
            _ => false,
        },
        r is Err ==> *final(config) == *old(config),
        r is Ok ==> final(config).theme == update.theme && final(config).font_size == update.font_size
            && final(config).metrics_enabled == update.metrics_enabled && final(config).menu_bar
            == update.menu_bar && final(config).title_bar_theme == update.title_bar_theme
            && final(config).enabled_plugins == old(config).enabled_plugins
            && final(config).disabled_plugins == old(config).disabled_plugins,
{
    match validate_font_size(update.font_size) {
        Err(e) => Err(e),
        Ok(()) => {
            config.theme = update.theme;
            config.font_size = update.font_size;
            config.metrics_enabled = update.metrics_enabled;
            config.menu_bar = update.menu_bar;
            config.title_bar_theme = update.title_bar_theme;
            Ok(())
        },
    }
}

} // verus!
