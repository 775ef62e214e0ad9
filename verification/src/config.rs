//! Local app configuration: plugin enable/disable state plus appearance and
//! metrics settings. Reading and writing `~/.openkite/config.toml` is the
//! host's job; this module holds the settings and the rules over them.

use vstd::prelude::*;

use crate::text::{text_eq};

verus! {

/// The default for settings that start switched on.
pub fn default_true() -> (r: bool)
    ensures
        r,
{
    true
}

/// Whether the OS window menu bar is shown.
#[derive(Debug, Clone, Copy, PartialEq, Eq, Structural)]
pub enum MenuBarVisibility {
    /// Show the platform menu bar (the default).
    Show,
    /// Hide the menu bar where the platform supports it (Linux/Windows).
    Hide,
}

impl Default for MenuBarVisibility {
    fn default() -> (r: Self)
        ensures
            r == MenuBarVisibility::Show,
    {
        MenuBarVisibility::Show
    }
}

impl MenuBarVisibility {
    /// The other visibility — what a palette toggle flips to.
    pub fn toggled(self) -> (r: Self)
        ensures
            r == flipped(self),
    {
        match self {
            MenuBarVisibility::Show => MenuBarVisibility::Hide,
            MenuBarVisibility::Hide => MenuBarVisibility::Show,
        }
    }

    /// Whether the menu bar should be visible.
    pub fn is_visible(self) -> (r: bool)
        ensures
            r == (self == MenuBarVisibility::Show),
    {
        match self {
            MenuBarVisibility::Show => true,
            MenuBarVisibility::Hide => false,
        }
    }
}

/// Flipping the menu-bar setting twice gives back the setting it started from, and
/// a single flip always changes whether the bar is visible.
pub proof fn law_menu_bar_toggle_is_an_involution(v: MenuBarVisibility)
    ensures
        flipped(flipped(v)) == v,
        (flipped(v) == MenuBarVisibility::Show) != (v == MenuBarVisibility::Show),
{
}

/// The setting a toggle produces.
pub open spec fn flipped(v: MenuBarVisibility) -> MenuBarVisibility {
    match v {
        MenuBarVisibility::Show => MenuBarVisibility::Hide,
        MenuBarVisibility::Hide => MenuBarVisibility::Show,
    }
}

/// Which OS window decoration (title bar / chrome) theme to request.
#[derive(Debug, Clone, Copy, PartialEq, Eq, Structural)]
pub enum TitleBarTheme {
    /// Follow the OS decoration theme (the default).
    System,
    /// Force the light decoration theme.
    Light,
    /// Force the dark decoration theme.
    Dark,
}

impl Default for TitleBarTheme {
    fn default() -> (r: Self)
        ensures
            r == TitleBarTheme::System,
    {
        TitleBarTheme::System
    }
}

impl TitleBarTheme {
    /// The lowercase persisted value (`titleBarTheme = "system" | ...`).
    pub fn as_str(self) -> (r: &'static str)
        ensures
            r@ == match self {
                TitleBarTheme::System => "system"@,
                TitleBarTheme::Light => "light"@,
                TitleBarTheme::Dark => "dark"@,
            },
    {
        match self {
            TitleBarTheme::System => "system",
            TitleBarTheme::Light => "light",
            TitleBarTheme::Dark => "dark",
        }
    }

    /// Title-cased palette label for the choice.
    pub fn label(self) -> (r: &'static str)
        ensures
            r@ == match self {
                TitleBarTheme::System => "System"@,
                TitleBarTheme::Light => "Light"@,
                TitleBarTheme::Dark => "Dark"@,
            },
    {
        match self {
            TitleBarTheme::System => "System",
            TitleBarTheme::Light => "Light",
            TitleBarTheme::Dark => "Dark",
        }
    }
}

/// Local OpenKite configuration: plugin enable/disable state plus appearance
/// and metrics settings.
#[derive(Debug, Clone, PartialEq)]
pub struct OpenKiteConfig {
    /// Explicitly enabled plugin names. Empty = all plugins enabled.
    pub enabled_plugins: Vec<String>,
    /// Explicitly disabled plugin names (wins over `enabled_plugins`).
    pub disabled_plugins: Vec<String>,
    /// Selected theme name (an opaline theme id, kebab-case). `None` = default theme.
    pub theme: Option<String>,
    /// UI font size in pixels. `None` = default.
    pub font_size: Option<u16>,
    /// Whether metrics columns render by default.
    pub metrics_enabled: bool,
    /// Whether the OS window menu bar is shown.
    pub menu_bar: MenuBarVisibility,
    /// OS window decoration (title bar) theme override.
    pub title_bar_theme: TitleBarTheme,
}

impl Default for OpenKiteConfig {
    fn default() -> (r: Self)
        ensures
            r.enabled_plugins@.len() == 0,
            r.disabled_plugins@.len() == 0,
            r.theme is None,
            r.font_size is None,
            r.metrics_enabled,
            r.menu_bar == MenuBarVisibility::Show,
            r.title_bar_theme == TitleBarTheme::System,
    {
        OpenKiteConfig {
            enabled_plugins: Vec::new(),
            disabled_plugins: Vec::new(),
            theme: None,
            font_size: None,
            metrics_enabled: true,
            menu_bar: MenuBarVisibility::Show,
            title_bar_theme: TitleBarTheme::System,
        }
    }
}

/// Whether `names` holds `name`.
pub open spec fn names_contain(names: Seq<String>, name: Seq<char>) -> bool {
    exists|i: int| 0 <= i < names.len() && (#[trigger] names[i])@ == name
}

/// The enablement rule: explicitly disabled wins; otherwise a non-empty
/// allowlist must name the plugin, and an empty one enables everything.
pub open spec fn plugin_enabled(c: OpenKiteConfig, name: Seq<char>) -> bool {
    !names_contain(c.disabled_plugins@, name) && (c.enabled_plugins@.len() == 0 || names_contain(
        c.enabled_plugins@,
        name,
    ))
}

fn list_contains(names: &Vec<String>, name: &str) -> (r: bool)
    ensures
        r == names_contain(names@, name@),
{
    let mut i: usize = 0;
    while i < names.len()
        invariant
            i <= names.len(),
            forall|j: int| 0 <= j < i ==> (#[trigger] names@[j])@ != name@,
        decreases names.len() - i,
    {
        if text_eq(names[i].as_str(), name) {
            return true;
        }
        i = i + 1;
    }
    false
}

impl OpenKiteConfig {
    /// Whether a plugin is enabled. Explicitly disabled wins; otherwise a
    /// non-empty `enabled_plugins` acts as an allowlist, and an empty list
    /// means "all enabled".
    pub fn is_enabled(&self, name: &str) -> (r: bool)
        ensures
            r == plugin_enabled(*self, name@),
    {
        if list_contains(&self.disabled_plugins, name) {
            return false;
        }
        self.enabled_plugins.len() == 0 || list_contains(&self.enabled_plugins, name)
    }
}

} // verus!
