//! OS window menu bar visibility.
//!
//! macOS is deliberately excluded from the runtime toggle: its menu bar is a
//! single global system bar that cannot be hidden. This library carries no
//! desktop renderer, so no build of it can hide the bar: [`hideable`] is
//! false and the palette never offers a switch that would silently no-op.
//! Installing the bar and showing or hiding it on the live window is the
//! host's job.

use vstd::prelude::*;

use crate::config::{flipped, MenuBarVisibility, OpenKiteConfig};
use crate::text::text_eq;

verus! {

/// Whether this build can hide/show the OS menu bar at runtime: only a
/// desktop renderer on Linux or Windows can, and this build has none.
pub open spec fn can_hide_menu_bar() -> bool {
    false
}

/// Whether this build can hide/show the OS menu bar at runtime.
pub fn hideable() -> (r: bool)
    ensures
        r == can_hide_menu_bar(),
{
    false
}

/// Whether a build can hide/show the OS menu bar at runtime: one with a
/// desktop renderer, on Linux or Windows (macOS has a single global system
/// bar; iOS and Android have none).
pub open spec fn can_hide_on(desktop_renderer: bool, os: Seq<char>) -> bool {
    desktop_renderer && (os == "linux"@ || os == "windows"@)
}

/// Whether a build with or without a desktop renderer, on the operating
/// system `os` (as Rust names it, e.g. `"linux"`), can hide the menu bar.
pub fn hideable_on(desktop_renderer: bool, os: &str) -> (r: bool)
    ensures
        r == can_hide_on(desktop_renderer, os@),
{
    desktop_renderer && (text_eq(os, "linux") || text_eq(os, "windows"))
}

/// Flip the persisted menu-bar setting, when a build that can hide the bar
/// (`hideable`) asks.
///
/// Returns the visibility to apply to the live window, or `None` (leaving
/// `config` untouched) when the bar cannot be toggled. The caller saves
/// the configuration whenever a visibility comes back, so the next launch
/// starts from the state the user chose.
pub fn toggle_with(config: &mut OpenKiteConfig, hideable: bool) -> (r: Option<bool>)
    ensures
        !hideable ==> r is None && *final(config) == *old(config),
        hideable ==> *final(config) == (OpenKiteConfig {
            menu_bar: flipped(old(config).menu_bar),
            ..*old(config)
        }) && r == Some(final(config).menu_bar == MenuBarVisibility::Show),
{
    if !hideable {
        return None;
    }
    let next = config.menu_bar.toggled();
    config.menu_bar = next;
    Some(next.is_visible())
}

/// Flip the persisted menu-bar setting, when this build can apply it (see
/// [`toggle_with`]).
pub fn toggle(config: &mut OpenKiteConfig) -> (r: Option<bool>)
    ensures
        !can_hide_menu_bar() ==> r is None && *final(config) == *old(config),
        can_hide_menu_bar() ==> *final(config) == (OpenKiteConfig {
            menu_bar: flipped(old(config).menu_bar),
            ..*old(config)
        }) && r == Some(final(config).menu_bar == MenuBarVisibility::Show),
{
    toggle_with(config, hideable())
}

} // verus!
