use openkite::theme::CSS_VARS;
use openkite::theme_catalog::{catalog, default_id, default_position, matches_current, swatches, ThemeEntry, DEFAULT_THEME_IDS};
use openkite::theme_opaline::load_and_map;

#[test]
fn catalog_returns_39_entries_with_5_curated_defaults_first() {
    let catalog = catalog();
    assert_eq!(catalog.len(), 39);
    let defaults: Vec<&ThemeEntry> = catalog.iter().filter(|e| e.is_default).collect();
    assert_eq!(defaults.len(), 5);
    for (i, id) in DEFAULT_THEME_IDS.iter().enumerate() {
        assert_eq!(catalog[i].id, *id);
    }
}

#[test]
fn every_default_theme_loads_and_covers_the_contract() {
    for id in DEFAULT_THEME_IDS {
        let theme = load_and_map(id).unwrap_or_else(|_| panic!("{id} must load"));
        for var in CSS_VARS {
            assert!(theme.get(var).is_some() && !theme.get(var).unwrap().is_empty(), "{id} missing {var}");
        }
    }
}

#[test]
fn every_store_entry_loads() {
    for entry in catalog() {
        assert!(load_and_map(&entry.id).is_ok(), "store entry {} failed to load", entry.id);
    }
}

#[test]
fn swatches_return_hex_or_fallback() {
    let (bg, fg, accent) = swatches("catppuccin-mocha");
    assert!(bg.starts_with('#') && fg.starts_with('#') && accent.starts_with('#'));
    assert_eq!(bg, "#11111b");
    assert_eq!(accent, "#cba6f7");
    let (fb, _, _) = swatches("no-such-theme");
    assert_eq!(fb, "#888888");
}

#[test]
fn current_matching_aliases_boot_default() {
    assert!(matches_current("silkcircuit-neon", "default"));
    assert!(matches_current("catppuccin-mocha", "catppuccin-mocha"));
    assert!(!matches_current("catppuccin-mocha", "default"));
}

#[test]
fn catalog_ids_are_unique() {
    let ids: std::collections::HashSet<String> = catalog().iter().map(|e| e.id.clone()).collect();
    assert_eq!(ids.len(), 39);
}

#[test]
fn default_positions_follow_the_declared_order() {
    assert_eq!(default_position("one-light"), 0);
    assert_eq!(default_position("rose-pine"), 4);
    assert_eq!(default_position("nord"), usize::MAX);
    assert_eq!(default_id(), "default");
}

#[test]
fn unknown_theme_reports_its_name() {
    let err = load_and_map("no-such-theme").unwrap_err();
    assert_eq!(err, "unknown opaline theme: no-such-theme");
}

#[test]
fn bright_terminal_colours_are_lighter_than_their_base() {
    let theme = load_and_map("catppuccin-mocha").unwrap();
    let base = theme.get("--term-black").unwrap().to_string();
    let bright = theme.get("--term-bright-black").unwrap().to_string();
    let channel = |s: &str, i: usize| u8::from_str_radix(&s[1 + 2 * i..3 + 2 * i], 16).unwrap();
    for i in 0..3 {
        let b = channel(&base, i) as u32;
        let l = channel(&bright, i) as u32;
        assert_eq!(l, (3 * b + 257) / 4);
    }
}

#[test]
fn opaline_themes_set_exactly_the_contract_variables() {
    for id in DEFAULT_THEME_IDS {
        let theme = load_and_map(id).unwrap();
        assert_eq!(theme.vars().len(), CSS_VARS.len(), "{id}");
        for (name, _) in theme.vars() {
            assert!(CSS_VARS.contains(&name.as_str()), "{id} sets {name}");
        }
    }
}
