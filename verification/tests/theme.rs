use openkite::plugin_api::OPENKITE_BRIDGE_JS;
use openkite::shell_head::bootstrap_head;
use openkite::theme::{builtins, catppuccin_mocha, gpui_dark, import_zed, resolve, zed_key, KiteTheme, ThemeError, CSS_VARS};

#[test]
fn builtin_themes_cover_the_contract() {
    let all = builtins();
    assert_eq!(all.len(), 5);
    let names: Vec<&str> = all.iter().map(|(n, _)| *n).collect();
    assert_eq!(names, vec!["Catppuccin Mocha", "GPUI Dark", "GPUI Light", "Rosé Pine", "Tokyo Night"]);
    let mut sorted = names.clone();
    sorted.sort();
    assert_eq!(names, sorted);
    for (name, theme) in &all {
        assert_eq!(theme.vars().len(), CSS_VARS.len(), "{name}");
        for var in CSS_VARS {
            assert!(theme.get(var).is_some(), "{name} missing {var}");
        }
    }
}

#[test]
fn resolve_falls_back_to_gpui_dark() {
    assert_eq!(resolve(None), gpui_dark());
    assert_eq!(resolve(Some("nope")), gpui_dark());
    assert_eq!(resolve(Some("Catppuccin Mocha")), catppuccin_mocha());
    assert_eq!(catppuccin_mocha().get("--violet"), Some("#cba6f7"));
}

#[test]
fn theme_vars_are_ordered_and_replaced() {
    let theme = KiteTheme::new().with_var("--b", "2").with_var("--a", "1").with_var("--b", "3");
    assert_eq!(theme.get("--b"), Some("3"));
    assert_eq!(theme.get("--c"), None);
    assert_eq!(theme.to_css_vars(), "--a: 1;\n--b: 3;");
    assert_eq!(KiteTheme::default().to_css_vars(), "");
}

#[test]
fn zed_keys_map_onto_the_contract() {
    assert_eq!(zed_key("background"), Some("--bg-0"));
    assert_eq!(zed_key("terminal.ansi.bright_white"), Some("--term-bright-white"));
    assert_eq!(zed_key("editor.background"), None);
}

#[test]
fn theme_error_messages() {
    assert_eq!(ThemeError::MalformedJson.message(), "theme input is not valid JSON");
    assert_eq!(ThemeError::UnknownKey("x".into()).message(), "unknown Zed theme key: x");
    assert_eq!(ThemeError::Io("denied".into()).message(), "theme I/O error: denied");
}

#[test]
fn page_head_wraps_a_stylesheet_and_the_bridge_script() {
    let head = bootstrap_head("body { margin: 0 }");
    assert!(head.starts_with("<style>body { margin: 0 }</style>\n<script>"));
    assert!(head.ends_with("</script>"));
    assert!(head.contains(&format!("<script>{}</script>", OPENKITE_BRIDGE_JS)));
    assert!(head.contains("window.openkite"));
}

#[test]
fn zed_documents_import_flat_and_nested_keys() {
    let theme = import_zed(r##"{"background": "#000000", "terminal": {"ansi": {"black": "#111111"}}}"##).unwrap();
    assert_eq!(theme.get("--bg-0"), Some("#000000"));
    assert_eq!(theme.get("--term-black"), Some("#111111"));
    assert_eq!(theme.vars().len(), 2);
}

#[test]
fn zed_import_rejects_bad_json_and_unknown_keys() {
    assert!(matches!(import_zed("not json"), Err(ThemeError::MalformedJson)));
    assert!(matches!(import_zed("[1, 2]"), Err(ThemeError::MalformedJson)));
    assert!(matches!(import_zed(r#"{"background": 3}"#), Err(ThemeError::MalformedJson)));
    match import_zed(r##"{"backgrund": "#000000"}"##) {
        Err(ThemeError::UnknownKey(k)) => assert_eq!(k, "backgrund"),
        other => panic!("unexpected {other:?}"),
    }
}
