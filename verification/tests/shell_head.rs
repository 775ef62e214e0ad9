use openkite::plugin_api::OPENKITE_BRIDGE_JS;
use openkite::shell_head::bootstrap_head;

const SHELL_CSS: &str = ".app-shell { display: grid; grid-template-columns: 240px 1fr; height: 100vh; }";

#[test]
fn bootstrap_head_wraps_css_and_bridge_script() {
    let head = bootstrap_head(SHELL_CSS);
    assert!(head.starts_with("<style>"));
    assert!(head.contains("</style>\n<script>"));
    assert!(head.ends_with("</script>"));
}

#[test]
fn bootstrap_head_carries_shell_css_and_openkite_global() {
    let head = bootstrap_head(SHELL_CSS);
    assert!(head.contains(".app-shell"));
    assert!(head.contains("window.openkite"));
    assert!(head.contains(&format!("<script>{}</script>", OPENKITE_BRIDGE_JS)));
}

#[test]
fn bootstrap_head_of_an_empty_stylesheet_is_exact() {
    assert_eq!(bootstrap_head(""), format!("<style></style>\n<script>{}</script>", OPENKITE_BRIDGE_JS));
}
