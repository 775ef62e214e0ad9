use openkite::test_bridge::{enabled_for, parse_port, DISPATCHER_JS};

#[test]
fn dispatcher_js_starts_the_pump() {
    assert!(
        DISPATCHER_JS.contains("return __openkite_bridge_loop(dioxus);"),
        "dispatcher must keep the eval alive via the returned loop promise"
    );
}

#[test]
fn disabled_when_env_unset() {
    assert!(!enabled_for(None));
}

#[test]
fn port_values_are_trimmed_u16_and_zero_disables() {
    assert_eq!(parse_port("8080"), Some(8080));
    assert_eq!(parse_port(" 9000\n"), Some(9000));
    assert_eq!(parse_port("+42"), Some(42));
    assert_eq!(parse_port("65535"), Some(65535));
    assert_eq!(parse_port("65536"), None);
    assert_eq!(parse_port("0"), None);
    assert_eq!(parse_port(""), None);
    assert_eq!(parse_port("80a"), None);
    assert_eq!(parse_port("-1"), None);
    assert!(enabled_for(Some("4000")));
    assert!(!enabled_for(Some("nope")));
}
