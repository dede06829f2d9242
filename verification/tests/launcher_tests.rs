use cs2_buttplug::config::Config;
use cs2_buttplug::launcher::{
    apply_stored_settings, panel_action, panel_layout, parse_port, port_text,
    remembers_server_url, PanelAction, PanelEvent, StoredSettings,
};

#[test]
fn ports_read_as_u16_from_str_reads_them() {
    for text in ["0", "80", "+80", "00080", "42069", "65535", "+0", "x", "", "+", "-1", "-0", " 80", "80 ", "65536", "99999999999", "1_000", "８０"] {
        assert_eq!(parse_port(text), text.parse::<u16>().ok(), "{:?}", text);
    }
}

#[test]
fn port_examples() {
    assert_eq!(parse_port("42069"), Some(42069));
    assert_eq!(parse_port("+7"), Some(7));
    assert_eq!(parse_port("65536"), None);
    assert_eq!(parse_port("++7"), None);
}

#[test]
fn port_text_is_decimal() {
    assert_eq!(port_text(0), "0");
    assert_eq!(port_text(42069), "42069");
    assert_eq!(port_text(65535), "65535");
    assert_eq!(port_text(10), "10");
}

#[test]
fn remembered_ports_read_back() {
    for p in [0u16, 1, 9, 10, 99, 100, 8080, 42069, 65535] {
        assert_eq!(parse_port(&port_text(p)), Some(p));
        assert_eq!(port_text(p), p.to_string());
    }
}

#[test]
fn stored_settings_replace_the_defaults() {
    let c = apply_stored_settings(
        Config::default(),
        StoredSettings {
            script_dir: Some("E:\\cs2\\cfg".to_string()),
            port: Some("3000".to_string()),
            server_url: Some("ws://10.0.0.2:12345".to_string()),
        },
    );
    assert_eq!(c.cs_script_dir, Some("E:\\cs2\\cfg".to_string()));
    assert_eq!(c.cs_integration_port, 3000);
    assert_eq!(c.buttplug_server_url, "ws://10.0.0.2:12345");
}

#[test]
fn a_stored_port_that_is_no_number_is_ignored() {
    let c = apply_stored_settings(
        Config::default(),
        StoredSettings { script_dir: None, port: Some("port".to_string()), server_url: None },
    );
    assert_eq!(c.cs_integration_port, 42069);
    assert_eq!(c.cs_script_dir, None);
    assert_eq!(c.buttplug_server_url, "ws://127.0.0.1:12345");
}

#[test]
fn only_non_empty_addresses_are_remembered() {
    assert!(remembers_server_url("ws://127.0.0.1:12345"));
    assert!(!remembers_server_url(""));
}

#[test]
fn panel_while_idle_and_running() {
    let idle = panel_layout(false);
    assert!(idle.settings_enabled && !idle.offers_relaunch && !idle.stop_enabled);
    let running = panel_layout(true);
    assert!(!running.settings_enabled && running.offers_relaunch && running.stop_enabled);
}

#[test]
fn panel_actions() {
    assert_eq!(panel_action(false, PanelEvent::StartPressed), PanelAction::Launch);
    assert_eq!(panel_action(true, PanelEvent::StartPressed), PanelAction::Relaunch);
    assert_eq!(panel_action(true, PanelEvent::StopPressed), PanelAction::Shutdown);
    assert_eq!(panel_action(false, PanelEvent::StopPressed), PanelAction::Ignore);
    assert_eq!(panel_action(false, PanelEvent::CloseRequested), PanelAction::Shutdown);
    assert_eq!(panel_action(true, PanelEvent::CloseRequested), PanelAction::Shutdown);
}
