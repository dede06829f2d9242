use cs2_buttplug::config::Config;

#[test]
fn default_config_points_at_a_standard_intiface_install() {
    let c = Config::default();
    assert_eq!(c.buttplug_server_url, "ws://127.0.0.1:12345");
    assert_eq!(c.cs_integration_port, 42069);
    assert_eq!(c.cs_script_dir, None);
}

#[test]
fn script_dir_defaults_to_the_steam_location() {
    let c = Config::default();
    assert_eq!(
        c.script_dir(),
        "C:\\Program Files (x86)\\Steam\\steamapps\\common\\Counter-Strike Global Offensive\\game\\csgo\\cfg"
    );
}

#[test]
fn script_dir_uses_the_configured_directory() {
    let mut c = Config::default();
    c.cs_script_dir = Some("D:\\Games\\cs2\\game\\csgo\\cfg".to_string());
    assert_eq!(c.script_dir(), "D:\\Games\\cs2\\game\\csgo\\cfg");
}
