use picast::config::{choose_source, AppConfig, ConfigSource, Environment};

#[test]
fn default_config_values() {
    let config = AppConfig::default();
    assert_eq!(config.server.http_addr, "0.0.0.0:8585");
    assert_eq!(config.server.ws_addr, "0.0.0.0:8586");
    assert_eq!(config.server.db_path, "/var/lib/picast/sessions.db");
    assert_eq!(config.tor.socks_addr, "127.0.0.1:9050");
    assert_eq!(config.tor.control_port, 9051);
    assert_eq!(config.tor.cookie_path, "/run/tor/control.authcookie");
    assert_eq!(config.display.drm_device, "");
    assert_eq!(config.dlna.friendly_name, "PiCast");
    assert_eq!(config.logging.level, "info");
}

#[test]
fn merge_env_overrides_config() {
    let mut config = AppConfig::default();
    assert_eq!(config.server.http_addr, "0.0.0.0:8585");

    let env = Environment { http_addr: Some("0.0.0.0:9999".into()), ..Default::default() };
    config.merge_env(&env);
    assert_eq!(config.server.http_addr, "0.0.0.0:9999");
}

#[test]
fn merge_env_applies_defaults_for_unset() {
    let mut config = AppConfig::default();
    config.merge_env(&Environment::default());
    assert_eq!(config.server.http_addr, "0.0.0.0:8585");
    assert_eq!(config.tor.socks_addr, "127.0.0.1:9050");
}

#[test]
fn load_from_file_missing_returns_defaults() {
    assert!(matches!(choose_source(None, false, &[false, false, false]), ConfigSource::Defaults));
    let config = AppConfig::load(None, &Environment::default());
    assert_eq!(config.server.http_addr, "0.0.0.0:8585");
}
