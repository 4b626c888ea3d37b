use freecaster_grid::config::{
    AnnouncementMode, Config, ConfigError, EnvOverrides, GridConfig, LegacyConfig, LocalConfig,
    NodeConfig, ServerConfig, apply_env_overrides, flag_enabled, parse_announcement_mode,
};

fn server() -> ServerConfig {
    ServerConfig { host: "0.0.0.0:8000".to_string(), ssl: false, cert_path: None, key_path: None }
}

fn node(name: &str) -> NodeConfig {
    NodeConfig {
        name: name.to_string(),
        telegram_handle: None,
        address: format!("https://{name}.example"),
    }
}

fn no_overrides() -> EnvOverrides {
    EnvOverrides {
        name: None,
        telegram_token: None,
        telegram_chat_id: None,
        secret_key: None,
        poll_time: None,
        announcement_mode: None,
        webui_enabled: None,
        server_host: None,
        server_ssl: None,
        server_cert_path: None,
        server_key_path: None,
    }
}

#[test]
fn legacy_layout_maps_field_for_field() {
    let legacy = LegacyConfig {
        name: "c".to_string(),
        telegram_token: "tok".to_string(),
        telegram_chat_id: -42,
        secret_key: "s3".to_string(),
        poll_time: Some(10),
        announcement_mode: AnnouncementMode::Log,
        server: server(),
        nodes: vec![node("a"), node("b")],
        webui_enabled: true,
    };
    let c = Config::from_legacy(legacy);
    assert_eq!(c.name, "c");
    assert_eq!(c.telegram_token, "tok");
    assert_eq!(c.telegram_chat_id, -42);
    assert_eq!(c.secret_key, "s3");
    assert_eq!(c.poll_time, Some(10));
    assert_eq!(c.announcement_mode, AnnouncementMode::Log);
    assert_eq!(c.nodes.len(), 2);
    assert!(c.webui_enabled);
}

#[test]
fn split_layout_merges_local_and_grid() {
    let local = LocalConfig {
        name: "c".to_string(),
        server: server(),
        webui_enabled: false,
        grid_config_path: Some("grid.yml".to_string()),
        grid_config_url: None,
        auto_update_grid_config: false,
    };
    let grid = GridConfig {
        telegram_token: "tok".to_string(),
        telegram_chat_id: 5,
        secret_key: "s3".to_string(),
        poll_time: None,
        announcement_mode: AnnouncementMode::Telegram,
        nodes: vec![node("a")],
    };
    let c = Config::from_split(local, grid);
    assert_eq!(c.name, "c");
    assert_eq!(c.telegram_chat_id, 5);
    assert_eq!(c.secret_key, "s3");
    assert_eq!(c.poll_time, None);
    assert_eq!(c.nodes.len(), 1);
    assert!(!c.webui_enabled);
}

fn base_config() -> Config {
    Config {
        name: "c".to_string(),
        telegram_token: "tok".to_string(),
        telegram_chat_id: 1,
        secret_key: "s3".to_string(),
        poll_time: None,
        announcement_mode: AnnouncementMode::Telegram,
        server: server(),
        nodes: vec![node("a"), node("c"), node("b")],
        webui_enabled: false,
    }
}

#[test]
fn the_roster_loses_this_node_itself() {
    let mut c = base_config();
    c.remove_self_from_roster();
    let names: Vec<&str> = c.nodes.iter().map(|n| n.name.as_str()).collect();
    assert_eq!(names, vec!["a", "b"]);
}

#[test]
fn mode_keywords_are_case_insensitive() {
    assert_eq!(parse_announcement_mode("telegram"), Some(AnnouncementMode::Telegram));
    assert_eq!(parse_announcement_mode("Telegram"), Some(AnnouncementMode::Telegram));
    assert_eq!(parse_announcement_mode("LOG"), Some(AnnouncementMode::Log));
    assert_eq!(parse_announcement_mode("log"), Some(AnnouncementMode::Log));
    assert_eq!(parse_announcement_mode("chat"), None);
    assert_eq!(parse_announcement_mode(""), None);
}

#[test]
fn switch_values() {
    assert!(flag_enabled("1"));
    assert!(flag_enabled("true"));
    assert!(flag_enabled("yes"));
    assert!(flag_enabled("on"));
    assert!(!flag_enabled("0"));
    assert!(!flag_enabled("TRUE"));
    assert!(!flag_enabled("off"));
}

#[test]
fn overrides_apply_field_by_field() {
    let mut c = base_config();
    let mut o = no_overrides();
    o.name = Some("z".to_string());
    o.telegram_chat_id = Some("-77".to_string());
    o.poll_time = Some("30s".to_string());
    o.announcement_mode = Some("log".to_string());
    o.webui_enabled = Some("yes".to_string());
    o.server_host = Some("127.0.0.1:9".to_string());
    assert_eq!(apply_env_overrides(&mut c, o), Ok(()));
    assert_eq!(c.name, "z");
    assert_eq!(c.telegram_chat_id, -77);
    assert_eq!(c.poll_time, Some(30));
    assert_eq!(c.announcement_mode, AnnouncementMode::Log);
    assert!(c.webui_enabled);
    assert_eq!(c.server.host, "127.0.0.1:9");
    // Untouched fields stay.
    assert_eq!(c.secret_key, "s3");
    assert_eq!(c.nodes.len(), 3);
}

#[test]
fn invalid_override_values_are_refused_without_half_applying() {
    let mut c = base_config();
    let mut o = no_overrides();
    o.name = Some("z".to_string());
    o.telegram_chat_id = Some("not-a-number".to_string());
    assert_eq!(apply_env_overrides(&mut c, o), Err(ConfigError::InvalidTelegramChatId));
    assert_eq!(c.name, "c");

    let mut o = no_overrides();
    o.poll_time = Some("soon".to_string());
    assert_eq!(apply_env_overrides(&mut c, o), Err(ConfigError::InvalidPollTime));

    let mut o = no_overrides();
    o.announcement_mode = Some("shout".to_string());
    assert_eq!(apply_env_overrides(&mut c, o), Err(ConfigError::InvalidAnnouncementMode));
}

#[test]
fn over_long_poll_time_override_is_refused() {
    let mut c = base_config();
    let mut o = no_overrides();
    o.poll_time = Some("1hour 1minute 1second".to_string());
    assert_eq!(apply_env_overrides(&mut c, o), Err(ConfigError::InvalidPollTime));
    let mut o = no_overrides();
    o.poll_time = Some("19minutes 19seconds".to_string());
    assert_eq!(apply_env_overrides(&mut c, o), Ok(()));
    assert_eq!(c.poll_time, Some(19 * 60 + 19));
}
