//! The configuration and its settings.

use torrentfs::download::wait::read_timeout;
use torrentfs::infrastructure::config::sections::{
    ConcurrencyConfig, PiecePriorityToml, DEFAULT_QUEUE_DEPTH,
};
use torrentfs::infrastructure::config::{
    text_or_empty_object, unless_empty_object, TorrentfsConfig,
};

#[test]
fn test_default_config_is_empty_json() {
    let config = TorrentfsConfig::default();
    let json = config.to_settings_json();
    assert_eq!(json, "{}");
    assert_eq!(config.settings_to_apply(), None);
}

#[test]
fn test_settings_json_with_values() {
    let mut config = TorrentfsConfig::default();
    config.connections.listen_interfaces = Some("0.0.0.0:6881".to_string());
    config.connections.max_connections = Some(200);
    config.dht.enabled = Some(true);
    let json = config.to_settings_json();
    assert!(json.contains("listen_interfaces"));
    assert!(json.contains("0.0.0.0:6881"));
    assert!(json.contains("max_connections"));
    assert!(json.contains("200"));
    assert!(json.contains("enable_dht"));
    assert!(json.contains("true"));
    assert_eq!(
        json,
        r#"{"enable_dht":true,"listen_interfaces":"0.0.0.0:6881","max_connections":200}"#
    );
    assert_eq!(config.settings_to_apply(), Some(json));
}

#[test]
fn test_read_timeout_config() {
    // Default: read_timeout_secs not set → defaults to 30
    let default_config = TorrentfsConfig::default_config();
    assert_eq!(read_timeout(default_config.timeouts.read_timeout_secs), 30);

    // Custom timeout
    let mut config = TorrentfsConfig::default();
    config.timeouts.read_timeout_secs = Some(10);
    assert_eq!(config.timeouts.read_timeout_secs, Some(10));
    assert_eq!(read_timeout(config.timeouts.read_timeout_secs), 10);
    assert_eq!(read_timeout(Some(0)), 30);
    assert_eq!(read_timeout(Some(-5)), 30);
    // It is not told to the session.
    assert_eq!(config.to_settings_json(), "{}");
}

#[test]
fn an_object_that_cannot_be_written_is_an_empty_one() {
    assert_eq!(text_or_empty_object(None), "{}");
    assert_eq!(text_or_empty_object(Some("[]".to_string())), "[]");
    assert_eq!(unless_empty_object("{}".to_string()), None);
    assert_eq!(
        unless_empty_object("{\"a\":1}".to_string()),
        Some("{\"a\":1}".to_string())
    );
}

#[test]
fn every_kind_of_setting_is_written() {
    let mut config = TorrentfsConfig::default();
    config.local_discovery.lsd_enabled = Some(false);
    config.proxy.proxy_type = Some("socks5".to_string());
    config.proxy.host = Some(String::new());
    config.proxy.port = Some(-1);
    config.auto_manage.share_ratio_limit = serde_json::Number::from_f64(1.5);
    config.user_agent.user_agent = Some("a \"b\"\n".to_string());
    config.alert.alert_mask = Some(i64::MAX);
    let json = config.to_settings_json();
    assert_eq!(
        json,
        r#"{"alert_mask":9223372036854775807,"enable_lsd":false,"port":-1,"proxy_type":"socks5","share_ratio_limit":1.5,"user_agent":"a \"b\"\n"}"#
    );
    // The text is read back as what was put in.
    let back: serde_json::Value = serde_json::from_str(&json).unwrap();
    assert_eq!(back["user_agent"], "a \"b\"\n");
}

#[test]
fn limits_of_this_program_have_defaults() {
    let unset = ConcurrencyConfig::default();
    assert_eq!(unset.workers(8), 8);
    assert_eq!(unset.workers(0), 1);
    assert_eq!(unset.queue_depth(), DEFAULT_QUEUE_DEPTH);
    let set = ConcurrencyConfig {
        download_workers: Some(3),
        download_queue_depth: Some(5),
    };
    assert_eq!((set.workers(8), set.queue_depth()), (3, 5));
    assert!(PiecePriorityToml::default().step_priorities.is_none());
}
