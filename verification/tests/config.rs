use botarr::api::{apply_settings_update, priority_from_str, UpdateSettingsRequest};
use botarr::config::{AppConfig, XdccConfig};
use botarr::transfer::TransferPriority;

#[test]
fn test_config_default_values() {
    let config = AppConfig::default();
    assert!(config.use_ssl);
    assert_eq!(config.connect_timeout, 15);
    assert_eq!(config.general_timeout, 120);
    assert_eq!(config.nickname, "botarr");
    assert_eq!(config.max_retries, 3);
    assert!(config.resume_enabled);
}

#[test]
fn test_network_resolution_explicit() {
    let config = AppConfig::default();
    let (host, port, ssl, _, _) = config.resolve_network("SceneP2P");
    assert_eq!(host, "irc.scenep2p.net");
    assert_eq!(port, 6697);
    assert!(ssl);
}

#[test]
fn test_network_resolution_hostname() {
    let config = AppConfig::default();
    let (host, port, ssl, _, _) = config.resolve_network("irc.example.com");
    assert_eq!(host, "irc.example.com");
    assert_eq!(port, 6697);
    assert!(ssl);
}

#[test]
fn test_network_resolution_heuristic() {
    let config = AppConfig::default();
    let (host, _port, _ssl, _, _) = config.resolve_network("UnknownNet");
    assert_eq!(host, "irc.unknownnet.net");
}

#[test]
fn test_network_resolution_case_insensitive() {
    let config = AppConfig::default();
    let (host, _, _, _, _) = config.resolve_network("rizon");
    assert_eq!(host, "irc.rizon.net");
}

#[test]
fn test_port_range_validation() {
    let config = AppConfig::default();
    assert!(config.dcc_port_min < config.dcc_port_max);
    assert!(config.dcc_port_min >= 1024);
}

#[test]
fn test_timeout_bounds() {
    let config = AppConfig::default();
    assert!(config.connect_timeout > 0);
    assert!(config.connect_timeout <= 60);
    assert!(config.general_timeout >= config.connect_timeout);
}

#[test]
fn test_client_config_default_nickname() {
    let config = XdccConfig::default();
    assert!(config.nickname.starts_with("botarr"));
    assert!(config.nickname.len() <= "botarr".len() + 4);
    assert!(config.use_ssl);
    assert!(config.resume_enabled);
}

#[test]
fn test_settings_update_clamps() {
    let mut config = AppConfig::default();
    let req = UpdateSettingsRequest {
        use_ssl: Some(false),
        connect_timeout: Some(1),
        general_timeout: Some(9999),
        proxy_enabled: None,
        proxy_url: None,
        nickname: Some("other".to_string()),
        username: None,
        realname: None,
        max_retries: Some(99),
        retry_delay: Some(1),
        queue_limit: Some(0),
        passive_dcc: None,
        dcc_port_min: Some(80),
        dcc_port_max: None,
        resume_enabled: Some(false),
        enabled_providers: None,
        results_per_page: Some(1000),
        search_timeout: Some(5),
    };
    apply_settings_update(&mut config, req);
    assert!(!config.use_ssl);
    assert_eq!(config.connect_timeout, 5);
    assert_eq!(config.general_timeout, 300);
    assert_eq!(config.nickname, "other");
    assert_eq!(config.max_retries, 10);
    assert_eq!(config.retry_delay, 5);
    assert_eq!(config.queue_limit, 1);
    assert_eq!(config.dcc_port_min, 1024);
    assert!(!config.resume_enabled);
    assert_eq!(config.results_per_page, 200);
    assert_eq!(config.search_timeout, 10);
    assert_eq!(config.username, "botarr");
}

#[test]
fn test_priority_words() {
    assert!(matches!(priority_from_str("low"), TransferPriority::Low));
    assert!(matches!(priority_from_str("high"), TransferPriority::High));
    assert!(matches!(priority_from_str("urgent"), TransferPriority::Urgent));
    assert!(matches!(priority_from_str("normal"), TransferPriority::Normal));
    assert!(matches!(priority_from_str("??"), TransferPriority::Normal));
}
