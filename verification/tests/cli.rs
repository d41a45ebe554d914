use wstunnel::cli::{
    config_format, is_remote_addr_missing, merge_log_level, merge_no_color, select_mode,
    silences_h2_codec, uses_stdio, ConfigFormat, Mode, ModeError,
};
use wstunnel::config::Client;
use wstunnel::tunnel::parse_tunnel_arg;
use wstunnel::weburl::parse_server_url;

#[test]
fn test_config_format() {
    assert_eq!(config_format(Some("yaml")), ConfigFormat::Yaml);
    assert_eq!(config_format(Some("yml")), ConfigFormat::Yaml);
    assert_eq!(config_format(Some("toml")), ConfigFormat::Toml);
    assert_eq!(config_format(Some("json")), ConfigFormat::Json);
    assert_eq!(config_format(Some("JSON")), ConfigFormat::Yaml);
    assert_eq!(config_format(Some("conf")), ConfigFormat::Yaml);
    assert_eq!(config_format(Some("")), ConfigFormat::Yaml);
    assert_eq!(config_format(None), ConfigFormat::Yaml);
}

#[test]
fn test_select_mode() {
    assert_eq!(select_mode(Some("client"), true, false), Ok(Mode::Client));
    assert_eq!(select_mode(Some("client"), true, true), Ok(Mode::Client));
    assert_eq!(select_mode(Some("client"), false, true), Err(ModeError::ClientMissing));
    assert_eq!(select_mode(Some("server"), false, true), Ok(Mode::Server));
    assert_eq!(select_mode(Some("server"), true, true), Ok(Mode::Server));
    assert_eq!(select_mode(Some("server"), true, false), Err(ModeError::ServerMissing));
    assert_eq!(select_mode(Some("relay"), true, true), Err(ModeError::UnknownMode("relay".to_string())));
    assert_eq!(select_mode(Some("Client"), true, true), Err(ModeError::UnknownMode("Client".to_string())));
    assert_eq!(select_mode(None, true, false), Ok(Mode::Client));
    assert_eq!(select_mode(None, false, true), Ok(Mode::Server));
    assert_eq!(select_mode(None, true, true), Err(ModeError::BothSections));
    assert_eq!(select_mode(None, false, false), Err(ModeError::NoSection));
}

#[test]
fn test_mode_error_message() {
    assert_eq!(
        ModeError::UnknownMode("relay".to_string()).message(),
        "Invalid mode 'relay' in config file. Must be 'client' or 'server'"
    );
    assert_eq!(
        ModeError::ClientMissing.message(),
        "Config file specifies mode='client' but no client configuration found"
    );
    assert_eq!(
        ModeError::ServerMissing.message(),
        "Config file specifies mode='server' but no server configuration found"
    );
    assert_eq!(
        ModeError::NoSection.message(),
        "Config file does not contain client or server configuration"
    );
    assert!(ModeError::BothSections.message().starts_with("Config file contains both client and server sections."));
}

#[test]
fn test_merge_log_level() {
    assert_eq!(merge_log_level("INFO".to_string(), Some("DEBUG".to_string())), "DEBUG");
    assert_eq!(merge_log_level("INFO".to_string(), None), "INFO");
    assert_eq!(merge_log_level("WARN".to_string(), Some("DEBUG".to_string())), "WARN");
    assert_eq!(merge_log_level("info".to_string(), Some("DEBUG".to_string())), "info");
}

#[test]
fn test_merge_no_color() {
    assert_eq!(merge_no_color(None, Some(true)), Some("1".to_string()));
    assert_eq!(merge_no_color(None, Some(false)), None);
    assert_eq!(merge_no_color(None, None), None);
    assert_eq!(merge_no_color(Some("yes".to_string()), Some(false)), Some("yes".to_string()));
    assert_eq!(merge_no_color(Some("".to_string()), None), Some("".to_string()));
}

#[test]
fn test_is_remote_addr_missing() {
    let default = Client::default().remote_addr;
    assert!(is_remote_addr_missing(&default, "ws://127.0.0.1:8080/", false));
    assert!(!is_remote_addr_missing(&default, "ws://127.0.0.1:8080/", true));
    assert!(is_remote_addr_missing(&None, "ws://127.0.0.1:8080/", false));
    let given = Some(parse_server_url("wss://example.com").unwrap());
    assert!(!is_remote_addr_missing(&given, "ws://127.0.0.1:8080/", false));
    assert!(!is_remote_addr_missing(&given, "ws://127.0.0.1:8080/", true));
}

#[test]
fn test_silences_h2_codec() {
    assert!(silences_h2_codec("INFO"));
    assert!(silences_h2_codec("wstunnel=debug,h2"));
    assert!(silences_h2_codec(""));
    assert!(!silences_h2_codec("INFO,h2::codec=trace"));
    assert!(!silences_h2_codec("h2=debug"));
    assert!(!silences_h2_codec("oh2=debug"));
}

#[test]
fn test_uses_stdio() {
    let tcp = parse_tunnel_arg("tcp://1:h:2").unwrap();
    let stdio = parse_tunnel_arg("stdio://h:2").unwrap();
    assert!(!uses_stdio(&vec![]));
    assert!(!uses_stdio(&vec![tcp.clone(), tcp.clone()]));
    assert!(uses_stdio(&vec![tcp.clone(), stdio.clone()]));
    assert!(uses_stdio(&vec![stdio, tcp]));
}
