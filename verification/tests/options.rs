use wstunnel::duration::HumanDuration;
use wstunnel::options::TunnelOptions;
use wstunnel::tunnel::{credentials_from_options, proxy_protocol_from_options, timeout_from_options};

fn pairs(list: &[(&str, &str)]) -> Vec<(String, String)> {
    list.iter().map(|(k, v)| (k.to_string(), v.to_string())).collect()
}

#[test]
fn test_tunnel_options() {
    let mut options = TunnelOptions::new();
    assert_eq!(options.len(), 0);
    assert_eq!(options.get("a"), None);
    options.insert("a".to_string(), "1".to_string());
    options.insert("b".to_string(), "2".to_string());
    options.insert("a".to_string(), "3".to_string());
    assert_eq!(options.len(), 2);
    assert_eq!(options.get("a"), Some(&"3".to_string()));
    assert_eq!(options.get("b"), Some(&"2".to_string()));
    assert!(options.contains_key("a"));
    assert!(!options.contains_key("A"));
    assert_eq!(options, TunnelOptions::from_pairs(pairs(&[("a", "0"), ("b", "2"), ("a", "3")])));
}

#[test]
fn test_timeout_from_options() {
    let of = |list: &[(&str, &str)]| timeout_from_options(&TunnelOptions::from_pairs(pairs(list)));
    assert_eq!(of(&[]), Some(HumanDuration::from_secs(30)));
    assert_eq!(of(&[("timeout_sec", "10")]), Some(HumanDuration::from_secs(10)));
    assert_eq!(of(&[("timeout_sec", "0")]), None);
    assert_eq!(of(&[("timeout_sec", "000")]), None);
    assert_eq!(of(&[("timeout_sec", "")]), Some(HumanDuration::from_secs(30)));
    assert_eq!(of(&[("timeout_sec", "-1")]), Some(HumanDuration::from_secs(30)));
    assert_eq!(of(&[("timeout_sec", "1s")]), Some(HumanDuration::from_secs(30)));
    assert_eq!(of(&[("timeout_sec", "18446744073709551616")]), Some(HumanDuration::from_secs(30)));
    assert_eq!(of(&[("timeout_sec", "5"), ("timeout_sec", "0")]), None);
    assert_eq!(of(&[("timeout", "5")]), Some(HumanDuration::from_secs(30)));
}

#[test]
fn test_credentials_from_options() {
    let of = |list: &[(&str, &str)]| credentials_from_options(&TunnelOptions::from_pairs(pairs(list)));
    assert_eq!(of(&[("login", "a"), ("password", "b")]), Some(("a".to_string(), "b".to_string())));
    assert_eq!(of(&[("password", "b"), ("login", "a")]), Some(("a".to_string(), "b".to_string())));
    assert_eq!(of(&[("login", "a")]), None);
    assert_eq!(of(&[("password", "b")]), None);
    assert_eq!(of(&[]), None);
    assert_eq!(of(&[("login", ""), ("password", "")]), Some((String::new(), String::new())));
}

#[test]
fn test_proxy_protocol_from_options() {
    let of = |list: &[(&str, &str)]| proxy_protocol_from_options(&TunnelOptions::from_pairs(pairs(list)));
    assert!(of(&[("proxy_protocol", "")]));
    assert!(of(&[("a", "b"), ("proxy_protocol", "false")]));
    assert!(!of(&[("proxy-protocol", "")]));
    assert!(!of(&[]));
}
