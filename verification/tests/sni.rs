use wstunnel::error::ErrorKind;
use wstunnel::sni::{deserialize_dns_name, parse_sni_override, serialize_dns_name};

#[test]
fn test_parse_sni_override() {
    for name in ["example.com", "a.b.c.example", "localhost", "xn--caf-dma.fr", "under_score.example", "example.com.", "1a.2b"] {
        assert_eq!(parse_sni_override(name).unwrap().as_str(), name);
    }
    for bad in ["", "exa mple.com", "-a.com", "a-.com", "a..com", ".com", "1.2.3.4", "caf\u{e9}.fr", "a/b"] {
        let e = parse_sni_override(bad).unwrap_err();
        assert_eq!(e.kind, ErrorKind::SniOverride);
        assert_eq!(e.subject, bad);
    }
    assert!(parse_sni_override(&format!("{}.com", "a".repeat(63))).is_ok());
    assert!(parse_sni_override(&format!("{}.com", "a".repeat(64))).is_err());
    assert_eq!(
        parse_sni_override("exa mple.com").unwrap_err().message(),
        "Invalid sni override: exa mple.com"
    );
}

#[test]
fn test_serialize_dns_name() {
    assert_eq!(serialize_dns_name(&None), None);
    let name = deserialize_dns_name(Some("example.com")).unwrap();
    assert_eq!(serialize_dns_name(&name), Some("example.com".to_string()));
    assert_eq!(deserialize_dns_name(None).unwrap(), None);
    assert_eq!(deserialize_dns_name(Some("a b")).unwrap_err().kind, ErrorKind::SniOverride);
}
