use wstunnel::addr::{Host, Ipv4Address, Ipv6Address};
use wstunnel::error::ErrorKind;
use wstunnel::protocol::TransportScheme;
use wstunnel::weburl::{parse_server_url, server_url_from_parsed, ParsedUrl};

#[test]
fn test_parse_server_url() {
    let url = parse_server_url("wss://wstunnel.example.com").unwrap();
    assert_eq!(url.text, "wss://wstunnel.example.com/");
    assert_eq!(url.scheme, "wss");
    assert_eq!(url.host, Some(Host::Domain("wstunnel.example.com".to_string())));
    assert_eq!(url.port, None);
    assert_eq!(url.transport(), Some(TransportScheme::Wss));
    let url = parse_server_url("ws://127.0.0.1:8080").unwrap();
    assert_eq!(url.text, "ws://127.0.0.1:8080/");
    assert_eq!(url.host, Some(Host::Ipv4(Ipv4Address { octets: [127, 0, 0, 1] })));
    assert_eq!(url.port, Some(8080));
    assert_eq!(url.transport(), Some(TransportScheme::Ws));
    let url = parse_server_url("HTTPS://[::1]:443/path?a=1&b=two%20words").unwrap();
    assert_eq!(url.text, "https://[::1]/path?a=1&b=two%20words");
    assert_eq!(url.host, Some(Host::Ipv6(Ipv6Address { segments: [0, 0, 0, 0, 0, 0, 0, 1] })));
    assert_eq!(url.port, None);
    assert_eq!(url.query, vec![("a".to_string(), "1".to_string()), ("b".to_string(), "two words".to_string())]);
    assert_eq!(url.transport(), Some(TransportScheme::Https));
    assert_eq!(parse_server_url("http://0.0.0.0:80").unwrap().transport(), Some(TransportScheme::Http));
}

#[test]
fn test_parse_server_url_errors() {
    let e = parse_server_url("not a url").unwrap_err();
    assert_eq!((e.kind, e.subject.as_str()), (ErrorKind::ServerUrl, "not a url"));
    assert_eq!(e.message(), "cannot parse server url not a url");
    let e = parse_server_url("ftp://example.com").unwrap_err();
    assert_eq!((e.kind, e.subject.as_str()), (ErrorKind::Scheme, "ftp"));
    assert_eq!(e.message(), "invalid scheme ftp");
    let e = parse_server_url("unix:/run/foo.socket").unwrap_err();
    assert_eq!(e.kind, ErrorKind::Scheme);
    let e = parse_server_url("ws://").unwrap_err();
    assert_eq!(e.kind, ErrorKind::ServerUrl);
}

#[test]
fn test_server_url_from_parsed_by_cases() {
    let e = server_url_from_parsed("x", None).unwrap_err();
    assert_eq!((e.kind, e.subject.as_str()), (ErrorKind::ServerUrl, "x"));
    let url = ParsedUrl {
        text: "ws:/x".to_string(),
        scheme: "ws".to_string(),
        host: None,
        port: None,
        query: vec![],
    };
    let e = server_url_from_parsed("ws:/x", Some(url.clone())).unwrap_err();
    assert_eq!((e.kind, e.subject.as_str()), (ErrorKind::ServerHost, "ws:/x"));
    assert_eq!(e.message(), "invalid server host ws:/x");
    let url = ParsedUrl { scheme: "wsx".to_string(), ..url };
    let e = server_url_from_parsed("wsx:/x", Some(url.clone())).unwrap_err();
    assert_eq!((e.kind, e.subject.as_str()), (ErrorKind::Scheme, "wsx"));
    let url = ParsedUrl { scheme: "https".to_string(), host: Some(Host::Domain("x".to_string())), ..url };
    assert_eq!(server_url_from_parsed("anything", Some(url.clone())).unwrap(), url);
}

#[test]
fn test_parse_any_url() {
    let url = ParsedUrl::parse("dns+https://1.1.1.1?sni=cloudflare-dns.com").unwrap();
    assert_eq!(url.scheme, "dns+https");
    assert_eq!(url.query, vec![("sni".to_string(), "cloudflare-dns.com".to_string())]);
    assert_eq!(url.transport(), None);
    assert_eq!(ParsedUrl::parse("1.1.1.1"), None);
}

#[test]
fn test_transport_scheme() {
    assert_eq!(
        TransportScheme::values(),
        [TransportScheme::Ws, TransportScheme::Wss, TransportScheme::Http, TransportScheme::Https]
    );
    assert_eq!(TransportScheme::Ws.to_str(), "ws");
    assert_eq!(TransportScheme::Wss.to_str(), "wss");
    assert_eq!(TransportScheme::Http.to_str(), "http");
    assert_eq!(TransportScheme::Https.to_str(), "https");
}
