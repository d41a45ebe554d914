use wstunnel::addr::{BindAddress, Host, IpAddress, Ipv4Address, Ipv6Address};
use wstunnel::duration::HumanDuration;
use wstunnel::error::ErrorKind;
use wstunnel::protocol::LocalProtocol;
use wstunnel::tunnel::{
    deserialize_reverse_local_to_remote, format_local_to_remote, parse_local_bind,
    parse_reverse_tunnel_arg, parse_route, parse_tunnel_arg, parse_tunnel_dest,
    serialize_reverse_local_to_remote, tunnel_dest_from_url, LocalToRemote, SchemeKind,
};
use wstunnel::weburl::ParsedUrl;

fn v4(a: u8, b: u8, c: u8, d: u8, port: u16) -> BindAddress {
    BindAddress { ip: IpAddress::V4(Ipv4Address { octets: [a, b, c, d] }), port }
}

fn v6(segments: [u16; 8], port: u16) -> BindAddress {
    BindAddress { ip: IpAddress::V6(Ipv6Address { segments }), port }
}

fn domain(name: &str) -> Host {
    Host::Domain(name.to_string())
}

#[test]
fn test_parse_tunnel_dest_with_domain() {
    let (host, port, options) = parse_tunnel_dest("localhost:443").unwrap();
    assert_eq!(host, domain("localhost"));
    assert_eq!(port, 443);
    assert_eq!(options.len(), 0);
}

#[test]
fn test_parse_tunnel_dest_with_domain_and_options() {
    let (host, port, options) = parse_tunnel_dest("localhost:443?timeout_sec=0").unwrap();
    assert_eq!(host, domain("localhost"));
    assert_eq!(port, 443);
    assert_eq!(options.len(), 1);
    assert_eq!(options.get("timeout_sec"), Some(&"0".to_string()));
}

#[test]
fn test_parse_tunnel_dest_with_ipv4() {
    let (host, port, options) = parse_tunnel_dest("127.0.0.1:443").unwrap();
    assert_eq!(host, Host::Ipv4(Ipv4Address { octets: [127, 0, 0, 1] }));
    assert_eq!(port, 443);
    assert_eq!(options.len(), 0);
}

#[test]
fn test_parse_tunnel_dest_with_ipv6() {
    let (host, port, options) = parse_tunnel_dest("[::1]:8080").unwrap();
    assert_eq!(host, Host::Ipv6(Ipv6Address { segments: [0, 0, 0, 0, 0, 0, 0, 1] }));
    assert_eq!(port, 8080);
    assert_eq!(options.len(), 0);
}

#[test]
fn test_parse_tunnel_dest_with_options() {
    let (host, port, options) = parse_tunnel_dest("a:1?timeout_sec=30&b=5").unwrap();
    assert_eq!(host, domain("a"));
    assert_eq!(port, 1);
    assert_eq!(options.len(), 2);
    assert_eq!(options.get("b"), Some(&"5".to_string()));
    assert_eq!(options.get("timeout_sec"), Some(&"30".to_string()));
    assert_eq!(options.get("c"), None);
    assert!(options.contains_key("b"));
    assert!(!options.contains_key("proxy_protocol"));
}

#[test]
fn test_parse_tunnel_dest_keeps_the_later_of_two_values() {
    let (_, _, options) = parse_tunnel_dest("a:1?x=1&y=2&x=3").unwrap();
    assert_eq!(options.len(), 2);
    assert_eq!(options.get("x"), Some(&"3".to_string()));
    assert_eq!(options.get("y"), Some(&"2".to_string()));
}

#[test]
fn test_parse_tunnel_dest_errors() {
    let e = parse_tunnel_dest("a b:1").unwrap_err();
    assert_eq!(e.kind, ErrorKind::Remote);
    assert_eq!(e.subject, "a b:1");
    assert_eq!(e.message(), "cannot parse remote from a b:1");
    let e = parse_tunnel_dest("localhost").unwrap_err();
    assert_eq!(e.kind, ErrorKind::RemotePort);
    assert_eq!(e.subject, "localhost");
    assert_eq!(e.message(), "cannot parse remote port from localhost");
}

#[test]
fn test_tunnel_dest_from_url_by_cases() {
    let e = tunnel_dest_from_url("x:1", None).unwrap_err();
    assert_eq!(e.kind, ErrorKind::Remote);
    let url = ParsedUrl {
        text: "https://x/".to_string(),
        scheme: "https".to_string(),
        host: None,
        port: Some(1),
        query: vec![],
    };
    let e = tunnel_dest_from_url("x:1", Some(url)).unwrap_err();
    assert_eq!(e.kind, ErrorKind::RemoteHost);
    assert_eq!(e.message(), "cannot parse remote host from x:1");
    let url = ParsedUrl {
        text: "https://x/".to_string(),
        scheme: "https".to_string(),
        host: Some(domain("x")),
        port: None,
        query: vec![("k".to_string(), "v".to_string())],
    };
    let (host, port, options) = tunnel_dest_from_url("x:443?k=v", Some(url.clone())).unwrap();
    assert_eq!((host, port), (domain("x"), 443));
    assert_eq!(options.get("k"), Some(&"v".to_string()));
    let (_, port, _) = tunnel_dest_from_url("x:443", Some(url.clone())).unwrap();
    assert_eq!(port, 443);
    let e = tunnel_dest_from_url("x:4430", Some(url)).unwrap_err();
    assert_eq!(e.kind, ErrorKind::RemotePort);
}

#[test]
fn test_parse_local_bind_with_domain() {
    assert!(matches!(parse_local_bind("domain.com:443"), Err(_)));
}

#[test]
fn test_parse_local_bind_with_no_port() {
    assert!(matches!(parse_local_bind("127.0.0.1"), Err(_)));
}

#[test]
fn test_parse_local_bind_with_too_long_port() {
    assert!(matches!(parse_local_bind("127.0.0.1:444444443"), Err(_)));
}

#[test]
fn test_parse_local_bind_with_ipv4() {
    let (bind, rest) = parse_local_bind("127.0.0.1:443").unwrap();
    assert_eq!(bind, v4(127, 0, 0, 1, 443));
    assert_eq!(rest, "");
}

#[test]
fn test_parse_local_bind_with_ipv6() {
    let (bind, rest) = parse_local_bind("[::1]:443").unwrap();
    assert_eq!(bind, v6([0, 0, 0, 0, 0, 0, 0, 1], 443));
    assert_eq!(rest, "");
}

#[test]
fn test_parse_local_bind_gives_the_rest() {
    let (bind, rest) = parse_local_bind("443:domain.com:4443?x=1").unwrap();
    assert_eq!(bind, v4(127, 0, 0, 1, 443));
    assert_eq!(rest, "domain.com:4443?x=1");
    let (bind, rest) = parse_local_bind("10.0.0.2::8080?proxy_protocol").unwrap();
    assert_eq!(bind, v4(10, 0, 0, 2, 8080));
    assert_eq!(rest, "proxy_protocol");
    let (bind, rest) = parse_local_bind("[fe80::1:2]:1:h:2").unwrap();
    assert_eq!(bind, v6([0xfe80, 0, 0, 0, 0, 0, 1, 2], 1));
    assert_eq!(rest, "h:2");
    let (bind, _) = parse_local_bind("+80:h:2").unwrap();
    assert_eq!(bind, v4(127, 0, 0, 1, 80));
}

#[test]
fn test_parse_local_bind_errors() {
    let e = parse_local_bind("[::1:443").unwrap_err();
    assert_eq!(e.kind, ErrorKind::Ipv6Bind);
    assert_eq!(e.subject, "[::1:443");
    assert_eq!(e.message(), "cannot parse IPv6 bind from [::1:443");
    let e = parse_local_bind("[::g]:443").unwrap_err();
    assert_eq!(e.kind, ErrorKind::Ipv6Bind);
    assert_eq!(e.subject, "[::g");
    let e = parse_local_bind("domain.com:443").unwrap_err();
    assert_eq!(e.kind, ErrorKind::BindPort);
    assert_eq!(e.subject, "domain.com");
    assert_eq!(e.message(), "cannot parse bind port from domain.com");
    let e = parse_local_bind("127.0.0.1:65536").unwrap_err();
    assert_eq!(e.kind, ErrorKind::BindPort);
    assert_eq!(e.subject, "65536");
}

#[test]
fn test_parse_tunnel_arg_with_no_protocol() {
    let e = parse_tunnel_arg("domain.com:443").unwrap_err();
    assert_eq!(e.kind, ErrorKind::Protocol);
    assert_eq!(e.message(), "cannot parse protocol from domain.com:443");
}

#[test]
fn test_parse_tunnel_arg_with_invalid_protocol() {
    let e = parse_tunnel_arg("sdsf://443:domain.com:443").unwrap_err();
    assert_eq!(e.kind, ErrorKind::UnknownProtocol);
    assert_eq!(e.message(), "Invalid local protocol for tunnel sdsf://443:domain.com:443");
}

#[test]
fn test_parse_tunnel_arg_with_no_local_bind() {
    assert_eq!(
        parse_tunnel_arg("tcp://443:domain.com:4443").unwrap(),
        LocalToRemote {
            local_protocol: LocalProtocol::Tcp { proxy_protocol: false },
            local: v4(127, 0, 0, 1, 443),
            remote: (domain("domain.com"), 4443),
        }
    );
}

#[test]
fn test_parse_tunnel_arg_with_fully_defined_tunnel() {
    assert_eq!(
        parse_tunnel_arg("udp://[::1]:443:toto.com:4443?timeout_sec=30").unwrap(),
        LocalToRemote {
            local_protocol: LocalProtocol::Udp { timeout: Some(HumanDuration::from_secs(30)) },
            local: v6([0, 0, 0, 0, 0, 0, 0, 1], 443),
            remote: (domain("toto.com"), 4443),
        }
    );
}

#[test]
fn test_parse_tunnel_arg_with_full_ipv6_tunnel() {
    assert_eq!(
        parse_tunnel_arg("udp://[::1]:443:[::1]:4443?timeout_sec=30").unwrap(),
        LocalToRemote {
            local_protocol: LocalProtocol::Udp { timeout: Some(HumanDuration::from_secs(30)) },
            local: v6([0, 0, 0, 0, 0, 0, 0, 1], 443),
            remote: (Host::Ipv6(Ipv6Address { segments: [0, 0, 0, 0, 0, 0, 0, 1] }), 4443),
        }
    );
}

#[test]
fn test_parse_tunnel_arg_every_scheme() {
    assert_eq!(
        parse_tunnel_arg("tcp://2:n.lan:4?proxy_protocol").unwrap(),
        LocalToRemote {
            local_protocol: LocalProtocol::Tcp { proxy_protocol: true },
            local: v4(127, 0, 0, 1, 2),
            remote: (domain("n.lan"), 4),
        }
    );
    assert_eq!(
        parse_tunnel_arg("udp://1212:1.1.1.1:53").unwrap(),
        LocalToRemote {
            local_protocol: LocalProtocol::Udp { timeout: Some(HumanDuration::from_secs(30)) },
            local: v4(127, 0, 0, 1, 1212),
            remote: (Host::Ipv4(Ipv4Address { octets: [1, 1, 1, 1] }), 53),
        }
    );
    assert_eq!(
        parse_tunnel_arg("socks5://[::1]:1212?login=admin&password=secret").unwrap(),
        LocalToRemote {
            local_protocol: LocalProtocol::Socks5 {
                timeout: Some(HumanDuration::from_secs(30)),
                credentials: Some(("admin".to_string(), "secret".to_string())),
            },
            local: v6([0, 0, 0, 0, 0, 0, 0, 1], 1212),
            remote: (Host::Ipv4(Ipv4Address { octets: [0, 0, 0, 0] }), 0),
        }
    );
    assert_eq!(
        parse_tunnel_arg("http://[::1]:1212?login=admin&proxy_protocol&timeout_sec=7").unwrap(),
        LocalToRemote {
            local_protocol: LocalProtocol::HttpProxy {
                timeout: Some(HumanDuration::from_secs(7)),
                credentials: None,
                proxy_protocol: true,
            },
            local: v6([0, 0, 0, 0, 0, 0, 0, 1], 1212),
            remote: (Host::Ipv4(Ipv4Address { octets: [0, 0, 0, 0] }), 0),
        }
    );
    assert_eq!(
        parse_tunnel_arg("tproxy+tcp://[::1]:1212").unwrap(),
        LocalToRemote {
            local_protocol: LocalProtocol::TProxyTcp,
            local: v6([0, 0, 0, 0, 0, 0, 0, 1], 1212),
            remote: (Host::Ipv4(Ipv4Address { octets: [0, 0, 0, 0] }), 0),
        }
    );
    assert_eq!(
        parse_tunnel_arg("tproxy+udp://[::1]:1212?timeout_sec=10").unwrap(),
        LocalToRemote {
            local_protocol: LocalProtocol::TProxyUdp { timeout: Some(HumanDuration::from_secs(10)) },
            local: v6([0, 0, 0, 0, 0, 0, 0, 1], 1212),
            remote: (Host::Ipv4(Ipv4Address { octets: [0, 0, 0, 0] }), 0),
        }
    );
    assert_eq!(
        parse_tunnel_arg("stdio://google.com:443").unwrap(),
        LocalToRemote {
            local_protocol: LocalProtocol::Stdio { proxy_protocol: false },
            local: v4(0, 0, 0, 0, 0),
            remote: (domain("google.com"), 443),
        }
    );
    assert_eq!(
        parse_tunnel_arg("unix:///tmp/wstunnel.sock:g.com:443").unwrap(),
        LocalToRemote {
            local_protocol: LocalProtocol::Unix {
                path: "/tmp/wstunnel.sock".to_string(),
                proxy_protocol: false,
            },
            local: v6([0, 0, 0, 0, 0, 0, 0, 0], 0),
            remote: (domain("g.com"), 443),
        }
    );
}

#[test]
fn test_timeout_zero_disables_the_timeout() {
    for text in [
        "udp://1212:1.1.1.1:53?timeout_sec=0",
        "socks5://1212?timeout_sec=0",
        "http://1212?timeout_sec=0",
    ] {
        let tunnel = parse_tunnel_arg(text).unwrap();
        let timeout = match tunnel.local_protocol {
            LocalProtocol::Udp { timeout } => timeout,
            LocalProtocol::Socks5 { timeout, .. } => timeout,
            LocalProtocol::HttpProxy { timeout, .. } => timeout,
            other => panic!("{:?}", other),
        };
        assert_eq!(timeout, None);
    }
}

#[test]
fn test_timeout_that_is_no_number_is_the_default() {
    let tunnel = parse_tunnel_arg("udp://1212:1.1.1.1:53?timeout_sec=soon").unwrap();
    assert_eq!(
        tunnel.local_protocol,
        LocalProtocol::Udp { timeout: Some(HumanDuration::from_secs(30)) }
    );
}

#[test]
fn test_parse_route_by_scheme() {
    let route = parse_route("socks5://1212?login=a").unwrap();
    assert_eq!(route.kind, SchemeKind::Socks5);
    assert_eq!(route.local, v4(127, 0, 0, 1, 1212));
    assert_eq!(route.dest, "0.0.0.0:0?login=a");
    let route = parse_route("tcp://1212:h:1?x").unwrap();
    assert_eq!(route.kind, SchemeKind::Tcp);
    assert_eq!(route.dest, "h:1?x");
    let route = parse_route("unix://a.sock:h:1").unwrap();
    assert_eq!(route.kind, SchemeKind::Unix);
    assert_eq!(route.path, "a.sock");
    assert_eq!(route.dest, "h:1");
    let e = parse_route("unix://a.sock").unwrap_err();
    assert_eq!(e.kind, ErrorKind::UnixPath);
    assert_eq!(e.message(), "cannot parse unix socket path from unix://a.sock");
}

#[test]
fn test_parse_reverse_tunnel_arg() {
    assert_eq!(
        parse_reverse_tunnel_arg("tcp://1212:google.com:443?proxy_protocol").unwrap().local_protocol,
        LocalProtocol::ReverseTcp
    );
    assert_eq!(
        parse_reverse_tunnel_arg("udp://1212:1.1.1.1:53?timeout_sec=4").unwrap().local_protocol,
        LocalProtocol::ReverseUdp { timeout: Some(HumanDuration::from_secs(4)) }
    );
    assert_eq!(
        parse_reverse_tunnel_arg("socks5://[::1]:1212?login=a&password=b").unwrap().local_protocol,
        LocalProtocol::ReverseSocks5 {
            timeout: Some(HumanDuration::from_secs(30)),
            credentials: Some(("a".to_string(), "b".to_string())),
        }
    );
    assert_eq!(
        parse_reverse_tunnel_arg("http://[::1]:1212?proxy_protocol").unwrap().local_protocol,
        LocalProtocol::ReverseHttpProxy { timeout: Some(HumanDuration::from_secs(30)), credentials: None }
    );
    assert_eq!(
        parse_reverse_tunnel_arg("unix://wstunnel.sock:g.com:443").unwrap().local_protocol,
        LocalProtocol::ReverseUnix { path: "wstunnel.sock".to_string() }
    );
    for text in ["stdio://google.com:443", "tproxy+tcp://[::1]:1212", "tproxy+udp://[::1]:1212"] {
        let e = parse_reverse_tunnel_arg(text).unwrap_err();
        assert_eq!(e.kind, ErrorKind::NotReversible);
        assert_eq!(e.subject, text);
    }
}

#[test]
fn test_remote_to_local_deserialization() {
    let remote_to_local = vec!["tcp://9090:localhost:443".to_string(), "udp://8080:1.1.1.1:53".to_string()];
    let tunnels = deserialize_reverse_local_to_remote(&remote_to_local).unwrap();

    // Check that remote_to_local was parsed
    assert_eq!(tunnels.len(), 2);

    // Check that the first protocol is ReverseTcp, not Tcp
    let tunnel1 = &tunnels[0];
    assert!(matches!(tunnel1.local_protocol, LocalProtocol::ReverseTcp));

    // Check that the second protocol is ReverseUdp, not Udp
    let tunnel2 = &tunnels[1];
    assert!(matches!(tunnel2.local_protocol, LocalProtocol::ReverseUdp { .. }));
}

#[test]
fn test_deserialize_reverse_stops_at_the_first_error() {
    let texts = vec![
        "tcp://9090:localhost:443".to_string(),
        "stdio://localhost:443".to_string(),
        "nothing".to_string(),
    ];
    let e = deserialize_reverse_local_to_remote(&texts).unwrap_err();
    assert_eq!(e.kind, ErrorKind::NotReversible);
    assert_eq!(deserialize_reverse_local_to_remote(&vec![]).unwrap(), vec![]);
}

#[test]
fn test_format_local_to_remote() {
    let cases = [
        ("tcp://443:domain.com:4443", "tcp://127.0.0.1:443:domain.com:4443"),
        ("udp://[::1]:443:[::1]:4443?timeout_sec=30", "udp://[::1]:443:[::1]:4443"),
        ("socks5://[::1]:1212", "socks5://[::1]:1212:0.0.0.0:0"),
        ("http://0.0.0.0:80?login=a&password=b", "http://0.0.0.0:80:0.0.0.0:0&login=a&password=b"),
        ("udp://1212:1.1.1.1:53?timeout_sec=10", "udp://127.0.0.1:1212:1.1.1.1:53?timeout_sec=10"),
        ("udp://1212:1.1.1.1:53?timeout_sec=0", "udp://127.0.0.1:1212:1.1.1.1:53?timeout_sec=0"),
        ("udp://1212:1.1.1.1:53?timeout_sec=030", "udp://127.0.0.1:1212:1.1.1.1:53"),
        ("tcp://2:n.lan:4?proxy_protocol", "tcp://127.0.0.1:2:n.lan:4?proxy_protocol"),
        ("stdio://google.com:443?proxy_protocol=1", "stdio://google.com:443?proxy_protocol"),
        ("unix://a.sock:g.com:443?proxy_protocol&x=y", "unix://a.sock:g.com:443?proxy_protocol"),
        (
            "socks5://[::1]:1212?password=p%20w%3D%2B&login=a%26b&timeout_sec=7",
            "socks5://[::1]:1212:0.0.0.0:0&timeout_sec=7&login=a%26b&password=p%20w%3D%2B",
        ),
        (
            "http://1212?login=caf%C3%A9&password=&proxy_protocol&timeout_sec=0",
            "http://127.0.0.1:1212:0.0.0.0:0&timeout_sec=0&login=caf%C3%A9&password=&proxy_protocol",
        ),
        ("tproxy+udp://1212?timeout_sec=5", "tproxy+udp://127.0.0.1:1212:0.0.0.0:0&timeout_sec=5"),
        ("tcp://1212:h:1?timeout_sec=5&login=a&password=b", "tcp://127.0.0.1:1212:h:1"),
        ("unix://:g.com:443", "unix://:g.com:443"),
        ("stdio://google.com:443", "stdio://google.com:443"),
        ("unix:///tmp/wstunnel.sock:g.com:443", "unix:///tmp/wstunnel.sock:g.com:443"),
        ("tproxy+tcp://[::ffff:1.2.3.4]:1212", "tproxy+tcp://[::ffff:1.2.3.4]:1212:0.0.0.0:0"),
        ("tproxy+udp://[1:0:0:2::3]:1212", "tproxy+udp://[1:0:0:2::3]:1212:0.0.0.0:0"),
        ("tcp://1:[::ffff:102:304]:2", "tcp://127.0.0.1:1:[::ffff:102:304]:2"),
    ];
    for (text, written) in cases {
        assert_eq!(format_local_to_remote(&parse_tunnel_arg(text).unwrap()), written);
    }
    let reverse = parse_reverse_tunnel_arg("unix://a.sock:g.com:443").unwrap();
    assert_eq!(format_local_to_remote(&reverse), "unix://a.sock:g.com:443");
    let reverse = parse_reverse_tunnel_arg("tcp://5555:localhost:22").unwrap();
    assert_eq!(format_local_to_remote(&reverse), "tcp://127.0.0.1:5555:localhost:22");
    let reverse = parse_reverse_tunnel_arg("tcp://5555:localhost:22?proxy_protocol").unwrap();
    assert_eq!(format_local_to_remote(&reverse), "tcp://127.0.0.1:5555:localhost:22");
    let reverse = parse_reverse_tunnel_arg("udp://5555:localhost:53?timeout_sec=9").unwrap();
    assert_eq!(format_local_to_remote(&reverse), "udp://127.0.0.1:5555:localhost:53?timeout_sec=9");
    let reverse = parse_reverse_tunnel_arg("http://80?login=a&password=b&proxy_protocol").unwrap();
    assert_eq!(format_local_to_remote(&reverse), "http://127.0.0.1:80:0.0.0.0:0&login=a&password=b");
}

#[test]
fn test_format_writes_each_option_that_is_not_the_default() {
    let tunnel = LocalToRemote {
        local_protocol: LocalProtocol::Udp { timeout: Some(HumanDuration::from_secs(10)) },
        local: v4(127, 0, 0, 1, 1212),
        remote: (Host::Ipv4(Ipv4Address { octets: [1, 1, 1, 1] }), 53),
    };
    let text = format_local_to_remote(&tunnel);
    assert_eq!(text, "udp://127.0.0.1:1212:1.1.1.1:53?timeout_sec=10");
    assert_eq!(parse_tunnel_arg(&text).unwrap(), tunnel);
    let tunnel = LocalToRemote {
        local_protocol: LocalProtocol::HttpProxy {
            timeout: None,
            credentials: Some(("us er".to_string(), "p&ss=w/rd#?%+~".to_string())),
            proxy_protocol: true,
        },
        local: v6([0, 0, 0, 0, 0, 0, 0, 1], 8080),
        remote: (Host::Ipv4(Ipv4Address { octets: [0, 0, 0, 0] }), 0),
    };
    let text = format_local_to_remote(&tunnel);
    assert_eq!(
        text,
        "http://[::1]:8080:0.0.0.0:0&timeout_sec=0&login=us%20er&password=p%26ss%3Dw%2Frd%23%3F%25%2B~&proxy_protocol"
    );
    assert_eq!(parse_tunnel_arg(&text).unwrap(), tunnel);
}

#[test]
fn test_written_reverse_tunnel_reads_back_as_written() {
    for text in [
        "tcp://5555:localhost:22",
        "udp://5555:1.1.1.1:53?timeout_sec=10",
        "udp://5555:1.1.1.1:443?timeout_sec=0",
        "socks5://[::1]:1212?login=admin&password=se%20cret&timeout_sec=99",
        "http://1212?login=a&password=b",
        "unix://wstunnel.sock:g.com:443",
    ] {
        let first = parse_reverse_tunnel_arg(text).unwrap();
        let written = format_local_to_remote(&first);
        assert_eq!(parse_reverse_tunnel_arg(&written).unwrap(), first, "{}", written);
    }
}

#[test]
fn test_serialize_reverse_local_to_remote() {
    let tunnels = vec![
        parse_reverse_tunnel_arg("tcp://9090:localhost:443").unwrap(),
        parse_reverse_tunnel_arg("udp://8080:1.1.1.1:53").unwrap(),
    ];
    assert_eq!(
        serialize_reverse_local_to_remote(&tunnels),
        vec!["tcp://127.0.0.1:9090:localhost:443".to_string(), "udp://127.0.0.1:8080:1.1.1.1:53".to_string()]
    );
}

#[test]
fn test_written_tunnel_reads_back_as_written() {
    for text in [
        "tcp://443:domain.com:4443",
        "udp://[::1]:443:toto.com:4443",
        "udp://10.1.2.3:443:[2001:db8::1]:4443",
        "socks5://[::1]:1212",
        "http://[fe80::1]:1212",
        "stdio://google.com:443",
        "unix:///tmp/wstunnel.sock:g.com:443",
        "tproxy+tcp://[::1]:1212",
        "tcp://1234:localhost:9999",
        "udp://1212:1.1.1.1:53?timeout_sec=10",
        "udp://1212:1.1.1.1:443?timeout_sec=0",
        "tcp://1:example.com:443?proxy_protocol",
        "stdio://example.com:443?proxy_protocol",
        "unix:///tmp/wstunnel.sock:g.com:443?proxy_protocol",
        "socks5://[::1]:1212?login=admin&password=admin",
        "socks5://[::1]:1212?login=ad%20min&password=a%26b%3Dc&timeout_sec=0",
        "http://[::1]:1212?login=caf%C3%A9&password=%F0%9F%94%91&proxy_protocol&timeout_sec=3600",
        "http://1212?login=&password=",
        "tproxy+udp://[::1]:1212?timeout_sec=10",
        "tcp://1:h:2?timeout_sec=10&unknown=1",
        "unix://:g.com:443",
        "unix://:g.com:443?proxy_protocol",
    ] {
        let first = parse_tunnel_arg(text).unwrap();
        let written = format_local_to_remote(&first);
        let second = parse_tunnel_arg(&written).unwrap();
        assert_eq!(first, second);
        assert_eq!(format_local_to_remote(&second), written);
    }
}
