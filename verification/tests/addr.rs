use wstunnel::addr::{
    parse_ipv4, parse_ipv6, push_bind, push_host, push_ipv4, push_ipv6, BindAddress, Host,
    IpAddress, Ipv4Address, Ipv6Address,
};

fn chars(s: &str) -> Vec<char> {
    s.chars().collect()
}

fn ipv4_text(a: &Ipv4Address) -> String {
    let mut out = Vec::new();
    push_ipv4(&mut out, a);
    out.into_iter().collect()
}

fn ipv6_text(a: &Ipv6Address, dotted_mapped: bool) -> String {
    let mut out = Vec::new();
    push_ipv6(&mut out, a, dotted_mapped);
    out.into_iter().collect()
}

#[test]
fn test_parse_ipv4() {
    assert_eq!(parse_ipv4(&chars("127.0.0.1")), Some(Ipv4Address { octets: [127, 0, 0, 1] }));
    assert_eq!(parse_ipv4(&chars("0.0.0.0")), Some(Ipv4Address { octets: [0, 0, 0, 0] }));
    assert_eq!(parse_ipv4(&chars("255.255.255.255")), Some(Ipv4Address { octets: [255, 255, 255, 255] }));
    assert_eq!(parse_ipv4(&chars("1.22.133.4")), Some(Ipv4Address { octets: [1, 22, 133, 4] }));
    for bad in [
        "", "1", "1.2.3", "1.2.3.4.5", "256.0.0.1", "01.2.3.4", "1.2.3.04", "1.2.3.", ".1.2.3",
        "1..2.3", "a.b.c.d", "1.2.3.4 ", "+1.2.3.4", "1.2.3.1000", "0x7f.0.0.1", "443",
    ] {
        assert_eq!(parse_ipv4(&chars(bad)), None, "{}", bad);
    }
}

#[test]
fn test_parse_ipv6() {
    let cases: [(&str, [u16; 8]); 14] = [
        ("::", [0, 0, 0, 0, 0, 0, 0, 0]),
        ("::1", [0, 0, 0, 0, 0, 0, 0, 1]),
        ("1::", [1, 0, 0, 0, 0, 0, 0, 0]),
        ("1:2:3:4:5:6:7:8", [1, 2, 3, 4, 5, 6, 7, 8]),
        ("1:2:3:4:5:6:7::", [1, 2, 3, 4, 5, 6, 7, 0]),
        ("::2:3:4:5:6:7:8", [0, 2, 3, 4, 5, 6, 7, 8]),
        ("fe80::1:2", [0xfe80, 0, 0, 0, 0, 0, 1, 2]),
        ("2001:DB8::ff00:42:8329", [0x2001, 0xdb8, 0, 0, 0, 0xff00, 0x42, 0x8329]),
        ("::ffff:1.2.3.4", [0, 0, 0, 0, 0, 0xffff, 0x0102, 0x0304]),
        ("1:2:3:4:5:6:1.2.3.4", [1, 2, 3, 4, 5, 6, 0x0102, 0x0304]),
        ("::1.2.3.4", [0, 0, 0, 0, 0, 0, 0x0102, 0x0304]),
        ("64:ff9b::192.0.2.33", [0x64, 0xff9b, 0, 0, 0, 0, 0xc000, 0x0221]),
        ("0001:0002:0003:0004:0005:0006:0007:0008", [1, 2, 3, 4, 5, 6, 7, 8]),
        ("a:B:c:D:e:F:0:ffff", [10, 11, 12, 13, 14, 15, 0, 0xffff]),
    ];
    for (text, segments) in cases {
        assert_eq!(parse_ipv6(&chars(text)), Some(Ipv6Address { segments }), "{}", text);
    }
    for bad in [
        "", ":", ":::", "1", "1:2:3:4:5:6:7", "1:2:3:4:5:6:7:8:9", "1:2:3:4:5:6:7:8::", "::1::",
        "1::2::3", "12345::", "g::", "1.2.3.4", "1.2.3.4::", "::1.2.3.4:5", "1:2:3:4:5:6:7:1.2.3.4",
        "::1.2.3", "::1.2.3.256", ":1::", "1:::2", "::1%eth0", "[::1]", " ::1", "1:2:3:4:5:6:7:",
        "::2:3:4:5:6:7:8:9", "1::3:4:5:6:7:8:9",
    ] {
        assert_eq!(parse_ipv6(&chars(bad)), None, "{}", bad);
    }
}

#[test]
fn test_ipv4_text() {
    assert_eq!(ipv4_text(&Ipv4Address { octets: [127, 0, 0, 1] }), "127.0.0.1");
    assert_eq!(ipv4_text(&Ipv4Address { octets: [0, 10, 200, 255] }), "0.10.200.255");
}

#[test]
fn test_ipv6_text() {
    let cases: [([u16; 8], &str, &str); 12] = [
        ([0, 0, 0, 0, 0, 0, 0, 0], "::", "::"),
        ([0, 0, 0, 0, 0, 0, 0, 1], "::1", "::1"),
        ([1, 0, 0, 0, 0, 0, 0, 0], "1::", "1::"),
        ([1, 2, 3, 4, 5, 6, 7, 8], "1:2:3:4:5:6:7:8", "1:2:3:4:5:6:7:8"),
        ([1, 0, 3, 4, 5, 6, 7, 8], "1:0:3:4:5:6:7:8", "1:0:3:4:5:6:7:8"),
        ([1, 0, 0, 4, 5, 0, 0, 8], "1::4:5:0:0:8", "1::4:5:0:0:8"),
        ([1, 0, 0, 4, 0, 0, 0, 8], "1:0:0:4::8", "1:0:0:4::8"),
        ([0, 0, 3, 0, 0, 0, 7, 0], "0:0:3::7:0", "0:0:3::7:0"),
        ([0x2001, 0xdb8, 0, 0, 0, 0xff00, 0x42, 0x8329], "2001:db8::ff00:42:8329", "2001:db8::ff00:42:8329"),
        ([0, 0, 0, 0, 0, 0xffff, 0x0102, 0x0304], "::ffff:1.2.3.4", "::ffff:102:304"),
        ([0, 0, 0, 0, 0, 0, 0x0102, 0x0304], "::102:304", "::102:304"),
        ([0xabcd, 0xef01, 0x10, 0x100, 0x1000, 0xf, 0xff, 0xfff], "abcd:ef01:10:100:1000:f:ff:fff", "abcd:ef01:10:100:1000:f:ff:fff"),
    ];
    for (segments, dotted, plain) in cases {
        assert_eq!(ipv6_text(&Ipv6Address { segments }, true), dotted);
        assert_eq!(ipv6_text(&Ipv6Address { segments }, false), plain);
    }
}

#[test]
fn test_written_addresses_read_back() {
    let mut seed: u64 = 0x9e3779b97f4a7c15;
    let mut next = move || {
        seed ^= seed << 13;
        seed ^= seed >> 7;
        seed ^= seed << 17;
        seed
    };
    for _ in 0..2000 {
        let mut segments = [0u16; 8];
        for s in segments.iter_mut() {
            let r = next();
            *s = if r % 3 == 0 { 0 } else if r % 7 == 0 { 0xffff } else { (r >> 16) as u16 };
        }
        let address = Ipv6Address { segments };
        let dotted = ipv6_text(&address, true);
        assert_eq!(parse_ipv6(&chars(&dotted)), Some(address), "{}", dotted);
        let plain = ipv6_text(&address, false);
        assert_eq!(parse_ipv6(&chars(&plain)), Some(address), "{}", plain);
        assert_eq!(format!("[{}]", plain), url::Host::<String>::Ipv6(segments.into()).to_string());
        let r = next();
        let octets = [r as u8, (r >> 8) as u8, (r >> 16) as u8, (r >> 24) as u8];
        let text = ipv4_text(&Ipv4Address { octets });
        assert_eq!(parse_ipv4(&chars(&text)), Some(Ipv4Address { octets }), "{}", text);
        assert_eq!(text, url::Host::<String>::Ipv4(octets.into()).to_string());
    }
}

#[test]
fn test_bind_text() {
    let mut out = Vec::new();
    push_bind(&mut out, &BindAddress { ip: IpAddress::V4(Ipv4Address { octets: [10, 0, 0, 1] }), port: 8080 });
    assert_eq!(out.iter().collect::<String>(), "10.0.0.1:8080");
    let mut out = vec!['>'];
    push_bind(&mut out, &BindAddress { ip: IpAddress::V6(Ipv6Address { segments: [0, 0, 0, 0, 0, 0xffff, 0x7f00, 1] }), port: 0 });
    assert_eq!(out.iter().collect::<String>(), ">[::ffff:127.0.0.1]:0");
}

#[test]
fn test_texts_of_addresses() {
    let v4 = Ipv4Address::from_text("192.168.0.1").unwrap();
    assert_eq!(v4, Ipv4Address { octets: [192, 168, 0, 1] });
    assert_eq!(v4.text(), "192.168.0.1");
    assert_eq!(Ipv4Address::from_text("192.168.0"), None);
    let v6 = Ipv6Address::from_text("::FFFF:10.0.0.1").unwrap();
    assert_eq!(v6, Ipv6Address { segments: [0, 0, 0, 0, 0, 0xffff, 0x0a00, 1] });
    assert_eq!(v6.text(), "::ffff:10.0.0.1");
    assert_eq!(Ipv6Address::from_text("::FFFF:10.0.0"), None);
    assert_eq!(BindAddress { ip: IpAddress::V6(v6), port: 53 }.text(), "[::ffff:10.0.0.1]:53");
    assert_eq!(BindAddress { ip: IpAddress::V4(v4), port: 65535 }.text(), "192.168.0.1:65535");
    assert_eq!(Host::Ipv6(v6).text(), "[::ffff:a00:1]");
    assert_eq!(Host::Ipv4(v4).text(), "192.168.0.1");
    assert_eq!(Host::Domain("a.example".to_string()).text(), "a.example");
}

#[test]
fn test_host_text() {
    let mut out = Vec::new();
    push_host(&mut out, &Host::Domain("example.com".to_string()));
    out.push(' ');
    push_host(&mut out, &Host::Ipv4(Ipv4Address { octets: [1, 2, 3, 4] }));
    out.push(' ');
    push_host(&mut out, &Host::Ipv6(Ipv6Address { segments: [0, 0, 0, 0, 0, 0xffff, 0x7f00, 1] }));
    assert_eq!(out.iter().collect::<String>(), "example.com 1.2.3.4 [::ffff:7f00:1]");
}

#[test]
fn test_host_text_agrees_with_the_url_crate() {
    for text in ["https://[::ffff:1.2.3.4]/", "https://[1:0:0:2::]/", "https://1.2.3.4/", "https://Example.COM/", "https://[::]/"] {
        let url = url::Url::parse(text).unwrap();
        let host = match url.host().unwrap() {
            url::Host::Domain(d) => Host::Domain(d.to_string()),
            url::Host::Ipv4(a) => Host::Ipv4(Ipv4Address { octets: a.octets() }),
            url::Host::Ipv6(a) => Host::Ipv6(Ipv6Address { segments: a.segments() }),
        };
        let mut out = Vec::new();
        push_host(&mut out, &host);
        assert_eq!(out.iter().collect::<String>(), url.host().unwrap().to_string());
    }
}
