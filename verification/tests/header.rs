use wstunnel::error::ErrorKind;
use wstunnel::header::{
    deserialize_header_name, deserialize_header_pairs, deserialize_header_value,
    parse_header_line, parse_http_credentials, parse_http_headers, serialize_header_name,
    serialize_header_pairs, serialize_header_value, HeaderName, HeaderValue,
};

#[test]
fn test_parse_http_headers() {
    let (name, value) = parse_http_headers("X-Custom-Header:  some value \t").unwrap();
    assert_eq!(name.as_str(), "x-custom-header");
    assert_eq!(value.to_str(), Some("some value"));
    let (name, value) = parse_http_headers("Host:example.com:8080").unwrap();
    assert_eq!(name.as_str(), "host");
    assert_eq!(value.to_str(), Some("example.com:8080"));
    let (name, value) = parse_http_headers("a:").unwrap();
    assert_eq!(name.as_str(), "a");
    assert_eq!(value.to_str(), Some(""));
}

#[test]
fn test_parse_http_headers_errors() {
    let e = parse_http_headers("no colon here").unwrap_err();
    assert_eq!(e.kind, ErrorKind::HttpHeader);
    assert_eq!(e.message(), "cannot parse http header from no colon here");
    let e = parse_http_headers("X-A: a\u{7f}b").unwrap_err();
    assert_eq!(e.kind, ErrorKind::HttpHeaderValue);
    assert_eq!(e.subject, " a\u{7f}b");
    let e = parse_http_headers("X-A: a\nb").unwrap_err();
    assert_eq!(e.kind, ErrorKind::HttpHeaderValue);
    let e = parse_http_headers("X A: b").unwrap_err();
    assert_eq!(e.kind, ErrorKind::HttpHeaderName);
    assert_eq!(e.subject, "X A");
    let e = parse_http_headers(": b").unwrap_err();
    assert_eq!(e.kind, ErrorKind::HttpHeaderName);
    let e = parse_http_headers("Name : b").unwrap_err();
    assert_eq!(e.kind, ErrorKind::HttpHeaderName);
    assert_eq!(e.subject, "Name ");
    let e = parse_http_headers("X A: a\nb").unwrap_err();
    assert_eq!(e.kind, ErrorKind::HttpHeaderValue);
}

#[test]
fn test_header_name() {
    assert_eq!(HeaderName::from_str("Content-Type").unwrap().as_str(), "content-type");
    assert_eq!(HeaderName::from_str("!#$%&'*+-.^_`|~09azAZ").unwrap().as_str(), "!#$%&'*+-.^_`|~09azaz");
    for bad in ["", "a b", "a:b", "a\"b", "caf\u{e9}", "a(b)", "a,b", "a/b", "a=b", "a@b", "[a]", "{a}", "a\\b"] {
        assert!(HeaderName::from_str(bad).is_none(), "{}", bad);
    }
    let long = "a".repeat(65535);
    assert_eq!(HeaderName::from_str(&long).unwrap().as_str(), long);
    assert!(HeaderName::from_str(&"a".repeat(65536)).is_none());
    assert_eq!(HeaderName::from_str(&"A".repeat(100)).unwrap().as_str(), "a".repeat(100));
}

#[test]
fn test_header_value() {
    assert_eq!(HeaderValue::from_str("hello world").unwrap().to_str(), Some("hello world"));
    assert_eq!(HeaderValue::from_str("tab\there").unwrap().to_str(), Some("tab\there"));
    assert_eq!(HeaderValue::from_str("").unwrap().to_str(), Some(""));
    assert!(HeaderValue::from_str("a\nb").is_none());
    assert!(HeaderValue::from_str("a\u{0}b").is_none());
    assert!(HeaderValue::from_str("a\u{1f}b").is_none());
    assert!(HeaderValue::from_str("a\u{7f}b").is_none());
    let opaque = HeaderValue::from_str("caf\u{e9} \u{80}").unwrap();
    assert_eq!(opaque.to_str(), None);
}

#[test]
fn test_parse_http_credentials() {
    assert_eq!(parse_http_credentials("user:pass").unwrap().to_str(), Some("Basic dXNlcjpwYXNz"));
    assert_eq!(parse_http_credentials("  user:pass\n").unwrap().to_str(), Some("Basic dXNlcjpwYXNz"));
    assert_eq!(parse_http_credentials("user").unwrap().to_str(), Some("Basic dXNlcg=="));
    assert_eq!(parse_http_credentials("").unwrap().to_str(), Some("Basic "));
    assert_eq!(parse_http_credentials("\u{e9}:\u{fb}?").unwrap().to_str(), Some("Basic w6k6w7s/"));
    assert_eq!(parse_http_credentials("a~>").unwrap().to_str(), Some("Basic YX4+"));
}

#[test]
fn test_serialize_header_name_and_value() {
    let name = deserialize_header_name("X-Token").unwrap();
    assert_eq!(serialize_header_name(&name), "x-token");
    let e = deserialize_header_name("X Token").unwrap_err();
    assert_eq!((e.kind, e.subject.as_str()), (ErrorKind::HttpHeaderName, "X Token"));
    assert_eq!(deserialize_header_value(None).unwrap(), None);
    let value = deserialize_header_value(Some(" v ")).unwrap();
    assert_eq!(serialize_header_value(&value).unwrap(), Some(" v ".to_string()));
    assert_eq!(serialize_header_value(&None).unwrap(), None);
    let e = deserialize_header_value(Some("a\rb")).unwrap_err();
    assert_eq!((e.kind, e.subject.as_str()), (ErrorKind::HttpHeaderValue, "a\rb"));
    let opaque = deserialize_header_value(Some("\u{e9}")).unwrap();
    let e = serialize_header_value(&opaque).unwrap_err();
    assert_eq!((e.kind, e.subject.as_str()), (ErrorKind::HttpHeaderText, "\u{e9}"));
}

#[test]
fn test_header_pairs() {
    let lines = vec!["X-A: 1".to_string(), " X-B :two words ".to_string(), "X-C:a:b".to_string()];
    let headers = deserialize_header_pairs(&lines).unwrap();
    assert_eq!(headers.len(), 3);
    assert_eq!(headers[1].0.as_str(), "x-b");
    assert_eq!(headers[1].1.to_str(), Some("two words"));
    assert_eq!(
        serialize_header_pairs(&headers).unwrap(),
        vec!["x-a: 1".to_string(), "x-b: two words".to_string(), "x-c: a:b".to_string()]
    );
    assert_eq!(deserialize_header_pairs(&vec![]).unwrap(), vec![]);
    let e = deserialize_header_pairs(&vec!["X-A: 1".to_string(), "nothing".to_string(), "X B: 1".to_string()]).unwrap_err();
    assert_eq!((e.kind, e.subject.as_str()), (ErrorKind::HeaderFormat, "nothing"));
    assert_eq!(e.message(), "Invalid header format: nothing");
    let e = parse_header_line(" X B : 1").unwrap_err();
    assert_eq!((e.kind, e.subject.as_str()), (ErrorKind::HttpHeaderName, "X B"));
    let e = parse_header_line("X-B: a\u{1}b ").unwrap_err();
    assert_eq!((e.kind, e.subject.as_str()), (ErrorKind::HttpHeaderValue, "a\u{1}b"));
    let opaque = vec![parse_header_line("X-A: \u{e9}").unwrap()];
    assert_eq!(serialize_header_pairs(&opaque).unwrap_err().kind, ErrorKind::HttpHeaderText);
}
