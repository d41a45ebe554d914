//! Tunnels and the texts that configure them:
//! `scheme://[bind:]port:host:port[?name=value&...]`.

use crate::addr::{
    bind_text, host_text, ipv4_of_text, ipv6_of_text, parse_ipv4, parse_ipv6, push_bind, push_host,
    BindAddress, BindView, Host, HostView, IpAddress, IpView, Ipv4Address, Ipv6Address,
};
use crate::duration::HumanDuration;
use crate::error::{
    all_or_first_error, lemma_all_or_first_error_step, lemma_first_error_stays, result_view,
    ConfigError, ErrorKind, ErrorView,
};
use crate::options::{collect, lookup, Pairs, TunnelOptions};
use crate::protocol::{credentials_view, is_expired, timeout_view, LocalProtocol, ProtocolView};
use crate::text::{
    all_digits, chars_of, contains_text, decimal_of, decimal_text, decimal_value, ends_with, find,
    find_first_of, find_text, first_of, is_word, lemma_find_from, lemma_first_of_from,
    parse_number, parse_unsigned, percent_text, push_decimal, push_percent, slice_of, stands_at,
    string_of, strings_view, trim_start_char, unsigned_digits, without_leading,
};
use crate::weburl::{parse_url, url_of_text, ParsedUrl, UrlView};
use vstd::prelude::*;
use vstd::string::StringExecFns;
use vstd::utf8::encode_utf8;

verus! {

/// `s` up to its first character of `set`; all of `s` where it holds none.
pub open spec fn before_any(s: Seq<char>, set: Seq<char>) -> Seq<char> {
    s.subrange(0, first_of(s, set))
}

/// `s` after its first character of `set`; empty where it holds none.
pub open spec fn after_any(s: Seq<char>, set: Seq<char>) -> Seq<char> {
    if first_of(s, set) < s.len() {
        s.subrange(first_of(s, set) + 1, s.len() as int)
    } else {
        Seq::empty()
    }
}

/// The octets of the address that a tunnel binds where its text names none: `127.0.0.1`.
pub open spec fn loopback() -> Seq<u8> {
    seq![127u8, 0u8, 0u8, 1u8]
}

/// The IP address at the head of a bind text, and the rest of the text.
///
/// A text that opens with `[` holds an IPv6 address up to its first `]`. Any other text
/// holds an IPv4 address up to its first `:`, or no address at all: then the tunnel binds
/// the loopback address and the whole text is the rest.
pub open spec fn bind_ip_of(arg: Seq<char>) -> Result<(IpView, Seq<char>), ErrorView> {
    if arg.len() > 0 && arg[0] == '[' {
        let close = first_of(arg, seq![']']);
        if close >= arg.len() {
            Err((ErrorKind::Ipv6Bind, arg))
        } else {
            match ipv6_of_text(arg.subrange(1, close)) {
                Some(g) => Ok((IpView::V6(g), arg.subrange(close + 1, arg.len() as int))),
                None => Err((ErrorKind::Ipv6Bind, arg.subrange(0, close))),
            }
        }
    } else {
        match ipv4_of_text(before_any(arg, seq![':'])) {
            Some(o) => Ok((IpView::V4(o), after_any(arg, seq![':']))),
            None => Ok((IpView::V4(loopback()), arg)),
        }
    }
}

/// The address that a bind text names, and what follows it in the text.
///
/// After the IP address and any colons comes the port, up to the first `:` or `?`.
pub open spec fn local_bind_of(arg: Seq<char>) -> Result<(BindView, Seq<char>), ErrorView> {
    match bind_ip_of(arg) {
        Err(e) => Err(e),
        Ok((ip, rest)) => {
            let rest = trim_start_char(rest, ':');
            let port = before_any(rest, seq![':', '?']);
            match parse_unsigned(port, 65535) {
                Some(p) => Ok((BindView { ip, port: p as u16 }, after_any(rest, seq![':', '?']))),
                None => Err((ErrorKind::BindPort, port)),
            }
        },
    }
}

/// A bind address with the rest of the text, as views.
pub open spec fn bind_result_view(r: Result<(BindAddress, String), ConfigError>) -> Result<
    (BindView, Seq<char>),
    ErrorView,
> {
    match r {
        Ok((b, rest)) => Ok((b@, rest@)),
        Err(e) => Err(e@),
    }
}

/// The set that holds `a` alone.
fn set_of(a: char) -> (set: Vec<char>)
    ensures
        set@ == seq![a],
{
    let mut set: Vec<char> = Vec::new();
    set.push(a);
    set
}

/// The set that holds `a` and `b`.
fn set_of_two(a: char, b: char) -> (set: Vec<char>)
    ensures
        set@ == seq![a, b],
{
    let mut set: Vec<char> = Vec::new();
    set.push(a);
    set.push(b);
    set
}

/// `chars` up to its first character of `set`, and `chars` after it.
fn cut_at_any(chars: &Vec<char>, set: &Vec<char>) -> (parts: (Vec<char>, Vec<char>))
    ensures
        parts.0@ == before_any(chars@, set@),
        parts.1@ == after_any(chars@, set@),
{
    let at = find_first_of(chars, set);
    let head = slice_of(chars, 0, at);
    if at < chars.len() {
        (head, slice_of(chars, at + 1, chars.len()))
    } else {
        (head, Vec::new())
    }
}

/// The IP address at the head of the bind text `chars`, and the rest of the text.
fn read_bind_ip(chars: &Vec<char>) -> (r: Result<(IpAddress, Vec<char>), ConfigError>)
    ensures
        match bind_ip_of(chars@) {
            Ok((ip, rest)) => r matches Ok(pair) && pair.0@ == ip && pair.1@ == rest,
            Err(e) => r matches Err(x) && x@ == e,
        },
{
    if chars.len() > 0 && chars[0] == '[' {
        let close = find_first_of(chars, &set_of(']'));
        if close >= chars.len() {
            return Err(ConfigError::new(ErrorKind::Ipv6Bind, string_of(chars)));
        }
        proof {
            lemma_first_of_from(chars@, seq![']'], 0);
        }
        let inner = slice_of(chars, 1, close);
        match parse_ipv6(&inner) {
            Some(a) => Ok((IpAddress::V6(a), slice_of(chars, close + 1, chars.len()))),
            None => Err(
                ConfigError::new(ErrorKind::Ipv6Bind, string_of(&slice_of(chars, 0, close))),
            ),
        }
    } else {
        let (head, rest) = cut_at_any(chars, &set_of(':'));
        match parse_ipv4(&head) {
            Some(a) => Ok((IpAddress::V4(a), rest)),
            None => {
                let octets: [u8; 4] = [127, 0, 0, 1];
                assert(octets@ =~= loopback());
                Ok((IpAddress::V4(Ipv4Address { octets }), slice_of(chars, 0, chars.len())))
            },
        }
    }
}

/// Reads the address to bind at the head of a tunnel text, and gives it with the rest of
/// the text.
pub fn parse_local_bind(arg: &str) -> (res: Result<(BindAddress, String), ConfigError>)
    ensures
        bind_result_view(res) == local_bind_of(arg@),
{
    let chars = chars_of(arg);
    match read_bind_ip(&chars) {
        Err(e) => Err(e),
        Ok((ip, rest)) => {
            let rest = without_leading(&rest, ':');
            let (port_text, rest) = cut_at_any(&rest, &set_of_two(':', '?'));
            match parse_number(&port_text, 65535) {
                Some(p) => Ok((BindAddress { ip, port: p as u16 }, string_of(&rest))),
                None => Err(ConfigError::new(ErrorKind::BindPort, string_of(&port_text))),
            }
        },
    }
}

/// Whether the text of a destination names the port 443, which a parsed `https` URL
/// never reports: the text ends with `:443` or holds `:443?`.
pub open spec fn names_port_443(remaining: Seq<char>) -> bool {
    ends_with(remaining, ":443"@) || contains_text(remaining, ":443?"@)
}

/// The destination that the URL made from a destination text holds: its host, its port
/// and its options.
///
/// The text is refused where it made no URL, where the URL has no host, and where it has
/// no port although the text does not name 443.
pub open spec fn dest_from_url(remaining: Seq<char>, url: Option<UrlView>) -> Result<
    (HostView, u16, Pairs),
    ErrorView,
> {
    match url {
        None => Err((ErrorKind::Remote, remaining)),
        Some(u) => match u.host {
            None => Err((ErrorKind::RemoteHost, remaining)),
            Some(h) => match u.port {
                Some(p) => Ok((h, p, collect(u.query))),
                None => if names_port_443(remaining) {
                    Ok((h, 443u16, collect(u.query)))
                } else {
                    Err((ErrorKind::RemotePort, remaining))
                },
            },
        },
    }
}

/// The URL text whose authority and query are the destination text.
pub open spec fn dest_url_text(remaining: Seq<char>) -> Seq<char> {
    "https://"@ + remaining
}

/// The destination that a destination text `host:port[?name=value&...]` names.
pub open spec fn tunnel_dest_of(remaining: Seq<char>) -> Result<
    (HostView, u16, Pairs),
    ErrorView,
> {
    dest_from_url(remaining, url_of_text(dest_url_text(remaining)))
}

/// A destination as views.
pub open spec fn dest_result_view(r: Result<(Host, u16, TunnelOptions), ConfigError>) -> Result<
    (HostView, u16, Pairs),
    ErrorView,
> {
    match r {
        Ok((h, p, o)) => Ok((h@, p, o.entries())),
        Err(e) => Err(e@),
    }
}

/// A URL that may be absent, as a view.
pub open spec fn url_option_view(url: Option<ParsedUrl>) -> Option<UrlView> {
    match url {
        Some(u) => Some(u@),
        None => None,
    }
}

/// Whether `chars` ends with the literal `word`.
fn ends_with_word(chars: &Vec<char>, word: &str) -> (r: bool)
    ensures
        r == ends_with(chars@, word@),
{
    let pat = chars_of(word);
    if pat.len() > chars.len() {
        return false;
    }
    stands_at(chars, &pat, chars.len() - pat.len())
}

/// Whether `chars` holds the literal `word`.
fn contains_word(chars: &Vec<char>, word: &str) -> (r: bool)
    ensures
        r == contains_text(chars@, word@),
{
    let pat = chars_of(word);
    if pat.len() == 0 {
        return true;
    }
    find_text(chars, &pat) < chars.len()
}

/// Reads the destination out of the URL that was made from the destination text
/// `remaining`.
pub fn tunnel_dest_from_url(remaining: &str, url: Option<ParsedUrl>) -> (res: Result<
    (Host, u16, TunnelOptions),
    ConfigError,
>)
    ensures
        dest_result_view(res) == dest_from_url(remaining@, url_option_view(url)),
        res matches Ok(d) ==> d.2.wf(),
{
    let url = match url {
        Some(u) => u,
        None => {
            return Err(ConfigError::new(ErrorKind::Remote, remaining.to_owned()));
        },
    };
    let host = match url.host {
        Some(h) => h,
        None => {
            return Err(ConfigError::new(ErrorKind::RemoteHost, remaining.to_owned()));
        },
    };
    let port = match url.port {
        Some(p) => p,
        None => {
            let chars = chars_of(remaining);
            if ends_with_word(&chars, ":443") || contains_word(&chars, ":443?") {
                443
            } else {
                return Err(ConfigError::new(ErrorKind::RemotePort, remaining.to_owned()));
            }
        },
    };
    Ok((host, port, TunnelOptions::from_pairs(url.query)))
}

/// Reads a destination `host:port[?name=value&...]`.
///
/// The text is read as the authority and query of an `https` URL.
pub fn parse_tunnel_dest(remaining: &str) -> (res: Result<(Host, u16, TunnelOptions), ConfigError>)
    ensures
        dest_result_view(res) == tunnel_dest_of(remaining@),
        res matches Ok(d) ==> d.2.wf(),
{
    let mut text: String = "https://".to_owned();
    text.append(remaining);
    tunnel_dest_from_url(remaining, parse_url(text.as_str()))
}

/// One configured tunnel: what listens, where it listens, and where the traffic goes.
#[derive(Debug, PartialEq, Eq)]
pub struct LocalToRemote {
    pub local_protocol: LocalProtocol,
    pub local: BindAddress,
    pub remote: (Host, u16),
}

impl Clone for LocalToRemote {
    fn clone(&self) -> (out: Self) {
        LocalToRemote {
            local_protocol: self.local_protocol.clone(),
            local: self.local,
            remote: (self.remote.0.clone(), self.remote.1),
        }
    }
}

/// A [`LocalToRemote`] as views.
pub struct TunnelView {
    pub local_protocol: ProtocolView,
    pub local: BindView,
    pub remote: (HostView, u16),
}

impl View for LocalToRemote {
    type V = TunnelView;

    open spec fn view(&self) -> TunnelView {
        TunnelView {
            local_protocol: self.local_protocol@,
            local: self.local@,
            remote: (self.remote.0@, self.remote.1),
        }
    }
}

/// The schemes that a tunnel text can open with.
#[derive(Clone, Copy, Debug, PartialEq, Eq, Hash, Structural)]
pub enum SchemeKind {
    Tcp,
    Udp,
    Unix,
    Http,
    Socks5,
    Stdio,
    TProxyTcp,
    TProxyUdp,
}

/// What a tunnel text holds before its destination is read: the scheme, the address to
/// bind, the socket path of a unix tunnel, and the text of the destination.
#[derive(Clone, Debug, PartialEq, Eq)]
pub struct Route {
    pub kind: SchemeKind,
    pub local: BindAddress,
    pub path: String,
    pub dest: String,
}

/// A [`Route`] as views.
pub struct RouteView {
    pub kind: SchemeKind,
    pub local: BindView,
    pub path: Seq<char>,
    pub dest: Seq<char>,
}

impl View for Route {
    type V = RouteView;

    open spec fn view(&self) -> RouteView {
        RouteView { kind: self.kind, local: self.local@, path: self.path@, dest: self.dest@ }
    }
}

/// The address `[::]:0`, which stands in a unix tunnel, where nothing is bound.
pub open spec fn unbound_v6() -> BindView {
    BindView { ip: IpView::V6(seq![0u16, 0u16, 0u16, 0u16, 0u16, 0u16, 0u16, 0u16]), port: 0 }
}

/// The address `0.0.0.0:0`, which stands in a stdio tunnel, where nothing is bound.
pub open spec fn unbound_v4() -> BindView {
    BindView { ip: IpView::V4(seq![0u8, 0u8, 0u8, 0u8]), port: 0 }
}

/// The scheme that the word `proto` names.
pub open spec fn scheme_of_word(proto: Seq<char>) -> Option<SchemeKind> {
    if proto == "tcp"@ {
        Some(SchemeKind::Tcp)
    } else if proto == "udp"@ {
        Some(SchemeKind::Udp)
    } else if proto == "unix"@ {
        Some(SchemeKind::Unix)
    } else if proto == "http"@ {
        Some(SchemeKind::Http)
    } else if proto == "socks5"@ {
        Some(SchemeKind::Socks5)
    } else if proto == "stdio"@ {
        Some(SchemeKind::Stdio)
    } else if proto == "tproxy+tcp"@ {
        Some(SchemeKind::TProxyTcp)
    } else if proto == "tproxy+udp"@ {
        Some(SchemeKind::TProxyUdp)
    } else {
        None
    }
}

/// Whether the clients of a tunnel name the destination of each connection themselves.
/// The text of such a tunnel names none: what follows its bind address holds options only.
pub open spec fn is_dynamic(kind: SchemeKind) -> bool {
    kind == SchemeKind::Http || kind == SchemeKind::Socks5 || kind == SchemeKind::TProxyTcp
        || kind == SchemeKind::TProxyUdp
}

/// The route of the tunnel of scheme `kind` whose text holds `info` after `://`.
///
/// A unix tunnel holds its socket path up to the first `:`. A stdio tunnel holds its
/// destination only. Every other tunnel holds the address to bind first; a dynamic one gets
/// the destination `0.0.0.0:0`, with the rest of the text as its options.
pub open spec fn route_of_info(kind: SchemeKind, arg: Seq<char>, info: Seq<char>) -> Result<
    RouteView,
    ErrorView,
> {
    if kind == SchemeKind::Unix {
        let colon = first_of(info, seq![':']);
        if colon >= info.len() {
            Err((ErrorKind::UnixPath, arg))
        } else {
            Ok(
                RouteView {
                    kind,
                    local: unbound_v6(),
                    path: info.subrange(0, colon),
                    dest: info.subrange(colon + 1, info.len() as int),
                },
            )
        }
    } else if kind == SchemeKind::Stdio {
        Ok(RouteView { kind, local: unbound_v4(), path: Seq::empty(), dest: info })
    } else {
        match local_bind_of(info) {
            Err(e) => Err(e),
            Ok((local, rest)) => Ok(
                RouteView {
                    kind,
                    local,
                    path: Seq::empty(),
                    dest: if is_dynamic(kind) {
                        "0.0.0.0:0?"@ + rest
                    } else {
                        rest
                    },
                },
            ),
        }
    }
}

/// The route that a tunnel text holds: the scheme before its first `://`, and what the
/// scheme makes of the rest.
pub open spec fn route_of_text(arg: Seq<char>) -> Result<RouteView, ErrorView> {
    let at = find(arg, "://"@);
    if at >= arg.len() {
        Err((ErrorKind::Protocol, arg))
    } else {
        match scheme_of_word(arg.subrange(0, at)) {
            Some(kind) => route_of_info(
                kind,
                arg,
                arg.subrange(at + "://"@.len(), arg.len() as int),
            ),
            None => Err((ErrorKind::UnknownProtocol, arg)),
        }
    }
}

/// The idle time that the value `value` of the option `timeout_sec` asks for: its seconds,
/// no timeout where it is 0, and 30 seconds where it is absent or no number.
pub open spec fn timeout_of_value(value: Option<Seq<char>>) -> Option<u64> {
    match value {
        Some(t) => match parse_unsigned(t, u64::MAX as nat) {
            Some(d) => if d == 0 {
                None
            } else {
                Some(d as u64)
            },
            None => Some(30u64),
        },
        None => Some(30u64),
    }
}

/// The idle time after which a session is closed: the option `timeout_sec` in seconds,
/// no timeout where it is 0, and 30 seconds where it is absent or no number.
pub open spec fn timeout_of(o: Pairs) -> Option<u64> {
    timeout_of_value(lookup(o, "timeout_sec"@))
}

/// With the option `timeout_sec` at 0 there is no timeout, so that no session is ever
/// closed for being idle.
pub proof fn lemma_timeout_zero_never_expires(o: Pairs, idle: u64)
    requires
        lookup(o, "timeout_sec"@) == Some(seq!['0']),
    ensures
        timeout_of(o) is None,
        !is_expired(timeout_of(o), idle),
{
    let zero = seq!['0'];
    assert(zero.drop_last() =~= Seq::<char>::empty());
    reveal_with_fuel(decimal_value, 2);
    assert(decimal_value(zero) == 0);
    assert(unsigned_digits(zero) == zero);
    assert(all_digits(zero));
}

/// The credentials that clients must present: the options `login` and `password`, where
/// both are there.
pub open spec fn credentials_of(o: Pairs) -> Option<(Seq<char>, Seq<char>)> {
    match (lookup(o, "login"@), lookup(o, "password"@)) {
        (Some(login), Some(password)) => Some((login, password)),
        _ => None,
    }
}

/// Whether a proxy protocol header is sent: whether the option `proxy_protocol` is there.
pub open spec fn proxy_protocol_of(o: Pairs) -> bool {
    lookup(o, "proxy_protocol"@) is Some
}

/// The protocol of a tunnel with the scheme `kind`, the socket path `path` and the
/// options `o`.
pub open spec fn protocol_of(kind: SchemeKind, path: Seq<char>, o: Pairs) -> ProtocolView {
    match kind {
        SchemeKind::Tcp => ProtocolView::Tcp { proxy_protocol: proxy_protocol_of(o) },
        SchemeKind::Udp => ProtocolView::Udp { timeout: timeout_of(o) },
        SchemeKind::Unix => ProtocolView::Unix { path, proxy_protocol: proxy_protocol_of(o) },
        SchemeKind::Http => ProtocolView::HttpProxy {
            timeout: timeout_of(o),
            credentials: credentials_of(o),
            proxy_protocol: proxy_protocol_of(o),
        },
        SchemeKind::Socks5 => ProtocolView::Socks5 {
            timeout: timeout_of(o),
            credentials: credentials_of(o),
        },
        SchemeKind::Stdio => ProtocolView::Stdio { proxy_protocol: proxy_protocol_of(o) },
        SchemeKind::TProxyTcp => ProtocolView::TProxyTcp,
        SchemeKind::TProxyUdp => ProtocolView::TProxyUdp { timeout: timeout_of(o) },
    }
}

/// The tunnel with the route `route` and the destination `dest`.
pub open spec fn tunnel_of_route(route: RouteView, dest: (HostView, u16, Pairs)) -> TunnelView {
    TunnelView {
        local_protocol: protocol_of(route.kind, route.path, dest.2),
        local: route.local,
        remote: (dest.0, dest.1),
    }
}

/// The tunnel that a text configures.
pub open spec fn tunnel_of_text(arg: Seq<char>) -> Result<TunnelView, ErrorView> {
    match route_of_text(arg) {
        Err(e) => Err(e),
        Ok(route) => match tunnel_dest_of(route.dest) {
            Err(e) => Err(e),
            Ok(dest) => Ok(tunnel_of_route(route, dest)),
        },
    }
}

/// The tunnel that a text configures on the server side: the tunnel of the text, with the
/// server-side counterpart of its protocol. Refused where the protocol has none.
pub open spec fn reverse_tunnel_of_text(arg: Seq<char>) -> Result<TunnelView, ErrorView> {
    match tunnel_of_text(arg) {
        Err(e) => Err(e),
        Ok(t) => match t.local_protocol.to_reverse() {
            Some(p) => Ok(TunnelView { local_protocol: p, local: t.local, remote: t.remote }),
            None => Err((ErrorKind::NotReversible, arg)),
        },
    }
}

/// The scheme that `proto` names.
fn read_scheme(proto: &Vec<char>) -> (r: Option<SchemeKind>)
    ensures
        r == scheme_of_word(proto@),
{
    if is_word(proto, "tcp") {
        Some(SchemeKind::Tcp)
    } else if is_word(proto, "udp") {
        Some(SchemeKind::Udp)
    } else if is_word(proto, "unix") {
        Some(SchemeKind::Unix)
    } else if is_word(proto, "http") {
        Some(SchemeKind::Http)
    } else if is_word(proto, "socks5") {
        Some(SchemeKind::Socks5)
    } else if is_word(proto, "stdio") {
        Some(SchemeKind::Stdio)
    } else if is_word(proto, "tproxy+tcp") {
        Some(SchemeKind::TProxyTcp)
    } else if is_word(proto, "tproxy+udp") {
        Some(SchemeKind::TProxyUdp)
    } else {
        None
    }
}

/// Reads a tunnel text up to its destination.
pub fn parse_route(arg: &str) -> (res: Result<Route, ConfigError>)
    ensures
        result_view(res) == route_of_text(arg@),
{
    let chars = chars_of(arg);
    let mark = chars_of("://");
    let at = find_text(&chars, &mark);
    if at >= chars.len() {
        return Err(ConfigError::new(ErrorKind::Protocol, arg.to_owned()));
    }
    proof {
        lemma_find_from(chars@, mark@, 0);
    }
    let proto = slice_of(&chars, 0, at);
    let info = slice_of(&chars, at + mark.len(), chars.len());
    let kind = match read_scheme(&proto) {
        Some(kind) => kind,
        None => {
            return Err(ConfigError::new(ErrorKind::UnknownProtocol, arg.to_owned()));
        },
    };
    match kind {
        SchemeKind::Unix => {
            let colon = find_first_of(&info, &set_of(':'));
            if colon >= info.len() {
                return Err(ConfigError::new(ErrorKind::UnixPath, arg.to_owned()));
            }
            let segments: [u16; 8] = [0, 0, 0, 0, 0, 0, 0, 0];
            assert(segments@ =~= seq![0u16, 0u16, 0u16, 0u16, 0u16, 0u16, 0u16, 0u16]);
            Ok(
                Route {
                    kind,
                    local: BindAddress { ip: IpAddress::V6(Ipv6Address { segments }), port: 0 },
                    path: string_of(&slice_of(&info, 0, colon)),
                    dest: string_of(&slice_of(&info, colon + 1, info.len())),
                },
            )
        },
        SchemeKind::Stdio => {
            let octets: [u8; 4] = [0, 0, 0, 0];
            assert(octets@ =~= seq![0u8, 0u8, 0u8, 0u8]);
            Ok(
                Route {
                    kind,
                    local: BindAddress { ip: IpAddress::V4(Ipv4Address { octets }), port: 0 },
                    path: String::new(),
                    dest: string_of(&info),
                },
            )
        },
        _ => {
            let info_text = string_of(&info);
            match parse_local_bind(info_text.as_str()) {
                Err(e) => Err(e),
                Ok((local, rest)) => {
                    let dynamic = match kind {
                        SchemeKind::Http => true,
                        SchemeKind::Socks5 => true,
                        SchemeKind::TProxyTcp => true,
                        SchemeKind::TProxyUdp => true,
                        _ => false,
                    };
                    let dest = if dynamic {
                        let mut dest: String = "0.0.0.0:0?".to_owned();
                        dest.append(rest.as_str());
                        dest
                    } else {
                        rest
                    };
                    Ok(Route { kind, local, path: String::new(), dest })
                },
            }
        },
    }
}

/// The idle time after which a session is closed.
pub fn timeout_from_options(options: &TunnelOptions) -> (r: Option<HumanDuration>)
    ensures
        timeout_view(r) == timeout_of(options.entries()),
{
    match options.get("timeout_sec") {
        Some(t) => match parse_number(&chars_of(t.as_str()), u64::MAX) {
            Some(d) => if d == 0 {
                None
            } else {
                Some(HumanDuration { secs: d })
            },
            None => Some(HumanDuration { secs: 30 }),
        },
        None => Some(HumanDuration { secs: 30 }),
    }
}

/// The credentials that clients must present.
pub fn credentials_from_options(options: &TunnelOptions) -> (r: Option<(String, String)>)
    ensures
        credentials_view(r) == credentials_of(options.entries()),
{
    match options.get("login") {
        Some(login) => match options.get("password") {
            Some(password) => Some((login.clone(), password.clone())),
            None => None,
        },
        None => None,
    }
}

/// Whether a proxy protocol header is sent.
pub fn proxy_protocol_from_options(options: &TunnelOptions) -> (r: bool)
    ensures
        r == proxy_protocol_of(options.entries()),
{
    options.contains_key("proxy_protocol")
}

/// Makes the tunnel of a route and the destination that was read from the route's
/// destination text.
pub fn tunnel_from_route(route: Route, host: Host, port: u16, options: &TunnelOptions) -> (t:
    LocalToRemote)
    ensures
        t@ == tunnel_of_route(route@, (host@, port, options.entries())),
{
    let local_protocol = match route.kind {
        SchemeKind::Tcp => LocalProtocol::Tcp {
            proxy_protocol: proxy_protocol_from_options(options),
        },
        SchemeKind::Udp => LocalProtocol::Udp { timeout: timeout_from_options(options) },
        SchemeKind::Unix => LocalProtocol::Unix {
            path: route.path,
            proxy_protocol: proxy_protocol_from_options(options),
        },
        SchemeKind::Http => LocalProtocol::HttpProxy {
            timeout: timeout_from_options(options),
            credentials: credentials_from_options(options),
            proxy_protocol: proxy_protocol_from_options(options),
        },
        SchemeKind::Socks5 => LocalProtocol::Socks5 {
            timeout: timeout_from_options(options),
            credentials: credentials_from_options(options),
        },
        SchemeKind::Stdio => LocalProtocol::Stdio {
            proxy_protocol: proxy_protocol_from_options(options),
        },
        SchemeKind::TProxyTcp => LocalProtocol::TProxyTcp,
        SchemeKind::TProxyUdp => LocalProtocol::TProxyUdp {
            timeout: timeout_from_options(options),
        },
    };
    LocalToRemote { local_protocol, local: route.local, remote: (host, port) }
}

/// Reads the text of a tunnel that listens on the client.
pub fn parse_tunnel_arg(arg: &str) -> (res: Result<LocalToRemote, ConfigError>)
    ensures
        result_view(res) == tunnel_of_text(arg@),
{
    let route = match parse_route(arg) {
        Ok(route) => route,
        Err(e) => {
            return Err(e);
        },
    };
    match parse_tunnel_dest(route.dest.as_str()) {
        Err(e) => Err(e),
        Ok((host, port, options)) => Ok(tunnel_from_route(route, host, port, &options)),
    }
}

/// Reads the text of a tunnel that listens on the server.
pub fn parse_reverse_tunnel_arg(arg: &str) -> (res: Result<LocalToRemote, ConfigError>)
    ensures
        result_view(res) == reverse_tunnel_of_text(arg@),
{
    let tunnel = match parse_tunnel_arg(arg) {
        Ok(tunnel) => tunnel,
        Err(e) => {
            return Err(e);
        },
    };
    match tunnel.local_protocol.into_reverse() {
        Ok(local_protocol) => Ok(
            LocalToRemote { local_protocol, local: tunnel.local, remote: tunnel.remote },
        ),
        Err(_) => Err(ConfigError::new(ErrorKind::NotReversible, arg.to_owned())),
    }
}

/// What a tunnel text writes for the listening side: the socket path of a unix tunnel,
/// nothing for a stdio tunnel, else the address that is bound.
pub open spec fn local_text(t: TunnelView) -> Seq<char> {
    match t.local_protocol {
        ProtocolView::Unix { path, .. } => path,
        ProtocolView::ReverseUnix { path } => path,
        ProtocolView::Stdio { .. } => Seq::empty(),
        _ => bind_text(t.local),
    }
}

/// What a tunnel text writes for the destination: `host:port`.
pub open spec fn remote_text(t: TunnelView) -> Seq<char> {
    host_text(t.remote.0) + seq![':'] + decimal_text(t.remote.1 as nat)
}

/// The scheme that the text of a protocol opens with. A protocol that listens on the
/// server is written as its counterpart on the client.
pub open spec fn scheme_kind(p: ProtocolView) -> SchemeKind {
    match p {
        ProtocolView::Tcp { .. } | ProtocolView::ReverseTcp => SchemeKind::Tcp,
        ProtocolView::Udp { .. } | ProtocolView::ReverseUdp { .. } => SchemeKind::Udp,
        ProtocolView::Stdio { .. } => SchemeKind::Stdio,
        ProtocolView::Socks5 { .. } | ProtocolView::ReverseSocks5 { .. } => SchemeKind::Socks5,
        ProtocolView::HttpProxy { .. } | ProtocolView::ReverseHttpProxy { .. } => SchemeKind::Http,
        ProtocolView::TProxyTcp => SchemeKind::TProxyTcp,
        ProtocolView::TProxyUdp { .. } => SchemeKind::TProxyUdp,
        ProtocolView::Unix { .. } | ProtocolView::ReverseUnix { .. } => SchemeKind::Unix,
    }
}

/// What is written for a timeout: nothing for the default of 30 seconds, `0` for no
/// timeout, else the seconds.
pub open spec fn timeout_value(timeout: Option<u64>) -> Option<Seq<char>> {
    match timeout {
        Some(n) => if n == 30 {
            None
        } else {
            Some(decimal_text(n as nat))
        },
        None => Some(seq!['0']),
    }
}

/// The value that the text of the protocol `p` gives to `timeout_sec`, where it gives one.
pub open spec fn written_timeout(p: ProtocolView) -> Option<Seq<char>> {
    match p {
        ProtocolView::Udp { timeout } => timeout_value(timeout),
        ProtocolView::Socks5 { timeout, .. } => timeout_value(timeout),
        ProtocolView::TProxyUdp { timeout } => timeout_value(timeout),
        ProtocolView::HttpProxy { timeout, .. } => timeout_value(timeout),
        ProtocolView::ReverseUdp { timeout } => timeout_value(timeout),
        ProtocolView::ReverseSocks5 { timeout, .. } => timeout_value(timeout),
        ProtocolView::ReverseHttpProxy { timeout, .. } => timeout_value(timeout),
        _ => None,
    }
}

/// The login and password that the text of the protocol `p` holds.
pub open spec fn written_credentials(p: ProtocolView) -> Option<(Seq<char>, Seq<char>)> {
    match p {
        ProtocolView::Socks5 { credentials, .. } => credentials,
        ProtocolView::HttpProxy { credentials, .. } => credentials,
        ProtocolView::ReverseSocks5 { credentials, .. } => credentials,
        ProtocolView::ReverseHttpProxy { credentials, .. } => credentials,
        _ => None,
    }
}

/// Whether the text of the protocol `p` holds `proxy_protocol`.
pub open spec fn written_proxy_protocol(p: ProtocolView) -> bool {
    match p {
        ProtocolView::Tcp { proxy_protocol } => proxy_protocol,
        ProtocolView::Stdio { proxy_protocol } => proxy_protocol,
        ProtocolView::HttpProxy { proxy_protocol, .. } => proxy_protocol,
        ProtocolView::Unix { proxy_protocol, .. } => proxy_protocol,
        _ => false,
    }
}

/// `start`, and behind it the options that the text of the protocol `p` holds, as a reader
/// is to find them: `timeout_sec` where the timeout is not the default, `login` and
/// `password` where there are credentials, and `proxy_protocol` where the header is sent.
pub open spec fn pairs_after(start: Pairs, p: ProtocolView) -> Pairs {
    let a = match written_timeout(p) {
        Some(v) => start.push(("timeout_sec"@, v)),
        None => start,
    };
    let b = match written_credentials(p) {
        Some(c) => a.push(("login"@, c.0)).push(("password"@, c.1)),
        None => a,
    };
    if written_proxy_protocol(p) {
        b.push(("proxy_protocol"@, Seq::empty()))
    } else {
        b
    }
}

/// The options that the text of the protocol `p` holds, as a reader is to find them.
pub open spec fn written_pairs(p: ProtocolView) -> Pairs {
    pairs_after(Seq::empty(), p)
}

/// The text of the option `timeout_sec` of the protocol `p`, where it is written.
pub open spec fn timeout_items(p: ProtocolView) -> Seq<Seq<char>> {
    match written_timeout(p) {
        Some(v) => seq!["timeout_sec="@ + v],
        None => Seq::empty(),
    }
}

/// The texts of the options of the protocol `p` up to its credentials: after the timeout,
/// `login=` and `password=` with their values in percent-encoding.
pub open spec fn credential_items(p: ProtocolView) -> Seq<Seq<char>> {
    match written_credentials(p) {
        Some(c) => timeout_items(p).push("login="@ + percent_text(encode_utf8(c.0))).push(
            "password="@ + percent_text(encode_utf8(c.1)),
        ),
        None => timeout_items(p),
    }
}

/// The texts of the options of the protocol `p`: `timeout_sec=` and the seconds, `login=`
/// and `password=` with their values in percent-encoding, and `proxy_protocol`.
pub open spec fn option_items(p: ProtocolView) -> Seq<Seq<char>> {
    if written_proxy_protocol(p) {
        credential_items(p).push("proxy_protocol"@)
    } else {
        credential_items(p)
    }
}

/// `items` behind `lead`, with `&` between them; nothing where there is no item.
pub open spec fn items_text(items: Seq<Seq<char>>, lead: char) -> Seq<char>
    decreases items.len(),
{
    if items.len() == 0 {
        Seq::empty()
    } else {
        items_text(items.drop_last(), lead) + seq![
            if items.len() == 1 {
                lead
            } else {
                '&'
            },
        ] + items.last()
    }
}

/// What comes before the options in a text: `?`; but `&` in the text of a dynamic tunnel,
/// where the destination before them is read as an option itself.
pub open spec fn options_lead(p: ProtocolView) -> char {
    if is_dynamic(scheme_kind(p)) {
        '&'
    } else {
        '?'
    }
}

/// What a tunnel text writes for the options of the protocol `p`.
pub open spec fn options_text(p: ProtocolView) -> Seq<char> {
    items_text(option_items(p), options_lead(p))
}

/// What a tunnel text writes from the destination on: `host:port` and the options.
pub open spec fn written_dest(t: TunnelView) -> Seq<char> {
    remote_text(t) + options_text(t.local_protocol)
}

/// The text of a tunnel: `scheme://local:host:port`, or `scheme://host:port` for a stdio
/// tunnel, which has no listening side; then each option that is not the default.
pub open spec fn tunnel_text(t: TunnelView) -> Seq<char> {
    if t.local_protocol is Stdio {
        t.local_protocol.scheme() + "://"@ + written_dest(t)
    } else {
        t.local_protocol.scheme() + "://"@ + local_text(t) + seq![':'] + written_dest(t)
    }
}

/// Appends `chars` to `out`.
fn push_all(out: &mut Vec<char>, chars: &Vec<char>)
    ensures
        final(out)@ == old(out)@ + chars@,
{
    let mut i: usize = 0;
    while i < chars.len()
        invariant
            i <= chars.len(),
            out@ == old(out)@ + chars@.take(i as int),
        decreases chars.len() - i,
    {
        out.push(chars[i]);
        i += 1;
    }
    assert(chars@.take(chars.len() as int) == chars@);
}

/// What is written for the timeout `timeout`.
fn timeout_chars(timeout: &Option<HumanDuration>) -> (r: Option<Vec<char>>)
    ensures
        match r {
            Some(v) => timeout_value(timeout_view(*timeout)) == Some(v@),
            None => timeout_value(timeout_view(*timeout)) is None,
        },
{
    match timeout {
        Some(d) => if d.secs == 30 {
            None
        } else {
            Some(decimal_of(d.secs))
        },
        None => {
            let mut zero: Vec<char> = Vec::new();
            zero.push('0');
            Some(zero)
        },
    }
}

/// The value that the text of the protocol `p` gives to `timeout_sec`.
fn protocol_timeout_chars(p: &LocalProtocol) -> (r: Option<Vec<char>>)
    ensures
        match r {
            Some(v) => written_timeout(p@) == Some(v@),
            None => written_timeout(p@) is None,
        },
{
    match p {
        LocalProtocol::Udp { timeout } => timeout_chars(timeout),
        LocalProtocol::Socks5 { timeout, .. } => timeout_chars(timeout),
        LocalProtocol::TProxyUdp { timeout } => timeout_chars(timeout),
        LocalProtocol::HttpProxy { timeout, .. } => timeout_chars(timeout),
        LocalProtocol::ReverseUdp { timeout } => timeout_chars(timeout),
        LocalProtocol::ReverseSocks5 { timeout, .. } => timeout_chars(timeout),
        LocalProtocol::ReverseHttpProxy { timeout, .. } => timeout_chars(timeout),
        _ => None,
    }
}

/// The login and password that the text of the protocol `p` holds.
fn protocol_credentials(p: &LocalProtocol) -> (r: Option<&(String, String)>)
    ensures
        match r {
            Some(c) => written_credentials(p@) == Some((c.0@, c.1@)),
            None => written_credentials(p@) is None,
        },
{
    match p {
        LocalProtocol::Socks5 { credentials, .. } => credentials.as_ref(),
        LocalProtocol::HttpProxy { credentials, .. } => credentials.as_ref(),
        LocalProtocol::ReverseSocks5 { credentials, .. } => credentials.as_ref(),
        LocalProtocol::ReverseHttpProxy { credentials, .. } => credentials.as_ref(),
        _ => None,
    }
}

/// Whether the text of the protocol `p` holds `proxy_protocol`.
fn protocol_proxy_protocol(p: &LocalProtocol) -> (r: bool)
    ensures
        r == written_proxy_protocol(p@),
{
    match p {
        LocalProtocol::Tcp { proxy_protocol } => *proxy_protocol,
        LocalProtocol::Stdio { proxy_protocol } => *proxy_protocol,
        LocalProtocol::HttpProxy { proxy_protocol, .. } => *proxy_protocol,
        LocalProtocol::Unix { proxy_protocol, .. } => *proxy_protocol,
        _ => false,
    }
}

/// What comes before the options in the text of the protocol `p`.
fn protocol_options_lead(p: &LocalProtocol) -> (lead: char)
    ensures
        lead == options_lead(p@),
{
    match p {
        LocalProtocol::Socks5 { .. } => '&',
        LocalProtocol::HttpProxy { .. } => '&',
        LocalProtocol::TProxyTcp => '&',
        LocalProtocol::TProxyUdp { .. } => '&',
        LocalProtocol::ReverseSocks5 { .. } => '&',
        LocalProtocol::ReverseHttpProxy { .. } => '&',
        _ => '?',
    }
}

/// Appends one more item to the `count` items that `out` ends with: the word `name`, and
/// `value` in percent-encoding where `encoded` asks for it, else as it is.
fn push_item(
    out: &mut Vec<char>,
    lead: char,
    count: usize,
    name: &str,
    value: &str,
    encoded: bool,
) -> (item: Ghost<Seq<char>>)
    ensures
        item@ == name@ + if encoded {
            percent_text(encode_utf8(value@))
        } else {
            value@
        },
        final(out)@ == old(out)@ + seq![
            if count == 0 {
                lead
            } else {
                '&'
            },
        ] + item@,
{
    if count == 0 {
        out.push(lead);
    } else {
        out.push('&');
    }
    push_all(out, &chars_of(name));
    if encoded {
        push_percent(out, value.as_bytes());
    } else {
        push_all(out, &chars_of(value));
    }
    let ghost item = name@ + if encoded {
        percent_text(encode_utf8(value@))
    } else {
        value@
    };
    assert(out@ =~= old(out)@ + seq![
        if count == 0 {
            lead
        } else {
            '&'
        },
    ] + item);
    Ghost(item)
}

/// Appends the timeout of the protocol `p` to the empty `options`, where it is written.
fn push_timeout_option(options: &mut Vec<char>, p: &LocalProtocol, lead: char) -> (count: usize)
    requires
        old(options)@.len() == 0,
    ensures
        final(options)@ == items_text(timeout_items(p@), lead),
        count == timeout_items(p@).len(),
        count <= 1,
{
    assert(items_text(Seq::<Seq<char>>::empty(), lead) =~= Seq::<char>::empty());
    match protocol_timeout_chars(p) {
        Some(v) => {
            let value = string_of(&v);
            let item = push_item(options, lead, 0, "timeout_sec=", value.as_str(), false);
            proof {
                let items = timeout_items(p@);
                assert(items =~= Seq::<Seq<char>>::empty().push(item@));
                assert(items.drop_last() =~= Seq::<Seq<char>>::empty());
                assert(options@ =~= items_text(items, lead));
            }
            1
        },
        None => 0,
    }
}

/// Appends the credentials of the protocol `p` to `options`, behind its timeout.
fn push_credential_options(
    options: &mut Vec<char>,
    p: &LocalProtocol,
    lead: char,
    count: usize,
) -> (more: usize)
    requires
        old(options)@ == items_text(timeout_items(p@), lead),
        count == timeout_items(p@).len(),
        count <= 1,
    ensures
        final(options)@ == items_text(credential_items(p@), lead),
        more == credential_items(p@).len(),
        more <= 3,
{
    match protocol_credentials(p) {
        Some(c) => {
            let login = push_item(options, lead, count, "login=", c.0.as_str(), true);
            let ghost first = timeout_items(p@).push(login@);
            assert(first.drop_last() == timeout_items(p@));
            assert(options@ =~= items_text(first, lead));
            let password = push_item(options, lead, count + 1, "password=", c.1.as_str(), true);
            proof {
                let second = first.push(password@);
                assert(second.drop_last() == first);
                assert(second == credential_items(p@));
                assert(options@ =~= items_text(second, lead));
            }
            count + 2
        },
        None => count,
    }
}

/// Appends `proxy_protocol` to `options`, behind the credentials of the protocol `p`,
/// where the header is sent.
fn push_proxy_protocol_option(options: &mut Vec<char>, p: &LocalProtocol, lead: char, count: usize)
    requires
        old(options)@ == items_text(credential_items(p@), lead),
        count == credential_items(p@).len(),
    ensures
        final(options)@ == items_text(option_items(p@), lead),
{
    if protocol_proxy_protocol(p) {
        let flag = push_item(options, lead, count, "proxy_protocol", "", false);
        proof {
            reveal_strlit("");
            assert(flag@ =~= "proxy_protocol"@);
            let items = credential_items(p@).push(flag@);
            assert(items.drop_last() == credential_items(p@));
            assert(options@ =~= items_text(items, lead));
        }
    }
}

/// Appends the options of the protocol `p` to `out`.
fn push_options(out: &mut Vec<char>, p: &LocalProtocol)
    ensures
        final(out)@ == old(out)@ + options_text(p@),
{
    let lead = protocol_options_lead(p);
    let mut options: Vec<char> = Vec::new();
    let count = push_timeout_option(&mut options, p, lead);
    let count = push_credential_options(&mut options, p, lead, count);
    push_proxy_protocol_option(&mut options, p, lead, count);
    push_all(out, &options);
}

/// What a tunnel text writes for the listening side with the colon behind it; nothing
/// for a stdio tunnel.
pub open spec fn local_part(t: TunnelView) -> Seq<char> {
    if t.local_protocol is Stdio {
        Seq::empty()
    } else {
        local_text(t) + seq![':']
    }
}

/// Appends what is written for the listening side of `l` to `out`.
fn push_local(out: &mut Vec<char>, l: &LocalToRemote)
    ensures
        final(out)@ == old(out)@ + local_part(l@),
{
    match &l.local_protocol {
        LocalProtocol::Unix { path, .. } => {
            push_all(out, &chars_of(path.as_str()));
            out.push(':');
        },
        LocalProtocol::ReverseUnix { path } => {
            push_all(out, &chars_of(path.as_str()));
            out.push(':');
        },
        LocalProtocol::Stdio { .. } => {},
        _ => {
            push_bind(out, &l.local);
            out.push(':');
        },
    }
    assert(out@ =~= old(out)@ + local_part(l@));
}

/// Appends what is written for the destination of `l` to `out`.
fn push_remote(out: &mut Vec<char>, l: &LocalToRemote)
    ensures
        final(out)@ == old(out)@ + remote_text(l@),
{
    push_host(out, &l.remote.0);
    out.push(':');
    push_decimal(out, l.remote.1 as u64);
    assert(out@ =~= old(out)@ + remote_text(l@));
}

/// Writes the text of a tunnel, with each option that is not the default, so that the
/// tunnel can be read back from it.
pub fn format_local_to_remote(l: &LocalToRemote) -> (out: String)
    ensures
        out@ == tunnel_text(l@),
{
    let mut text: Vec<char> = chars_of(l.local_protocol.scheme());
    push_all(&mut text, &chars_of("://"));
    push_local(&mut text, l);
    push_remote(&mut text, l);
    push_options(&mut text, &l.local_protocol);
    assert(text@ =~= tunnel_text(l@));
    string_of(&text)
}

/// The texts of the tunnels `tunnels`.
pub open spec fn tunnel_texts(tunnels: Seq<LocalToRemote>) -> Seq<Seq<char>> {
    Seq::new(tunnels.len(), |i: int| tunnel_text(tunnels[i]@))
}

/// Tunnels as views.
pub open spec fn tunnels_view(tunnels: Seq<LocalToRemote>) -> Seq<TunnelView> {
    Seq::new(tunnels.len(), |i: int| tunnels[i]@)
}

/// Writes the texts of the tunnels that listen on the server, as those on the client
/// are written.
pub fn serialize_reverse_local_to_remote(tunnels: &Vec<LocalToRemote>) -> (out: Vec<String>)
    ensures
        strings_view(out@) == tunnel_texts(tunnels@),
{
    let mut out: Vec<String> = Vec::new();
    let mut i: usize = 0;
    while i < tunnels.len()
        invariant
            i <= tunnels.len(),
            strings_view(out@) == tunnel_texts(tunnels@.take(i as int)),
        decreases tunnels.len() - i,
    {
        let text = format_local_to_remote(&tunnels[i]);
        let ghost before = strings_view(out@);
        let ghost written = text@;
        out.push(text);
        proof {
            assert(strings_view(out@) =~= before.push(written));
            assert(tunnel_texts(tunnels@.take(i + 1)) =~= tunnel_texts(
                tunnels@.take(i as int),
            ).push(tunnel_text(tunnels@[i as int]@)));
        }
        i += 1;
    }
    assert(tunnels@.take(tunnels.len() as int) == tunnels@);
    out
}

/// The tunnels that the texts `texts` configure on the server side, or the error of the
/// first text that is refused.
pub open spec fn reverse_tunnels_of_texts(texts: Seq<Seq<char>>) -> Result<
    Seq<TunnelView>,
    ErrorView,
> {
    all_or_first_error(Seq::new(texts.len(), |i: int| reverse_tunnel_of_text(texts[i])))
}

/// Reads the texts of the tunnels that listen on the server.
pub fn deserialize_reverse_local_to_remote(strings: &Vec<String>) -> (res: Result<
    Vec<LocalToRemote>,
    ConfigError,
>)
    ensures
        match reverse_tunnels_of_texts(strings_view(strings@)) {
            Ok(tunnels) => res matches Ok(out) && tunnels_view(out@) == tunnels,
            Err(e) => res matches Err(x) && x@ == e,
        },
{
    let mut out: Vec<LocalToRemote> = Vec::new();
    let ghost texts = strings_view(strings@);
    let ghost items = Seq::new(texts.len(), |i: int| reverse_tunnel_of_text(texts[i]));
    assert(tunnels_view(out@) =~= Seq::<TunnelView>::empty());
    assert(items.take(0).len() == 0);
    let mut i: usize = 0;
    while i < strings.len()
        invariant
            i <= strings.len(),
            texts == strings_view(strings@),
            items == Seq::new(texts.len(), |i: int| reverse_tunnel_of_text(texts[i])),
            all_or_first_error(items.take(i as int)) == Ok::<Seq<TunnelView>, ErrorView>(
                tunnels_view(out@),
            ),
        decreases strings.len() - i,
    {
        proof {
            lemma_all_or_first_error_step(items, i as int);
        }
        match parse_reverse_tunnel_arg(strings[i].as_str()) {
            Err(e) => {
                proof {
                    lemma_first_error_stays(items, i + 1);
                }
                return Err(e);
            },
            Ok(t) => {
                let ghost before = tunnels_view(out@);
                out.push(t);
                assert(tunnels_view(out@) =~= before.push(t@));
            },
        }
        i += 1;
    }
    assert(items.take(strings.len() as int) == items);
    Ok(out)
}

} // verus!
