//! The protocols that a tunnel can speak on its listening side.

use crate::duration::HumanDuration;
use vstd::prelude::*;

verus! {

/// What a listener does with the connections it accepts. The first eight variants listen
/// on the client; the `Reverse` ones listen on the server, which hands each connection
/// back to the client.
#[derive(Clone, Debug, PartialEq, Eq)]
pub enum LocalProtocol {
    Tcp { proxy_protocol: bool },
    Udp { timeout: Option<HumanDuration> },
    Stdio { proxy_protocol: bool },
    Socks5 { timeout: Option<HumanDuration>, credentials: Option<(String, String)> },
    TProxyTcp,
    TProxyUdp { timeout: Option<HumanDuration> },
    HttpProxy {
        timeout: Option<HumanDuration>,
        credentials: Option<(String, String)>,
        proxy_protocol: bool,
    },
    ReverseTcp,
    ReverseUdp { timeout: Option<HumanDuration> },
    ReverseSocks5 { timeout: Option<HumanDuration>, credentials: Option<(String, String)> },
    ReverseHttpProxy { timeout: Option<HumanDuration>, credentials: Option<(String, String)> },
    Unix { path: String, proxy_protocol: bool },
    ReverseUnix { path: String },
}

/// A login and password as texts.
pub type CredentialsView = Option<(Seq<char>, Seq<char>)>;

/// A [`LocalProtocol`] with its strings as texts and its timeouts in seconds.
pub enum ProtocolView {
    Tcp { proxy_protocol: bool },
    Udp { timeout: Option<u64> },
    Stdio { proxy_protocol: bool },
    Socks5 { timeout: Option<u64>, credentials: CredentialsView },
    TProxyTcp,
    TProxyUdp { timeout: Option<u64> },
    HttpProxy { timeout: Option<u64>, credentials: CredentialsView, proxy_protocol: bool },
    ReverseTcp,
    ReverseUdp { timeout: Option<u64> },
    ReverseSocks5 { timeout: Option<u64>, credentials: CredentialsView },
    ReverseHttpProxy { timeout: Option<u64>, credentials: CredentialsView },
    Unix { path: Seq<char>, proxy_protocol: bool },
    ReverseUnix { path: Seq<char> },
}

/// A timeout in seconds.
pub open spec fn timeout_view(t: Option<HumanDuration>) -> Option<u64> {
    match t {
        Some(d) => Some(d.secs),
        None => None,
    }
}

/// Credentials as texts.
pub open spec fn credentials_view(c: Option<(String, String)>) -> CredentialsView {
    match c {
        Some(pair) => Some((pair.0@, pair.1@)),
        None => None,
    }
}

impl View for LocalProtocol {
    type V = ProtocolView;

    open spec fn view(&self) -> ProtocolView {
        match *self {
            LocalProtocol::Tcp { proxy_protocol } => ProtocolView::Tcp { proxy_protocol },
            LocalProtocol::Udp { timeout } => ProtocolView::Udp { timeout: timeout_view(timeout) },
            LocalProtocol::Stdio { proxy_protocol } => ProtocolView::Stdio { proxy_protocol },
            LocalProtocol::Socks5 { timeout, credentials } => ProtocolView::Socks5 {
                timeout: timeout_view(timeout),
                credentials: credentials_view(credentials),
            },
            LocalProtocol::TProxyTcp => ProtocolView::TProxyTcp,
            LocalProtocol::TProxyUdp { timeout } => ProtocolView::TProxyUdp {
                timeout: timeout_view(timeout),
            },
            LocalProtocol::HttpProxy { timeout, credentials, proxy_protocol } => {
                ProtocolView::HttpProxy {
                    timeout: timeout_view(timeout),
                    credentials: credentials_view(credentials),
                    proxy_protocol,
                }
            },
            LocalProtocol::ReverseTcp => ProtocolView::ReverseTcp,
            LocalProtocol::ReverseUdp { timeout } => ProtocolView::ReverseUdp {
                timeout: timeout_view(timeout),
            },
            LocalProtocol::ReverseSocks5 { timeout, credentials } => ProtocolView::ReverseSocks5 {
                timeout: timeout_view(timeout),
                credentials: credentials_view(credentials),
            },
            LocalProtocol::ReverseHttpProxy { timeout, credentials } => {
                ProtocolView::ReverseHttpProxy {
                    timeout: timeout_view(timeout),
                    credentials: credentials_view(credentials),
                }
            },
            LocalProtocol::Unix { path, proxy_protocol } => ProtocolView::Unix {
                path: path@,
                proxy_protocol,
            },
            LocalProtocol::ReverseUnix { path } => ProtocolView::ReverseUnix { path: path@ },
        }
    }
}

impl ProtocolView {
    /// Whether the listener stands on the server.
    pub open spec fn is_reverse(self) -> bool {
        self is ReverseTcp || self is ReverseUdp || self is ReverseSocks5
            || self is ReverseHttpProxy || self is ReverseUnix
    }

    /// Whether the protocol has a counterpart that listens on the server: every protocol
    /// of the client side but stdio and the transparent proxies.
    pub open spec fn is_reversible(self) -> bool {
        self is Tcp || self is Udp || self is Socks5 || self is HttpProxy || self is Unix
    }

    /// The counterpart that listens on the server. It keeps the timeout, the credentials
    /// and the socket path; no reverse protocol sends a proxy protocol header.
    pub open spec fn to_reverse(self) -> Option<ProtocolView> {
        match self {
            ProtocolView::Tcp { .. } => Some(ProtocolView::ReverseTcp),
            ProtocolView::Udp { timeout } => Some(ProtocolView::ReverseUdp { timeout }),
            ProtocolView::Socks5 { timeout, credentials } => Some(
                ProtocolView::ReverseSocks5 { timeout, credentials },
            ),
            ProtocolView::HttpProxy { timeout, credentials, .. } => Some(
                ProtocolView::ReverseHttpProxy { timeout, credentials },
            ),
            ProtocolView::Unix { path, .. } => Some(ProtocolView::ReverseUnix { path }),
            _ => None,
        }
    }

    /// The counterpart that listens on the client, without a proxy protocol header.
    pub open spec fn to_forward(self) -> Option<ProtocolView> {
        match self {
            ProtocolView::ReverseTcp => Some(ProtocolView::Tcp { proxy_protocol: false }),
            ProtocolView::ReverseUdp { timeout } => Some(ProtocolView::Udp { timeout }),
            ProtocolView::ReverseSocks5 { timeout, credentials } => Some(
                ProtocolView::Socks5 { timeout, credentials },
            ),
            ProtocolView::ReverseHttpProxy { timeout, credentials } => Some(
                ProtocolView::HttpProxy { timeout, credentials, proxy_protocol: false },
            ),
            ProtocolView::ReverseUnix { path } => Some(
                ProtocolView::Unix { path, proxy_protocol: false },
            ),
            _ => None,
        }
    }

    /// The protocol with its proxy protocol flag cleared, where it has one.
    pub open spec fn without_proxy_protocol(self) -> ProtocolView {
        match self {
            ProtocolView::Tcp { .. } => ProtocolView::Tcp { proxy_protocol: false },
            ProtocolView::Stdio { .. } => ProtocolView::Stdio { proxy_protocol: false },
            ProtocolView::HttpProxy { timeout, credentials, .. } => ProtocolView::HttpProxy {
                timeout,
                credentials,
                proxy_protocol: false,
            },
            ProtocolView::Unix { path, .. } => ProtocolView::Unix { path, proxy_protocol: false },
            other => other,
        }
    }

    /// The scheme that tunnel texts write for the protocol. A reverse protocol is written
    /// as its counterpart on the client.
    pub open spec fn scheme(self) -> Seq<char> {
        match self {
            ProtocolView::Tcp { .. } | ProtocolView::ReverseTcp => "tcp"@,
            ProtocolView::Udp { .. } | ProtocolView::ReverseUdp { .. } => "udp"@,
            ProtocolView::Stdio { .. } => "stdio"@,
            ProtocolView::Socks5 { .. } | ProtocolView::ReverseSocks5 { .. } => "socks5"@,
            ProtocolView::HttpProxy { .. } | ProtocolView::ReverseHttpProxy { .. } => "http"@,
            ProtocolView::TProxyTcp => "tproxy+tcp"@,
            ProtocolView::TProxyUdp { .. } => "tproxy+udp"@,
            ProtocolView::Unix { .. } | ProtocolView::ReverseUnix { .. } => "unix"@,
        }
    }
}

impl LocalProtocol {
    /// Whether the listener stands on the server.
    pub fn is_reverse(&self) -> (r: bool)
        ensures
            r == self@.is_reverse(),
    {
        match self {
            LocalProtocol::ReverseTcp => true,
            LocalProtocol::ReverseUdp { .. } => true,
            LocalProtocol::ReverseSocks5 { .. } => true,
            LocalProtocol::ReverseHttpProxy { .. } => true,
            LocalProtocol::ReverseUnix { .. } => true,
            _ => false,
        }
    }

    /// The counterpart that listens on the server, or the protocol itself where it has none.
    pub fn into_reverse(self) -> (r: Result<LocalProtocol, LocalProtocol>)
        ensures
            match r {
                Ok(p) => self@.to_reverse() == Some(p@),
                Err(p) => self@.to_reverse() is None && p == self,
            },
    {
        match self {
            LocalProtocol::Tcp { .. } => Ok(LocalProtocol::ReverseTcp),
            LocalProtocol::Udp { timeout } => Ok(LocalProtocol::ReverseUdp { timeout }),
            LocalProtocol::Socks5 { timeout, credentials } => Ok(
                LocalProtocol::ReverseSocks5 { timeout, credentials },
            ),
            LocalProtocol::HttpProxy { timeout, credentials, proxy_protocol: _ } => Ok(
                LocalProtocol::ReverseHttpProxy { timeout, credentials },
            ),
            LocalProtocol::Unix { path, proxy_protocol: _ } => Ok(
                LocalProtocol::ReverseUnix { path },
            ),
            other => Err(other),
        }
    }

    /// The counterpart that listens on the client, or the protocol itself where it has none.
    pub fn into_forward(self) -> (r: Result<LocalProtocol, LocalProtocol>)
        ensures
            match r {
                Ok(p) => self@.to_forward() == Some(p@),
                Err(p) => self@.to_forward() is None && p == self,
            },
    {
        match self {
            LocalProtocol::ReverseTcp => Ok(LocalProtocol::Tcp { proxy_protocol: false }),
            LocalProtocol::ReverseUdp { timeout } => Ok(LocalProtocol::Udp { timeout }),
            LocalProtocol::ReverseSocks5 { timeout, credentials } => Ok(
                LocalProtocol::Socks5 { timeout, credentials },
            ),
            LocalProtocol::ReverseHttpProxy { timeout, credentials } => Ok(
                LocalProtocol::HttpProxy { timeout, credentials, proxy_protocol: false },
            ),
            LocalProtocol::ReverseUnix { path } => Ok(
                LocalProtocol::Unix { path, proxy_protocol: false },
            ),
            other => Err(other),
        }
    }

    /// The scheme that tunnel texts write for the protocol.
    pub fn scheme(&self) -> (s: &'static str)
        ensures
            s@ == self@.scheme(),
    {
        match self {
            LocalProtocol::Tcp { .. } => "tcp",
            LocalProtocol::Udp { .. } => "udp",
            LocalProtocol::Stdio { .. } => "stdio",
            LocalProtocol::Socks5 { .. } => "socks5",
            LocalProtocol::HttpProxy { .. } => "http",
            LocalProtocol::TProxyTcp => "tproxy+tcp",
            LocalProtocol::TProxyUdp { .. } => "tproxy+udp",
            LocalProtocol::Unix { .. } => "unix",
            LocalProtocol::ReverseTcp => "tcp",
            LocalProtocol::ReverseUdp { .. } => "udp",
            LocalProtocol::ReverseSocks5 { .. } => "socks5",
            LocalProtocol::ReverseHttpProxy { .. } => "http",
            LocalProtocol::ReverseUnix { .. } => "unix",
        }
    }
}

/// Whether a session that has been idle for `idle` seconds is closed: where the protocol
/// has a timeout and the session has been idle for as long. A session without a timeout
/// is never closed for being idle.
pub open spec fn is_expired(timeout: Option<u64>, idle: u64) -> bool {
    match timeout {
        Some(t) => idle >= t,
        None => false,
    }
}

/// Whether to close a session that has been idle for `idle`.
pub fn idle_timeout_reached(timeout: &Option<HumanDuration>, idle: HumanDuration) -> (r: bool)
    ensures
        r == is_expired(timeout_view(*timeout), idle.secs),
        *timeout is None ==> !r,
{
    match timeout {
        Some(t) => idle.secs >= t.secs,
        None => false,
    }
}

/// Exactly the reversible protocols have a counterpart on the server, and that
/// counterpart is a reverse protocol.
pub proof fn lemma_reverse_exists(p: ProtocolView)
    ensures
        p.to_reverse() is Some <==> p.is_reversible(),
        p.to_reverse() matches Some(r) ==> r.is_reverse(),
{
}

/// Turning a reversible protocol into its server-side counterpart and back gives the
/// protocol again, with its timeout, credentials and socket path, and with the proxy
/// protocol flag cleared.
pub proof fn lemma_reverse_then_forward(p: ProtocolView)
    requires
        p.is_reversible(),
    ensures
        p.to_reverse() is Some,
        p.to_reverse()->0.to_forward() == Some(p.without_proxy_protocol()),
{
}

/// Turning a reverse protocol into its client-side counterpart and back gives the
/// reverse protocol again.
pub proof fn lemma_forward_then_reverse(p: ProtocolView)
    requires
        p.is_reverse(),
    ensures
        p.to_forward() is Some,
        p.to_forward()->0.to_reverse() == Some(p),
{
}

/// The transports that carry tunnels to the server.
#[derive(Clone, Copy, Debug, PartialEq, Eq, Hash, Structural)]
pub enum TransportScheme {
    Ws,
    Wss,
    Http,
    Https,
}

impl TransportScheme {
    /// The scheme as URLs write it.
    pub open spec fn text(self) -> Seq<char> {
        match self {
            TransportScheme::Ws => "ws"@,
            TransportScheme::Wss => "wss"@,
            TransportScheme::Http => "http"@,
            TransportScheme::Https => "https"@,
        }
    }

    /// Every transport.
    pub fn values() -> (all: [TransportScheme; 4])
        ensures
            all@ == seq![
                TransportScheme::Ws,
                TransportScheme::Wss,
                TransportScheme::Http,
                TransportScheme::Https,
            ],
    {
        let all = [
            TransportScheme::Ws,
            TransportScheme::Wss,
            TransportScheme::Http,
            TransportScheme::Https,
        ];
        assert(all@ =~= seq![
            TransportScheme::Ws,
            TransportScheme::Wss,
            TransportScheme::Http,
            TransportScheme::Https,
        ]);
        all
    }

    /// The scheme as URLs write it.
    pub fn to_str(&self) -> (s: &'static str)
        ensures
            s@ == self.text(),
    {
        match self {
            TransportScheme::Ws => "ws",
            TransportScheme::Wss => "wss",
            TransportScheme::Http => "http",
            TransportScheme::Https => "https",
        }
    }
}

} // verus!
