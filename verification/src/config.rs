//! The configuration of a client and of a server, and how the command line and a
//! configuration file are merged into one: a value of the command line stands unless it
//! is the default, in which case the value of the file is taken.

use crate::addr::{Host, HostView, Ipv4Address};
use crate::duration::HumanDuration;
use crate::header::{HeaderName, HeaderValue};
use crate::sni::DnsName;
use crate::text::{chars_of, is_word};
use crate::tunnel::LocalToRemote;
use crate::weburl::{parse_url, url_of_text, ParsedUrl, UrlView};
use vstd::prelude::*;

verus! {

/// The path prefix of the upgrade request where none is configured.
pub const DEFAULT_CLIENT_UPGRADE_PATH_PREFIX: &'static str = "v1";

/// The address that a client connects to where none is configured.
pub const DEFAULT_CLIENT_REMOTE_ADDR: &'static str = "ws://127.0.0.1:8080";

/// The address that a server binds where none is configured.
pub const DEFAULT_SERVER_REMOTE_ADDR: &'static str = "ws://0.0.0.0:8080";

/// The configuration of a client.
#[derive(Clone, Debug)]
pub struct Client {
    /// The tunnels that listen on the client.
    pub local_to_remote: Vec<LocalToRemote>,
    /// The tunnels that listen on the server.
    pub remote_to_local: Vec<LocalToRemote>,
    /// The mark to set on the sockets, on Linux.
    pub socket_so_mark: Option<u32>,
    /// How many connections to the server are kept open and idle.
    pub connection_min_idle: u32,
    /// The longest time to wait between two attempts to connect.
    pub connection_retry_max_backoff: HumanDuration,
    /// The longest time to wait between two attempts to connect for reverse tunnels.
    pub reverse_tunnel_connection_retry_max_backoff: HumanDuration,
    /// The name to send as SNI.
    pub tls_sni_override: Option<DnsName>,
    /// Whether no SNI is sent.
    pub tls_sni_disable: bool,
    /// Whether the SNI is encrypted.
    pub tls_ech_enable: bool,
    /// Whether the certificate of the server is verified.
    pub tls_verify_certificate: bool,
    /// The HTTP proxy to reach the server through.
    pub http_proxy: Option<String>,
    /// The login for the HTTP proxy.
    pub http_proxy_login: Option<String>,
    /// The password for the HTTP proxy.
    pub http_proxy_password: Option<String>,
    /// The path prefix of the upgrade request.
    pub http_upgrade_path_prefix: String,
    /// The value of the `Authorization` header of the upgrade request.
    pub http_upgrade_credentials: Option<HeaderValue>,
    /// How often a ping is sent; never where absent.
    pub websocket_ping_frequency: Option<HumanDuration>,
    /// Whether websocket frames are masked.
    pub websocket_mask_frame: bool,
    /// The headers to add to the upgrade request.
    pub http_headers: Vec<(HeaderName, HeaderValue)>,
    /// The file to read more headers from.
    pub http_headers_file: Option<String>,
    /// The address of the server.
    pub remote_addr: Option<ParsedUrl>,
    /// The certificate to present to the server.
    pub tls_certificate: Option<String>,
    /// The private key of the certificate.
    pub tls_private_key: Option<String>,
    /// The DNS resolvers to use.
    pub dns_resolver: Vec<ParsedUrl>,
    /// Whether IPv4 addresses are tried first.
    pub dns_resolver_prefer_ipv4: bool,
}

/// The configuration of a server.
#[derive(Clone, Debug)]
pub struct Server {
    /// The address to bind.
    pub remote_addr: Option<ParsedUrl>,
    /// The mark to set on the sockets, on Linux.
    pub socket_so_mark: Option<u32>,
    /// How often a ping is sent; never where absent.
    pub websocket_ping_frequency: Option<HumanDuration>,
    /// Whether websocket frames are masked.
    pub websocket_mask_frame: bool,
    /// The DNS resolvers to use.
    pub dns_resolver: Vec<ParsedUrl>,
    /// Whether IPv4 addresses are tried first.
    pub dns_resolver_prefer_ipv4: bool,
    /// The destinations that tunnels may reach; all where absent.
    pub restrict_to: Option<Vec<String>>,
    /// The path prefixes that upgrade requests may carry; all where absent.
    pub restrict_http_upgrade_path_prefix: Option<Vec<String>>,
    /// The file that holds the restrictions.
    pub restrict_config: Option<String>,
    /// The certificate to present to clients.
    pub tls_certificate: Option<String>,
    /// The private key of the certificate.
    pub tls_private_key: Option<String>,
    /// The certificates that sign the certificates of the clients.
    pub tls_client_ca_certs: Option<String>,
    /// The HTTP proxy to reach the clients through.
    pub http_proxy: Option<String>,
    /// The login for the HTTP proxy.
    pub http_proxy_login: Option<String>,
    /// The password for the HTTP proxy.
    pub http_proxy_password: Option<String>,
    /// How long a reverse tunnel waits for clients before it stops listening.
    pub remote_to_local_server_idle_timeout: HumanDuration,
}

/// The websocket URL with the text `text`, the IPv4 host `octets`, the port 8080 and no
/// query.
pub open spec fn websocket_view(text: Seq<char>, octets: Seq<u8>) -> UrlView {
    UrlView {
        text,
        scheme: "ws"@,
        host: Some(HostView::Ipv4(octets)),
        port: Some(8080u16),
        query: Seq::empty(),
    }
}

/// What the URL parser makes of the default address `address`; and, should it make
/// nothing of it, the websocket URL with the text `text` and the host `octets`.
pub open spec fn default_url_view(address: Seq<char>, text: Seq<char>, octets: Seq<u8>) -> UrlView {
    match url_of_text(address) {
        Some(u) => u,
        None => websocket_view(text, octets),
    }
}

/// The address of a client where none is configured.
pub open spec fn default_client_url() -> UrlView {
    default_url_view(DEFAULT_CLIENT_REMOTE_ADDR@, default_client_url_text(), seq![127u8, 0, 0, 1])
}

/// The address of a server where none is configured.
pub open spec fn default_server_url() -> UrlView {
    default_url_view(DEFAULT_SERVER_REMOTE_ADDR@, default_server_url_text(), seq![0u8, 0, 0, 0])
}

/// The websocket URL with the text `text`, the IPv4 host `octets` and the port 8080.
fn websocket_url(text: &str, octets: [u8; 4]) -> (url: ParsedUrl)
    ensures
        url@ == websocket_view(text@, octets@),
{
    let url = ParsedUrl {
        text: text.to_owned(),
        scheme: "ws".to_owned(),
        host: Some(Host::Ipv4(Ipv4Address { octets })),
        port: Some(8080),
        query: Vec::new(),
    };
    assert(url@.query =~= Seq::<(Seq<char>, Seq<char>)>::empty());
    url
}

/// Reads the default address `address`.
fn default_url(address: &str, text: &str, octets: [u8; 4]) -> (url: ParsedUrl)
    ensures
        url@ == default_url_view(address@, text@, octets@),
{
    match parse_url(address) {
        Some(url) => url,
        None => websocket_url(text, octets),
    }
}

/// The address to which a client connects where none is configured: what
/// [`DEFAULT_CLIENT_REMOTE_ADDR`] reads as.
pub fn default_client_remote_addr() -> (url: Option<ParsedUrl>)
    ensures
        url matches Some(u) && u@ == default_client_url(),
{
    Some(default_url(DEFAULT_CLIENT_REMOTE_ADDR, "ws://127.0.0.1:8080/", [127, 0, 0, 1]))
}

/// The address that a server binds where none is configured: what
/// [`DEFAULT_SERVER_REMOTE_ADDR`] reads as.
pub fn default_server_remote_addr() -> (url: Option<ParsedUrl>)
    ensures
        url matches Some(u) && u@ == default_server_url(),
{
    Some(default_url(DEFAULT_SERVER_REMOTE_ADDR, "ws://0.0.0.0:8080/", [0, 0, 0, 0]))
}

impl Default for Client {
    fn default() -> (c: Client)
        ensures
            c.local_to_remote@.len() == 0,
            c.remote_to_local@.len() == 0,
            c.socket_so_mark is None,
            c.connection_min_idle == 0,
            c.connection_retry_max_backoff.secs == 300,
            c.reverse_tunnel_connection_retry_max_backoff.secs == 1,
            c.tls_sni_override is None,
            !c.tls_sni_disable,
            !c.tls_ech_enable,
            !c.tls_verify_certificate,
            c.http_proxy is None,
            c.http_proxy_login is None,
            c.http_proxy_password is None,
            c.http_upgrade_path_prefix@ == DEFAULT_CLIENT_UPGRADE_PATH_PREFIX@,
            c.http_upgrade_credentials is None,
            c.websocket_ping_frequency == Some(HumanDuration { secs: 30 }),
            !c.websocket_mask_frame,
            c.http_headers@.len() == 0,
            c.http_headers_file is None,
            c.remote_addr matches Some(u) && u@ == default_client_url(),
            c.tls_certificate is None,
            c.tls_private_key is None,
            c.dns_resolver@.len() == 0,
            !c.dns_resolver_prefer_ipv4,
    {
        Client {
            local_to_remote: Vec::new(),
            remote_to_local: Vec::new(),
            socket_so_mark: None,
            connection_min_idle: 0,
            connection_retry_max_backoff: HumanDuration { secs: 300 },
            reverse_tunnel_connection_retry_max_backoff: HumanDuration { secs: 1 },
            tls_sni_override: None,
            tls_sni_disable: false,
            tls_ech_enable: false,
            tls_verify_certificate: false,
            http_proxy: None,
            http_proxy_login: None,
            http_proxy_password: None,
            http_upgrade_path_prefix: DEFAULT_CLIENT_UPGRADE_PATH_PREFIX.to_owned(),
            http_upgrade_credentials: None,
            websocket_ping_frequency: Some(HumanDuration { secs: 30 }),
            websocket_mask_frame: false,
            http_headers: Vec::new(),
            http_headers_file: None,
            remote_addr: default_client_remote_addr(),
            tls_certificate: None,
            tls_private_key: None,
            dns_resolver: Vec::new(),
            dns_resolver_prefer_ipv4: false,
        }
    }
}

impl Client {
    /// The address of the server.
    pub fn remote_addr(&self) -> (url: &ParsedUrl)
        requires
            self.remote_addr is Some,
        ensures
            Some(*url) == self.remote_addr,
    {
        self.remote_addr.as_ref().unwrap()
    }
}

impl Default for Server {
    fn default() -> (s: Server)
        ensures
            s.remote_addr matches Some(u) && u@ == default_server_url(),
            s.socket_so_mark is None,
            s.websocket_ping_frequency == Some(HumanDuration { secs: 30 }),
            !s.websocket_mask_frame,
            s.dns_resolver@.len() == 0,
            !s.dns_resolver_prefer_ipv4,
            s.restrict_to is None,
            s.restrict_http_upgrade_path_prefix is None,
            s.restrict_config is None,
            s.tls_certificate is None,
            s.tls_private_key is None,
            s.tls_client_ca_certs is None,
            s.http_proxy is None,
            s.http_proxy_login is None,
            s.http_proxy_password is None,
            s.remote_to_local_server_idle_timeout.secs == 180,
    {
        Server {
            remote_addr: default_server_remote_addr(),
            socket_so_mark: None,
            websocket_ping_frequency: Some(HumanDuration { secs: 30 }),
            websocket_mask_frame: false,
            dns_resolver: Vec::new(),
            dns_resolver_prefer_ipv4: false,
            restrict_to: None,
            restrict_http_upgrade_path_prefix: None,
            restrict_config: None,
            tls_certificate: None,
            tls_private_key: None,
            tls_client_ca_certs: None,
            http_proxy: None,
            http_proxy_login: None,
            http_proxy_password: None,
            remote_to_local_server_idle_timeout: HumanDuration { secs: 180 },
        }
    }
}

impl Server {
    /// The address to bind.
    pub fn remote_addr(&self) -> (url: &ParsedUrl)
        requires
            self.remote_addr is Some,
        ensures
            Some(*url) == self.remote_addr,
    {
        self.remote_addr.as_ref().unwrap()
    }
}

/// The text of the URL that [`DEFAULT_CLIENT_REMOTE_ADDR`] makes.
pub open spec fn default_client_url_text() -> Seq<char> {
    "ws://127.0.0.1:8080/"@
}

/// The text of the URL that [`DEFAULT_SERVER_REMOTE_ADDR`] makes.
pub open spec fn default_server_url_text() -> Seq<char> {
    "ws://0.0.0.0:8080/"@
}

/// Whether the command line gave no address of its own: none at all, or the default.
pub open spec fn is_unset_addr(addr: Option<ParsedUrl>, default_text: Seq<char>) -> bool {
    match addr {
        None => true,
        Some(u) => u.text@ == default_text,
    }
}

/// Whether `addr` is absent or has the text `default_text`.
pub fn addr_is_unset(addr: &Option<ParsedUrl>, default_text: &str) -> (r: bool)
    ensures
        r == is_unset_addr(*addr, default_text@),
{
    match addr {
        None => true,
        Some(u) => is_word(&chars_of(u.text.as_str()), default_text),
    }
}

/// `cli` where `take_file` is false, else `file`.
pub open spec fn pick<T>(take_file: bool, cli: T, file: T) -> T {
    if take_file {
        file
    } else {
        cli
    }
}

/// Whether the configuration keeps what excludes one another apart: where no SNI is sent,
/// no name is set to send as SNI and the SNI is not encrypted.
pub open spec fn sni_exclusive(c: Client) -> bool {
    !(c.tls_sni_disable && (c.tls_sni_override is Some || c.tls_ech_enable))
}

/// The configuration of a client that the command line `cli` and the file `file` give
/// together. Each value of `cli` stands unless it is the default: an empty list, an
/// absent value, `false`, zero idle connections, 300 and 1 seconds of backoff, the path
/// prefix `v1`, a ping every 30 seconds, the default address. Then the value of `file`
/// is taken.
///
/// What the command line says of SNI goes before the file: where it sends no SNI, the
/// name to send and the encryption of the file are left out; where it sets a name or the
/// encryption, the file does not switch SNI off.
pub open spec fn merged_client(cli: Client, file: Client) -> Client {
    Client {
        local_to_remote: pick(
            cli.local_to_remote@.len() == 0,
            cli.local_to_remote,
            file.local_to_remote,
        ),
        remote_to_local: pick(
            cli.remote_to_local@.len() == 0,
            cli.remote_to_local,
            file.remote_to_local,
        ),
        socket_so_mark: pick(cli.socket_so_mark is None, cli.socket_so_mark, file.socket_so_mark),
        connection_min_idle: pick(
            cli.connection_min_idle == 0,
            cli.connection_min_idle,
            file.connection_min_idle,
        ),
        connection_retry_max_backoff: pick(
            cli.connection_retry_max_backoff.secs == 300,
            cli.connection_retry_max_backoff,
            file.connection_retry_max_backoff,
        ),
        reverse_tunnel_connection_retry_max_backoff: pick(
            cli.reverse_tunnel_connection_retry_max_backoff.secs == 1,
            cli.reverse_tunnel_connection_retry_max_backoff,
            file.reverse_tunnel_connection_retry_max_backoff,
        ),
        tls_sni_override: pick(
            cli.tls_sni_override is None && !cli.tls_sni_disable,
            cli.tls_sni_override,
            file.tls_sni_override,
        ),
        tls_sni_disable: pick(
            !cli.tls_sni_disable && cli.tls_sni_override is None && !cli.tls_ech_enable,
            cli.tls_sni_disable,
            file.tls_sni_disable,
        ),
        tls_ech_enable: pick(
            !cli.tls_ech_enable && !cli.tls_sni_disable,
            cli.tls_ech_enable,
            file.tls_ech_enable,
        ),
        tls_verify_certificate: pick(
            !cli.tls_verify_certificate,
            cli.tls_verify_certificate,
            file.tls_verify_certificate,
        ),
        http_proxy: pick(cli.http_proxy is None, cli.http_proxy, file.http_proxy),
        http_proxy_login: pick(
            cli.http_proxy_login is None,
            cli.http_proxy_login,
            file.http_proxy_login,
        ),
        http_proxy_password: pick(
            cli.http_proxy_password is None,
            cli.http_proxy_password,
            file.http_proxy_password,
        ),
        http_upgrade_path_prefix: pick(
            cli.http_upgrade_path_prefix@ == DEFAULT_CLIENT_UPGRADE_PATH_PREFIX@,
            cli.http_upgrade_path_prefix,
            file.http_upgrade_path_prefix,
        ),
        http_upgrade_credentials: pick(
            cli.http_upgrade_credentials is None,
            cli.http_upgrade_credentials,
            file.http_upgrade_credentials,
        ),
        websocket_ping_frequency: pick(
            cli.websocket_ping_frequency == Some(HumanDuration { secs: 30 }),
            cli.websocket_ping_frequency,
            file.websocket_ping_frequency,
        ),
        websocket_mask_frame: pick(
            !cli.websocket_mask_frame,
            cli.websocket_mask_frame,
            file.websocket_mask_frame,
        ),
        http_headers: pick(cli.http_headers@.len() == 0, cli.http_headers, file.http_headers),
        http_headers_file: pick(
            cli.http_headers_file is None,
            cli.http_headers_file,
            file.http_headers_file,
        ),
        remote_addr: pick(
            is_unset_addr(cli.remote_addr, default_client_url_text()),
            cli.remote_addr,
            file.remote_addr,
        ),
        tls_certificate: pick(
            cli.tls_certificate is None,
            cli.tls_certificate,
            file.tls_certificate,
        ),
        tls_private_key: pick(
            cli.tls_private_key is None,
            cli.tls_private_key,
            file.tls_private_key,
        ),
        dns_resolver: pick(cli.dns_resolver@.len() == 0, cli.dns_resolver, file.dns_resolver),
        dns_resolver_prefer_ipv4: pick(
            !cli.dns_resolver_prefer_ipv4,
            cli.dns_resolver_prefer_ipv4,
            file.dns_resolver_prefer_ipv4,
        ),
    }
}

/// The value of the file where `take_file` holds, else the value of the command line.
fn take<T>(take_file: bool, cli: T, file: T) -> (r: T)
    ensures
        r == pick(take_file, cli, file),
{
    if take_file {
        file
    } else {
        cli
    }
}

/// Whether `d` is a ping every 30 seconds.
fn is_default_ping(d: &Option<HumanDuration>) -> (r: bool)
    ensures
        r == (*d == Some(HumanDuration { secs: 30 })),
{
    match d {
        Some(d) => d.secs == 30,
        None => false,
    }
}

/// Merges the configuration of the command line with the client section of a
/// configuration file. Returns the merged configuration, and whether there was a client
/// section: then the address of the server counts as configured, whatever it is.
pub fn merge_client_config(cli: Client, file_config: Option<Client>) -> (res: (Client, bool))
    ensures
        match file_config {
            None => res.0 == cli && !res.1,
            Some(file) => res.0 == merged_client(cli, file) && res.1 && (sni_exclusive(cli)
                && sni_exclusive(file) ==> sni_exclusive(res.0)),
        },
{
    let file = match file_config {
        Some(file) => file,
        None => {
            return (cli, false);
        },
    };
    let local_to_remote = take(
        cli.local_to_remote.len() == 0,
        cli.local_to_remote,
        file.local_to_remote,
    );
    let remote_to_local = take(
        cli.remote_to_local.len() == 0,
        cli.remote_to_local,
        file.remote_to_local,
    );
    let socket_so_mark = take(
        cli.socket_so_mark.is_none(),
        cli.socket_so_mark,
        file.socket_so_mark,
    );
    let connection_min_idle = take(
        cli.connection_min_idle == 0,
        cli.connection_min_idle,
        file.connection_min_idle,
    );
    let connection_retry_max_backoff = take(
        cli.connection_retry_max_backoff.secs == 300,
        cli.connection_retry_max_backoff,
        file.connection_retry_max_backoff,
    );
    let reverse_tunnel_connection_retry_max_backoff = take(
        cli.reverse_tunnel_connection_retry_max_backoff.secs == 1,
        cli.reverse_tunnel_connection_retry_max_backoff,
        file.reverse_tunnel_connection_retry_max_backoff,
    );
    let tls_sni_disable = take(
        !cli.tls_sni_disable && cli.tls_sni_override.is_none() && !cli.tls_ech_enable,
        cli.tls_sni_disable,
        file.tls_sni_disable,
    );
    let tls_ech_enable = take(
        !cli.tls_ech_enable && !cli.tls_sni_disable,
        cli.tls_ech_enable,
        file.tls_ech_enable,
    );
    let tls_sni_override = take(
        cli.tls_sni_override.is_none() && !cli.tls_sni_disable,
        cli.tls_sni_override,
        file.tls_sni_override,
    );
    let tls_verify_certificate = take(
        !cli.tls_verify_certificate,
        cli.tls_verify_certificate,
        file.tls_verify_certificate,
    );
    let http_proxy = take(
        cli.http_proxy.is_none(),
        cli.http_proxy,
        file.http_proxy,
    );
    let http_proxy_login = take(
        cli.http_proxy_login.is_none(),
        cli.http_proxy_login,
        file.http_proxy_login,
    );
    let http_proxy_password = take(
        cli.http_proxy_password.is_none(),
        cli.http_proxy_password,
        file.http_proxy_password,
    );
    let http_upgrade_path_prefix = take(
        is_word(
        &chars_of(cli.http_upgrade_path_prefix.as_str()),
        DEFAULT_CLIENT_UPGRADE_PATH_PREFIX,
    ),
        cli.http_upgrade_path_prefix,
        file.http_upgrade_path_prefix,
    );
    let http_upgrade_credentials = take(
        cli.http_upgrade_credentials.is_none(),
        cli.http_upgrade_credentials,
        file.http_upgrade_credentials,
    );
    let websocket_ping_frequency = take(
        is_default_ping(&cli.websocket_ping_frequency),
        cli.websocket_ping_frequency,
        file.websocket_ping_frequency,
    );
    let websocket_mask_frame = take(
        !cli.websocket_mask_frame,
        cli.websocket_mask_frame,
        file.websocket_mask_frame,
    );
    let http_headers = take(
        cli.http_headers.len() == 0,
        cli.http_headers,
        file.http_headers,
    );
    let http_headers_file = take(
        cli.http_headers_file.is_none(),
        cli.http_headers_file,
        file.http_headers_file,
    );
    let remote_addr = take(
        addr_is_unset(&cli.remote_addr, "ws://127.0.0.1:8080/"),
        cli.remote_addr,
        file.remote_addr,
    );
    let tls_certificate = take(
        cli.tls_certificate.is_none(),
        cli.tls_certificate,
        file.tls_certificate,
    );
    let tls_private_key = take(
        cli.tls_private_key.is_none(),
        cli.tls_private_key,
        file.tls_private_key,
    );
    let dns_resolver = take(
        cli.dns_resolver.len() == 0,
        cli.dns_resolver,
        file.dns_resolver,
    );
    let dns_resolver_prefer_ipv4 = take(
        !cli.dns_resolver_prefer_ipv4,
        cli.dns_resolver_prefer_ipv4,
        file.dns_resolver_prefer_ipv4,
    );
    let merged = Client {
        local_to_remote,
        remote_to_local,
        socket_so_mark,
        connection_min_idle,
        connection_retry_max_backoff,
        reverse_tunnel_connection_retry_max_backoff,
        tls_sni_override,
        tls_sni_disable,
        tls_ech_enable,
        tls_verify_certificate,
        http_proxy,
        http_proxy_login,
        http_proxy_password,
        http_upgrade_path_prefix,
        http_upgrade_credentials,
        websocket_ping_frequency,
        websocket_mask_frame,
        http_headers,
        http_headers_file,
        remote_addr,
        tls_certificate,
        tls_private_key,
        dns_resolver,
        dns_resolver_prefer_ipv4,
    };
    (merged, true)
}

/// Whether the configuration keeps what excludes one another apart: where a file holds
/// the restrictions, neither list of the two simple forms is set.
pub open spec fn restrictions_exclusive(s: Server) -> bool {
    !(s.restrict_config is Some && (s.restrict_to is Some
        || s.restrict_http_upgrade_path_prefix is Some))
}

/// The configuration of a server that the command line `cli` and the file `file` give
/// together. Each value of `cli` stands unless it is the default: the default address, an
/// absent value, an empty list, `false`, a ping every 30 seconds, 180 seconds of idle
/// time. Then the value of `file` is taken.
///
/// The restrictions of the command line go before those of the file: where it names a
/// file of restrictions, the lists of the file are left out; where it sets a list, the
/// file of restrictions of the file is left out.
pub open spec fn merged_server(cli: Server, file: Server) -> Server {
    Server {
        remote_addr: pick(
            is_unset_addr(cli.remote_addr, default_server_url_text()),
            cli.remote_addr,
            file.remote_addr,
        ),
        socket_so_mark: pick(cli.socket_so_mark is None, cli.socket_so_mark, file.socket_so_mark),
        websocket_ping_frequency: pick(
            cli.websocket_ping_frequency == Some(HumanDuration { secs: 30 }),
            cli.websocket_ping_frequency,
            file.websocket_ping_frequency,
        ),
        websocket_mask_frame: pick(
            !cli.websocket_mask_frame,
            cli.websocket_mask_frame,
            file.websocket_mask_frame,
        ),
        dns_resolver: pick(cli.dns_resolver@.len() == 0, cli.dns_resolver, file.dns_resolver),
        dns_resolver_prefer_ipv4: pick(
            !cli.dns_resolver_prefer_ipv4,
            cli.dns_resolver_prefer_ipv4,
            file.dns_resolver_prefer_ipv4,
        ),
        restrict_to: pick(
            cli.restrict_to is None && cli.restrict_config is None,
            cli.restrict_to,
            file.restrict_to,
        ),
        restrict_http_upgrade_path_prefix: pick(
            cli.restrict_http_upgrade_path_prefix is None && cli.restrict_config is None,
            cli.restrict_http_upgrade_path_prefix,
            file.restrict_http_upgrade_path_prefix,
        ),
        restrict_config: pick(
            cli.restrict_config is None && cli.restrict_to is None
                && cli.restrict_http_upgrade_path_prefix is None,
            cli.restrict_config,
            file.restrict_config,
        ),
        tls_certificate: pick(
            cli.tls_certificate is None,
            cli.tls_certificate,
            file.tls_certificate,
        ),
        tls_private_key: pick(
            cli.tls_private_key is None,
            cli.tls_private_key,
            file.tls_private_key,
        ),
        tls_client_ca_certs: pick(
            cli.tls_client_ca_certs is None,
            cli.tls_client_ca_certs,
            file.tls_client_ca_certs,
        ),
        http_proxy: pick(cli.http_proxy is None, cli.http_proxy, file.http_proxy),
        http_proxy_login: pick(
            cli.http_proxy_login is None,
            cli.http_proxy_login,
            file.http_proxy_login,
        ),
        http_proxy_password: pick(
            cli.http_proxy_password is None,
            cli.http_proxy_password,
            file.http_proxy_password,
        ),
        remote_to_local_server_idle_timeout: pick(
            cli.remote_to_local_server_idle_timeout.secs == 180,
            cli.remote_to_local_server_idle_timeout,
            file.remote_to_local_server_idle_timeout,
        ),
    }
}

/// Merges the configuration of the command line with the server section of a
/// configuration file. Returns the merged configuration, and whether there was a server
/// section: then the address to bind counts as configured, whatever it is.
pub fn merge_server_config(cli: Server, file_config: Option<Server>) -> (res: (Server, bool))
    ensures
        match file_config {
            None => res.0 == cli && !res.1,
            Some(file) => res.0 == merged_server(cli, file) && res.1 && (restrictions_exclusive(
                cli,
            ) && restrictions_exclusive(file) ==> restrictions_exclusive(res.0)),
        },
{
    let file = match file_config {
        Some(file) => file,
        None => {
            return (cli, false);
        },
    };
    let no_rule_file = cli.restrict_config.is_none();
    let no_lists = cli.restrict_to.is_none() && cli.restrict_http_upgrade_path_prefix.is_none();
    let merged = Server {
        remote_addr: take(
            addr_is_unset(&cli.remote_addr, "ws://0.0.0.0:8080/"),
            cli.remote_addr,
            file.remote_addr,
        ),
        socket_so_mark: take(cli.socket_so_mark.is_none(), cli.socket_so_mark, file.socket_so_mark),
        websocket_ping_frequency: take(
            is_default_ping(&cli.websocket_ping_frequency),
            cli.websocket_ping_frequency,
            file.websocket_ping_frequency,
        ),
        websocket_mask_frame: take(
            !cli.websocket_mask_frame,
            cli.websocket_mask_frame,
            file.websocket_mask_frame,
        ),
        dns_resolver: take(cli.dns_resolver.len() == 0, cli.dns_resolver, file.dns_resolver),
        dns_resolver_prefer_ipv4: take(
            !cli.dns_resolver_prefer_ipv4,
            cli.dns_resolver_prefer_ipv4,
            file.dns_resolver_prefer_ipv4,
        ),
        restrict_to: take(
            cli.restrict_to.is_none() && no_rule_file,
            cli.restrict_to,
            file.restrict_to,
        ),
        restrict_http_upgrade_path_prefix: take(
            cli.restrict_http_upgrade_path_prefix.is_none() && no_rule_file,
            cli.restrict_http_upgrade_path_prefix,
            file.restrict_http_upgrade_path_prefix,
        ),
        restrict_config: take(
            no_rule_file && no_lists,
            cli.restrict_config,
            file.restrict_config,
        ),
        tls_certificate: take(
            cli.tls_certificate.is_none(),
            cli.tls_certificate,
            file.tls_certificate,
        ),
        tls_private_key: take(
            cli.tls_private_key.is_none(),
            cli.tls_private_key,
            file.tls_private_key,
        ),
        tls_client_ca_certs: take(
            cli.tls_client_ca_certs.is_none(),
            cli.tls_client_ca_certs,
            file.tls_client_ca_certs,
        ),
        http_proxy: take(cli.http_proxy.is_none(), cli.http_proxy, file.http_proxy),
        http_proxy_login: take(
            cli.http_proxy_login.is_none(),
            cli.http_proxy_login,
            file.http_proxy_login,
        ),
        http_proxy_password: take(
            cli.http_proxy_password.is_none(),
            cli.http_proxy_password,
            file.http_proxy_password,
        ),
        remote_to_local_server_idle_timeout: take(
            cli.remote_to_local_server_idle_timeout.secs == 180,
            cli.remote_to_local_server_idle_timeout,
            file.remote_to_local_server_idle_timeout,
        ),
    };
    (merged, true)
}

/// Whether every value of `c` is the default: then `c` says nothing of its own.
pub open spec fn is_default_client(c: Client) -> bool {
    &&& c.local_to_remote@.len() == 0
    &&& c.remote_to_local@.len() == 0
    &&& c.socket_so_mark is None
    &&& c.connection_min_idle == 0
    &&& c.connection_retry_max_backoff.secs == 300
    &&& c.reverse_tunnel_connection_retry_max_backoff.secs == 1
    &&& c.tls_sni_override is None
    &&& !c.tls_sni_disable
    &&& !c.tls_ech_enable
    &&& !c.tls_verify_certificate
    &&& c.http_proxy is None
    &&& c.http_proxy_login is None
    &&& c.http_proxy_password is None
    &&& c.http_upgrade_path_prefix@ == DEFAULT_CLIENT_UPGRADE_PATH_PREFIX@
    &&& c.http_upgrade_credentials is None
    &&& c.websocket_ping_frequency == Some(HumanDuration { secs: 30 })
    &&& !c.websocket_mask_frame
    &&& c.http_headers@.len() == 0
    &&& c.http_headers_file is None
    &&& is_unset_addr(c.remote_addr, default_client_url_text())
    &&& c.tls_certificate is None
    &&& c.tls_private_key is None
    &&& c.dns_resolver@.len() == 0
    &&& !c.dns_resolver_prefer_ipv4
}

/// Whether every value of `s` is the default.
pub open spec fn is_default_server(s: Server) -> bool {
    &&& is_unset_addr(s.remote_addr, default_server_url_text())
    &&& s.socket_so_mark is None
    &&& s.websocket_ping_frequency == Some(HumanDuration { secs: 30 })
    &&& !s.websocket_mask_frame
    &&& s.dns_resolver@.len() == 0
    &&& !s.dns_resolver_prefer_ipv4
    &&& s.restrict_to is None
    &&& s.restrict_http_upgrade_path_prefix is None
    &&& s.restrict_config is None
    &&& s.tls_certificate is None
    &&& s.tls_private_key is None
    &&& s.tls_client_ca_certs is None
    &&& s.http_proxy is None
    &&& s.http_proxy_login is None
    &&& s.http_proxy_password is None
    &&& s.remote_to_local_server_idle_timeout.secs == 180
}

/// A command line that says nothing of its own gives way to the file in everything.
pub proof fn lemma_default_client_gives_way(cli: Client, file: Client)
    requires
        is_default_client(cli),
    ensures
        merged_client(cli, file) == file,
{
}

/// Merging keeps SNI switched off apart from a name to send and from its encryption,
/// where the command line and the file each keep them apart.
pub proof fn lemma_merge_client_keeps_sni_exclusive(cli: Client, file: Client)
    requires
        sni_exclusive(cli),
        sni_exclusive(file),
    ensures
        sni_exclusive(merged_client(cli, file)),
{
}

/// Merging keeps the file of restrictions apart from the two lists, where the command
/// line and the file each keep them apart.
pub proof fn lemma_merge_server_keeps_restrictions_exclusive(cli: Server, file: Server)
    requires
        restrictions_exclusive(cli),
        restrictions_exclusive(file),
    ensures
        restrictions_exclusive(merged_server(cli, file)),
{
}

/// Merging the same file in twice gives what merging it in once gives.
pub proof fn lemma_merge_client_twice(cli: Client, file: Client)
    ensures
        merged_client(merged_client(cli, file), file) == merged_client(cli, file),
{
}

/// A command line that says nothing of its own gives way to the file in everything.
pub proof fn lemma_default_server_gives_way(cli: Server, file: Server)
    requires
        is_default_server(cli),
    ensures
        merged_server(cli, file) == file,
{
}

/// Merging the same file in twice gives what merging it in once gives.
pub proof fn lemma_merge_server_twice(cli: Server, file: Server)
    ensures
        merged_server(merged_server(cli, file), file) == merged_server(cli, file),
{
}

} // verus!
