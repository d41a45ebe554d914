//! URLs as the `url` crate reads them, held as plain values.

use crate::addr::{Host, HostView, Ipv4Address, Ipv6Address};
use crate::error::{result_view, ConfigError, ErrorKind, ErrorView};
use crate::protocol::TransportScheme;
use crate::text::{chars_of, is_word};
use vstd::prelude::*;

verus! {

/// What a URL holds: its text, and the parts that the configuration reads.
#[derive(Clone, Debug, PartialEq, Eq)]
pub struct ParsedUrl {
    /// The whole URL in its normal form.
    pub text: String,
    /// The scheme, in lower case.
    pub scheme: String,
    /// The host, where the URL has one.
    pub host: Option<Host>,
    /// The port, where the URL names one that is not the default of its scheme.
    pub port: Option<u16>,
    /// The names and values of the query, decoded, in the order of the URL.
    pub query: Vec<(String, String)>,
}

/// A [`ParsedUrl`] with its strings as texts.
pub struct UrlView {
    pub text: Seq<char>,
    pub scheme: Seq<char>,
    pub host: Option<HostView>,
    pub port: Option<u16>,
    pub query: Seq<(Seq<char>, Seq<char>)>,
}

/// Pairs of strings as pairs of texts.
pub open spec fn pairs_view(pairs: Seq<(String, String)>) -> Seq<(Seq<char>, Seq<char>)> {
    Seq::new(pairs.len(), |i: int| (pairs[i].0@, pairs[i].1@))
}

/// A host that may be absent, as a view.
pub open spec fn host_option_view(host: Option<Host>) -> Option<HostView> {
    match host {
        Some(h) => Some(h@),
        None => None,
    }
}

impl View for ParsedUrl {
    type V = UrlView;

    open spec fn view(&self) -> UrlView {
        UrlView {
            text: self.text@,
            scheme: self.scheme@,
            host: host_option_view(self.host),
            port: self.port,
            query: pairs_view(self.query@),
        }
    }
}

/// What `url::Url::parse` makes of `input`: `None` where it is no absolute URL.
pub uninterp spec fn url_of_text(input: Seq<char>) -> Option<UrlView>;

/// `url::Url::parse`, with the parsed URL read out through `as_str`, `scheme`, `host`,
/// `port` and `query_pairs`. The contract names the result: the same text gives the
/// same URL, and nothing more is claimed of it.
#[verifier::external_body]
pub(crate) fn parse_url(input: &str) -> (r: Option<ParsedUrl>)
    ensures
        r matches Some(u) ==> url_of_text(input@) == Some(u@),
        r is None ==> url_of_text(input@) is None,
{
    let url = url::Url::parse(input).ok()?;
    let host = match url.host() {
        Some(url::Host::Domain(d)) => Some(Host::Domain(d.to_owned())),
        Some(url::Host::Ipv4(a)) => Some(Host::Ipv4(Ipv4Address { octets: a.octets() })),
        Some(url::Host::Ipv6(a)) => Some(Host::Ipv6(Ipv6Address { segments: a.segments() })),
        None => None,
    };
    Some(ParsedUrl {
        text: url.as_str().to_owned(),
        scheme: url.scheme().to_owned(),
        host,
        port: url.port(),
        query: url.query_pairs().into_owned().collect(),
    })
}

/// The transport that the scheme `s` names.
pub open spec fn transport_of_text(s: Seq<char>) -> Option<TransportScheme> {
    if s == TransportScheme::Ws.text() {
        Some(TransportScheme::Ws)
    } else if s == TransportScheme::Wss.text() {
        Some(TransportScheme::Wss)
    } else if s == TransportScheme::Http.text() {
        Some(TransportScheme::Http)
    } else if s == TransportScheme::Https.text() {
        Some(TransportScheme::Https)
    } else {
        None
    }
}

/// The server address that the URL made from `arg` is.
///
/// The text is refused where it made no URL, where the scheme of the URL is no transport,
/// and where the URL has no host, in this order.
pub open spec fn server_url_from(arg: Seq<char>, url: Option<UrlView>) -> Result<
    UrlView,
    ErrorView,
> {
    match url {
        None => Err((ErrorKind::ServerUrl, arg)),
        Some(u) => if transport_of_text(u.scheme) is None {
            Err((ErrorKind::Scheme, u.scheme))
        } else if u.host is None {
            Err((ErrorKind::ServerHost, arg))
        } else {
            Ok(u)
        },
    }
}

/// The server address that `arg` spells.
pub open spec fn server_url_of_text(arg: Seq<char>) -> Result<UrlView, ErrorView> {
    server_url_from(arg, url_of_text(arg))
}

impl ParsedUrl {
    /// The URL that `text` spells, whatever its scheme; `None` where it is no absolute URL.
    pub fn parse(text: &str) -> (r: Option<ParsedUrl>)
        ensures
            r matches Some(u) ==> url_of_text(text@) == Some(u@),
            r is None ==> url_of_text(text@) is None,
    {
        parse_url(text)
    }

    /// The transport that the scheme of the URL names.
    pub fn transport(&self) -> (r: Option<TransportScheme>)
        ensures
            r == transport_of_text(self.scheme@),
    {
        let scheme = chars_of(self.scheme.as_str());
        let all = TransportScheme::values();
        let mut i: usize = 0;
        while i < 4
            invariant
                i <= 4,
                scheme@ == self.scheme@,
                all@ == seq![
                    TransportScheme::Ws,
                    TransportScheme::Wss,
                    TransportScheme::Http,
                    TransportScheme::Https,
                ],
                forall|j: int| 0 <= j < i ==> scheme@ != (#[trigger] all@[j]).text(),
            decreases 4 - i,
        {
            if is_word(&scheme, all[i].to_str()) {
                return Some(all[i]);
            }
            i += 1;
        }
        assert(scheme@ != all@[0].text() && scheme@ != all@[1].text() && scheme@ != all@[2].text()
            && scheme@ != all@[3].text());
        None
    }
}

/// Takes the URL that was made from `arg` as the address of a server.
pub fn server_url_from_parsed(arg: &str, url: Option<ParsedUrl>) -> (res: Result<
    ParsedUrl,
    ConfigError,
>)
    ensures
        result_view(res) == server_url_from(
            arg@,
            match url {
                Some(u) => Some(u@),
                None => None,
            },
        ),
        res matches Ok(u) ==> url == Some(u),
{
    let url = match url {
        Some(u) => u,
        None => {
            return Err(ConfigError::new(ErrorKind::ServerUrl, arg.to_owned()));
        },
    };
    if url.transport().is_none() {
        return Err(ConfigError::new(ErrorKind::Scheme, url.scheme));
    }
    if url.host.is_none() {
        return Err(ConfigError::new(ErrorKind::ServerHost, arg.to_owned()));
    }
    Ok(url)
}

/// Reads the address of a server: a URL with a transport as its scheme, and a host.
pub fn parse_server_url(arg: &str) -> (res: Result<ParsedUrl, ConfigError>)
    ensures
        result_view(res) == server_url_of_text(arg@),
{
    server_url_from_parsed(arg, parse_url(arg))
}

} // verus!
