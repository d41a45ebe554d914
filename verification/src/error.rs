//! The errors of configuration parsing.

use vstd::prelude::*;
use vstd::string::StringExecFns;

verus! {

/// What could not be read.
#[derive(Clone, Copy, Debug, PartialEq, Eq, Hash, Structural)]
pub enum ErrorKind {
    /// A duration is not a count of seconds, minutes or hours that fits 64 bits.
    Duration,
    /// A bind address opens with `[` and holds no IPv6 address in brackets.
    Ipv6Bind,
    /// The port to bind is not a number below 65536.
    BindPort,
    /// The destination is not the authority of a URL.
    Remote,
    /// The destination names no host.
    RemoteHost,
    /// The destination names no port.
    RemotePort,
    /// A tunnel has no `://` after its protocol.
    Protocol,
    /// A unix tunnel has no `:` after its socket path.
    UnixPath,
    /// A tunnel names a protocol that is not known.
    UnknownProtocol,
    /// A tunnel names a protocol that cannot listen on the server side.
    NotReversible,
    /// The name to send as SNI is not a DNS name.
    SniOverride,
    /// A header has no `:` after its name.
    HttpHeader,
    /// A header's name is empty, too long or holds a character that no header name may hold.
    HttpHeaderName,
    /// A header's value holds a control character.
    HttpHeaderValue,
    /// A header's value holds a character that is not visible ASCII, so it is no text.
    HttpHeaderText,
    /// A line of headers has no `:` after its name.
    HeaderFormat,
    /// Credentials do not make a header value.
    HttpCredentials,
    /// The server address is not a URL.
    ServerUrl,
    /// The server address has a scheme that is no transport.
    Scheme,
    /// The server address names no host.
    ServerHost,
}

/// A kind of error and the text that could not be read.
pub type ErrorView = (ErrorKind, Seq<char>);

/// Why a configuration text was refused.
#[derive(Clone, Debug, PartialEq, Eq)]
pub struct ConfigError {
    /// What could not be read.
    pub kind: ErrorKind,
    /// The text that could not be read.
    pub subject: String,
}

impl View for ConfigError {
    type V = ErrorView;

    open spec fn view(&self) -> ErrorView {
        (self.kind, self.subject@)
    }
}

/// A result with its value and its error as views.
pub open spec fn result_view<T: View>(r: Result<T, ConfigError>) -> Result<T::V, ErrorView> {
    match r {
        Ok(v) => Ok(v@),
        Err(e) => Err(e@),
    }
}

/// The values of `items` where all are values; else the error that comes first.
pub open spec fn all_or_first_error<T>(items: Seq<Result<T, ErrorView>>) -> Result<
    Seq<T>,
    ErrorView,
>
    decreases items.len(),
{
    if items.len() == 0 {
        Ok(Seq::empty())
    } else {
        match all_or_first_error(items.drop_last()) {
            Err(e) => Err(e),
            Ok(values) => match items.last() {
                Err(e) => Err(e),
                Ok(v) => Ok(values.push(v)),
            },
        }
    }
}

/// An error among the first `n` items is the error of all the items.
pub proof fn lemma_first_error_stays<T>(items: Seq<Result<T, ErrorView>>, n: int)
    requires
        0 <= n <= items.len(),
        all_or_first_error(items.take(n)) is Err,
    ensures
        all_or_first_error(items) == all_or_first_error(items.take(n)),
    decreases items.len() - n,
{
    if n == items.len() {
        assert(items.take(n) == items);
    } else {
        assert(items.take(n + 1).drop_last() == items.take(n));
        lemma_first_error_stays(items, n + 1);
    }
}

/// One more value after values only gives values only; one error after them gives that
/// error.
pub proof fn lemma_all_or_first_error_step<T>(items: Seq<Result<T, ErrorView>>, n: int)
    requires
        0 <= n < items.len(),
        all_or_first_error(items.take(n)) is Ok,
    ensures
        all_or_first_error(items.take(n + 1)) == match items[n] {
            Ok(v) => Ok::<Seq<T>, ErrorView>(all_or_first_error(items.take(n))->Ok_0.push(v)),
            Err(e) => Err::<Seq<T>, ErrorView>(e),
        },
{
    assert(items.take(n + 1).drop_last() == items.take(n));
    assert(items.take(n + 1).last() == items[n]);
}

impl ErrorKind {
    /// The words that come before the refused text in a message.
    pub open spec fn preamble(self) -> Seq<char> {
        match self {
            ErrorKind::Duration => "cannot parse duration of seconds from "@,
            ErrorKind::Ipv6Bind => "cannot parse IPv6 bind from "@,
            ErrorKind::BindPort => "cannot parse bind port from "@,
            ErrorKind::Remote => "cannot parse remote from "@,
            ErrorKind::RemoteHost => "cannot parse remote host from "@,
            ErrorKind::RemotePort => "cannot parse remote port from "@,
            ErrorKind::Protocol => "cannot parse protocol from "@,
            ErrorKind::UnixPath => "cannot parse unix socket path from "@,
            ErrorKind::UnknownProtocol => "Invalid local protocol for tunnel "@,
            ErrorKind::NotReversible => "Cannot use as reverse tunnel "@,
            ErrorKind::SniOverride => "Invalid sni override: "@,
            ErrorKind::HttpHeader => "cannot parse http header from "@,
            ErrorKind::HttpHeaderName => "cannot parse http header name from "@,
            ErrorKind::HttpHeaderValue => "cannot parse http header value from "@,
            ErrorKind::HttpHeaderText => "failed to convert header to a str: "@,
            ErrorKind::HeaderFormat => "Invalid header format: "@,
            ErrorKind::HttpCredentials => "cannot parse http credentials "@,
            ErrorKind::ServerUrl => "cannot parse server url "@,
            ErrorKind::Scheme => "invalid scheme "@,
            ErrorKind::ServerHost => "invalid server host "@,
        }
    }

    /// The words that come before the refused text in a message.
    pub fn words(&self) -> (s: &'static str)
        ensures
            s@ == self.preamble(),
    {
        match self {
            ErrorKind::Duration => "cannot parse duration of seconds from ",
            ErrorKind::Ipv6Bind => "cannot parse IPv6 bind from ",
            ErrorKind::BindPort => "cannot parse bind port from ",
            ErrorKind::Remote => "cannot parse remote from ",
            ErrorKind::RemoteHost => "cannot parse remote host from ",
            ErrorKind::RemotePort => "cannot parse remote port from ",
            ErrorKind::Protocol => "cannot parse protocol from ",
            ErrorKind::UnixPath => "cannot parse unix socket path from ",
            ErrorKind::UnknownProtocol => "Invalid local protocol for tunnel ",
            ErrorKind::NotReversible => "Cannot use as reverse tunnel ",
            ErrorKind::SniOverride => "Invalid sni override: ",
            ErrorKind::HttpHeader => "cannot parse http header from ",
            ErrorKind::HttpHeaderName => "cannot parse http header name from ",
            ErrorKind::HttpHeaderValue => "cannot parse http header value from ",
            ErrorKind::HttpHeaderText => "failed to convert header to a str: ",
            ErrorKind::HeaderFormat => "Invalid header format: ",
            ErrorKind::HttpCredentials => "cannot parse http credentials ",
            ErrorKind::ServerUrl => "cannot parse server url ",
            ErrorKind::Scheme => "invalid scheme ",
            ErrorKind::ServerHost => "invalid server host ",
        }
    }
}

impl ConfigError {
    /// The error of kind `kind` about the text `subject`.
    pub fn new(kind: ErrorKind, subject: String) -> (e: ConfigError)
        ensures
            e@ == (kind, subject@),
    {
        ConfigError { kind, subject }
    }

    /// The message for the user: what could not be done, then the refused text.
    pub fn message(&self) -> (out: String)
        ensures
            out@ == self.kind.preamble() + self.subject@,
    {
        let mut out: String = self.kind.words().to_owned();
        out.append(self.subject.as_str());
        out
    }
}

} // verus!
