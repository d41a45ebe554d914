//! The DNS name that the client sends as SNI in place of the server's host.

use crate::error::{result_view, ConfigError, ErrorKind, ErrorView};
use vstd::prelude::*;

verus! {

/// Whether `DnsName::try_from` of `rustls-pki-types` takes `name`.
pub uninterp spec fn is_dns_name(name: Seq<char>) -> bool;

/// `DnsName::try_from` of `rustls-pki-types` on an owned string: whether it takes `name`.
/// The contract names the answer: the same text gets the same answer.
#[verifier::external_body]
fn dns_name_accepts(name: &str) -> (r: bool)
    ensures
        r == is_dns_name(name@),
{
    tokio_rustls::rustls::pki_types::DnsName::try_from(name.to_owned()).is_ok()
}

/// A DNS name.
#[derive(Clone, Debug, PartialEq, Eq, Hash)]
pub struct DnsName {
    name: String,
}

impl View for DnsName {
    type V = Seq<char>;

    closed spec fn view(&self) -> Seq<char> {
        self.name@
    }
}

impl DnsName {
    /// The name is a DNS name.
    pub open spec fn wf(&self) -> bool {
        is_dns_name(self@)
    }

    /// The name.
    pub fn as_str(&self) -> (s: &str)
        ensures
            s@ == self@,
    {
        self.name.as_str()
    }
}

/// The DNS name that `arg` is, or the error that carries `arg`.
pub open spec fn dns_name_of_text(arg: Seq<char>) -> Result<Seq<char>, ErrorView> {
    if is_dns_name(arg) {
        Ok(arg)
    } else {
        Err((ErrorKind::SniOverride, arg))
    }
}

/// Reads the name to send as SNI.
pub fn parse_sni_override(arg: &str) -> (res: Result<DnsName, ConfigError>)
    ensures
        result_view(res) == dns_name_of_text(arg@),
        res matches Ok(n) ==> n.wf(),
{
    if dns_name_accepts(arg) {
        Ok(DnsName { name: arg.to_owned() })
    } else {
        Err(ConfigError::new(ErrorKind::SniOverride, arg.to_owned()))
    }
}

/// Writes a DNS name that may be absent.
pub fn serialize_dns_name(dns: &Option<DnsName>) -> (out: Option<String>)
    ensures
        match *dns {
            Some(name) => out matches Some(text) && text@ == name@,
            None => out is None,
        },
{
    match dns {
        Some(name) => Some(name.as_str().to_owned()),
        None => None,
    }
}

/// Reads a DNS name that may be absent.
pub fn deserialize_dns_name(text: Option<&str>) -> (res: Result<Option<DnsName>, ConfigError>)
    ensures
        match text {
            None => res matches Ok(None),
            Some(t) => match dns_name_of_text(t@) {
                Ok(name) => res matches Ok(Some(n)) && n@ == name && n.wf(),
                Err(e) => res matches Err(x) && x@ == e,
            },
        },
{
    match text {
        None => Ok(None),
        Some(t) => match parse_sni_override(t) {
            Ok(name) => Ok(Some(name)),
            Err(e) => Err(e),
        },
    }
}

} // verus!
