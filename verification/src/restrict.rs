//! The restrictions of a server: the destinations that tunnels may reach and the path
//! prefixes that upgrade requests may carry. A list that is absent allows everything.

use crate::text::{chars_of, decimal_text, push_decimal, same_text, strings_view};
use vstd::prelude::*;

verus! {

/// A request that the restrictions of the server do not allow.
#[derive(Clone, Copy, Debug, PartialEq, Eq, Structural)]
pub struct RestrictionDenied;

/// Whether the list `allowed` lets `item` pass: it is absent, or it holds `item`.
pub open spec fn allows(allowed: Option<Seq<Seq<char>>>, item: Seq<char>) -> bool {
    match allowed {
        None => true,
        Some(list) => list.contains(item),
    }
}

/// The text of a destination as lists of destinations hold it: `host:port`.
pub open spec fn destination_text(host: Seq<char>, port: u16) -> Seq<char> {
    host + seq![':'] + decimal_text(port as nat)
}

/// A list that may be absent, as texts.
pub open spec fn list_view(list: Option<Vec<String>>) -> Option<Seq<Seq<char>>> {
    match list {
        Some(entries) => Some(strings_view(entries@)),
        None => None,
    }
}

/// Whether `entries` holds the text `item`.
fn holds_text(entries: &Vec<String>, item: &Vec<char>) -> (r: bool)
    ensures
        r == strings_view(entries@).contains(item@),
{
    let ghost list = strings_view(entries@);
    let mut i: usize = 0;
    while i < entries.len()
        invariant
            i <= entries.len(),
            list == strings_view(entries@),
            forall|j: int| 0 <= j < i ==> list[j] != item@,
        decreases entries.len() - i,
    {
        assert(list[i as int] == entries@[i as int]@);
        if same_text(&chars_of(entries[i].as_str()), item) {
            return true;
        }
        i += 1;
    }
    false
}

/// Checks a tunnel to `host:port` against the destinations that the server allows.
pub fn check_destination(restrict_to: &Option<Vec<String>>, host: &str, port: u16) -> (res: Result<
    (),
    RestrictionDenied,
>)
    ensures
        res is Ok <==> allows(list_view(*restrict_to), destination_text(host@, port)),
{
    match restrict_to {
        None => Ok(()),
        Some(entries) => {
            let mut item = chars_of(host);
            item.push(':');
            push_decimal(&mut item, port as u64);
            assert(item@ =~= destination_text(host@, port));
            if holds_text(entries, &item) {
                Ok(())
            } else {
                Err(RestrictionDenied)
            }
        },
    }
}

/// Checks the path prefix of an upgrade request against the prefixes that the server
/// allows.
pub fn check_path_prefix(
    restrict_http_upgrade_path_prefix: &Option<Vec<String>>,
    prefix: &str,
) -> (res: Result<(), RestrictionDenied>)
    ensures
        res is Ok <==> allows(list_view(*restrict_http_upgrade_path_prefix), prefix@),
{
    match restrict_http_upgrade_path_prefix {
        None => Ok(()),
        Some(entries) => {
            if holds_text(entries, &chars_of(prefix)) {
                Ok(())
            } else {
                Err(RestrictionDenied)
            }
        },
    }
}

} // verus!
