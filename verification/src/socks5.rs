//! The SOCKS5 negotiation of a listener, as decisions on the bytes that a client has sent
//! so far: the greeting with the choice of a method, the check of a user name and
//! password, and the request, of which only `CONNECT` is served.
//!
//! Each step tells what to send back and how many bytes it has used. What follows the
//! bytes of an accepted request is payload, and is passed on as it is.

use crate::addr::{BindAddress, BindView, IpAddress, IpView, Ipv4Address, Ipv6Address};
use vstd::prelude::*;

verus! {

/// The version byte of SOCKS5.
pub const SOCKS_VERSION: u8 = 5;

/// The version byte of the user name and password negotiation.
pub const AUTH_VERSION: u8 = 1;

/// The method without authentication.
pub const METHOD_NONE: u8 = 0;

/// The method with user name and password.
pub const METHOD_PASSWORD: u8 = 2;

/// The answer to a greeting that offers no method that is accepted.
pub const METHOD_REFUSED: u8 = 0xff;

/// The command that asks for a connection.
pub const COMMAND_CONNECT: u8 = 1;

/// The reply code of a request that was granted.
pub const REPLY_SUCCEEDED: u8 = 0;

/// The reply code of a request with a command other than `CONNECT`.
pub const REPLY_COMMAND_NOT_SUPPORTED: u8 = 7;

/// The reply code of a request with an unknown type of address.
pub const REPLY_ADDRESS_NOT_SUPPORTED: u8 = 8;

/// The destination of a request.
#[derive(Clone, Debug, PartialEq, Eq)]
pub enum Destination {
    /// A domain name, as the bytes that the client sent.
    Domain(Vec<u8>),
    Ipv4(Ipv4Address),
    Ipv6(Ipv6Address),
}

/// A [`Destination`] as sequences.
pub enum DestinationView {
    Domain(Seq<u8>),
    Ipv4(Seq<u8>),
    Ipv6(Seq<u16>),
}

impl View for Destination {
    type V = DestinationView;

    open spec fn view(&self) -> DestinationView {
        match *self {
            Destination::Domain(name) => DestinationView::Domain(name@),
            Destination::Ipv4(a) => DestinationView::Ipv4(a.octets@),
            Destination::Ipv6(a) => DestinationView::Ipv6(a.segments@),
        }
    }
}

/// What a listener does next.
#[derive(Clone, Debug, PartialEq, Eq)]
pub enum Step {
    /// Wait: the bytes so far are the beginning of a message.
    Wait,
    /// Send `reply`, drop the first `used` bytes and go on with the next message.
    Proceed { reply: Vec<u8>, used: usize },
    /// Send `reply` and close the connection.
    Refuse { reply: Vec<u8> },
    /// Close the connection without a reply: the bytes are no message of the protocol.
    Fail,
    /// Open a tunnel to the destination, drop the first `used` bytes and pass on what
    /// follows them.
    Connect { destination: Destination, port: u16, used: usize },
}

/// A [`Step`] as sequences.
pub enum StepView {
    Wait,
    Proceed { reply: Seq<u8>, used: nat },
    Refuse { reply: Seq<u8> },
    Fail,
    Connect { destination: DestinationView, port: u16, used: nat },
}

impl View for Step {
    type V = StepView;

    open spec fn view(&self) -> StepView {
        match *self {
            Step::Wait => StepView::Wait,
            Step::Proceed { reply, used } => StepView::Proceed { reply: reply@, used: used as nat },
            Step::Refuse { reply } => StepView::Refuse { reply: reply@ },
            Step::Fail => StepView::Fail,
            Step::Connect { destination, port, used } => StepView::Connect {
                destination: destination@,
                port,
                used: used as nat,
            },
        }
    }
}

/// The step after the greeting `b`: version 5, the count of methods, the methods.
///
/// The listener takes the method with user name and password where it has credentials,
/// else the method without authentication; and refuses a greeting that does not offer
/// the method it takes.
pub open spec fn greeting_step(b: Seq<u8>, has_credentials: bool) -> StepView {
    if b.len() >= 1 && b[0] != SOCKS_VERSION {
        StepView::Fail
    } else if b.len() < 2 || b.len() < 2 + b[1] {
        StepView::Wait
    } else {
        let wanted = if has_credentials {
            METHOD_PASSWORD
        } else {
            METHOD_NONE
        };
        if b.subrange(2, 2 + b[1]).contains(wanted) {
            StepView::Proceed { reply: seq![SOCKS_VERSION, wanted], used: (2 + b[1]) as nat }
        } else {
            StepView::Refuse { reply: seq![SOCKS_VERSION, METHOD_REFUSED] }
        }
    }
}

/// The step after the message `b` with a user name and a password: version 1, the length
/// of the name, the name, the length of the password, the password.
pub open spec fn password_step(b: Seq<u8>, login: Seq<u8>, password: Seq<u8>) -> StepView {
    if b.len() >= 1 && b[0] != AUTH_VERSION {
        StepView::Fail
    } else if b.len() < 2 || b.len() < 3 + b[1] || b.len() < 3 + b[1] + b[2 + b[1]] {
        StepView::Wait
    } else {
        let name_end = 2 + b[1];
        let end = name_end + 1 + b[name_end];
        if b.subrange(2, name_end) == login && b.subrange(name_end + 1, end) == password {
            StepView::Proceed { reply: seq![AUTH_VERSION, 0u8], used: end as nat }
        } else {
            StepView::Refuse { reply: seq![AUTH_VERSION, 1u8] }
        }
    }
}

/// The reply to a request that is refused with the code `code`.
pub open spec fn refusal(code: u8) -> Seq<u8> {
    seq![SOCKS_VERSION, code, 0u8, 1u8, 0u8, 0u8, 0u8, 0u8, 0u8, 0u8]
}

/// The port in the two bytes of `b` at `at`, the high byte first.
pub open spec fn port_at(b: Seq<u8>, at: int) -> u16 {
    (b[at] * 256 + b[at + 1]) as u16
}

/// The eight groups in the sixteen bytes of `b` at `at`, the high byte of each first.
pub open spec fn groups_at(b: Seq<u8>, at: int) -> Seq<u16> {
    Seq::new(8, |i: int| (b[at + 2 * i] * 256 + b[at + 2 * i + 1]) as u16)
}

/// The step after the request `b`: version 5, the command, a reserved byte, the type of
/// the address, the address, the port.
///
/// A command other than `CONNECT` is refused as not supported, and so is an unknown type
/// of address. An IPv4 address has the type 1 and four bytes, a domain name the type 3,
/// its length and its bytes, an IPv6 address the type 4 and sixteen bytes.
pub open spec fn request_step(b: Seq<u8>) -> StepView {
    if b.len() >= 1 && b[0] != SOCKS_VERSION {
        StepView::Fail
    } else if b.len() < 4 {
        StepView::Wait
    } else if b[1] != COMMAND_CONNECT {
        StepView::Refuse { reply: refusal(REPLY_COMMAND_NOT_SUPPORTED) }
    } else if b[3] == 1 {
        if b.len() < 10 {
            StepView::Wait
        } else {
            StepView::Connect {
                destination: DestinationView::Ipv4(b.subrange(4, 8)),
                port: port_at(b, 8),
                used: 10,
            }
        }
    } else if b[3] == 3 {
        if b.len() < 5 || b.len() < 7 + b[4] {
            StepView::Wait
        } else {
            StepView::Connect {
                destination: DestinationView::Domain(b.subrange(5, 5 + b[4])),
                port: port_at(b, 5 + b[4]),
                used: (7 + b[4]) as nat,
            }
        }
    } else if b[3] == 4 {
        if b.len() < 22 {
            StepView::Wait
        } else {
            StepView::Connect {
                destination: DestinationView::Ipv6(groups_at(b, 4)),
                port: port_at(b, 20),
                used: 22,
            }
        }
    } else {
        StepView::Refuse { reply: refusal(REPLY_ADDRESS_NOT_SUPPORTED) }
    }
}

/// The two bytes of a port, the high byte first.
pub open spec fn port_bytes(port: u16) -> Seq<u8> {
    seq![(port / 256) as u8, (port % 256) as u8]
}

/// The sixteen bytes of eight groups, the high byte of each first.
pub open spec fn group_bytes(g: Seq<u16>) -> Seq<u8> {
    Seq::new(16, |i: int| if i % 2 == 0 {
        (g[i / 2] / 256) as u8
    } else {
        (g[i / 2] % 256) as u8
    })
}

/// The reply to a request that was granted, with the address that the tunnel is bound to.
pub open spec fn success(bound: BindView) -> Seq<u8> {
    match bound.ip {
        IpView::V4(o) => seq![SOCKS_VERSION, REPLY_SUCCEEDED, 0u8, 1u8] + o + port_bytes(
            bound.port,
        ),
        IpView::V6(g) => seq![SOCKS_VERSION, REPLY_SUCCEEDED, 0u8, 4u8] + group_bytes(g)
            + port_bytes(bound.port),
    }
}

/// The bytes `b[from..to]`.
fn copy_range(b: &[u8], from: usize, to: usize) -> (out: Vec<u8>)
    requires
        from <= to <= b@.len(),
    ensures
        out@ == b@.subrange(from as int, to as int),
{
    let mut out: Vec<u8> = Vec::new();
    let mut i: usize = from;
    while i < to
        invariant
            from <= i <= to <= b@.len(),
            out@ == b@.subrange(from as int, i as int),
        decreases to - i,
    {
        out.push(b[i]);
        i += 1;
    }
    out
}

/// Whether `b[from..to]` holds the bytes `other`.
fn range_is(b: &[u8], from: usize, to: usize, other: &[u8]) -> (r: bool)
    requires
        from <= to <= b@.len(),
    ensures
        r == (b@.subrange(from as int, to as int) == other@),
{
    if to - from != other.len() {
        return false;
    }
    let mut i: usize = 0;
    while i < other.len()
        invariant
            i <= other@.len(),
            from <= to <= b@.len(),
            to - from == other@.len(),
            forall|j: int| 0 <= j < i ==> b@[from + j] == other@[j],
        decreases other.len() - i,
    {
        if b[from + i] != other[i] {
            assert(b@.subrange(from as int, to as int)[i as int] != other@[i as int]);
            return false;
        }
        i += 1;
    }
    assert(b@.subrange(from as int, to as int) =~= other@);
    true
}

/// Whether `b[from..to]` holds the byte `wanted`.
fn range_holds(b: &[u8], from: usize, to: usize, wanted: u8) -> (r: bool)
    requires
        from <= to <= b@.len(),
    ensures
        r == b@.subrange(from as int, to as int).contains(wanted),
{
    let ghost part = b@.subrange(from as int, to as int);
    let mut i: usize = from;
    while i < to
        invariant
            from <= i <= to <= b@.len(),
            part == b@.subrange(from as int, to as int),
            forall|j: int| 0 <= j < i - from ==> part[j] != wanted,
        decreases to - i,
    {
        if b[i] == wanted {
            assert(part[i - from] == wanted);
            return true;
        }
        i += 1;
    }
    false
}

/// Decides on the greeting of a client.
pub fn greet(bytes: &[u8], has_credentials: bool) -> (step: Step)
    ensures
        step@ == greeting_step(bytes@, has_credentials),
{
    if bytes.len() >= 1 && bytes[0] != SOCKS_VERSION {
        return Step::Fail;
    }
    if bytes.len() < 2 || bytes.len() - 2 < bytes[1] as usize {
        return Step::Wait;
    }
    let end: usize = 2 + bytes[1] as usize;
    let wanted = if has_credentials {
        METHOD_PASSWORD
    } else {
        METHOD_NONE
    };
    let mut reply: Vec<u8> = Vec::new();
    reply.push(SOCKS_VERSION);
    if range_holds(bytes, 2, end, wanted) {
        reply.push(wanted);
        assert(reply@ =~= seq![SOCKS_VERSION, wanted]);
        Step::Proceed { reply, used: end }
    } else {
        reply.push(METHOD_REFUSED);
        assert(reply@ =~= seq![SOCKS_VERSION, METHOD_REFUSED]);
        Step::Refuse { reply }
    }
}

/// Decides on the user name and password of a client.
pub fn check_password(bytes: &[u8], login: &[u8], password: &[u8]) -> (step: Step)
    ensures
        step@ == password_step(bytes@, login@, password@),
{
    if bytes.len() >= 1 && bytes[0] != AUTH_VERSION {
        return Step::Fail;
    }
    if bytes.len() < 2 || bytes.len() - 2 < bytes[1] as usize + 1 {
        return Step::Wait;
    }
    let name_end: usize = 2 + bytes[1] as usize;
    if bytes.len() - name_end - 1 < bytes[name_end] as usize {
        return Step::Wait;
    }
    let end: usize = name_end + 1 + bytes[name_end] as usize;
    let mut reply: Vec<u8> = Vec::new();
    reply.push(AUTH_VERSION);
    if range_is(bytes, 2, name_end, login) && range_is(bytes, name_end + 1, end, password) {
        reply.push(0);
        assert(reply@ =~= seq![AUTH_VERSION, 0u8]);
        Step::Proceed { reply, used: end }
    } else {
        reply.push(1);
        assert(reply@ =~= seq![AUTH_VERSION, 1u8]);
        Step::Refuse { reply }
    }
}

/// The reply that refuses a request with the code `code`.
pub fn refuse(code: u8) -> (reply: Vec<u8>)
    ensures
        reply@ == refusal(code),
{
    let mut reply: Vec<u8> = Vec::new();
    reply.push(SOCKS_VERSION);
    reply.push(code);
    reply.push(0);
    reply.push(1);
    reply.push(0);
    reply.push(0);
    reply.push(0);
    reply.push(0);
    reply.push(0);
    reply.push(0);
    assert(reply@ =~= refusal(code));
    reply
}

/// The port in the two bytes of `b` at `at`.
fn read_port(b: &[u8], at: usize) -> (port: u16)
    requires
        at + 2 <= b@.len(),
    ensures
        port == port_at(b@, at as int),
{
    (b[at] as u16) * 256 + b[at + 1] as u16
}

/// Decides on the request of a client.
pub fn read_request(bytes: &[u8]) -> (step: Step)
    ensures
        step@ == request_step(bytes@),
{
    if bytes.len() >= 1 && bytes[0] != SOCKS_VERSION {
        return Step::Fail;
    }
    if bytes.len() < 4 {
        return Step::Wait;
    }
    if bytes[1] != COMMAND_CONNECT {
        return Step::Refuse { reply: refuse(REPLY_COMMAND_NOT_SUPPORTED) };
    }
    let kind = bytes[3];
    if kind == 1 {
        if bytes.len() < 10 {
            return Step::Wait;
        }
        let octets: [u8; 4] = [bytes[4], bytes[5], bytes[6], bytes[7]];
        assert(octets@ =~= bytes@.subrange(4, 8));
        Step::Connect {
            destination: Destination::Ipv4(Ipv4Address { octets }),
            port: read_port(bytes, 8),
            used: 10,
        }
    } else if kind == 3 {
        if bytes.len() < 5 || bytes.len() - 5 < bytes[4] as usize + 2 {
            return Step::Wait;
        }
        let end: usize = 5 + bytes[4] as usize;
        Step::Connect {
            destination: Destination::Domain(copy_range(bytes, 5, end)),
            port: read_port(bytes, end),
            used: end + 2,
        }
    } else if kind == 4 {
        if bytes.len() < 22 {
            return Step::Wait;
        }
        let segments: [u16; 8] = [
            read_port(bytes, 4),
            read_port(bytes, 6),
            read_port(bytes, 8),
            read_port(bytes, 10),
            read_port(bytes, 12),
            read_port(bytes, 14),
            read_port(bytes, 16),
            read_port(bytes, 18),
        ];
        assert(segments@ =~= groups_at(bytes@, 4));
        Step::Connect {
            destination: Destination::Ipv6(Ipv6Address { segments }),
            port: read_port(bytes, 20),
            used: 22,
        }
    } else {
        Step::Refuse { reply: refuse(REPLY_ADDRESS_NOT_SUPPORTED) }
    }
}

/// The reply that grants a request, with the address that the tunnel is bound to.
pub fn success_reply(bound: &BindAddress) -> (reply: Vec<u8>)
    ensures
        reply@ == success(bound@),
{
    let mut reply: Vec<u8> = Vec::new();
    reply.push(SOCKS_VERSION);
    reply.push(REPLY_SUCCEEDED);
    reply.push(0);
    match &bound.ip {
        IpAddress::V4(a) => {
            reply.push(1);
            reply.push(a.octets[0]);
            reply.push(a.octets[1]);
            reply.push(a.octets[2]);
            reply.push(a.octets[3]);
        },
        IpAddress::V6(a) => {
            reply.push(4);
            let mut i: usize = 0;
            while i < 8
                invariant
                    i <= 8,
                    reply@ == seq![SOCKS_VERSION, REPLY_SUCCEEDED, 0u8, 4u8] + group_bytes(
                        a.segments@,
                    ).take(2 * i),
                decreases 8 - i,
            {
                let g = a.segments[i];
                reply.push((g / 256) as u8);
                reply.push((g % 256) as u8);
                i += 1;
                assert(reply@ =~= seq![SOCKS_VERSION, REPLY_SUCCEEDED, 0u8, 4u8] + group_bytes(
                    a.segments@,
                ).take(2 * i));
            }
            assert(group_bytes(a.segments@).take(16) =~= group_bytes(a.segments@));
        },
    }
    reply.push((bound.port / 256) as u8);
    reply.push((bound.port % 256) as u8);
    assert(reply@ =~= success(bound@));
    reply
}

/// A request for a connection with all its bytes is accepted with the bytes that follow
/// it unused: they are payload.
pub proof fn lemma_request_uses_its_bytes_only(b: Seq<u8>, payload: Seq<u8>)
    requires
        request_step(b) is Connect,
        request_step(b)->Connect_used == b.len(),
    ensures
        request_step(b + payload) == request_step(b),
{
    let s = b + payload;
    assert(s.len() >= b.len());
    assert(forall|i: int| 0 <= i < b.len() ==> s[i] == b[i]);
    if b[3] == 1 {
        assert(s.subrange(4, 8) =~= b.subrange(4, 8));
    } else if b[3] == 3 {
        assert(s.subrange(5, 5 + s[4]) =~= b.subrange(5, 5 + b[4]));
    } else {
        assert(groups_at(s, 4) =~= groups_at(b, 4));
    }
}

} // verus!
