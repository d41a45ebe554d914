//! IP addresses, the addresses that a tunnel binds, and their texts.
//!
//! An IPv4 address is written as four decimal numbers with dots between them, none with a
//! leading zero. An IPv6 address is written as groups of up to four hexadecimal digits with
//! colons between them; one `::` may stand for one or more groups of zero, and the last two
//! groups may be written as an IPv4 address.

use crate::text::{
    all_digits, chars_of, decimal_text, decimal_value, find, find_text, lemma_find_from,
    only_digits, parse_number, push_decimal, slice_of, split, split_on, string_of, texts,
};
use vstd::prelude::*;

verus! {

/// An IPv4 address: its four octets, the first one first.
#[derive(Clone, Copy, Debug, PartialEq, Eq, Hash)]
pub struct Ipv4Address {
    pub octets: [u8; 4],
}

/// An IPv6 address: its eight groups of 16 bits, the first one first.
#[derive(Clone, Copy, Debug, PartialEq, Eq, Hash)]
pub struct Ipv6Address {
    pub segments: [u16; 8],
}

/// An IP address of either family.
#[derive(Clone, Copy, Debug, PartialEq, Eq, Hash)]
pub enum IpAddress {
    V4(Ipv4Address),
    V6(Ipv6Address),
}

/// The address and port that a tunnel listens on.
#[derive(Clone, Copy, Debug, PartialEq, Eq, Hash)]
pub struct BindAddress {
    pub ip: IpAddress,
    pub port: u16,
}

/// The host of a destination: a domain name or an IP address.
#[derive(Clone, Debug, PartialEq, Eq, Hash)]
pub enum Host {
    Domain(String),
    Ipv4(Ipv4Address),
    Ipv6(Ipv6Address),
}

/// An IP address as the sequence of its octets or of its groups.
pub enum IpView {
    V4(Seq<u8>),
    V6(Seq<u16>),
}

/// A [`BindAddress`] with its IP address as a sequence.
pub struct BindView {
    pub ip: IpView,
    pub port: u16,
}

/// A [`Host`] with its name as a text and its IP address as a sequence.
pub enum HostView {
    Domain(Seq<char>),
    Ipv4(Seq<u8>),
    Ipv6(Seq<u16>),
}

impl View for IpAddress {
    type V = IpView;

    open spec fn view(&self) -> IpView {
        match *self {
            IpAddress::V4(a) => IpView::V4(a.octets@),
            IpAddress::V6(a) => IpView::V6(a.segments@),
        }
    }
}

impl View for BindAddress {
    type V = BindView;

    open spec fn view(&self) -> BindView {
        BindView { ip: self.ip@, port: self.port }
    }
}

impl View for Host {
    type V = HostView;

    open spec fn view(&self) -> HostView {
        match *self {
            Host::Domain(name) => HostView::Domain(name@),
            Host::Ipv4(a) => HostView::Ipv4(a.octets@),
            Host::Ipv6(a) => HostView::Ipv6(a.segments@),
        }
    }
}

/// The octet that `p` spells: one to three decimal digits, no leading zero, at most 255.
pub open spec fn octet_of_text(p: Seq<char>) -> Option<u8> {
    if 1 <= p.len() <= 3 && all_digits(p) && (p.len() == 1 || p[0] != '0') && decimal_value(p)
        <= 255 {
        Some(decimal_value(p) as u8)
    } else {
        None
    }
}

/// The four octets that `s` spells, where it is four octets with dots between them.
pub open spec fn ipv4_of_text(s: Seq<char>) -> Option<Seq<u8>> {
    let parts = split(s, '.');
    if parts.len() == 4 && (forall|i: int|
        0 <= i < 4 ==> octet_of_text(#[trigger] parts[i]) is Some) {
        Some(Seq::new(4, |i: int| octet_of_text(parts[i])->0))
    } else {
        None
    }
}

/// The text of the IPv4 address with the octets `o`.
pub open spec fn ipv4_text(o: Seq<u8>) -> Seq<char> {
    decimal_text(o[0] as nat) + seq!['.'] + decimal_text(o[1] as nat) + seq!['.'] + decimal_text(
        o[2] as nat,
    ) + seq!['.'] + decimal_text(o[3] as nat)
}

/// The octet that `part` spells.
pub fn parse_octet(part: &Vec<char>) -> (r: Option<u8>)
    ensures
        r == octet_of_text(part@),
{
    if part.len() < 1 || part.len() > 3 || !only_digits(part) {
        return None;
    }
    if part.len() > 1 && part[0] == '0' {
        return None;
    }
    match parse_number(part, 255) {
        Some(v) => Some(v as u8),
        None => None,
    }
}

/// The IPv4 address that `chars` spells.
pub fn parse_ipv4(chars: &Vec<char>) -> (r: Option<Ipv4Address>)
    ensures
        match r {
            Some(a) => ipv4_of_text(chars@) == Some(a.octets@),
            None => ipv4_of_text(chars@) is None,
        },
{
    let parts = split_on(chars, '.');
    if parts.len() != 4 {
        return None;
    }
    assert(forall|i: int| 0 <= i < 4 ==> #[trigger] split(chars@, '.')[i] == parts@[i]@) by {
        assert(texts(parts@) == split(chars@, '.'));
        assert(forall|i: int| 0 <= i < 4 ==> #[trigger] texts(parts@)[i] == parts@[i]@);
    }
    let a = parse_octet(&parts[0]);
    let b = parse_octet(&parts[1]);
    let c = parse_octet(&parts[2]);
    let d = parse_octet(&parts[3]);
    match (a, b, c, d) {
        (Some(a), Some(b), Some(c), Some(d)) => {
            let octets: [u8; 4] = [a, b, c, d];
            assert(octets@ =~= Seq::new(4, |i: int| octet_of_text(split(chars@, '.')[i])->0));
            Some(Ipv4Address { octets })
        },
        _ => {
            assert(octet_of_text(split(chars@, '.')[0]) is None || octet_of_text(
                split(chars@, '.')[1],
            ) is None || octet_of_text(split(chars@, '.')[2]) is None || octet_of_text(
                split(chars@, '.')[3],
            ) is None);
            None
        },
    }
}

/// Appends the text of `a` to `out`.
pub fn push_ipv4(out: &mut Vec<char>, a: &Ipv4Address)
    ensures
        final(out)@ == old(out)@ + ipv4_text(a.octets@),
{
    push_decimal(out, a.octets[0] as u64);
    out.push('.');
    push_decimal(out, a.octets[1] as u64);
    out.push('.');
    push_decimal(out, a.octets[2] as u64);
    out.push('.');
    push_decimal(out, a.octets[3] as u64);
    assert(out@ =~= old(out)@ + ipv4_text(a.octets@));
}

/// Whether `c` is a hexadecimal digit, in either case.
pub open spec fn is_hex_digit(c: char) -> bool {
    ('0' <= c <= '9') || ('a' <= c <= 'f') || ('A' <= c <= 'F')
}

/// The number that the hexadecimal digit `c` stands for.
pub open spec fn hex_digit_value(c: char) -> nat {
    if '0' <= c <= '9' {
        (c as u32 - '0' as u32) as nat
    } else if 'a' <= c <= 'f' {
        (c as u32 - 'a' as u32 + 10) as nat
    } else {
        (c as u32 - 'A' as u32 + 10) as nat
    }
}

/// Whether `s` holds hexadecimal digits only.
pub open spec fn all_hex(s: Seq<char>) -> bool {
    forall|i: int| 0 <= i < s.len() ==> is_hex_digit(#[trigger] s[i])
}

/// The number that the hexadecimal digits `s` spell; 0 for the empty sequence.
pub open spec fn hex_value(s: Seq<char>) -> nat
    decreases s.len(),
{
    if s.len() == 0 {
        0
    } else {
        hex_value(s.drop_last()) * 16 + hex_digit_value(s.last())
    }
}

/// The group that `p` spells: one to four hexadecimal digits.
pub open spec fn group_of_text(p: Seq<char>) -> Option<u16> {
    if 1 <= p.len() <= 4 && all_hex(p) {
        Some(hex_value(p) as u16)
    } else {
        None
    }
}

/// 16 to the power `k`, for the lengths that a group can have.
pub open spec fn hex_limit(k: int) -> nat {
    if k <= 0 {
        1
    } else if k == 1 {
        0x10
    } else if k == 2 {
        0x100
    } else if k == 3 {
        0x1000
    } else {
        0x10000
    }
}

/// The group that `part` spells.
pub fn parse_group(part: &Vec<char>) -> (r: Option<u16>)
    ensures
        r == group_of_text(part@),
{
    if part.len() < 1 || part.len() > 4 {
        return None;
    }
    let mut acc: u32 = 0;
    let mut i: usize = 0;
    while i < part.len()
        invariant
            i <= part.len() <= 4,
            forall|j: int| 0 <= j < i ==> is_hex_digit(#[trigger] part@[j]),
            acc as nat == hex_value(part@.take(i as int)),
            acc < hex_limit(i as int),
        decreases part.len() - i,
    {
        let c = part[i];
        let d: u32 = if '0' <= c && c <= '9' {
            c as u32 - '0' as u32
        } else if 'a' <= c && c <= 'f' {
            c as u32 - 'a' as u32 + 10
        } else if 'A' <= c && c <= 'F' {
            c as u32 - 'A' as u32 + 10
        } else {
            return None;
        };
        assert(part@.take(i + 1).drop_last() == part@.take(i as int));
        acc = acc * 16 + d;
        i += 1;
    }
    assert(part@.take(part.len() as int) == part@);
    Some(acc as u16)
}

/// The two groups that hold the octets `o`.
pub open spec fn groups_of_octets(o: Seq<u8>) -> Seq<u16> {
    seq![(o[0] * 256 + o[1]) as u16, (o[2] * 256 + o[3]) as u16]
}

/// Whether each of the first `n` parts spells a group.
pub open spec fn groups_until(parts: Seq<Seq<char>>, n: int) -> bool {
    forall|i: int| 0 <= i < n ==> group_of_text(#[trigger] parts[i]) is Some
}

/// The groups that the first `n` parts spell.
pub open spec fn groups_read(parts: Seq<Seq<char>>, n: int) -> Seq<u16> {
    Seq::new(n as nat, |i: int| group_of_text(parts[i])->0)
}

/// The groups that `parts` spell: each part one group, but that the last part may spell an
/// IPv4 address, which makes two groups, where `dotted_last` allows it.
pub open spec fn groups_of_parts(parts: Seq<Seq<char>>, dotted_last: bool) -> Option<Seq<u16>> {
    let n = parts.len() as int;
    if n >= 1 && groups_until(parts, n) {
        Some(groups_read(parts, n))
    } else if n >= 1 && dotted_last && groups_until(parts, n - 1) && ipv4_of_text(parts.last())
        is Some {
        Some(groups_read(parts, n - 1) + groups_of_octets(ipv4_of_text(parts.last())->0))
    } else {
        None
    }
}

/// The groups that `s` spells with colons between them; none for an empty `s`.
pub open spec fn groups_of_text(s: Seq<char>, dotted_last: bool) -> Option<Seq<u16>> {
    if s.len() == 0 {
        Some(Seq::empty())
    } else {
        groups_of_parts(split(s, ':'), dotted_last)
    }
}

/// `n` groups of zero.
pub open spec fn zero_groups(n: int) -> Seq<u16> {
    Seq::new(n as nat, |i: int| 0u16)
}

/// The eight groups that `s` spells. Without `::`, `s` spells all eight. With `::`, the
/// groups before it come first and the groups after it last, together seven at most, and
/// zeros fill the gap. An IPv4 address may stand for the last two groups.
pub open spec fn ipv6_of_text(s: Seq<char>) -> Option<Seq<u16>> {
    let gap = find(s, seq![':', ':']);
    if gap >= s.len() {
        match groups_of_text(s, true) {
            Some(g) => if g.len() == 8 {
                Some(g)
            } else {
                None
            },
            None => None,
        }
    } else {
        match (
            groups_of_text(s.subrange(0, gap), false),
            groups_of_text(s.subrange(gap + 2, s.len() as int), true),
        ) {
            (Some(head), Some(tail)) => if head.len() + tail.len() <= 7 {
                Some(head + zero_groups(8 - head.len() - tail.len()) + tail)
            } else {
                None
            },
            _ => None,
        }
    }
}

/// The groups that `chars` spells with colons between them.
pub fn parse_groups(chars: &Vec<char>, dotted_last: bool) -> (r: Option<Vec<u16>>)
    ensures
        match r {
            Some(g) => groups_of_text(chars@, dotted_last) == Some(g@),
            None => groups_of_text(chars@, dotted_last) is None,
        },
{
    let mut out: Vec<u16> = Vec::new();
    if chars.len() == 0 {
        assert(out@ == Seq::<u16>::empty());
        return Some(out);
    }
    let parts = split_on(chars, ':');
    let ghost all = split(chars@, ':');
    let n = parts.len();
    assert(forall|i: int| 0 <= i < n ==> #[trigger] all[i] == parts@[i]@) by {
        assert(forall|i: int| 0 <= i < n ==> #[trigger] texts(parts@)[i] == parts@[i]@);
    }
    let mut i: usize = 0;
    while i < n
        invariant
            i <= n,
            n == parts.len(),
            n == all.len(),
            n >= 1,
            forall|k: int| 0 <= k < n ==> #[trigger] all[k] == parts@[k]@,
            groups_until(all, i as int),
            out@ == groups_read(all, i as int),
            all == split(chars@, ':'),
            chars.len() > 0,
        decreases n - i,
    {
        match parse_group(&parts[i]) {
            Some(g) => {
                out.push(g);
                assert(out@ == groups_read(all, i + 1));
            },
            None => {
                assert(group_of_text(all[i as int]) is None);
                assert(!groups_until(all, n as int));
                if dotted_last && i + 1 == n {
                    match parse_ipv4(&parts[i]) {
                        Some(a) => {
                            let hi: u16 = (a.octets[0] as u16) * 256 + a.octets[1] as u16;
                            let lo: u16 = (a.octets[2] as u16) * 256 + a.octets[3] as u16;
                            out.push(hi);
                            out.push(lo);
                            assert(all.last() == all[i as int]);
                            assert(out@ == groups_read(all, n - 1) + groups_of_octets(a.octets@));
                            return Some(out);
                        },
                        None => {
                            assert(all.last() == all[i as int]);
                            return None;
                        },
                    }
                }
                assert(i + 1 < n ==> !groups_until(all, n - 1));
                return None;
            },
        }
        i += 1;
    }
    Some(out)
}

/// The IPv6 address that `chars` spells.
pub fn parse_ipv6(chars: &Vec<char>) -> (r: Option<Ipv6Address>)
    ensures
        match r {
            Some(a) => ipv6_of_text(chars@) == Some(a.segments@),
            None => ipv6_of_text(chars@) is None,
        },
{
    let mut mark: Vec<char> = Vec::new();
    mark.push(':');
    mark.push(':');
    assert(mark@ == seq![':', ':']);
    let gap = find_text(chars, &mark);
    let all: Vec<u16>;
    if gap >= chars.len() {
        match parse_groups(chars, true) {
            Some(g) => {
                if g.len() != 8 {
                    return None;
                }
                all = g;
            },
            None => {
                return None;
            },
        }
    } else {
        proof {
            lemma_find_from(chars@, mark@, 0);
        }
        let head_text = slice_of(chars, 0, gap);
        let tail_text = slice_of(chars, gap + 2, chars.len());
        let head = match parse_groups(&head_text, false) {
            Some(g) => g,
            None => {
                return None;
            },
        };
        let tail = match parse_groups(&tail_text, true) {
            Some(g) => g,
            None => {
                return None;
            },
        };
        if head.len() > 7 || tail.len() > 7 - head.len() {
            return None;
        }
        let mut g: Vec<u16> = Vec::new();
        let mut i: usize = 0;
        while i < head.len()
            invariant
                i <= head.len(),
                g@ == head@.take(i as int),
            decreases head.len() - i,
        {
            g.push(head[i]);
            i += 1;
        }
        let fill: usize = 8 - head.len() - tail.len();
        let mut k: usize = 0;
        while k < fill
            invariant
                k <= fill,
                g@ == head@ + zero_groups(k as int),
            decreases fill - k,
        {
            g.push(0);
            k += 1;
            assert(g@ =~= head@ + zero_groups(k as int));
        }
        let mut j: usize = 0;
        while j < tail.len()
            invariant
                j <= tail.len(),
                g@ == head@ + zero_groups(fill as int) + tail@.take(j as int),
            decreases tail.len() - j,
        {
            g.push(tail[j]);
            j += 1;
            assert(g@ =~= head@ + zero_groups(fill as int) + tail@.take(j as int));
        }
        assert(tail@.take(tail.len() as int) == tail@);
        all = g;
    }
    let segments: [u16; 8] = [all[0], all[1], all[2], all[3], all[4], all[5], all[6], all[7]];
    assert(segments@ =~= all@);
    Some(Ipv6Address { segments })
}

/// The lower-case character for a hexadecimal digit.
pub open spec fn hex_char(d: nat) -> char {
    if d < 10 {
        ('0' as u32 + d) as char
    } else {
        ('a' as u32 + d - 10) as char
    }
}

/// `n` in lower-case hexadecimal digits, without leading zeros.
pub open spec fn hex_text(n: nat) -> Seq<char>
    decreases n,
{
    if n < 16 {
        seq![hex_char(n)]
    } else {
        hex_text(n / 16).push(hex_char(n % 16))
    }
}

/// The groups `g` in hexadecimal, with colons between them.
pub open spec fn groups_text(g: Seq<u16>) -> Seq<char>
    decreases g.len(),
{
    if g.len() == 0 {
        Seq::empty()
    } else if g.len() == 1 {
        hex_text(g[0] as nat)
    } else {
        groups_text(g.drop_last()) + seq![':'] + hex_text(g.last() as nat)
    }
}

/// How many groups of zero follow one another in `g` from index `at` on.
pub open spec fn zero_run(g: Seq<u16>, at: int) -> nat
    decreases g.len() - at,
{
    if 0 <= at < g.len() && g[at] == 0 {
        1 + zero_run(g, at + 1)
    } else {
        0
    }
}

/// Where the longest run of zero groups starts among those that start at `from` or later,
/// and how long it is; the first one of several. `(g.len(), 0)` where no group is zero.
pub open spec fn longest_zero_run(g: Seq<u16>, from: int) -> (int, nat)
    decreases g.len() - from,
{
    if from < 0 || from >= g.len() {
        (g.len() as int, 0)
    } else {
        let later = longest_zero_run(g, from + 1);
        if zero_run(g, from) > 0 && zero_run(g, from) >= later.1 {
            (from, zero_run(g, from))
        } else {
            later
        }
    }
}

/// Whether `g` is an IPv4 address mapped into IPv6: five groups of zero, then `ffff`.
pub open spec fn is_mapped(g: Seq<u16>) -> bool {
    g[0] == 0 && g[1] == 0 && g[2] == 0 && g[3] == 0 && g[4] == 0 && g[5] == 0xffff
}

/// The four octets in the last two groups of `g`.
pub open spec fn mapped_octets(g: Seq<u16>) -> Seq<u8> {
    seq![(g[6] / 256) as u8, (g[6] % 256) as u8, (g[7] / 256) as u8, (g[7] % 256) as u8]
}

/// The text of the IPv6 address with the groups `g`: lower-case hexadecimal, and `::` for
/// the longest run of two or more zero groups, the first one of several. Where
/// `dotted_mapped` asks for it, a mapped IPv4 address is written as `::ffff:` and its
/// IPv4 text.
pub open spec fn ipv6_text(g: Seq<u16>, dotted_mapped: bool) -> Seq<char> {
    if dotted_mapped && is_mapped(g) {
        seq![':', ':', 'f', 'f', 'f', 'f', ':'] + ipv4_text(mapped_octets(g))
    } else {
        let run = longest_zero_run(g, 0);
        if run.1 >= 2 {
            groups_text(g.subrange(0, run.0)) + seq![':', ':'] + groups_text(
                g.subrange(run.0 + run.1, g.len() as int),
            )
        } else {
            groups_text(g)
        }
    }
}

/// The text of an address to bind: `ip:port`, the IP address in brackets where it is IPv6.
/// An IPv6 address that maps an IPv4 one is written with dots.
pub open spec fn bind_text(b: BindView) -> Seq<char> {
    match b.ip {
        IpView::V4(o) => ipv4_text(o) + seq![':'] + decimal_text(b.port as nat),
        IpView::V6(g) => seq!['['] + ipv6_text(g, true) + seq![']', ':'] + decimal_text(
            b.port as nat,
        ),
    }
}

/// The text of a host: a domain name as it is, an IPv4 address with dots, an IPv6 address
/// in brackets and in hexadecimal throughout.
pub open spec fn host_text(h: HostView) -> Seq<char> {
    match h {
        HostView::Domain(name) => name,
        HostView::Ipv4(o) => ipv4_text(o),
        HostView::Ipv6(g) => seq!['['] + ipv6_text(g, false) + seq![']'],
    }
}

/// Appends `n` in lower-case hexadecimal digits to `out`.
pub fn push_hex(out: &mut Vec<char>, n: u16)
    ensures
        final(out)@ == old(out)@ + hex_text(n as nat),
    decreases n,
{
    if n >= 16 {
        push_hex(out, n / 16);
    }
    let d: u8 = (n % 16) as u8;
    if d < 10 {
        out.push((48u8 + d) as char);
    } else {
        out.push((87u8 + d) as char);
    }
}

/// Appends the groups `g[from..to]` in hexadecimal to `out`, with colons between them.
pub fn push_groups(out: &mut Vec<char>, g: &[u16; 8], from: usize, to: usize)
    requires
        from <= to <= 8,
    ensures
        final(out)@ == old(out)@ + groups_text(g@.subrange(from as int, to as int)),
{
    let mut i: usize = from;
    while i < to
        invariant
            from <= i <= to <= 8,
            out@ == old(out)@ + groups_text(g@.subrange(from as int, i as int)),
        decreases to - i,
    {
        if i > from {
            out.push(':');
        }
        push_hex(out, g[i]);
        proof {
            let next = g@.subrange(from as int, i + 1);
            assert(next.drop_last() == g@.subrange(from as int, i as int));
            assert(next.last() == g@[i as int]);
            assert(out@ =~= old(out)@ + groups_text(next));
        }
        i += 1;
    }
}

/// Where the first longest run of zero groups starts in `g`, and how long it is.
pub fn find_zero_run(g: &[u16; 8]) -> (run: (usize, usize))
    ensures
        run.0 as int == longest_zero_run(g@, 0).0,
        run.1 as nat == longest_zero_run(g@, 0).1,
        run.0 + run.1 <= 8,
{
    let mut best: (usize, usize) = (8, 0);
    let mut current: usize = 0;
    let mut i: usize = 8;
    while i > 0
        invariant
            i <= 8,
            current as nat == zero_run(g@, i as int),
            best.0 as int == longest_zero_run(g@, i as int).0,
            best.1 as nat == longest_zero_run(g@, i as int).1,
            i + current <= 8,
            best.0 + best.1 <= 8,
        decreases i,
    {
        i -= 1;
        if g[i] == 0 {
            current += 1;
        } else {
            current = 0;
        }
        if current > 0 && current >= best.1 {
            best = (i, current);
        }
    }
    best
}

/// Appends the text of the IPv6 address `a` to `out`.
pub fn push_ipv6(out: &mut Vec<char>, a: &Ipv6Address, dotted_mapped: bool)
    ensures
        final(out)@ == old(out)@ + ipv6_text(a.segments@, dotted_mapped),
{
    let g = &a.segments;
    if dotted_mapped && g[0] == 0 && g[1] == 0 && g[2] == 0 && g[3] == 0 && g[4] == 0 && g[5]
        == 0xffff {
        let octets: [u8; 4] = [
            (g[6] / 256) as u8,
            (g[6] % 256) as u8,
            (g[7] / 256) as u8,
            (g[7] % 256) as u8,
        ];
        assert(octets@ =~= mapped_octets(g@));
        out.push(':');
        out.push(':');
        out.push('f');
        out.push('f');
        out.push('f');
        out.push('f');
        out.push(':');
        push_ipv4(out, &Ipv4Address { octets });
        assert(out@ =~= old(out)@ + ipv6_text(a.segments@, dotted_mapped));
        return ;
    }
    let run = find_zero_run(g);
    if run.1 >= 2 {
        push_groups(out, g, 0, run.0);
        out.push(':');
        out.push(':');
        push_groups(out, g, run.0 + run.1, 8);
    } else {
        push_groups(out, g, 0, 8);
        assert(g@.subrange(0, 8) == g@);
    }
    assert(out@ =~= old(out)@ + ipv6_text(a.segments@, dotted_mapped));
}

/// Appends the text of the address `b` to `out`.
pub fn push_bind(out: &mut Vec<char>, b: &BindAddress)
    ensures
        final(out)@ == old(out)@ + bind_text(b@),
{
    match &b.ip {
        IpAddress::V4(a) => {
            push_ipv4(out, a);
            out.push(':');
        },
        IpAddress::V6(a) => {
            out.push('[');
            push_ipv6(out, a, true);
            out.push(']');
            out.push(':');
        },
    }
    push_decimal(out, b.port as u64);
    assert(out@ =~= old(out)@ + bind_text(b@));
}

/// Appends the text of the host `h` to `out`.
pub fn push_host(out: &mut Vec<char>, h: &Host)
    ensures
        final(out)@ == old(out)@ + host_text(h@),
{
    match h {
        Host::Domain(name) => {
            let chars = chars_of(name.as_str());
            let mut i: usize = 0;
            while i < chars.len()
                invariant
                    i <= chars.len(),
                    out@ == old(out)@ + chars@.take(i as int),
                decreases chars.len() - i,
            {
                out.push(chars[i]);
                i += 1;
            }
            assert(chars@.take(chars.len() as int) == chars@);
        },
        Host::Ipv4(a) => {
            push_ipv4(out, a);
        },
        Host::Ipv6(a) => {
            out.push('[');
            push_ipv6(out, a, false);
            out.push(']');
        },
    }
    assert(out@ =~= old(out)@ + host_text(h@));
}

impl Ipv4Address {
    /// The address that `text` spells.
    pub fn from_text(text: &str) -> (r: Option<Ipv4Address>)
        ensures
            match r {
                Some(a) => ipv4_of_text(text@) == Some(a.octets@),
                None => ipv4_of_text(text@) is None,
            },
    {
        parse_ipv4(&chars_of(text))
    }

    /// The text of the address.
    pub fn text(&self) -> (out: String)
        ensures
            out@ == ipv4_text(self.octets@),
    {
        let mut chars: Vec<char> = Vec::new();
        push_ipv4(&mut chars, self);
        string_of(&chars)
    }
}

impl Ipv6Address {
    /// The address that `text` spells.
    pub fn from_text(text: &str) -> (r: Option<Ipv6Address>)
        ensures
            match r {
                Some(a) => ipv6_of_text(text@) == Some(a.segments@),
                None => ipv6_of_text(text@) is None,
            },
    {
        parse_ipv6(&chars_of(text))
    }

    /// The text of the address, with dots where it maps an IPv4 address.
    pub fn text(&self) -> (out: String)
        ensures
            out@ == ipv6_text(self.segments@, true),
    {
        let mut chars: Vec<char> = Vec::new();
        push_ipv6(&mut chars, self, true);
        string_of(&chars)
    }
}

impl BindAddress {
    /// The text of the address: `ip:port`.
    pub fn text(&self) -> (out: String)
        ensures
            out@ == bind_text(self@),
    {
        let mut chars: Vec<char> = Vec::new();
        push_bind(&mut chars, self);
        string_of(&chars)
    }
}

impl Host {
    /// The text of the host.
    pub fn text(&self) -> (out: String)
        ensures
            out@ == host_text(self@),
    {
        let mut chars: Vec<char> = Vec::new();
        push_host(&mut chars, self);
        string_of(&chars)
    }
}

} // verus!
