//! Addresses and tunnels are read back from the texts that are written for them.

use crate::addr::{
    all_hex, group_of_text, groups_of_octets, groups_of_parts, groups_of_text, groups_read,
    groups_text, groups_until, hex_char, hex_digit_value, hex_text, hex_value, ipv4_of_text,
    ipv4_text, ipv6_of_text, ipv6_text, is_mapped, longest_zero_run, mapped_octets, octet_of_text,
    zero_groups, zero_run,
};
use crate::addr::{bind_text, BindView, IpView};
use crate::error::ErrorView;
use crate::text::{
    all_digits, decimal_text, find, first_of, is_digit, lacks, lemma_decimal_round_trip,
    lemma_decimal_text, lemma_decimal_text_shape, lemma_find_from, lemma_find_is,
    lemma_first_of_from, lemma_first_of_is, lemma_split_concat, lemma_split_single, occurs_at,
    parse_unsigned, skip_char, split, trim_start_char,
};
use crate::protocol::ProtocolView;
use crate::addr::host_text;
use crate::options::{collect, lemma_collect_later_stays, lookup, Pairs};
use crate::tunnel::{
    after_any, before_any, credentials_of, dest_url_text, is_dynamic, items_text, local_bind_of,
    local_text, names_port_443, option_items, options_text, pairs_after, protocol_of,
    proxy_protocol_of, remote_text, reverse_tunnel_of_text, route_of_info, route_of_text,
    scheme_kind, scheme_of_word, timeout_of_value, timeout_value, tunnel_of_text, tunnel_text,
    unbound_v4, unbound_v6, written_credentials, written_dest, written_proxy_protocol,
    written_timeout, RouteView, SchemeKind, TunnelView,
};
use crate::weburl::url_of_text;
use vstd::prelude::*;

verus! {

/// Whether `s` holds decimal digits and dots only.
pub open spec fn dotted_digits(s: Seq<char>) -> bool {
    forall|i: int| 0 <= i < s.len() ==> is_digit(#[trigger] s[i]) || s[i] == '.'
}

/// The decimal text of an octet spells the octet, and holds digits only.
pub proof fn lemma_octet_round_trip(n: u8)
    ensures
        octet_of_text(decimal_text(n as nat)) == Some(n),
        all_digits(decimal_text(n as nat)),
        lacks(decimal_text(n as nat), '.'),
{
    lemma_decimal_text(n as nat);
    lemma_decimal_text_shape(n as nat);
    let t = decimal_text(n as nat);
    assert forall|i: int| 0 <= i < t.len() implies #[trigger] t[i] != '.' by {
        assert(is_digit(t[i]));
    }
}

/// The text of an IPv4 address falls into the decimal texts of its four octets.
pub proof fn lemma_ipv4_text_split(o: Seq<u8>)
    requires
        o.len() == 4,
    ensures
        split(ipv4_text(o), '.') == seq![
            decimal_text(o[0] as nat),
            decimal_text(o[1] as nat),
            decimal_text(o[2] as nat),
            decimal_text(o[3] as nat),
        ],
        dotted_digits(ipv4_text(o)),
        ipv4_text(o).len() >= 7,
{
    let d0 = decimal_text(o[0] as nat);
    let d1 = decimal_text(o[1] as nat);
    let d2 = decimal_text(o[2] as nat);
    let d3 = decimal_text(o[3] as nat);
    lemma_octet_round_trip(o[0]);
    lemma_octet_round_trip(o[1]);
    lemma_octet_round_trip(o[2]);
    lemma_octet_round_trip(o[3]);
    lemma_split_single(d0, '.');
    lemma_split_single(d1, '.');
    lemma_split_single(d2, '.');
    lemma_split_single(d3, '.');
    lemma_split_concat(d0, d1, '.');
    lemma_split_concat(d0 + seq!['.'] + d1, d2, '.');
    lemma_split_concat(d0 + seq!['.'] + d1 + seq!['.'] + d2, d3, '.');
    let t = ipv4_text(o);
    assert forall|i: int| 0 <= i < t.len() implies is_digit(#[trigger] t[i]) || t[i] == '.' by {
        let a = d0.len() as int;
        let b = a + 1 + d1.len();
        let c = b + 1 + d2.len();
        if i < a {
            assert(t[i] == d0[i]);
        } else if i == a {
        } else if i < b {
            assert(t[i] == d1[i - a - 1]);
        } else if i == b {
        } else if i < c {
            assert(t[i] == d2[i - b - 1]);
        } else if i == c {
        } else {
            assert(t[i] == d3[i - c - 1]);
        }
    }
}

/// Every IPv4 address is read back from its text.
pub proof fn lemma_ipv4_round_trip(o: Seq<u8>)
    requires
        o.len() == 4,
    ensures
        ipv4_of_text(ipv4_text(o)) == Some(o),
{
    lemma_ipv4_text_split(o);
    lemma_octet_round_trip(o[0]);
    lemma_octet_round_trip(o[1]);
    lemma_octet_round_trip(o[2]);
    lemma_octet_round_trip(o[3]);
    let parts = split(ipv4_text(o), '.');
    assert(Seq::new(4, |i: int| octet_of_text(parts[i])->0) =~= o);
}

/// Whether `s` holds lower-case hexadecimal digits only.
pub open spec fn all_lower_hex(s: Seq<char>) -> bool {
    forall|i: int| 0 <= i < s.len() ==> ('0' <= #[trigger] s[i] <= '9' || 'a' <= s[i] <= 'f')
}

/// The hexadecimal text of a group has one to four lower-case digits, which spell the
/// group.
pub proof fn lemma_hex_text(n: nat)
    requires
        n < 0x10000,
    ensures
        1 <= hex_text(n).len() <= 4,
        n < 0x10 ==> hex_text(n).len() == 1,
        0x10 <= n < 0x100 ==> hex_text(n).len() == 2,
        0x100 <= n < 0x1000 ==> hex_text(n).len() == 3,
        all_lower_hex(hex_text(n)),
        all_hex(hex_text(n)),
        hex_value(hex_text(n)) == n,
    decreases n,
{
    if n < 16 {
        assert(hex_text(n).drop_last() == Seq::<char>::empty());
        assert(hex_value(hex_text(n).drop_last()) == 0);
        assert(hex_digit_value(hex_char(n)) == n);
    } else {
        lemma_hex_text(n / 16);
        assert(hex_text(n).drop_last() == hex_text(n / 16));
        assert(hex_digit_value(hex_char(n % 16)) == n % 16);
        assert forall|i: int| 0 <= i < hex_text(n).len() implies ('0' <= #[trigger] hex_text(n)[i]
            <= '9' || 'a' <= hex_text(n)[i] <= 'f') by {
            if i < hex_text(n / 16).len() {
                assert(hex_text(n)[i] == hex_text(n / 16)[i]);
            }
        }
    }
}

/// Every group is read back from its hexadecimal text, which holds no colon and no dot.
pub proof fn lemma_group_round_trip(n: u16)
    ensures
        group_of_text(hex_text(n as nat)) == Some(n),
        lacks(hex_text(n as nat), ':'),
        lacks(hex_text(n as nat), '.'),
        hex_text(n as nat).len() >= 1,
{
    lemma_hex_text(n as nat);
}

/// The hexadecimal texts of the groups `h`.
pub open spec fn hex_texts(h: Seq<u16>) -> Seq<Seq<char>> {
    Seq::new(h.len(), |i: int| hex_text(h[i] as nat))
}

/// Whether every colon of `s` stands between two characters that are no colons.
pub open spec fn colons_apart(s: Seq<char>) -> bool {
    forall|i: int|
        0 <= i < s.len() && #[trigger] s[i] == ':' ==> 0 < i && i + 1 < s.len() && s[i - 1] != ':'
            && s[i + 1] != ':'
}

/// The text of one or more groups falls into the hexadecimal texts of the groups. It is
/// not empty, holds no dot, and each of its colons stands between two digits.
pub proof fn lemma_groups_text_split(h: Seq<u16>)
    requires
        h.len() >= 1,
    ensures
        split(groups_text(h), ':') == hex_texts(h),
        groups_text(h).len() >= 1,
        lacks(groups_text(h), '.'),
        colons_apart(groups_text(h)),
    decreases h.len(),
{
    let last = hex_text(h.last() as nat);
    lemma_group_round_trip(h.last());
    lemma_split_single(last, ':');
    if h.len() == 1 {
        assert(hex_texts(h) =~= seq![last]);
        assert(groups_text(h) == last);
    } else {
        let front = groups_text(h.drop_last());
        lemma_groups_text_split(h.drop_last());
        lemma_split_concat(front, last, ':');
        assert(hex_texts(h) =~= hex_texts(h.drop_last()) + seq![last]);
        let t = groups_text(h);
        assert(t == front + seq![':'] + last);
        assert forall|i: int| 0 <= i < t.len() implies #[trigger] t[i] != '.' by {
            if i < front.len() {
                assert(t[i] == front[i]);
            } else if i > front.len() {
                assert(t[i] == last[i - front.len() - 1]);
            }
        }
        assert forall|i: int| 0 <= i < t.len() && #[trigger] t[i] == ':' implies 0 < i && i + 1
            < t.len() && t[i - 1] != ':' && t[i + 1] != ':' by {
            if i < front.len() {
                assert(t[i] == front[i]);
                assert(front[i] == ':');
                assert(t[i - 1] == front[i - 1]);
                assert(t[i + 1] == front[i + 1]);
            } else if i == front.len() {
                assert(t[i - 1] == front[front.len() - 1]);
                assert(front[front.len() - 1] != ':') by {
                    if front[front.len() - 1] == ':' {
                        assert(front.len() - 1 + 1 < front.len());
                    }
                }
                assert(t[i + 1] == last[0]);
            } else {
                assert(t[i] == last[i - front.len() - 1]);
            }
        }
    }
}

/// Groups are read back from their text, whether an IPv4 address may stand last or not.
pub proof fn lemma_groups_round_trip(h: Seq<u16>, dotted_last: bool)
    ensures
        groups_of_text(groups_text(h), dotted_last) == Some(h),
{
    if h.len() == 0 {
        assert(h == Seq::<u16>::empty());
    } else {
        lemma_groups_text_split(h);
        let parts = split(groups_text(h), ':');
        assert forall|i: int| 0 <= i < h.len() implies group_of_text(#[trigger] parts[i]) == Some(
            h[i],
        ) by {
            lemma_group_round_trip(h[i]);
        }
        assert(groups_until(parts, h.len() as int));
        assert(groups_read(parts, h.len() as int) =~= h);
    }
}

/// A run of zero groups stays inside `g`, and every group of it is zero.
pub proof fn lemma_zero_run(g: Seq<u16>, at: int)
    requires
        0 <= at <= g.len(),
    ensures
        at + zero_run(g, at) <= g.len(),
        forall|i: int| at <= i < at + zero_run(g, at) ==> #[trigger] g[i] == 0,
    decreases g.len() - at,
{
    if at < g.len() && g[at] == 0 {
        lemma_zero_run(g, at + 1);
    }
}

/// The longest run of zero groups starts at or after `from`, and is a run of zero groups.
pub proof fn lemma_longest_zero_run(g: Seq<u16>, from: int)
    requires
        0 <= from <= g.len(),
    ensures
        from <= longest_zero_run(g, from).0 <= g.len(),
        longest_zero_run(g, from).1 > 0 ==> longest_zero_run(g, from).1 == zero_run(
            g,
            longest_zero_run(g, from).0,
        ),
    decreases g.len() - from,
{
    if from < g.len() {
        lemma_longest_zero_run(g, from + 1);
    }
}

/// `::` stands nowhere in a text whose colons are apart.
pub proof fn lemma_colons_apart_no_gap(s: Seq<char>, j: int)
    requires
        colons_apart(s),
    ensures
        !occurs_at(s, seq![':', ':'], j),
{
    if occurs_at(s, seq![':', ':'], j) {
        let w = s.subrange(j, j + 2);
        assert(w[0] == ':' && w[1] == ':');
        assert(s[j] == ':');
        assert(s[j + 1] == ':');
    }
}

/// In `head`, `::` and `tail`, where the colons of `head` are apart, the first `::` stands
/// right behind `head`.
pub proof fn lemma_find_gap(head: Seq<char>, tail: Seq<char>)
    requires
        colons_apart(head),
    ensures
        find(head + seq![':', ':'] + tail, seq![':', ':']) == head.len(),
{
    let s = head + seq![':', ':'] + tail;
    let mark = seq![':', ':'];
    assert(s.subrange(head.len() as int, head.len() as int + 2) =~= mark);
    assert forall|j: int| 0 <= j < head.len() implies !occurs_at(s, mark, j) by {
        if occurs_at(s, mark, j) {
            let w = s.subrange(j, j + 2);
            assert(w[0] == ':' && w[1] == ':');
            assert(s[j] == head[j]);
            assert(head[j] == ':');
            assert(s[j + 1] == head[j + 1]);
        }
    }
    lemma_find_is(s, mark, 0, head.len() as int);
}

/// The colons of the text of groups are apart; those of an empty text too.
pub proof fn lemma_groups_text_colons(h: Seq<u16>)
    ensures
        colons_apart(groups_text(h)),
{
    if h.len() >= 1 {
        lemma_groups_text_split(h);
    }
}

/// `ffff` spells the group `0xffff`.
pub proof fn lemma_ffff()
    ensures
        group_of_text(seq!['f', 'f', 'f', 'f']) == Some(0xffffu16),
        lacks(seq!['f', 'f', 'f', 'f'], ':'),
{
    let t = seq!['f', 'f', 'f', 'f'];
    assert(t.drop_last() =~= seq!['f', 'f', 'f']);
    assert(t.drop_last().drop_last() =~= seq!['f', 'f']);
    assert(t.drop_last().drop_last().drop_last() =~= seq!['f']);
    assert(t.drop_last().drop_last().drop_last().drop_last() =~= Seq::<char>::empty());
    reveal_with_fuel(hex_value, 5);
    assert(hex_value(t) == 0xffff);
}

/// A mapped IPv4 address is read back from its text with dots.
proof fn lemma_ipv6_round_trip_mapped(g: Seq<u16>)
    requires
        g.len() == 8,
        is_mapped(g),
    ensures
        ipv6_of_text(ipv6_text(g, true)) == Some(g),
{
    let mark = seq![':', ':'];
    let text = ipv6_text(g, true);
    let o = mapped_octets(g);
    let dotted = ipv4_text(o);
    let ffff = seq!['f', 'f', 'f', 'f'];
    let none = Seq::<char>::empty();
    lemma_ipv4_text_split(o);
    lemma_ipv4_round_trip(o);
    lemma_ffff();
    assert(text =~= none + mark + (ffff + seq![':'] + dotted));
    assert(colons_apart(none));
    lemma_find_gap(none, ffff + seq![':'] + dotted);
    let tail = text.subrange(2, text.len() as int);
    assert(tail =~= ffff + seq![':'] + dotted);
    assert(text.subrange(0, 0) =~= none);
    assert(lacks(dotted, ':')) by {
        assert forall|i: int| 0 <= i < dotted.len() implies #[trigger] dotted[i] != ':' by {
            assert(is_digit(dotted[i]) || dotted[i] == '.');
        }
    }
    lemma_split_single(ffff, ':');
    lemma_split_single(dotted, ':');
    lemma_split_concat(ffff, dotted, ':');
    let parts = split(tail, ':');
    assert(parts =~= seq![ffff, dotted]);
    assert(group_of_text(parts[1]) is None);
    assert(!groups_until(parts, 2));
    assert(groups_until(parts, 1));
    assert(parts.last() == dotted);
    let read = groups_read(parts, 1) + groups_of_octets(o);
    assert(groups_of_parts(parts, true) == Some(read));
    assert(read =~= seq![0xffffu16, g[6], g[7]]);
    assert(groups_of_text(tail, true) == Some(read));
    assert(groups_of_text(none, false) == Some(Seq::<u16>::empty()));
    assert(Seq::<u16>::empty() + zero_groups(5) + read =~= g);
}

/// An address with a run of two or more zero groups is read back from its text with `::`.
proof fn lemma_ipv6_round_trip_gap(g: Seq<u16>)
    requires
        g.len() == 8,
        longest_zero_run(g, 0).1 >= 2,
    ensures
        ipv6_of_text(ipv6_text(g, false)) == Some(g),
{
    let mark = seq![':', ':'];
    let text = ipv6_text(g, false);
    let run = longest_zero_run(g, 0);
    lemma_longest_zero_run(g, 0);
    let a = run.0;
    let l = run.1 as int;
    lemma_zero_run(g, a);
    let front = g.subrange(0, a);
    let back = g.subrange(a + l, 8);
    let head = groups_text(front);
    let tail = groups_text(back);
    lemma_groups_text_colons(front);
    lemma_find_gap(head, tail);
    assert(text == head + mark + tail);
    assert(text.subrange(0, head.len() as int) =~= head);
    assert(text.subrange(head.len() as int + 2, text.len() as int) =~= tail);
    lemma_groups_round_trip(front, false);
    lemma_groups_round_trip(back, true);
    assert(front + zero_groups(8 - front.len() - back.len()) + back =~= g);
}

/// An address without a run of two zero groups is read back from its text.
proof fn lemma_ipv6_round_trip_plain(g: Seq<u16>)
    requires
        g.len() == 8,
        longest_zero_run(g, 0).1 < 2,
    ensures
        ipv6_of_text(ipv6_text(g, false)) == Some(g),
{
    let mark = seq![':', ':'];
    let text = ipv6_text(g, false);
    assert(text == groups_text(g));
    lemma_groups_text_split(g);
    assert forall|j: int| 0 <= j < text.len() implies !occurs_at(text, mark, j) by {
        lemma_colons_apart_no_gap(text, j);
    }
    lemma_find_is(text, mark, 0, text.len() as int);
    lemma_groups_round_trip(g, true);
}

/// Every IPv6 address is read back from its text, whether a mapped IPv4 address is
/// written with dots or not.
pub proof fn lemma_ipv6_round_trip(g: Seq<u16>, dotted_mapped: bool)
    requires
        g.len() == 8,
    ensures
        ipv6_of_text(ipv6_text(g, dotted_mapped)) == Some(g),
{
    if dotted_mapped && is_mapped(g) {
        lemma_ipv6_round_trip_mapped(g);
    } else {
        assert(ipv6_text(g, dotted_mapped) == ipv6_text(g, false));
        if longest_zero_run(g, 0).1 >= 2 {
            lemma_ipv6_round_trip_gap(g);
        } else {
            lemma_ipv6_round_trip_plain(g);
        }
    }
}

/// Whether `s` holds only what the text of an address can hold: digits, the letters `a`
/// to `f`, colons and dots.
pub open spec fn address_chars(s: Seq<char>) -> bool {
    forall|i: int|
        0 <= i < s.len() ==> ('0' <= #[trigger] s[i] <= '9' || 'a' <= s[i] <= 'f' || s[i] == ':'
            || s[i] == '.')
}

/// The text of groups holds hexadecimal digits and colons only.
pub proof fn lemma_groups_text_chars(h: Seq<u16>)
    ensures
        address_chars(groups_text(h)),
    decreases h.len(),
{
    if h.len() >= 1 {
        let last = hex_text(h.last() as nat);
        lemma_hex_text(h.last() as nat);
        if h.len() > 1 {
            let front = groups_text(h.drop_last());
            lemma_groups_text_chars(h.drop_last());
            let t = groups_text(h);
            assert forall|i: int| 0 <= i < t.len() implies ('0' <= #[trigger] t[i] <= '9' || 'a'
                <= t[i] <= 'f' || t[i] == ':' || t[i] == '.') by {
                if i < front.len() {
                    assert(t[i] == front[i]);
                } else if i > front.len() {
                    assert(t[i] == last[i - front.len() - 1]);
                }
            }
        }
    }
}

/// The text of an IPv6 address holds digits, the letters `a` to `f`, colons and dots only.
pub proof fn lemma_ipv6_text_chars(g: Seq<u16>, dotted_mapped: bool)
    requires
        g.len() == 8,
    ensures
        address_chars(ipv6_text(g, dotted_mapped)),
{
    let t = ipv6_text(g, dotted_mapped);
    if dotted_mapped && is_mapped(g) {
        let dotted = ipv4_text(mapped_octets(g));
        lemma_ipv4_text_split(mapped_octets(g));
        assert forall|i: int| 0 <= i < t.len() implies ('0' <= #[trigger] t[i] <= '9' || 'a'
            <= t[i] <= 'f' || t[i] == ':' || t[i] == '.') by {
            if i >= 7 {
                assert(t[i] == dotted[i - 7]);
                assert(is_digit(dotted[i - 7]) || dotted[i - 7] == '.');
            }
        }
    } else {
        let run = longest_zero_run(g, 0);
        lemma_longest_zero_run(g, 0);
        if run.1 >= 2 {
            lemma_zero_run(g, run.0);
            let head = groups_text(g.subrange(0, run.0));
            let tail = groups_text(g.subrange(run.0 + run.1, 8));
            lemma_groups_text_chars(g.subrange(0, run.0));
            lemma_groups_text_chars(g.subrange(run.0 + run.1, 8));
            assert forall|i: int| 0 <= i < t.len() implies ('0' <= #[trigger] t[i] <= '9' || 'a'
                <= t[i] <= 'f' || t[i] == ':' || t[i] == '.') by {
                if i < head.len() {
                    assert(t[i] == head[i]);
                } else if i >= head.len() + 2 {
                    assert(t[i] == tail[i - head.len() - 2]);
                }
            }
        } else {
            lemma_groups_text_chars(g);
        }
    }
}

/// The text of a port spells the port, and holds digits only.
pub proof fn lemma_port_round_trip(port: u16)
    ensures
        parse_unsigned(decimal_text(port as nat), 65535) == Some(port as nat),
        all_digits(decimal_text(port as nat)),
        decimal_text(port as nat).len() >= 1,
{
    lemma_decimal_text(port as nat);
}

/// Whether `b` holds an address of four octets or of eight groups.
pub open spec fn bind_wf(b: BindView) -> bool {
    match b.ip {
        IpView::V4(o) => o.len() == 4,
        IpView::V6(g) => g.len() == 8,
    }
}

/// An address to bind is read back from its text, whatever follows the text behind a
/// colon; and what follows is given as the rest.
pub proof fn lemma_bind_round_trip(b: BindView, rest: Seq<char>)
    requires
        bind_wf(b),
    ensures
        local_bind_of(bind_text(b) + seq![':'] + rest) == Ok::<(BindView, Seq<char>), ErrorView>(
            (b, rest),
        ),
{
    let port = decimal_text(b.port as nat);
    lemma_port_round_trip(b.port);
    let arg = bind_text(b) + seq![':'] + rest;
    let ends = seq![':', '?'];
    let tail = port + seq![':'] + rest;
    assert(first_of(tail, ends) == port.len()) by {
        assert(ends.contains(':')) by {
            assert(ends[0] == ':');
        }
        assert forall|j: int| 0 <= j < port.len() implies !ends.contains(#[trigger] tail[j]) by {
            assert(tail[j] == port[j]);
            assert(is_digit(port[j]));
        }
        assert(tail[port.len() as int] == ':');
        lemma_first_of_is(tail, ends, 0, port.len() as int);
    }
    assert(before_any(tail, ends) =~= port);
    assert(after_any(tail, ends) =~= rest);
    assert(is_digit(port[0]));
    assert(tail[0] == port[0]);
    assert(trim_start_char(tail, ':') =~= tail);
    match b.ip {
        IpView::V4(o) => {
            let ip = ipv4_text(o);
            lemma_ipv4_text_split(o);
            lemma_ipv4_round_trip(o);
            assert(arg =~= ip + seq![':'] + tail);
            assert(arg[0] == ip[0]);
            assert(is_digit(ip[0]) || ip[0] == '.');
            let colon = seq![':'];
            assert(first_of(arg, colon) == ip.len()) by {
                assert(colon.contains(':')) by {
                    assert(colon[0] == ':');
                }
                assert forall|j: int| 0 <= j < ip.len() implies !colon.contains(
                    #[trigger] arg[j],
                ) by {
                    assert(arg[j] == ip[j]);
                    assert(is_digit(ip[j]) || ip[j] == '.');
                }
                assert(arg[ip.len() as int] == ':');
                lemma_first_of_is(arg, colon, 0, ip.len() as int);
            }
            assert(before_any(arg, colon) =~= ip);
            assert(after_any(arg, colon) =~= tail);
        },
        IpView::V6(g) => {
            let ip = ipv6_text(g, true);
            lemma_ipv6_text_chars(g, true);
            lemma_ipv6_round_trip(g, true);
            assert(arg =~= seq!['['] + ip + seq![']'] + seq![':'] + tail);
            assert(arg[0] == '[');
            let bracket = seq![']'];
            let close = ip.len() as int + 1;
            assert(first_of(arg, bracket) == close) by {
                assert(bracket.contains(']')) by {
                    assert(bracket[0] == ']');
                }
                assert forall|j: int| 0 <= j < close implies !bracket.contains(
                    #[trigger] arg[j],
                ) by {
                    if j > 0 {
                        assert(arg[j] == ip[j - 1]);
                    }
                }
                assert(arg[close] == ']');
                lemma_first_of_is(arg, bracket, 0, close);
            }
            assert(arg.subrange(1, close) =~= ip);
            let after = arg.subrange(close + 1, arg.len() as int);
            assert(after =~= seq![':'] + tail);
            assert(trim_start_char(after, ':') =~= tail) by {
                assert(after[0] == ':');
                assert(after[1] == port[0]);
                assert(skip_char(after, ':', 1) == 1);
                assert(skip_char(after, ':', 0) == 1);
            }
        },
    }
}

/// The word of a scheme.
pub open spec fn scheme_word(kind: SchemeKind) -> Seq<char> {
    match kind {
        SchemeKind::Tcp => "tcp"@,
        SchemeKind::Udp => "udp"@,
        SchemeKind::Unix => "unix"@,
        SchemeKind::Http => "http"@,
        SchemeKind::Socks5 => "socks5"@,
        SchemeKind::Stdio => "stdio"@,
        SchemeKind::TProxyTcp => "tproxy+tcp"@,
        SchemeKind::TProxyUdp => "tproxy+udp"@,
    }
}

/// The socket path of a unix tunnel; empty for every other tunnel.
pub open spec fn socket_path(p: ProtocolView) -> Seq<char> {
    match p {
        ProtocolView::Unix { path, .. } => path,
        ProtocolView::ReverseUnix { path } => path,
        _ => Seq::empty(),
    }
}

/// Whether the listening side of a tunnel can be found in its text: an address of four
/// octets or eight groups where one is bound, and for a unix tunnel a socket path that
/// holds no colon.
pub open spec fn written_in_full(t: TunnelView) -> bool {
    match scheme_kind(t.local_protocol) {
        SchemeKind::Unix => lacks(socket_path(t.local_protocol), ':'),
        SchemeKind::Stdio => true,
        _ => bind_wf(t.local),
    }
}

/// The route that is read from the text of the tunnel `t`: its scheme; the address that it
/// binds, or the address that stands for none; its socket path; and as the text of the
/// destination `host:port` with the options, behind `0.0.0.0:0?` where the scheme is
/// dynamic.
pub open spec fn route_of_tunnel(t: TunnelView) -> RouteView {
    let kind = scheme_kind(t.local_protocol);
    RouteView {
        kind,
        local: match kind {
            SchemeKind::Unix => unbound_v6(),
            SchemeKind::Stdio => unbound_v4(),
            _ => t.local,
        },
        path: socket_path(t.local_protocol),
        dest: if is_dynamic(kind) {
            "0.0.0.0:0?"@ + written_dest(t)
        } else {
            written_dest(t)
        },
    }
}

/// A text that opens with the word of a scheme and `://` is read as that scheme, with
/// what follows as its route.
pub proof fn lemma_scheme_round_trip(kind: SchemeKind, info: Seq<char>)
    ensures
        route_of_text(scheme_word(kind) + "://"@ + info) == route_of_info(
            kind,
            scheme_word(kind) + "://"@ + info,
            info,
        ),
{
    reveal_strlit("tcp");
    reveal_strlit("udp");
    reveal_strlit("unix");
    reveal_strlit("http");
    reveal_strlit("socks5");
    reveal_strlit("stdio");
    reveal_strlit("tproxy+tcp");
    reveal_strlit("tproxy+udp");
    reveal_strlit("://");
    let word = scheme_word(kind);
    let mark = "://"@;
    let arg = word + mark + info;
    assert(lacks(word, ':'));
    assert(arg.subrange(word.len() as int, word.len() as int + 3) =~= mark);
    assert forall|j: int| 0 <= j < word.len() implies !occurs_at(arg, mark, j) by {
        if occurs_at(arg, mark, j) {
            assert(arg.subrange(j, j + 3)[0] == ':');
            assert(arg[j] == word[j]);
        }
    }
    lemma_find_is(arg, mark, 0, word.len() as int);
    assert(arg.subrange(0, word.len() as int) =~= word);
    assert(arg.subrange((word.len() + mark.len()) as int, arg.len() as int) =~= info);
    assert(scheme_of_word(word) == Some(kind)) by {
        assert("tcp"@[0] == 't' && "udp"@[0] == 'u' && "unix"@[1] == 'n' && "http"@[0] == 'h');
        assert("socks5"@[1] == 'o' && "stdio"@[1] == 't');
        assert("tproxy+tcp"@[7] == 't' && "tproxy+udp"@[7] == 'u');
        assert("udp"@[1] == 'd');
    }
}

/// The text that is written for a tunnel is read back, up to its destination, as the
/// scheme, the bound address and the socket path of the tunnel; and the destination is
/// read from the text `host:port` and the options that were written for it.
pub proof fn lemma_written_tunnel_route(t: TunnelView)
    requires
        written_in_full(t),
    ensures
        route_of_text(tunnel_text(t)) == Ok::<RouteView, ErrorView>(route_of_tunnel(t)),
{
    let kind = scheme_kind(t.local_protocol);
    let remote = written_dest(t);
    let local = local_text(t);
    assert(t.local_protocol.scheme() == scheme_word(kind));
    let info = if kind == SchemeKind::Stdio {
        remote
    } else {
        local + seq![':'] + remote
    };
    assert(tunnel_text(t) =~= scheme_word(kind) + "://"@ + info);
    lemma_scheme_round_trip(kind, info);
    match kind {
        SchemeKind::Unix => {
            let path = socket_path(t.local_protocol);
            assert(local == path);
            let colon = seq![':'];
            assert(first_of(info, colon) == path.len()) by {
                assert(colon.contains(':')) by {
                    assert(colon[0] == ':');
                }
                assert forall|j: int| 0 <= j < path.len() implies !colon.contains(
                    #[trigger] info[j],
                ) by {
                    assert(info[j] == path[j]);
                }
                assert(info[path.len() as int] == ':');
                lemma_first_of_is(info, colon, 0, path.len() as int);
            }
            assert(info.subrange(0, path.len() as int) =~= path);
            assert(info.subrange(path.len() as int + 1, info.len() as int) =~= remote);
        },
        SchemeKind::Stdio => {},
        _ => {
            assert(local == bind_text(t.local));
            lemma_bind_round_trip(t.local, remote);
        },
    }
}

/// An address that is read from a text has four octets or eight groups.
pub proof fn lemma_read_bind_shape(arg: Seq<char>)
    ensures
        local_bind_of(arg) matches Ok(r) ==> bind_wf(r.0),
{
    lemma_first_of_from(arg, seq![']'], 0);
}

/// A tunnel that is read from a text listens on the client, binds an address of four
/// octets or eight groups, has no colon in its socket path and no timeout of zero
/// seconds.
pub proof fn lemma_read_tunnel_shape(arg: Seq<char>)
    ensures
        tunnel_of_text(arg) matches Ok(t) ==> !t.local_protocol.is_reverse() && bind_wf(t.local)
            && lacks(socket_path(t.local_protocol), ':') && t.local == route_of_tunnel(t).local
            && timeout_is_positive(t.local_protocol) && read_shape(t),
{
    if tunnel_of_text(arg) is Ok {
        let route = route_of_text(arg)->Ok_0;
        let at = find(arg, "://"@);
        let info = arg.subrange(at + "://"@.len(), arg.len() as int);
        if route.kind == SchemeKind::Unix {
            lemma_first_of_from(info, seq![':'], 0);
            let colon = first_of(info, seq![':']);
            assert forall|i: int| 0 <= i < route.path.len() implies #[trigger] route.path[i]
                != ':' by {
                assert(route.path[i] == info[i]);
                assert(seq![':'].contains(':')) by {
                    assert(seq![':'][0] == ':');
                }
            }
        } else if route.kind == SchemeKind::Stdio {
        } else {
            lemma_read_bind_shape(info);
        }
    }
}

/// Whether no timeout of the protocol `p` is zero seconds: a timeout of zero is read as
/// none, and none is what is written as zero.
pub open spec fn timeout_is_positive(p: ProtocolView) -> bool {
    match p {
        ProtocolView::Udp { timeout } => timeout != Some(0u64),
        ProtocolView::Socks5 { timeout, .. } => timeout != Some(0u64),
        ProtocolView::TProxyUdp { timeout } => timeout != Some(0u64),
        ProtocolView::HttpProxy { timeout, .. } => timeout != Some(0u64),
        ProtocolView::ReverseUdp { timeout } => timeout != Some(0u64),
        ProtocolView::ReverseSocks5 { timeout, .. } => timeout != Some(0u64),
        ProtocolView::ReverseHttpProxy { timeout, .. } => timeout != Some(0u64),
        _ => true,
    }
}

/// Whether a tunnel that listens on the client has the shape that reading gives it: it
/// is written in full, the address that stands for none is its address where it binds
/// none, and no timeout is zero seconds.
pub open spec fn read_shape(t: TunnelView) -> bool {
    &&& !t.local_protocol.is_reverse()
    &&& written_in_full(t)
    &&& t.local == route_of_tunnel(t).local
    &&& timeout_is_positive(t.local_protocol)
}

/// The names and values that the query of the destination of `t` is to give: in the text
/// of a dynamic tunnel the written destination, which stands in the query as a name
/// without a value; then the options.
pub open spec fn read_pairs(t: TunnelView) -> Pairs {
    pairs_after(
        if is_dynamic(scheme_kind(t.local_protocol)) {
            seq![(remote_text(t), Seq::<char>::empty())]
        } else {
            Seq::empty()
        },
        t.local_protocol,
    )
}

/// Whether the URL parser reads the destination of `t` back from the text that is written
/// for it: the host, the port (or none for 443, the default of the scheme), and in the
/// query the names and values that were written. This is a statement on the URL parser
/// alone.
pub open spec fn url_reads_back(t: TunnelView) -> bool {
    match url_of_text(dest_url_text(route_of_tunnel(t).dest)) {
        Some(u) => {
            &&& u.host == Some(t.remote.0)
            &&& (u.port == Some(t.remote.1) || (u.port is None && t.remote.1 == 443
                && !is_dynamic(scheme_kind(t.local_protocol))))
            &&& u.query == read_pairs(t)
        },
        None => false,
    }
}

/// One or more items are written behind the lead.
pub proof fn lemma_items_text_head(items: Seq<Seq<char>>, lead: char)
    requires
        items.len() > 0,
    ensures
        items_text(items, lead).len() > 0,
        items_text(items, lead)[0] == lead,
    decreases items.len(),
{
    let front = items_text(items.drop_last(), lead);
    if items.len() > 1 {
        lemma_items_text_head(items.drop_last(), lead);
        assert(items_text(items, lead)[0] == front[0]);
    } else {
        assert(front =~= Seq::<char>::empty());
    }
}

/// The text that is written from the destination on names the port 443 where that is the
/// port of the destination, in a text that is not dynamic.
pub proof fn lemma_written_dest_names_443(t: TunnelView)
    requires
        t.remote.1 == 443,
        !is_dynamic(scheme_kind(t.local_protocol)),
    ensures
        names_port_443(written_dest(t)),
{
    reveal_strlit(":443");
    reveal_strlit(":443?");
    reveal_with_fuel(decimal_text, 3);
    let host = host_text(t.remote.0);
    let port = seq!['4', '4', '3'];
    assert(decimal_text(443) =~= port);
    let options = options_text(t.local_protocol);
    let dest = written_dest(t);
    assert(dest =~= host + seq![':'] + port + options);
    let at = host.len() as int;
    if option_items(t.local_protocol).len() == 0 {
        assert(options =~= Seq::<char>::empty());
        assert(dest.subrange(dest.len() - 4, dest.len() as int) =~= ":443"@);
    } else {
        lemma_items_text_head(option_items(t.local_protocol), '?');
        assert(dest[at + 4] == options[0]);
        assert(dest.subrange(at, at + 5) =~= ":443?"@);
        assert(occurs_at(dest, ":443?"@, at));
        lemma_find_from(dest, ":443?"@, 0);
    }
}

/// What a name has in the pairs `start` followed by the options of the protocol `p`: the
/// value of the option of that name, where the text of `p` holds it; else what it has in
/// `start`.
pub proof fn lemma_pairs_after_lookup(start: Pairs, p: ProtocolView, key: Seq<char>)
    ensures
        lookup(collect(pairs_after(start, p)), key) == if written_proxy_protocol(p) && key
            == "proxy_protocol"@ {
            Some(Seq::<char>::empty())
        } else if written_credentials(p) is Some && key == "password"@ {
            Some((written_credentials(p)->0).1)
        } else if written_credentials(p) is Some && key == "login"@ {
            Some((written_credentials(p)->0).0)
        } else if written_timeout(p) is Some && key == "timeout_sec"@ {
            written_timeout(p)
        } else {
            lookup(collect(start), key)
        },
{
    reveal_strlit("timeout_sec");
    reveal_strlit("login");
    reveal_strlit("password");
    reveal_strlit("proxy_protocol");
    let a = match written_timeout(p) {
        Some(v) => start.push(("timeout_sec"@, v)),
        None => start,
    };
    if written_timeout(p) is Some {
        lemma_collect_later_stays(start, "timeout_sec"@, written_timeout(p)->0, key);
    }
    let b = match written_credentials(p) {
        Some(c) => a.push(("login"@, c.0)).push(("password"@, c.1)),
        None => a,
    };
    if written_credentials(p) is Some {
        let c = written_credentials(p)->0;
        lemma_collect_later_stays(a, "login"@, c.0, key);
        lemma_collect_later_stays(a.push(("login"@, c.0)), "password"@, c.1, key);
    }
    if written_proxy_protocol(p) {
        lemma_collect_later_stays(b, "proxy_protocol"@, Seq::empty(), key);
    }
}

/// The text of a destination holds a colon, so that it is the name of no option.
pub proof fn lemma_remote_text_is_no_option(t: TunnelView)
    ensures
        remote_text(t) != "timeout_sec"@,
        remote_text(t) != "login"@,
        remote_text(t) != "password"@,
        remote_text(t) != "proxy_protocol"@,
{
    reveal_strlit("timeout_sec");
    reveal_strlit("login");
    reveal_strlit("password");
    reveal_strlit("proxy_protocol");
    let r = remote_text(t);
    let at = host_text(t.remote.0).len() as int;
    assert(r[at] == ':');
    assert(lacks("timeout_sec"@, ':'));
    assert(lacks("login"@, ':'));
    assert(lacks("password"@, ':'));
    assert(lacks("proxy_protocol"@, ':'));
}

/// The options that are written for a tunnel give its protocol again when they are read.
pub proof fn lemma_options_read_back(t: TunnelView)
    requires
        !t.local_protocol.is_reverse(),
        timeout_is_positive(t.local_protocol),
    ensures
        protocol_of(
            scheme_kind(t.local_protocol),
            socket_path(t.local_protocol),
            collect(read_pairs(t)),
        ) == t.local_protocol,
{
    let p = t.local_protocol;
    let start: Pairs = if is_dynamic(scheme_kind(p)) {
        seq![(remote_text(t), Seq::<char>::empty())]
    } else {
        Seq::empty()
    };
    let o = collect(read_pairs(t));
    lemma_pairs_after_lookup(start, p, "timeout_sec"@);
    lemma_pairs_after_lookup(start, p, "login"@);
    lemma_pairs_after_lookup(start, p, "password"@);
    lemma_pairs_after_lookup(start, p, "proxy_protocol"@);
    lemma_remote_text_is_no_option(t);
    let none = Seq::<(Seq<char>, Seq<char>)>::empty();
    assert(seq![(remote_text(t), Seq::<char>::empty())] =~= none.push(
        (remote_text(t), Seq::<char>::empty()),
    ));
    lemma_collect_later_stays(none, remote_text(t), Seq::empty(), "timeout_sec"@);
    lemma_collect_later_stays(none, remote_text(t), Seq::empty(), "login"@);
    lemma_collect_later_stays(none, remote_text(t), Seq::empty(), "password"@);
    lemma_collect_later_stays(none, remote_text(t), Seq::empty(), "proxy_protocol"@);
    reveal_strlit("timeout_sec");
    reveal_strlit("login");
    reveal_strlit("password");
    reveal_strlit("proxy_protocol");
    assert("timeout_sec"@.len() == 11 && "login"@.len() == 5 && "password"@.len() == 8
        && "proxy_protocol"@.len() == 14);
    assert(collect(none) =~= none);
    assert(lookup(collect(start), "timeout_sec"@) is None);
    assert(lookup(collect(start), "login"@) is None);
    assert(lookup(collect(start), "password"@) is None);
    assert(lookup(collect(start), "proxy_protocol"@) is None);
    assert(lookup(o, "timeout_sec"@) == written_timeout(p));
    assert(proxy_protocol_of(o) == written_proxy_protocol(p));
    assert(credentials_of(o) == written_credentials(p));
    match p {
        ProtocolView::Udp { timeout } => lemma_timeout_value_round_trip(timeout),
        ProtocolView::Socks5 { timeout, .. } => lemma_timeout_value_round_trip(timeout),
        ProtocolView::TProxyUdp { timeout } => lemma_timeout_value_round_trip(timeout),
        ProtocolView::HttpProxy { timeout, .. } => lemma_timeout_value_round_trip(timeout),
        _ => {},
    }
}

/// `0` spells zero.
pub proof fn lemma_zero_text()
    ensures
        parse_unsigned(seq!['0'], u64::MAX as nat) == Some(0nat),
        decimal_text(0) == seq!['0'],
{
    lemma_decimal_round_trip(0, u64::MAX as nat);
    assert(decimal_text(0) =~= seq!['0']);
}

/// What is written for a timeout is read as that timeout. A timeout of zero seconds is
/// left out: it is written as `0`, which is read as no timeout.
pub proof fn lemma_timeout_value_round_trip(timeout: Option<u64>)
    requires
        timeout != Some(0u64),
    ensures
        timeout_of_value(timeout_value(timeout)) == timeout,
{
    lemma_zero_text();
    if timeout is Some {
        lemma_decimal_round_trip(timeout->0 as nat, u64::MAX as nat);
    }
}

/// A tunnel of the shape that reading gives is read back from the text that is written
/// for it, with its address, its destination and every option, where the URL parser
/// reads the written destination back.
pub proof fn lemma_written_tunnel_reads_back(t: TunnelView)
    requires
        read_shape(t),
        url_reads_back(t),
    ensures
        tunnel_of_text(tunnel_text(t)) == Ok::<TunnelView, ErrorView>(t),
{
    lemma_written_tunnel_route(t);
    lemma_options_read_back(t);
    let route = route_of_tunnel(t);
    let u = url_of_text(dest_url_text(route.dest))->0;
    if u.port is None {
        lemma_written_dest_names_443(t);
    }
}

/// A tunnel that was read from a text is read back from the text that is written for it,
/// where the URL parser reads the written destination back.
pub proof fn lemma_tunnel_round_trip(arg: Seq<char>)
    requires
        tunnel_of_text(arg) is Ok,
        url_reads_back(tunnel_of_text(arg)->Ok_0),
    ensures
        tunnel_of_text(tunnel_text(tunnel_of_text(arg)->Ok_0)) == tunnel_of_text(arg),
{
    let t = tunnel_of_text(arg)->Ok_0;
    lemma_read_tunnel_shape(arg);
    lemma_written_tunnel_reads_back(t);
}

/// The counterpart on the client of a tunnel that listens on the server.
pub open spec fn forward_tunnel(r: TunnelView) -> TunnelView {
    TunnelView {
        local_protocol: r.local_protocol.to_forward()->0,
        local: r.local,
        remote: r.remote,
    }
}

/// A tunnel that listens on the server is written as its counterpart on the client is.
pub proof fn lemma_reverse_written_alike(r: TunnelView)
    requires
        r.local_protocol.is_reverse(),
    ensures
        tunnel_text(r) == tunnel_text(forward_tunnel(r)),
        forward_tunnel(r).local_protocol.to_reverse() == Some(r.local_protocol),
{
}

/// A tunnel that listens on the server is read back, for the server side, from the text
/// that is written for it, where its counterpart on the client has the shape that
/// reading gives and the URL parser reads the written destination back.
pub proof fn lemma_written_reverse_tunnel_reads_back(r: TunnelView)
    requires
        r.local_protocol.is_reverse(),
        read_shape(forward_tunnel(r)),
        url_reads_back(forward_tunnel(r)),
    ensures
        reverse_tunnel_of_text(tunnel_text(r)) == Ok::<TunnelView, ErrorView>(r),
{
    lemma_reverse_written_alike(r);
    lemma_written_tunnel_reads_back(forward_tunnel(r));
}

/// A tunnel that was read from a text for the server side is read back, for the server
/// side, from the text that is written for it, where the URL parser reads the written
/// destination back.
pub proof fn lemma_reverse_tunnel_round_trip(arg: Seq<char>)
    requires
        reverse_tunnel_of_text(arg) is Ok,
        url_reads_back(forward_tunnel(reverse_tunnel_of_text(arg)->Ok_0)),
    ensures
        reverse_tunnel_of_text(tunnel_text(reverse_tunnel_of_text(arg)->Ok_0))
            == reverse_tunnel_of_text(arg),
{
    let r = reverse_tunnel_of_text(arg)->Ok_0;
    lemma_read_tunnel_shape(arg);
    lemma_written_reverse_tunnel_reads_back(r);
}

} // verus!
