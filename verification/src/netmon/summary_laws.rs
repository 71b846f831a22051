//! How a summary reads.

use vstd::prelude::*;

use crate::net::IpAddr;
use crate::netmon::fingerprint::PeerSourceMove;
use crate::netmon::summary;

verus! {

/// The number that a digit stands for.
pub open spec fn digit_value(c: char) -> int {
    if '0' <= c && c <= '9' {
        c as int - 48
    } else {
        c as int - 87
    }
}

/// The number that digits stand for in a base.
pub open spec fn numeral_value(digits: Seq<char>, base: int) -> int
    decreases digits.len(),
{
    if digits.len() == 0 {
        0
    } else {
        numeral_value(digits.drop_last(), base) * base + digit_value(digits.last())
    }
}

/// A number in base 10 is made of the digits 0 to 9, stands for that number,
/// and starts with 0 only if it is 0.
pub proof fn law_decimal_stands_for_its_number(n: nat)
    ensures
        summary::decimal(n).len() > 0,
        forall|i: int|
            0 <= i < summary::decimal(n).len() ==> '0' <= #[trigger] summary::decimal(n)[i]
                && summary::decimal(n)[i] <= '9',
        numeral_value(summary::decimal(n), 10) == n,
        n > 0 ==> summary::decimal(n)[0] != '0',
    decreases n,
{
    let s = summary::decimal(n);
    if n < 10 {
        assert(s.drop_last() =~= Seq::empty());
        assert(numeral_value(s.drop_last(), 10) == 0);
    } else {
        let front = summary::decimal(n / 10);
        law_decimal_stands_for_its_number(n / 10);
        assert(s.drop_last() =~= front);
        assert forall|i: int| 0 <= i < s.len() implies '0' <= #[trigger] s[i] && s[i] <= '9' by {
            if i < front.len() {
                assert(s[i] == front[i]);
            }
        }
        assert(s[0] == front[0]);
    }
}

/// A number in base 16 is made of the digits 0 to 9 and a to f, stands for
/// that number, and starts with 0 only if it is 0.
pub proof fn law_hexadecimal_stands_for_its_number(n: nat)
    ensures
        summary::hexadecimal(n).len() > 0,
        forall|i: int|
            0 <= i < summary::hexadecimal(n).len() ==> ('0' <= #[trigger] summary::hexadecimal(n)[i]
                && summary::hexadecimal(n)[i] <= '9') || ('a' <= summary::hexadecimal(n)[i]
                && summary::hexadecimal(n)[i] <= 'f'),
        numeral_value(summary::hexadecimal(n), 16) == n,
        n > 0 ==> summary::hexadecimal(n)[0] != '0',
    decreases n,
{
    let s = summary::hexadecimal(n);
    if n < 16 {
        assert(s.drop_last() =~= Seq::empty());
        assert(numeral_value(s.drop_last(), 16) == 0);
    } else {
        let front = summary::hexadecimal(n / 16);
        law_hexadecimal_stands_for_its_number(n / 16);
        assert(s.drop_last() =~= front);
        assert forall|i: int| 0 <= i < s.len() implies ('0' <= #[trigger] s[i] && s[i] <= '9') || (
        'a' <= s[i] && s[i] <= 'f') by {
            if i < front.len() {
                assert(s[i] == front[i]);
            }
        }
        assert(s[0] == front[0]);
    }
}

/// Bytes in base 16 take two digits each, which stand for the byte.
pub proof fn law_hex_bytes_stand_for_their_bytes(bytes: Seq<u8>, i: int)
    requires
        0 <= i < bytes.len(),
    ensures
        summary::hex_bytes(bytes).len() == 2 * bytes.len(),
        ({
            let high = summary::hex_bytes(bytes)[2 * i];
            let low = summary::hex_bytes(bytes)[2 * i + 1];
            &&& ('0' <= high && high <= '9') || ('a' <= high && high <= 'f')
            &&& ('0' <= low && low <= '9') || ('a' <= low && low <= 'f')
            &&& digit_value(high) * 16 + digit_value(low) == bytes[i]
        }),
    decreases bytes.len(),
{
    let front = bytes.drop_last();
    let n = bytes.len() - 1;
    let s = summary::hex_bytes(bytes);
    let f = summary::hex_bytes(front);
    lemma_hex_bytes_length(front);
    if i < n {
        law_hex_bytes_stand_for_their_bytes(front, i);
        assert(s[2 * i] == f[2 * i]);
        assert(s[2 * i + 1] == f[2 * i + 1]);
    } else {
        assert(s[2 * i] == summary::digit(bytes[i] as int / 16));
        assert(s[2 * i + 1] == summary::digit(bytes[i] as int % 16));
    }
}

/// Bytes in base 16 take two digits each.
proof fn lemma_hex_bytes_length(bytes: Seq<u8>)
    ensures
        summary::hex_bytes(bytes).len() == 2 * bytes.len(),
    decreases bytes.len(),
{
    if bytes.len() > 0 {
        lemma_hex_bytes_length(bytes.drop_last());
    }
}

/// An IPv4 address reads as its four bytes in base 10, dots between them.
pub proof fn law_ipv4_reads_as_its_four_bytes(a: u8, b: u8, c: u8, d: u8, n: u32)
    requires
        n == a * 0x100_0000 + b * 0x1_0000 + c * 0x100 + d,
    ensures
        summary::ip_text(IpAddr::V4(n)) == summary::decimal(a as nat) + "."@ + summary::decimal(
            b as nat,
        ) + "."@ + summary::decimal(c as nat) + "."@ + summary::decimal(d as nat),
{
    summary::law_dotted_form_is_the_four_bytes(a, b, c, d);
}

/// Groups read in base 16, with a colon between two.
pub proof fn law_groups_read_with_colons(groups: Seq<u16>, last: u16)
    ensures
        summary::colon_separated(Seq::empty()) == Seq::<char>::empty(),
        summary::colon_separated(seq![last]) == summary::hexadecimal(last as nat),
        groups.len() > 0 ==> summary::colon_separated(groups.push(last))
            == summary::colon_separated(groups) + ":"@ + summary::hexadecimal(last as nat),
{
    assert(groups.push(last).drop_last() =~= groups);
}

/// Whether `groups` are the eight groups of 16 bits that make up `n`.
pub open spec fn make_up(groups: Seq<u16>, n: u128) -> bool {
    &&& groups.len() == 8
    &&& n == groups[0] * 0x1_0000_0000_0000_0000_0000_0000_0000 + groups[1]
        * 0x1_0000_0000_0000_0000_0000_0000 + groups[2] * 0x1_0000_0000_0000_0000_0000 + groups[3]
        * 0x1_0000_0000_0000_0000 + groups[4] * 0x1_0000_0000_0000 + groups[5] * 0x1_0000_0000
        + groups[6] * 0x1_0000 + groups[7]
}

/// An address's groups are the ones that make it up.
proof fn lemma_groups(groups: Seq<u16>, n: u128)
    requires
        make_up(groups, n),
    ensures
        summary::groups(n) == groups,
{
    let (a, b, c, d) = (groups[0], groups[1], groups[2], groups[3]);
    let (e, f, g, h) = (groups[4], groups[5], groups[6], groups[7]);
    assert({
        &&& n / 0x1_0000_0000_0000_0000_0000_0000_0000 == a
        &&& n / 0x1_0000_0000_0000_0000_0000_0000 % 0x1_0000 == b
        &&& n / 0x1_0000_0000_0000_0000_0000 % 0x1_0000 == c
        &&& n / 0x1_0000_0000_0000_0000 % 0x1_0000 == d
        &&& n / 0x1_0000_0000_0000 % 0x1_0000 == e
        &&& n / 0x1_0000_0000 % 0x1_0000 == f
        &&& n / 0x1_0000 % 0x1_0000 == g
        &&& n % 0x1_0000 == h
    }) by (bit_vector)
        requires
            n == a * 0x1_0000_0000_0000_0000_0000_0000_0000 + b
                * 0x1_0000_0000_0000_0000_0000_0000 + c * 0x1_0000_0000_0000_0000_0000 + d
                * 0x1_0000_0000_0000_0000 + e * 0x1_0000_0000_0000 + f * 0x1_0000_0000 + g
                * 0x1_0000 + h,
    ;
    assert(summary::groups(n) =~= groups);
}

/// An IPv6 address without two zero groups in a row reads as all its groups.
pub proof fn law_ipv6_without_zeros_reads_in_full(groups: Seq<u16>, n: u128)
    requires
        make_up(groups, n),
        forall|i: int| 0 <= i < 7 ==> #[trigger] groups[i] != 0 || groups[i + 1] != 0,
    ensures
        summary::ip_text(IpAddr::V6(n)) == summary::colon_separated(groups),
{
    lemma_groups(groups, n);
    if n / 0x1_0000_0000 == 0xffff {
        assert(n / 0x1_0000_0000_0000_0000_0000_0000_0000 == 0);
        assert(n / 0x1_0000_0000_0000_0000_0000_0000 % 0x1_0000 == 0);
        assert(summary::groups(n)[0] == 0 && summary::groups(n)[1] == 0);
        assert(groups[0] == 0);
    }
    let end = summary::longest_zeros_end(groups, 8);
    lemma_longest_zeros(groups, 8);
    lemma_zeros_before(groups, end);
    if summary::zeros_before(groups, end) >= 2 {
        assert(groups[end - 2] == 0 && groups[end - 1] == 0);
    }
}

/// Of an IPv6 address the first longest row of at least two zero groups is
/// left out.
pub proof fn law_ipv6_leaves_out_the_first_longest_zeros(
    groups: Seq<u16>,
    n: u128,
    start: int,
    end: int,
)
    requires
        make_up(groups, n),
        !(0xffff_0000_0000 <= n && n <= 0xffff_ffff_ffff),
        0 <= start,
        start + 2 <= end <= 8,
        forall|i: int| start <= i < end ==> #[trigger] groups[i] == 0,
        forall|a: int, b: int|
            0 <= a <= b <= 8 && (forall|i: int| a <= i < b ==> #[trigger] groups[i] == 0)
                ==> #[trigger] is_no_better(a, b, start, end),
    ensures
        summary::ip_text(IpAddr::V6(n)) == summary::colon_separated(groups.subrange(0, start))
            + "::"@ + summary::colon_separated(groups.subrange(end, 8)),
{
    lemma_groups(groups, n);
    let found = summary::longest_zeros_end(groups, 8);
    let length = summary::zeros_before(groups, found) as int;
    lemma_longest_zeros(groups, 8);
    lemma_zeros_before(groups, found);
    lemma_zeros_before(groups, end);
    lemma_zeros_reach(groups, start, end);
    let at_end = summary::zeros_before(groups, end) as int;
    assert(is_no_better(end - at_end, end, start, end));
    assert(is_no_better(found - length, found, start, end));
    assert(at_end == end - start);
    assert(length == end - start);
    assert(found == end);
    assert(groups.take(end - length) =~= groups.subrange(0, start));
    assert(groups.skip(end) =~= groups.subrange(end, 8));
}

/// Whether the row from `a` up to `b` is shorter than the one from `start` up
/// to `end`, or as long and no earlier.
pub open spec fn is_no_better(a: int, b: int, start: int, end: int) -> bool {
    b - a < end - start || (b - a == end - start && start <= a)
}

/// An IPv4-mapped address ends in dotted form.
pub proof fn law_mapped_addresses_end_in_dotted_form(n: u32)
    ensures
        summary::ip_text(IpAddr::V6((0xffff_0000_0000 + n) as u128)) == "::ffff:"@
            + summary::ip_text(IpAddr::V4(n)),
{
    let mapped = (0xffff_0000_0000 + n) as u128;
    assert(mapped / 0x1_0000_0000 == 0xffff && mapped % 0x1_0000_0000 == n) by (bit_vector)
        requires
            mapped == 0xffff_0000_0000 + n,
    ;
}

/// The zeros counted before a place are zeros, and the group before them is
/// none.
proof fn lemma_zeros_before(groups: Seq<u16>, end: int)
    requires
        0 <= end <= groups.len(),
    ensures
        summary::zeros_before(groups, end) <= end,
        forall|i: int|
            end - summary::zeros_before(groups, end) <= i < end ==> #[trigger] groups[i] == 0,
    decreases end,
{
    if end > 0 && groups[end - 1] == 0 {
        lemma_zeros_before(groups, end - 1);
    }
}

/// A row of zeros up to a place is counted there.
proof fn lemma_zeros_reach(groups: Seq<u16>, start: int, end: int)
    requires
        0 <= start <= end <= groups.len(),
        forall|i: int| start <= i < end ==> #[trigger] groups[i] == 0,
    ensures
        summary::zeros_before(groups, end) >= end - start,
    decreases end - start,
{
    if start < end {
        assert(groups[end - 1] == 0);
        lemma_zeros_reach(groups, start, end - 1);
    }
}

/// The longest row found is the first of the longest.
proof fn lemma_longest_zeros(groups: Seq<u16>, n: int)
    requires
        0 <= n <= groups.len(),
    ensures
        0 <= summary::longest_zeros_end(groups, n) <= n,
        forall|m: int|
            0 <= m <= n ==> #[trigger] summary::zeros_before(groups, m) <= summary::zeros_before(
                groups,
                summary::longest_zeros_end(groups, n),
            ),
        forall|m: int|
            0 <= m < summary::longest_zeros_end(groups, n) ==> #[trigger] summary::zeros_before(
                groups,
                m,
            ) < summary::zeros_before(groups, summary::longest_zeros_end(groups, n)),
    decreases n,
{
    if n > 0 {
        lemma_longest_zeros(groups, n - 1);
    }
}

/// A move reads as the first four bytes of the peer and where it is reached
/// from now.
pub proof fn law_moves_read_as_peer_and_source(m: PeerSourceMove)
    ensures
        summary::move_text(m) == summary::hex_bytes(m.peer.bytes().subrange(0, 4)) + " -> "@
            + match m.after {
            Some(ip) => summary::ip_text(ip),
            None => "no route"@,
        },
{
    crate::net::NodeAddr::law_bytes_identify(m.peer, m.peer);
    assert(m.peer.bytes().take(4) =~= m.peer.bytes().subrange(0, 4));
}

/// Moves read one after the other, a comma and a space between two.
pub proof fn law_moves_read_with_commas(moved: Seq<PeerSourceMove>, last: PeerSourceMove)
    ensures
        summary::moves_text(seq![last]) == summary::move_text(last),
        moved.len() > 0 ==> summary::moves_text(moved.push(last)) == summary::moves_text(moved)
            + ", "@ + summary::move_text(last),
{
    assert(moved.push(last).drop_last() =~= moved);
}

/// A summary counts the peers that moved and the peers looked at, names the
/// first three, and counts the rest.
pub proof fn law_summaries_count_and_name(moved: Seq<PeerSourceMove>, probed: nat)
    ensures
        moved.len() == 0 ==> summary::summary_text(moved, probed) == "no visible difference"@,
        0 < moved.len() <= 3 ==> summary::summary_text(moved, probed) == summary::decimal(
            moved.len(),
        ) + "/"@ + summary::decimal(probed) + " peers: "@ + summary::moves_text(moved),
        moved.len() > 3 ==> summary::summary_text(moved, probed) == summary::decimal(moved.len())
            + "/"@ + summary::decimal(probed) + " peers: "@ + summary::moves_text(
            moved.subrange(0, 3),
        ) + ", +"@ + summary::decimal((moved.len() - 3) as nat) + " more"@,
{
    if moved.len() > 3 {
        assert(moved.take(3) =~= moved.subrange(0, 3));
    }
}

} // verus!
