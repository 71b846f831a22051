//! A medium change, put into words.

use vstd::prelude::*;

use crate::net::{IpAddr, NodeAddr};
use crate::netmon::fingerprint::PeerSourceMove;

verus! {

/// How many peers a summary names before it only counts them.
pub const NAMED_PEERS: usize = 3;

/// The digit for a number below 16.
pub open spec fn digit(n: int) -> char {
    if n < 10 {
        ('0' as int + n) as char
    } else {
        ('a' as int + n - 10) as char
    }
}

/// A number in base 10.
pub open spec fn decimal(n: nat) -> Seq<char>
    decreases n,
{
    if n < 10 {
        seq![digit(n as int)]
    } else {
        decimal(n / 10).push(digit((n % 10) as int))
    }
}

/// A number in base 16.
pub open spec fn hexadecimal(n: nat) -> Seq<char>
    decreases n,
{
    if n < 16 {
        seq![digit(n as int)]
    } else {
        hexadecimal(n / 16).push(digit((n % 16) as int))
    }
}

/// Bytes in base 16, two digits each.
pub open spec fn hex_bytes(bytes: Seq<u8>) -> Seq<char>
    decreases bytes.len(),
{
    if bytes.len() == 0 {
        Seq::empty()
    } else {
        hex_bytes(bytes.drop_last()) + seq![
            digit(bytes.last() as int / 16),
            digit(bytes.last() as int % 16),
        ]
    }
}

/// An IPv4 address in dotted form.
pub open spec fn dotted(n: u32) -> Seq<char> {
    decimal((n / 0x100_0000) as nat) + "."@ + decimal((n / 0x1_0000 % 0x100) as nat) + "."@
        + decimal((n / 0x100 % 0x100) as nat) + "."@ + decimal((n % 0x100) as nat)
}

/// The eight 16-bit groups of an IPv6 address.
pub open spec fn groups(n: u128) -> Seq<u16> {
    seq![
        (n / 0x1_0000_0000_0000_0000_0000_0000_0000) as u16,
        (n / 0x1_0000_0000_0000_0000_0000_0000 % 0x1_0000) as u16,
        (n / 0x1_0000_0000_0000_0000_0000 % 0x1_0000) as u16,
        (n / 0x1_0000_0000_0000_0000 % 0x1_0000) as u16,
        (n / 0x1_0000_0000_0000 % 0x1_0000) as u16,
        (n / 0x1_0000_0000 % 0x1_0000) as u16,
        (n / 0x1_0000 % 0x1_0000) as u16,
        (n % 0x1_0000) as u16,
    ]
}

/// Groups in base 16, colons between them.
pub open spec fn colon_separated(groups: Seq<u16>) -> Seq<char>
    decreases groups.len(),
{
    if groups.len() == 0 {
        Seq::empty()
    } else if groups.len() == 1 {
        hexadecimal(groups[0] as nat)
    } else {
        colon_separated(groups.drop_last()) + ":"@ + hexadecimal(groups.last() as nat)
    }
}

/// How many zeros in a row end just before `end`.
pub open spec fn zeros_before(groups: Seq<u16>, end: int) -> nat
    decreases end,
{
    if end <= 0 || groups[end - 1] != 0 {
        0
    } else {
        1 + zeros_before(groups, end - 1)
    }
}

/// Where the longest row of zeros among the first `n` groups ends. Of several
/// equally long it is the first.
pub open spec fn longest_zeros_end(groups: Seq<u16>, n: int) -> int
    decreases n,
{
    if n <= 0 {
        0
    } else {
        let end = longest_zeros_end(groups, n - 1);
        if zeros_before(groups, n) > zeros_before(groups, end) {
            n
        } else {
            end
        }
    }
}

/// An IPv6 address in its canonical form: the first longest row of at least
/// two zero groups is left out, and an IPv4-mapped address ends in dotted
/// form.
pub open spec fn ipv6_text(n: u128) -> Seq<char> {
    if n / 0x1_0000_0000 == 0xffff {
        "::ffff:"@ + dotted((n % 0x1_0000_0000) as u32)
    } else {
        let all = groups(n);
        let end = longest_zeros_end(all, 8);
        let length = zeros_before(all, end);
        if length >= 2 {
            colon_separated(all.take(end - length)) + "::"@ + colon_separated(all.skip(end))
        } else {
            colon_separated(all)
        }
    }
}

/// An address in its usual form.
pub open spec fn ip_text(ip: IpAddr) -> Seq<char> {
    match ip {
        IpAddr::V4(n) => dotted(n),
        IpAddr::V6(n) => ipv6_text(n),
    }
}

/// One move: the first four bytes of the peer, and where it is reached from.
pub open spec fn move_text(m: PeerSourceMove) -> Seq<char> {
    hex_bytes(m.peer.bytes().take(4)) + " -> "@ + match m.after {
        Some(ip) => ip_text(ip),
        None => "no route"@,
    }
}

/// The moves, commas between them.
pub open spec fn moves_text(moved: Seq<PeerSourceMove>) -> Seq<char>
    decreases moved.len(),
{
    if moved.len() == 0 {
        Seq::empty()
    } else if moved.len() == 1 {
        move_text(moved[0])
    } else {
        moves_text(moved.drop_last()) + ", "@ + move_text(moved.last())
    }
}

/// What a change amounts to: which of how many peers moved where. No more than
/// [`NAMED_PEERS`] are named.
pub open spec fn summary_text(moved: Seq<PeerSourceMove>, probed: nat) -> Seq<char> {
    if moved.len() == 0 {
        "no visible difference"@
    } else {
        let head = decimal(moved.len()) + "/"@ + decimal(probed) + " peers: "@;
        if moved.len() <= NAMED_PEERS {
            head + moves_text(moved)
        } else {
            head + moves_text(moved.take(NAMED_PEERS as int)) + ", +"@ + decimal(
                (moved.len() - NAMED_PEERS) as nat,
            ) + " more"@
        }
    }
}

/// What changed between two fingerprints.
#[derive(Debug, PartialEq, Eq)]
pub struct NetChangeSummary {
    /// The peers that moved.
    pub moved: Vec<PeerSourceMove>,
    /// How many peers were looked at.
    pub probed: usize,
}

/// The digit for a number below 16.
fn digit_of(n: u8) -> (c: char)
    requires
        n < 16,
    ensures
        c == digit(n as int),
{
    if n < 10 {
        (48 + n) as char
    } else {
        (87 + n) as char
    }
}

/// Appends a number in base 10.
fn push_decimal(text: &mut String, n: u64)
    ensures
        final(text)@ == old(text)@ + decimal(n as nat),
    decreases n,
{
    if n >= 10 {
        push_decimal(text, n / 10);
    }
    text.push(digit_of((n % 10) as u8));
    assert(text@ =~= old(text)@ + decimal(n as nat));
}

/// Appends a number in base 16.
fn push_hexadecimal(text: &mut String, n: u16)
    ensures
        final(text)@ == old(text)@ + hexadecimal(n as nat),
    decreases n,
{
    if n >= 16 {
        push_hexadecimal(text, n / 16);
    }
    text.push(digit_of((n % 16) as u8));
    assert(text@ =~= old(text)@ + hexadecimal(n as nat));
}

/// Appends an IPv4 address in dotted form.
fn push_dotted(text: &mut String, n: u32)
    ensures
        final(text)@ == old(text)@ + dotted(n),
{
    push_decimal(text, (n / 0x100_0000) as u64);
    text.append(".");
    push_decimal(text, (n / 0x1_0000 % 0x100) as u64);
    text.append(".");
    push_decimal(text, (n / 0x100 % 0x100) as u64);
    text.append(".");
    push_decimal(text, (n % 0x100) as u64);
    assert(text@ =~= old(text)@ + dotted(n));
}

/// The eight 16-bit groups of an IPv6 address.
fn groups_of(n: u128) -> (all: Vec<u16>)
    ensures
        all@ == groups(n),
{
    let mut all: Vec<u16> = Vec::new();
    all.push((n / 0x1_0000_0000_0000_0000_0000_0000_0000) as u16);
    all.push((n / 0x1_0000_0000_0000_0000_0000_0000 % 0x1_0000) as u16);
    all.push((n / 0x1_0000_0000_0000_0000_0000 % 0x1_0000) as u16);
    all.push((n / 0x1_0000_0000_0000_0000 % 0x1_0000) as u16);
    all.push((n / 0x1_0000_0000_0000 % 0x1_0000) as u16);
    all.push((n / 0x1_0000_0000 % 0x1_0000) as u16);
    all.push((n / 0x1_0000 % 0x1_0000) as u16);
    all.push((n % 0x1_0000) as u16);
    assert(all@ =~= groups(n));
    all
}

/// Appends the groups from `from` up to `to`, colons between them.
fn push_groups(text: &mut String, groups: &Vec<u16>, from: usize, to: usize)
    requires
        from <= to <= groups@.len(),
    ensures
        final(text)@ == old(text)@ + colon_separated(groups@.subrange(from as int, to as int)),
{
    let mut i: usize = from;
    assert(text@ =~= old(text)@ + colon_separated(groups@.subrange(from as int, from as int)));
    while i < to
        invariant
            from <= i <= to <= groups@.len(),
            text@ == old(text)@ + colon_separated(groups@.subrange(from as int, i as int)),
        decreases to - i,
    {
        assert(groups@.subrange(from as int, i + 1).drop_last() =~= groups@.subrange(
            from as int,
            i as int,
        ));
        if i > from {
            text.append(":");
        }
        push_hexadecimal(text, groups[i]);
        i += 1;
        assert(text@ =~= old(text)@ + colon_separated(groups@.subrange(from as int, i as int)));
    }
}

/// Appends an IPv6 address in its canonical form.
fn push_ipv6(text: &mut String, n: u128)
    ensures
        final(text)@ == old(text)@ + ipv6_text(n),
{
    if n / 0x1_0000_0000 == 0xffff {
        text.append("::ffff:");
        push_dotted(text, (n % 0x1_0000_0000) as u32);
        assert(text@ =~= old(text)@ + ipv6_text(n));
        return;
    }
    let all = groups_of(n);
    let mut run: usize = 0;
    let mut end: usize = 0;
    let mut length: usize = 0;
    let mut i: usize = 0;
    while i < 8
        invariant
            i <= 8,
            all@ == groups(n),
            all@.len() == 8,
            run <= i,
            run == zeros_before(all@, i as int),
            end <= i,
            end == longest_zeros_end(all@, i as int),
            length <= end,
            length == zeros_before(all@, end as int),
        decreases 8 - i,
    {
        if all[i] == 0 {
            run += 1;
        } else {
            run = 0;
        }
        i += 1;
        if run > length {
            end = i;
            length = run;
        }
    }
    if length >= 2 {
        push_groups(text, &all, 0, end - length);
        text.append("::");
        push_groups(text, &all, end, 8);
        proof {
            assert(all@.take(end - length) =~= all@.subrange(0, end - length));
            assert(all@.skip(end as int) =~= all@.subrange(end as int, 8));
        }
    } else {
        push_groups(text, &all, 0, 8);
        assert(all@.subrange(0, 8) =~= all@);
    }
    assert(text@ =~= old(text)@ + ipv6_text(n));
}

/// Appends an address in its usual form.
fn push_ip(text: &mut String, ip: IpAddr)
    ensures
        final(text)@ == old(text)@ + ip_text(ip),
{
    match ip {
        IpAddr::V4(n) => push_dotted(text, n),
        IpAddr::V6(n) => push_ipv6(text, n),
    }
}

/// Appends the first four bytes of a peer's address in base 16.
fn push_peer(text: &mut String, peer: NodeAddr)
    ensures
        final(text)@ == old(text)@ + hex_bytes(peer.bytes().take(4)),
{
    let bytes = peer.to_bytes();
    let ghost shown = bytes@.take(4);
    let mut i: usize = 0;
    assert(text@ =~= old(text)@ + hex_bytes(shown.take(0)));
    while i < 4
        invariant
            i <= 4,
            bytes@.len() == 16,
            shown == bytes@.take(4),
            text@ == old(text)@ + hex_bytes(shown.take(i as int)),
        decreases 4 - i,
    {
        text.push(digit_of(bytes[i] / 16));
        text.push(digit_of(bytes[i] % 16));
        assert(shown.take(i + 1).drop_last() =~= shown.take(i as int));
        i += 1;
        assert(text@ =~= old(text)@ + hex_bytes(shown.take(i as int)));
    }
    assert(shown.take(4) =~= shown);
}

/// Appends one move.
fn push_move(text: &mut String, m: &PeerSourceMove)
    ensures
        final(text)@ == old(text)@ + move_text(*m),
{
    push_peer(text, m.peer);
    text.append(" -> ");
    match m.after {
        Some(ip) => push_ip(text, ip),
        None => text.append("no route"),
    }
    assert(text@ =~= old(text)@ + move_text(*m));
}

impl NetChangeSummary {
    /// The summary of the given moves.
    pub open spec fn text(&self) -> Seq<char> {
        summary_text(self.moved@, self.probed as nat)
    }

    /// Puts the summary into words.
    pub fn to_string(&self) -> (text: String)
        ensures
            text@ == self.text(),
    {
        let mut text = String::new();
        if self.moved.len() == 0 {
            text.append("no visible difference");
            assert(text@ =~= self.text());
            return text;
        }
        push_decimal(&mut text, self.moved.len() as u64);
        text.append("/");
        push_decimal(&mut text, self.probed as u64);
        text.append(" peers: ");
        let ghost head = text@;
        let shown: usize = if self.moved.len() <= NAMED_PEERS {
            self.moved.len()
        } else {
            NAMED_PEERS
        };
        let mut i: usize = 0;
        assert(text@ =~= head + moves_text(self.moved@.take(0)));
        while i < shown
            invariant
                i <= shown <= self.moved@.len(),
                text@ == head + moves_text(self.moved@.take(i as int)),
            decreases shown - i,
        {
            assert(self.moved@.take(i + 1).drop_last() =~= self.moved@.take(i as int));
            if i > 0 {
                text.append(", ");
            }
            push_move(&mut text, &self.moved[i]);
            i += 1;
            assert(text@ =~= head + moves_text(self.moved@.take(i as int)));
        }
        if shown < self.moved.len() {
            text.append(", +");
            push_decimal(&mut text, (self.moved.len() - shown) as u64);
            text.append(" more");
        } else {
            assert(self.moved@.take(shown as int) =~= self.moved@);
        }
        assert(text@ =~= self.text());
        text
    }
}

/// The address `a.b.c.d` reads `a.b.c.d`.
pub proof fn law_dotted_form_is_the_four_bytes(a: u8, b: u8, c: u8, d: u8)
    ensures
        ip_text(IpAddr::v4(a, b, c, d)) == decimal(a as nat) + "."@ + decimal(b as nat) + "."@
            + decimal(c as nat) + "."@ + decimal(d as nat),
{
    let n = (a * 0x100_0000 + b * 0x1_0000 + c * 0x100 + d) as u32;
    assert(n / 0x100_0000 == a && n / 0x1_0000 % 0x100 == b && n / 0x100 % 0x100 == c && n % 0x100
        == d) by (bit_vector)
        requires
            n == a * 0x100_0000 + b * 0x1_0000 + c * 0x100 + d,
    ;
}

} // verus!
