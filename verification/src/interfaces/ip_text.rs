//! The text of an IP address, as `Display` writes `Ipv4Addr` and `Ipv6Addr`: dotted decimal
//! octets, and colon-separated lowercase hex groups with the longest run of zero groups shortened
//! to `::` (RFC 5952), IPv4-mapped addresses as `::ffff:` and the dotted IPv4 address.

use vstd::prelude::*;

use crate::interfaces::types::IpAddress;
use crate::text::{decimal_chars, decimal_spec, push_chars};

verus! {

/// The lowercase hex digit of a value below sixteen.
pub open spec fn hex_digit_char(n: int) -> char {
    if n < 10 {
        (n + 48) as char
    } else {
        (n + 87) as char
    }
}

/// The lowercase hex representation of `n`, without leading zeros (`{:x}`).
pub open spec fn hex_spec(n: nat) -> Seq<char>
    decreases n,
{
    if n < 16 {
        seq![hex_digit_char(n as int)]
    } else {
        hex_spec(n / 16).push(hex_digit_char((n % 16) as int))
    }
}

/// Writes `n` in lowercase hex.
pub fn hex_chars(n: u16) -> (v: Vec<char>)
    ensures
        v@ == hex_spec(n as nat),
    decreases n,
{
    let d = n % 16;
    let c = if d < 10 {
        ((d as u32) + 48) as u8 as char
    } else {
        ((d as u32) + 87) as u8 as char
    };
    if n < 16 {
        let mut v = Vec::new();
        v.push(c);
        assert(v@ =~= seq![hex_digit_char(n as int)]);
        v
    } else {
        let mut v = hex_chars(n / 16);
        v.push(c);
        v
    }
}

/// The octet `k` (0 to 3, most significant first) of an IPv4 address.
pub open spec fn octet(v: u32, k: int) -> nat {
    if k == 0 {
        (v / 0x100_0000) as nat
    } else if k == 1 {
        ((v / 0x1_0000) % 256) as nat
    } else if k == 2 {
        ((v / 0x100) % 256) as nat
    } else {
        (v % 256) as nat
    }
}

/// The dotted decimal text of an IPv4 address.
pub open spec fn ipv4_text(v: u32) -> Seq<char> {
    decimal_spec(octet(v, 0)) + seq!['.'] + decimal_spec(octet(v, 1)) + seq!['.'] + decimal_spec(
        octet(v, 2),
    ) + seq!['.'] + decimal_spec(octet(v, 3))
}

/// Appends the dotted decimal text of an IPv4 address.
fn push_ipv4(s: &mut String, v: u32)
    ensures
        final(s)@ == old(s)@ + ipv4_text(v),
{
    let o0 = decimal_chars((v / 0x100_0000) as u64);
    let o1 = decimal_chars(((v / 0x1_0000) % 256) as u64);
    let o2 = decimal_chars(((v / 0x100) % 256) as u64);
    let o3 = decimal_chars((v % 256) as u64);
    let dot = ['.'];
    push_chars(s, o0.as_slice());
    push_chars(s, dot.as_slice());
    push_chars(s, o1.as_slice());
    push_chars(s, dot.as_slice());
    push_chars(s, o2.as_slice());
    push_chars(s, dot.as_slice());
    push_chars(s, o3.as_slice());
    assert(dot@ =~= seq!['.']);
    assert(s@ =~= old(s)@ + ipv4_text(v));
}

/// What the group `k` (0 to 7, most significant first) of an IPv6 address is divided by.
pub open spec fn group_divisor(k: int) -> u128 {
    if k == 0 {
        0x1_0000_0000_0000_0000_0000_0000_0000
    } else if k == 1 {
        0x1_0000_0000_0000_0000_0000_0000
    } else if k == 2 {
        0x1_0000_0000_0000_0000_0000
    } else if k == 3 {
        0x1_0000_0000_0000_0000
    } else if k == 4 {
        0x1_0000_0000_0000
    } else if k == 5 {
        0x1_0000_0000
    } else if k == 6 {
        0x1_0000
    } else {
        1
    }
}

/// The eight 16-bit groups of an IPv6 address, most significant first (`Ipv6Addr::segments`).
pub open spec fn groups(v: u128) -> Seq<nat> {
    Seq::new(8, |k: int| ((v / group_divisor(k)) % 0x1_0000) as nat)
}

/// The longest run of zero groups, as its start and length, scanning from `i` with the current
/// run and the longest so far; the first of equally long runs is kept.
pub open spec fn zero_run_from(g: Seq<nat>, i: int, cur_start: int, cur_len: int, best_start: int, best_len: int) -> (int, int)
    decreases g.len() - i,
{
    if i < 0 || i >= g.len() {
        (best_start, best_len)
    } else if g[i] == 0 {
        let cs = if cur_len == 0 { i } else { cur_start };
        let cl = cur_len + 1;
        if cl > best_len {
            zero_run_from(g, i + 1, cs, cl, cs, cl)
        } else {
            zero_run_from(g, i + 1, cs, cl, best_start, best_len)
        }
    } else {
        zero_run_from(g, i + 1, 0, 0, best_start, best_len)
    }
}

/// The longest run of zero groups, as its start and length.
pub open spec fn zero_run(g: Seq<nat>) -> (int, int) {
    zero_run_from(g, 0, 0, 0, 0, 0)
}

/// Groups in hex, separated by colons.
pub open spec fn groups_text(g: Seq<nat>) -> Seq<char>
    decreases g.len(),
{
    if g.len() == 0 {
        Seq::empty()
    } else if g.len() == 1 {
        hex_spec(g[0])
    } else {
        groups_text(g.drop_last()) + seq![':'] + hex_spec(g.last())
    }
}

/// The text of an IPv6 address: an IPv4-mapped address as `::ffff:` and its IPv4 text; else the
/// groups in hex with the longest run of two or more zero groups written as `::`.
pub open spec fn ipv6_text(v: u128) -> Seq<char> {
    if v / 0x1_0000_0000 == 0xffff {
        seq![':', ':', 'f', 'f', 'f', 'f', ':'] + ipv4_text((v % 0x1_0000_0000) as u32)
    } else {
        let g = groups(v);
        let (start, len) = zero_run(g);
        if len > 1 {
            groups_text(g.take(start)) + seq![':', ':'] + groups_text(g.skip(start + len))
        } else {
            groups_text(g)
        }
    }
}

/// The text of an IP address, as `IpAddr`'s `Display` writes it.
pub open spec fn ip_text(a: IpAddress) -> Seq<char> {
    match a {
        IpAddress::V4(v) => ipv4_text(v),
        IpAddress::V6(v) => ipv6_text(v),
    }
}

/// Reads the eight groups of an IPv6 address.
fn groups_of(v: u128) -> (r: Vec<u16>)
    ensures
        r@.len() == 8,
        forall|k: int| 0 <= k < 8 ==> r@[k] as nat == #[trigger] groups(v)[k],
{
    let divisors: [u128; 8] = [
        0x1_0000_0000_0000_0000_0000_0000_0000,
        0x1_0000_0000_0000_0000_0000_0000,
        0x1_0000_0000_0000_0000_0000,
        0x1_0000_0000_0000_0000,
        0x1_0000_0000_0000,
        0x1_0000_0000,
        0x1_0000,
        1,
    ];
    let mut r: Vec<u16> = Vec::new();
    let mut k: usize = 0;
    while k < 8
        invariant
            k <= 8,
            r@.len() == k,
            forall|j: int| 0 <= j < 8 ==> divisors@[j] == group_divisor(j),
            forall|j: int| 0 <= j < k ==> r@[j] as nat == #[trigger] groups(v)[j],
        decreases 8 - k,
    {
        let d = divisors[k];
        assert(d == group_divisor(k as int));
        assert(d > 0);
        r.push(((v / d) % 0x1_0000) as u16);
        k = k + 1;
    }
    r
}

/// Finds the longest run of zero groups.
fn zero_run_of(g: &Vec<u16>) -> (r: (usize, usize))
    requires
        g@.len() == 8,
    ensures
        r.0 as int == zero_run(g@.map_values(|x: u16| x as nat)).0,
        r.1 as int == zero_run(g@.map_values(|x: u16| x as nat)).1,
        r.0 + r.1 <= 8,
{
    let ghost gs = g@.map_values(|x: u16| x as nat);
    let mut cur_start: usize = 0;
    let mut cur_len: usize = 0;
    let mut best_start: usize = 0;
    let mut best_len: usize = 0;
    let mut i: usize = 0;
    while i < 8
        invariant
            i <= 8,
            gs == g@.map_values(|x: u16| x as nat),
            g@.len() == 8,
            cur_start + cur_len == i || cur_len == 0,
            best_start + best_len <= i,
            cur_len <= i,
            zero_run(gs) == zero_run_from(gs, i as int, cur_start as int, cur_len as int, best_start as int, best_len as int),
        decreases 8 - i,
    {
        if g[i] == 0 {
            if cur_len == 0 {
                cur_start = i;
            }
            cur_len = cur_len + 1;
            if cur_len > best_len {
                best_start = cur_start;
                best_len = cur_len;
            }
        } else {
            cur_start = 0;
            cur_len = 0;
        }
        i = i + 1;
    }
    (best_start, best_len)
}

/// Appends groups in hex, separated by colons.
fn push_groups(s: &mut String, g: &[u16])
    ensures
        final(s)@ == old(s)@ + groups_text(g@.map_values(|x: u16| x as nat)),
{
    let ghost gs = g@.map_values(|x: u16| x as nat);
    let mut i: usize = 0;
    while i < g.len()
        invariant
            i <= g@.len(),
            gs == g@.map_values(|x: u16| x as nat),
            s@ == old(s)@ + groups_text(gs.take(i as int)),
        decreases g@.len() - i,
    {
        let h = hex_chars(g[i]);
        proof {
            assert(gs.take(i + 1).drop_last() =~= gs.take(i as int));
            assert(gs.take(i + 1).last() == g@[i as int] as nat);
        }
        if i > 0 {
            let colon = [':'];
            push_chars(s, colon.as_slice());
            assert(colon@ =~= seq![':']);
        } else {
            assert(gs.take(0) =~= Seq::<nat>::empty());
        }
        push_chars(s, h.as_slice());
        proof {
            if i > 0 {
                assert(groups_text(gs.take(i + 1)) == groups_text(gs.take(i as int)) + seq![':'] + hex_spec(g@[i as int] as nat));
            } else {
                assert(gs.take(1).len() == 1);
                assert(groups_text(gs.take(1)) == hex_spec(gs.take(1)[0]));
            }
            assert(s@ =~= old(s)@ + groups_text(gs.take(i + 1)));
        }
        i = i + 1;
    }
    assert(gs.take(g@.len() as int) =~= gs);
}

/// Appends the text of an IP address, as `IpAddr`'s `Display` writes it.
pub fn push_ip(s: &mut String, a: IpAddress)
    ensures
        final(s)@ == old(s)@ + ip_text(a),
{
    match a {
        IpAddress::V4(v) => push_ipv4(s, v),
        IpAddress::V6(v) => {
            if v / 0x1_0000_0000 == 0xffff {
                let prefix = [':', ':', 'f', 'f', 'f', 'f', ':'];
                push_chars(s, prefix.as_slice());
                assert(prefix@ =~= seq![':', ':', 'f', 'f', 'f', 'f', ':']);
                push_ipv4(s, (v % 0x1_0000_0000) as u32);
                assert(s@ =~= old(s)@ + ip_text(a));
            } else {
                let g = groups_of(v);
                let ghost gs = g@.map_values(|x: u16| x as nat);
                assert(gs =~= groups(v));
                let (start, len) = zero_run_of(&g);
                if len > 1 {
                    let head = &g.as_slice()[0..start];
                    let tail = &g.as_slice()[start + len..8];
                    assert(head@.map_values(|x: u16| x as nat) =~= gs.take(start as int));
                    assert(tail@.map_values(|x: u16| x as nat) =~= gs.skip((start + len) as int));
                    push_groups(s, head);
                    let sep = [':', ':'];
                    push_chars(s, sep.as_slice());
                    assert(sep@ =~= seq![':', ':']);
                    push_groups(s, tail);
                    assert(s@ =~= old(s)@ + ip_text(a));
                } else {
                    let all = g.as_slice();
                    assert(all@ =~= g@);
                    push_groups(s, all);
                    assert(s@ =~= old(s)@ + ip_text(a));
                }
            }
        },
    }
}

/// The text of an IP address, as `IpAddr`'s `Display` writes it.
pub fn ip_string(a: IpAddress) -> (r: String)
    ensures
        r@ == ip_text(a),
{
    let mut s = String::new();
    push_ip(&mut s, a);
    assert(s@ =~= ip_text(a));
    s
}

} // verus!
