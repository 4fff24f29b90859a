//! Parsing command-line and panel inputs: durations, IPv4 hosts, bandwidths, sizes and
//! stream counts.

use vstd::prelude::*;

use crate::text::{
    all_digits, chars_of, is_digit_spec, concat3, decimal_spec, decimal_value, parse_unsigned,
    parse_unsigned_spec, split_chars, split_spec, str_eq, trim_chars, trim_spec,
};
use crate::unicode::{
    all_ascii, ascii_upper, find_alphabetic, first_alphabetic, first_ascii_letter, lemma_ascii_subrange,
    to_uppercase, uppercase,
};
use crate::text::{trim_end_spec, trim_start_spec};

verus! {

/// What `humantime::parse_duration` gives for a string: the duration as whole seconds and
/// sub-second nanoseconds, or the text of its error.
pub uninterp spec fn humantime_duration(s: Seq<char>) -> Result<(u64, u32), Seq<char>>;

/// A span of time: whole seconds and nanoseconds below one second.
#[derive(Debug, Clone, Copy, PartialEq, Eq, Structural)]
pub struct TimeSpan {
    pub secs: u64,
    pub nanos: u32,
}

/// The largest total of a duration text's numbers (see `duration_total`) handed to humantime:
/// the largest `B` with `B * 31_557_601 < u64::MAX`.
pub const MAX_DURATION_TOTAL: u64 = 584_542_027_567;

/// Whether a character ends a number in a duration text as humantime reads it: an ASCII letter
/// or `µ` (a unit begins) or `.` (a fraction begins).
pub open spec fn ends_number(c: char) -> bool {
    (65 <= (c as u32) <= 90) || (97 <= (c as u32) <= 122) || (c as u32) == 0xB5 || c == '.'
}

/// The total of the numbers of `s` from index `i` on, `cur` being the number being read and
/// `tot` the total of those before it. Digits extend the number; a character that ends a number
/// adds it to the total; any other character (white space, which humantime skips inside a
/// number, or a character it refuses) is passed over.
pub open spec fn duration_total_from(s: Seq<char>, i: int, cur: nat, tot: nat) -> nat
    decreases s.len() - i,
{
    if i < 0 || i >= s.len() {
        tot + cur
    } else if is_digit_spec(s[i]) {
        duration_total_from(s, i + 1, cur * 10 + ((s[i] as u32) - 48) as nat, tot)
    } else if ends_number(s[i]) {
        duration_total_from(s, i + 1, 0, tot + cur)
    } else {
        duration_total_from(s, i + 1, cur, tot)
    }
}

/// The total of the numbers in a duration text: every integer part and every fraction's digits,
/// each read as a decimal number. Each number adds at most its value times 31_557_601 seconds to
/// what humantime computes (a year is 31_557_600 seconds, and a carry of nanoseconds adds at
/// most one second more).
pub open spec fn duration_total(s: Seq<char>) -> nat {
    duration_total_from(s, 0, 0, 0)
}

/// Whether a duration text can be handed to humantime. humantime panics only when the seconds it
/// has added up reach exactly `u64::MAX` and a carry of nanoseconds follows; with a total of at
/// most `MAX_DURATION_TOTAL` the seconds stay below `u64::MAX`. Texts whose numbers add up to
/// more are refused though humantime may read them, such as `600000000000s` (about 19_000
/// years); zero-padded numbers and any number of small terms pass.
pub open spec fn duration_text_ok(s: Seq<char>) -> bool {
    duration_total(s) <= MAX_DURATION_TOTAL
}

/// The total only grows as the text is read.
proof fn lemma_duration_total_grows(s: Seq<char>, i: int, cur: nat, tot: nat)
    ensures
        duration_total_from(s, i, cur, tot) >= tot + cur,
    decreases s.len() - i,
{
    if 0 <= i < s.len() {
        if is_digit_spec(s[i]) {
            lemma_duration_total_grows(s, i + 1, cur * 10 + ((s[i] as u32) - 48) as nat, tot);
        } else if ends_number(s[i]) {
            lemma_duration_total_grows(s, i + 1, 0, tot + cur);
        } else {
            lemma_duration_total_grows(s, i + 1, cur, tot);
        }
    }
}

/// Whether a duration text's numbers add up to at most `MAX_DURATION_TOTAL`.
pub fn duration_text_fits(s: &str) -> (r: bool)
    ensures
        r == duration_text_ok(s@),
{
    let cs = chars_of(s);
    let mut cur: u64 = 0;
    let mut tot: u64 = 0;
    let mut i: usize = 0;
    while i < cs.len()
        invariant
            cs@ == s@,
            i <= cs@.len(),
            tot + cur <= MAX_DURATION_TOTAL,
            duration_total(s@) == duration_total_from(cs@, i as int, cur as nat, tot as nat),
        decreases cs@.len() - i,
    {
        let c = cs[i];
        let code = c as u32;
        if 48 <= code && code <= 57 {
            cur = cur * 10 + (code - 48) as u64;
        } else if (65 <= code && code <= 90) || (97 <= code && code <= 122) || code == 0xB5 || c == '.' {
            tot = tot + cur;
            cur = 0;
        }
        i = i + 1;
        if tot + cur > MAX_DURATION_TOTAL {
            proof {
                lemma_duration_total_grows(cs@, i as int, cur as nat, tot as nat);
            }
            return false;
        }
    }
    true
}

/// Calls `humantime::parse_duration`, handing back the duration's seconds and sub-second
/// nanoseconds, or its error's `Display` text. The contract ties the result to the string
/// through the name `humantime_duration`, and states that sub-second nanoseconds stay below
/// one second, as `Duration` keeps them; humantime's grammar is not stated. humantime carries
/// nanoseconds into seconds only above one second and then calls `Duration::new`, which panics
/// when the carry overflows the seconds; `requires` keeps the numbers of the text small enough
/// (see `duration_text_ok`) that the seconds never reach `u64::MAX`.
#[verifier::external_body]
fn humantime_parse(s: &str) -> (r: Result<(u64, u32), String>)
    requires
        duration_text_ok(s@),
    ensures
        match r {
            Ok(d) => humantime_duration(s@) == Ok::<(u64, u32), Seq<char>>(d) && d.1 < 1_000_000_000,
            Err(e) => humantime_duration(s@) == Err::<(u64, u32), Seq<char>>(e@),
        },
{
    match humantime::parse_duration(s) {
        Ok(d) => Ok((d.as_secs(), d.subsec_nanos())),
        Err(e) => Err(e.to_string()),
    }
}

/// The result of `parse_duration_min_1s` for a given parse result: spans shorter than one
/// second are refused.
pub open spec fn min_1s_spec(parsed: Result<(u64, u32), Seq<char>>) -> Result<TimeSpan, Seq<char>> {
    match parsed {
        Err(e) => Err(e),
        Ok((secs, nanos)) => if secs == 0 {
            Err("duration must be at least 1s"@)
        } else {
            Ok(TimeSpan { secs, nanos })
        },
    }
}

/// Checks a parsed duration for the minimum of one second.
pub fn check_duration_min_1s(parsed: Result<(u64, u32), String>) -> (r: Result<TimeSpan, String>)
    ensures
        match r {
            Ok(t) => min_1s_spec(match parsed {
                Ok(d) => Ok(d),
                Err(e) => Err(e@),
            }) == Ok::<TimeSpan, Seq<char>>(t),
            Err(e) => min_1s_spec(match parsed {
                Ok(d) => Ok(d),
                Err(e) => Err(e@),
            }) == Err::<TimeSpan, Seq<char>>(e@),
        },
{
    match parsed {
        Err(e) => Err(e),
        Ok((secs, nanos)) => {
            if secs == 0 {
                Err(String::from_str("duration must be at least 1s"))
            } else {
                Ok(TimeSpan { secs, nanos })
            }
        },
    }
}

/// Parses a human-friendly duration (`10s`, `1min 30s`) of at least one second. The numbers of
/// the text may add up to at most `MAX_DURATION_TOTAL` (see `duration_text_fits`).
pub fn parse_duration_min_1s(s: &str) -> (r: Result<TimeSpan, String>)
    requires
        duration_text_ok(s@),
    ensures
        match r {
            Ok(t) => min_1s_spec(humantime_duration(s@)) == Ok::<TimeSpan, Seq<char>>(t),
            Err(e) => min_1s_spec(humantime_duration(s@)) == Err::<TimeSpan, Seq<char>>(e@),
        },
{
    check_duration_min_1s(humantime_parse(s))
}

/// What `parse_duration_checked` gives: the refusal of a text whose numbers add up beyond
/// `MAX_DURATION_TOTAL`, else what `parse_duration_min_1s` gives.
pub open spec fn duration_checked_spec(s: Seq<char>) -> Result<TimeSpan, Seq<char>> {
    if !duration_text_ok(s) {
        Err("duration is too large"@)
    } else {
        min_1s_spec(humantime_duration(s))
    }
}

/// Parses a duration of at least one second from any text: a text whose numbers add up beyond
/// `MAX_DURATION_TOTAL` is refused before it reaches humantime.
pub fn parse_duration_checked(s: &str) -> (r: Result<TimeSpan, String>)
    ensures
        match r {
            Ok(t) => duration_checked_spec(s@) == Ok::<TimeSpan, Seq<char>>(t),
            Err(e) => duration_checked_spec(s@) == Err::<TimeSpan, Seq<char>>(e@),
        },
{
    if !duration_text_fits(s) {
        Err(String::from_str("duration is too large"))
    } else {
        parse_duration_min_1s(s)
    }
}

/// Whether a dotted-quad piece is a valid octet as `Ipv4Addr` parsing takes it: one to three
/// ASCII digits, no leading zero before other digits, a value up to 255.
pub open spec fn octet_ok(p: Seq<char>) -> bool {
    &&& 1 <= p.len() <= 3
    &&& all_digits(p)
    &&& !(p.len() > 1 && p[0] == '0')
    &&& decimal_value(p) <= 255
}

/// What `str::parse::<Ipv4Addr>` gives: four valid octets separated by dots, as a big-endian
/// integer.
pub open spec fn ipv4_spec(s: Seq<char>) -> Option<u32> {
    let p = split_spec(s, '.');
    if p.len() == 4 && octet_ok(p[0]) && octet_ok(p[1]) && octet_ok(p[2]) && octet_ok(p[3]) {
        Some(
            (decimal_value(p[0]) * 0x1000000 + decimal_value(p[1]) * 0x10000 + decimal_value(p[2])
                * 0x100 + decimal_value(p[3])) as u32,
        )
    } else {
        None
    }
}

fn octet_value(p: &[char]) -> (r: Option<u64>)
    ensures
        match r {
            Some(v) => octet_ok(p@) && v == decimal_value(p@),
            None => !octet_ok(p@),
        },
{
    if p.len() < 1 || p.len() > 3 {
        return None;
    }
    if p.len() > 1 && p[0] == '0' {
        return None;
    }
    let r = parse_unsigned(p, 255);
    match r {
        Some(v) => {
            if p[0] == '+' {
                return None;
            }
            assert(p@[0] != '+');
            Some(v)
        },
        None => {
            if p[0] != '+' {
                assert(p@.len() == 0 || !all_digits(p@) || decimal_value(p@) > 255);
            } else {
                assert(!crate::text::is_digit_spec(p@[0]));
            }
            None
        },
    }
}

/// Parses a dotted-quad IPv4 address as `str::parse::<Ipv4Addr>` does.
pub fn parse_ipv4(s: &[char]) -> (r: Option<u32>)
    ensures
        r == ipv4_spec(s@),
{
    let parts = split_chars(s, '.');
    if parts.len() != 4 {
        return None;
    }
    let a = match octet_value(parts[0].as_slice()) {
        Some(v) => v,
        None => {
            return None;
        },
    };
    let b = match octet_value(parts[1].as_slice()) {
        Some(v) => v,
        None => {
            return None;
        },
    };
    let c = match octet_value(parts[2].as_slice()) {
        Some(v) => v,
        None => {
            return None;
        },
    };
    let d = match octet_value(parts[3].as_slice()) {
        Some(v) => v,
        None => {
            return None;
        },
    };
    Some((a * 0x1000000 + b * 0x10000 + c * 0x100 + d) as u32)
}

/// What `parse_server_ipv4` gives: the address, unless it does not parse or is the
/// unspecified, a multicast or the broadcast address.
pub open spec fn server_ipv4_spec(s: Seq<char>) -> Result<u32, Seq<char>> {
    match ipv4_spec(s) {
        None => Err(s + " is not a valid IPv4 address"@),
        Some(ip) => if ip == 0 {
            Err("0.0.0.0 is not a valid host address"@)
        } else if 0xe000_0000 <= ip <= 0xefff_ffff {
            Err("multicast addresses are not valid hosts"@)
        } else if ip == 0xffff_ffff {
            Err("broadcast addresses is not a valid host"@)
        } else {
            Ok(ip)
        },
    }
}

/// A server host text of four valid dotted octets `a.b.c.d` is accepted, as the address
/// `a.b.c.d` read big-endian, unless it is `0.0.0.0`, a multicast address (`a` from 224 to 239)
/// or `255.255.255.255`; the multicast refusal is given exactly for `a` from 224 to 239, and
/// every accepted text is such a host.
pub proof fn lemma_server_ipv4_hosts(s: Seq<char>)
    ensures
        ({
            let p = split_spec(s, '.');
            let well_formed = p.len() == 4 && octet_ok(p[0]) && octet_ok(p[1]) && octet_ok(p[2]) && octet_ok(p[3]);
            let a = decimal_value(p[0]);
            let b = decimal_value(p[1]);
            let c = decimal_value(p[2]);
            let d = decimal_value(p[3]);
            &&& well_formed && !(a == 0 && b == 0 && c == 0 && d == 0) && !(224 <= a <= 239)
                && !(a == 255 && b == 255 && c == 255 && d == 255)
                ==> server_ipv4_spec(s) == Ok::<u32, Seq<char>>((a * 0x1000000 + b * 0x10000 + c * 0x100 + d) as u32)
            &&& well_formed && 224 <= a <= 239 ==> server_ipv4_spec(s) == Err::<u32, Seq<char>>(
                "multicast addresses are not valid hosts"@)
            &&& server_ipv4_spec(s) is Ok ==> well_formed && !(224 <= a <= 239)
                && server_ipv4_spec(s) == Ok::<u32, Seq<char>>((a * 0x1000000 + b * 0x10000 + c * 0x100 + d) as u32)
        }),
{
    let p = split_spec(s, '.');
    if p.len() == 4 && octet_ok(p[0]) && octet_ok(p[1]) && octet_ok(p[2]) && octet_ok(p[3]) {
        let a = decimal_value(p[0]);
        let b = decimal_value(p[1]);
        let c = decimal_value(p[2]);
        let d = decimal_value(p[3]);
        let v = a * 0x1000000 + b * 0x10000 + c * 0x100 + d;
        crate::text::lemma_decimal_value_nonneg(p[0]);
        crate::text::lemma_decimal_value_nonneg(p[1]);
        crate::text::lemma_decimal_value_nonneg(p[2]);
        crate::text::lemma_decimal_value_nonneg(p[3]);
        assert(0 <= a <= 255 && 0 <= b <= 255 && 0 <= c <= 255 && 0 <= d <= 255);
        assert(0 <= b * 0x10000 + c * 0x100 + d <= 0xffffff);
        assert(v <= 0xffff_ffff);
        assert((v as u32) == v);
        assert((0xe000_0000 <= v <= 0xefff_ffff) <==> (224 <= a <= 239));
        assert((v == 0) <==> (a == 0 && b == 0 && c == 0 && d == 0));
        assert((v == 0xffff_ffff) <==> (a == 255 && b == 255 && c == 255 && d == 255));
    }
}

/// Parses the IPv4 address of a server host: unspecified, multicast and broadcast addresses
/// are refused.
pub fn parse_server_ipv4(s: &str) -> (r: Result<u32, String>)
    ensures
        match r {
            Ok(ip) => server_ipv4_spec(s@) == Ok::<u32, Seq<char>>(ip),
            Err(e) => server_ipv4_spec(s@) == Err::<u32, Seq<char>>(e@),
        },
{
    let cs = chars_of(s);
    match parse_ipv4(cs.as_slice()) {
        None => {
            let mut m = crate::text::string_of(cs.as_slice());
            m.append(" is not a valid IPv4 address");
            Err(m)
        },
        Some(ip) => {
            if ip == 0 {
                Err(String::from_str("0.0.0.0 is not a valid host address"))
            } else if 0xe000_0000 <= ip && ip <= 0xefff_ffff {
                Err(String::from_str("multicast addresses are not valid hosts"))
            } else if ip == 0xffff_ffff {
                Err(String::from_str("broadcast addresses is not a valid host"))
            } else {
                Ok(ip)
            }
        },
    }
}

/// The number part and the unit part of a quantity: the unit starts at the first alphabetic
/// character.
pub open spec fn split_unit(s: Seq<char>) -> (Seq<char>, Seq<char>) {
    match first_alphabetic(s) {
        Some(p) => (s.take(p), s.skip(p)),
        None => (s, Seq::empty()),
    }
}

/// The factor of an (uppercased) bandwidth unit.
pub open spec fn bandwidth_multiplier(u: Seq<char>) -> Option<u64> {
    if u.len() == 0 || u == "BPS"@ {
        Some(1)
    } else if u == "K"@ || u == "KBPS"@ {
        Some(1_000)
    } else if u == "M"@ || u == "MBPS"@ {
        Some(1_000_000)
    } else if u == "G"@ || u == "GBPS"@ {
        Some(1_000_000_000)
    } else {
        None
    }
}

/// The factor of an (uppercased) size unit.
pub open spec fn size_multiplier(u: Seq<char>) -> Option<u64> {
    if u.len() == 0 || u == "B"@ {
        Some(1)
    } else if u == "K"@ || u == "KB"@ || u == "KIB"@ {
        Some(1024)
    } else if u == "M"@ || u == "MB"@ || u == "MIB"@ {
        Some(1_048_576)
    } else if u == "G"@ || u == "GB"@ || u == "GIB"@ {
        Some(1_073_741_824)
    } else {
        None
    }
}

/// `1024` to the power `k`.
pub open spec fn pow1024(k: nat) -> nat
    decreases k,
{
    if k == 0 {
        1
    } else {
        1024 * pow1024((k - 1) as nat)
    }
}

/// The power of 1024 that a binary unit prefix letter stands for: K 1, M 2, G 3, T 4, P 5, E 6.
pub open spec fn binary_prefix_power(c: char) -> nat {
    if c == 'K' {
        1
    } else if c == 'M' {
        2
    } else if c == 'G' {
        3
    } else if c == 'T' {
        4
    } else if c == 'P' {
        5
    } else if c == 'E' {
        6
    } else {
        0
    }
}

/// Every accepted size unit multiplies by the power of 1024 that its first letter stands for
/// (no unit and `B` by one), and the three spellings of each prefix (`K`, `KB`, `KIB` and so on,
/// uppercased) are all accepted with that same factor.
pub proof fn lemma_size_units_are_powers_of_1024(u: Seq<char>)
    ensures
        size_multiplier(u) matches Some(m) ==> (u.len() == 0 && m == 1) || (u.len() > 0 && (u[0] == 'B'
            || u[0] == 'K' || u[0] == 'M' || u[0] == 'G') && m == pow1024(binary_prefix_power(u[0]))),
        size_multiplier(u) is Some && u.len() > 0 ==> u[u.len() - 1] == 'B' || u.len() == 1,
        forall|c: char| (c == 'K' || c == 'M' || c == 'G') ==> {
            &&& #[trigger] size_multiplier(seq![c]) == Some(pow1024(binary_prefix_power(c)) as u64)
            &&& size_multiplier(seq![c, 'B']) == Some(pow1024(binary_prefix_power(c)) as u64)
            &&& size_multiplier(seq![c, 'I', 'B']) == Some(pow1024(binary_prefix_power(c)) as u64)
        },
{
    reveal_strlit("B");
    reveal_strlit("K");
    reveal_strlit("KB");
    reveal_strlit("KIB");
    reveal_strlit("M");
    reveal_strlit("MB");
    reveal_strlit("MIB");
    reveal_strlit("G");
    reveal_strlit("GB");
    reveal_strlit("GIB");
    reveal_with_fuel(pow1024, 4);
    assert(pow1024(1) == 1024);
    assert(pow1024(2) == 1_048_576);
    assert(pow1024(3) == 1_073_741_824);
    assert("K"@ =~= seq!['K']);
    assert("KB"@ =~= seq!['K', 'B']);
    assert("KIB"@ =~= seq!['K', 'I', 'B']);
    assert("M"@ =~= seq!['M']);
    assert("MB"@ =~= seq!['M', 'B']);
    assert("MIB"@ =~= seq!['M', 'I', 'B']);
    assert("G"@ =~= seq!['G']);
    assert("GB"@ =~= seq!['G', 'B']);
    assert("GIB"@ =~= seq!['G', 'I', 'B']);
    assert("B"@ =~= seq!['B']);
    assert forall|c: char| (c == 'K' || c == 'M' || c == 'G') implies {
        &&& #[trigger] size_multiplier(seq![c]) == Some(pow1024(binary_prefix_power(c)) as u64)
        &&& size_multiplier(seq![c, 'B']) == Some(pow1024(binary_prefix_power(c)) as u64)
        &&& size_multiplier(seq![c, 'I', 'B']) == Some(pow1024(binary_prefix_power(c)) as u64)
    } by {
        assert(seq![c][0] == c && seq!['B'][0] == 'B' && seq!['K'][0] == 'K' && seq!['M'][0] == 'M');
        assert(seq![c, 'B'][0] == c && seq!['K', 'B'][0] == 'K' && seq!['M', 'B'][0] == 'M');
        assert(seq![c, 'I', 'B'][0] == c && seq!['K', 'I', 'B'][0] == 'K' && seq!['M', 'I', 'B'][0] == 'M');
        assert(seq![c] != seq!['B']);
        assert(seq![c, 'B'].len() == 2);
        if c == 'M' {
            assert(seq![c] != seq!['K']);
            assert(seq![c, 'B'] != seq!['K', 'B']);
            assert(seq![c, 'I', 'B'] != seq!['K', 'I', 'B']);
        } else if c == 'G' {
            assert(seq![c] != seq!['K'] && seq![c] != seq!['M']);
            assert(seq![c, 'B'] != seq!['K', 'B'] && seq![c, 'B'] != seq!['M', 'B']);
            assert(seq![c, 'I', 'B'] != seq!['K', 'I', 'B'] && seq![c, 'I', 'B'] != seq!['M', 'I', 'B']);
        }
    }
}

/// Every accepted bandwidth unit multiplies by the power of 1000 that its first letter stands
/// for (K 1, M 2, G 3; no unit and `BPS` by one), and both spellings of each prefix (`K` and
/// `KBPS` and so on, uppercased) are accepted with that same factor.
pub proof fn lemma_bandwidth_units_are_powers_of_1000(u: Seq<char>)
    ensures
        bandwidth_multiplier(u) matches Some(m) ==> (u.len() == 0 && m == 1) || (u.len() > 0 && ((u[0] == 'B'
            && m == 1) || ((u[0] == 'K' || u[0] == 'M' || u[0] == 'G') && m == crate::report::units::pow1000(
            binary_prefix_power(u[0]))))),
        forall|c: char| (c == 'K' || c == 'M' || c == 'G') ==> {
            &&& #[trigger] bandwidth_multiplier(seq![c]) == Some(crate::report::units::pow1000(binary_prefix_power(c)) as u64)
            &&& bandwidth_multiplier(seq![c, 'B', 'P', 'S']) == Some(crate::report::units::pow1000(binary_prefix_power(c)) as u64)
        },
{
    reveal_strlit("BPS");
    reveal_strlit("K");
    reveal_strlit("KBPS");
    reveal_strlit("M");
    reveal_strlit("MBPS");
    reveal_strlit("G");
    reveal_strlit("GBPS");
    reveal_with_fuel(crate::report::units::pow1000, 4);
    assert("K"@ =~= seq!['K']);
    assert("KBPS"@ =~= seq!['K', 'B', 'P', 'S']);
    assert("M"@ =~= seq!['M']);
    assert("MBPS"@ =~= seq!['M', 'B', 'P', 'S']);
    assert("G"@ =~= seq!['G']);
    assert("GBPS"@ =~= seq!['G', 'B', 'P', 'S']);
    assert("BPS"@ =~= seq!['B', 'P', 'S']);
    assert forall|c: char| (c == 'K' || c == 'M' || c == 'G') implies {
        &&& #[trigger] bandwidth_multiplier(seq![c]) == Some(crate::report::units::pow1000(binary_prefix_power(c)) as u64)
        &&& bandwidth_multiplier(seq![c, 'B', 'P', 'S']) == Some(crate::report::units::pow1000(binary_prefix_power(c)) as u64)
    } by {
        assert(seq![c][0] == c && seq!['K'][0] == 'K' && seq!['M'][0] == 'M');
        assert(seq![c, 'B', 'P', 'S'][0] == c && seq!['K', 'B', 'P', 'S'][0] == 'K' && seq!['M', 'B', 'P', 'S'][0] == 'M');
        assert(seq![c, 'B', 'P', 'S'].len() != seq!['B', 'P', 'S'].len());
        assert(seq![c].len() != seq!['B', 'P', 'S'].len());
    }
}

/// The highest bandwidth accepted, in bit/s (5 Gbit/s).
pub const MAX_BANDWIDTH: u64 = 5_000_000_000;

/// What `parse_bandwidth` gives: a number with an optional unit (K, M, G, with or without
/// `bps`, in any case), at most 5 Gbit/s.
pub open spec fn bandwidth_spec(s: Seq<char>) -> Result<u64, Seq<char>> {
    let t = trim_spec(s);
    if t.len() == 0 {
        Err("bandwidth cannot be empty"@)
    } else {
        let (n, u) = split_unit(t);
        match parse_unsigned_spec(n, u64::MAX as int) {
            None => Err("invalid number: "@ + n),
            Some(num) => match bandwidth_multiplier(uppercase(u)) {
                None => Err("unknown unit: "@ + u + ". Use K, M, or G"@),
                Some(m) => if num * m > MAX_BANDWIDTH {
                    Err("bandwidth exceeds maximum allowed limit of 5 Gbit/s"@)
                } else {
                    Ok((num * m) as u64)
                },
            },
        }
    }
}

/// Whether the product of a bandwidth's number and unit factor fits in a `u64` (the
/// multiplication is unchecked).
pub open spec fn bandwidth_in_range(s: Seq<char>) -> bool {
    let t = trim_spec(s);
    let (n, u) = split_unit(t);
    t.len() > 0 ==> match (parse_unsigned_spec(n, u64::MAX as int), bandwidth_multiplier(uppercase(u))) {
        (Some(num), Some(m)) => num * m <= u64::MAX,
        _ => true,
    }
}

/// Whether, for the quantity `t`, the Unicode unit split and uppercase agree with their ASCII
/// counterparts: the unit starts at the first ASCII letter and uppercases letter by letter.
pub open spec fn units_ascii(t: Seq<char>) -> bool {
    &&& first_alphabetic(t) == first_ascii_letter(t)
    &&& uppercase(split_unit(t).1) == ascii_upper(split_unit(t).1)
}

proof fn lemma_trim_start_ascii(s: Seq<char>)
    requires
        all_ascii(s),
    ensures
        all_ascii(trim_start_spec(s)),
    decreases s.len(),
{
    if s.len() > 0 && crate::text::is_white_space(s[0]) {
        lemma_ascii_subrange(s, 1, s.len() as int);
        assert(s.subrange(1, s.len() as int) =~= s.drop_first());
        lemma_trim_start_ascii(s.drop_first());
    }
}

proof fn lemma_trim_end_ascii(s: Seq<char>)
    requires
        all_ascii(s),
    ensures
        all_ascii(trim_end_spec(s)),
    decreases s.len(),
{
    if s.len() > 0 && crate::text::is_white_space(s.last()) {
        lemma_ascii_subrange(s, 0, s.len() - 1);
        assert(s.subrange(0, s.len() - 1) =~= s.drop_last());
        lemma_trim_end_ascii(s.drop_last());
    }
}

/// Trimming an ASCII string leaves it ASCII.
proof fn lemma_trim_ascii(s: Seq<char>)
    requires
        all_ascii(s),
    ensures
        all_ascii(trim_spec(s)),
{
    lemma_trim_start_ascii(s);
    lemma_trim_end_ascii(trim_start_spec(s));
}

/// Splits a trimmed quantity into number and unit, and uppercases the unit.
fn split_quantity(t: &[char]) -> (r: (Vec<char>, Vec<char>, String))
    ensures
        r.0@ == split_unit(t@).0,
        r.1@ == split_unit(t@).1,
        r.2@ == uppercase(split_unit(t@).1),
        all_ascii(t@) ==> units_ascii(t@),
{
    let (n, u) = match find_alphabetic(t) {
        Some(p) => {
            let a = &t[0..p];
            let b = &t[p..t.len()];
            assert(a@ =~= t@.take(p as int));
            assert(b@ =~= t@.skip(p as int));
            (a, b)
        },
        None => {
            let e = &t[0..0];
            assert(e@ =~= Seq::<char>::empty());
            assert(t@.subrange(0, t@.len() as int) =~= t@);
            (&t[0..t.len()], e)
        },
    };
    let mut nv: Vec<char> = Vec::new();
    let mut uv: Vec<char> = Vec::new();
    let mut i: usize = 0;
    while i < n.len()
        invariant
            i <= n@.len(),
            nv@ == n@.take(i as int),
        decreases n@.len() - i,
    {
        nv.push(n[i]);
        i = i + 1;
        assert(nv@ =~= n@.take(i as int));
    }
    assert(n@.take(n@.len() as int) =~= n@);
    let mut j: usize = 0;
    while j < u.len()
        invariant
            j <= u@.len(),
            uv@ == u@.take(j as int),
        decreases u@.len() - j,
    {
        uv.push(u[j]);
        j = j + 1;
        assert(uv@ =~= u@.take(j as int));
    }
    assert(u@.take(u@.len() as int) =~= u@);
    let us = crate::text::string_of(u);
    proof {
        if all_ascii(t@) {
            match first_alphabetic(t@) {
                Some(p) => lemma_ascii_subrange(t@, p, t@.len() as int),
                None => {},
            }
            assert(all_ascii(us@));
        }
    }
    let up = to_uppercase(us.as_str());
    (nv, uv, up)
}

fn bandwidth_factor(u: &String) -> (r: Option<u64>)
    ensures
        r == bandwidth_multiplier(u@),
{
    let s = u.as_str();
    if s.is_empty() || str_eq(s, "BPS") {
        Some(1)
    } else if str_eq(s, "K") || str_eq(s, "KBPS") {
        Some(1_000)
    } else if str_eq(s, "M") || str_eq(s, "MBPS") {
        Some(1_000_000)
    } else if str_eq(s, "G") || str_eq(s, "GBPS") {
        Some(1_000_000_000)
    } else {
        None
    }
}

fn size_factor(u: &String) -> (r: Option<u64>)
    ensures
        r == size_multiplier(u@),
{
    let s = u.as_str();
    if s.is_empty() || str_eq(s, "B") {
        Some(1)
    } else if str_eq(s, "K") || str_eq(s, "KB") || str_eq(s, "KIB") {
        Some(1024)
    } else if str_eq(s, "M") || str_eq(s, "MB") || str_eq(s, "MIB") {
        Some(1024 * 1024)
    } else if str_eq(s, "G") || str_eq(s, "GB") || str_eq(s, "GIB") {
        Some(1024 * 1024 * 1024)
    } else {
        None
    }
}

/// Whether a bandwidth's number and unit factor multiply without overflow.
pub fn bandwidth_fits(s: &str) -> (r: bool)
    ensures
        all_ascii(s@) && trim_spec(s@).len() > 0 ==> units_ascii(trim_spec(s@)),
        r == bandwidth_in_range(s@),
{
    let cs = chars_of(s);
    let t = trim_chars(cs.as_slice());
    if t.len() == 0 {
        return true;
    }
    let (n, _u, up) = split_quantity(t.as_slice());
    proof {
        if all_ascii(s@) {
            lemma_trim_ascii(s@);
        }
    }
    match (parse_unsigned(n.as_slice(), u64::MAX), bandwidth_factor(&up)) {
        (Some(num), Some(m)) => {
            assert(m > 0);
            assert((num <= u64::MAX / m) <==> (num * m <= u64::MAX)) by (nonlinear_arith)
                requires
                    m > 0,
            ;
            num <= u64::MAX / m
        },
        _ => true,
    }
}

/// Parses a bandwidth specification (number with an optional K, M or G unit) in bit/s.
pub fn parse_bandwidth(s: &str) -> (r: Result<u64, String>)
    requires
        bandwidth_in_range(s@),
    ensures
        match r {
            Ok(v) => bandwidth_spec(s@) == Ok::<u64, Seq<char>>(v),
            Err(e) => bandwidth_spec(s@) == Err::<u64, Seq<char>>(e@),
        },
        all_ascii(s@) && trim_spec(s@).len() > 0 ==> units_ascii(trim_spec(s@)),
{
    let cs = chars_of(s);
    let t = trim_chars(cs.as_slice());
    if t.len() == 0 {
        return Err(String::from_str("bandwidth cannot be empty"));
    }
    let (n, u, up) = split_quantity(t.as_slice());
    proof {
        if all_ascii(s@) {
            lemma_trim_ascii(s@);
        }
    }
    let num = match parse_unsigned(n.as_slice(), u64::MAX) {
        Some(v) => v,
        None => {
            return Err(crate::text::concat2("invalid number: ", n.as_slice()));
        },
    };
    let m = match bandwidth_factor(&up) {
        Some(m) => m,
        None => {
            return Err(concat3("unknown unit: ", u.as_slice(), ". Use K, M, or G"));
        },
    };
    let total = num * m;
    if total > MAX_BANDWIDTH {
        return Err(String::from_str("bandwidth exceeds maximum allowed limit of 5 Gbit/s"));
    }
    Ok(total)
}

/// Parses a bandwidth specification on any input: `None` when the number times its unit factor
/// does not fit in a `u64` (where the unchecked multiplication would overflow), else what
/// `parse_bandwidth` gives.
pub fn parse_bandwidth_checked(s: &str) -> (r: Option<Result<u64, String>>)
    ensures
        r is None <==> !bandwidth_in_range(s@),
        r matches Some(Ok(v)) ==> bandwidth_spec(s@) == Ok::<u64, Seq<char>>(v),
        r matches Some(Err(e)) ==> bandwidth_spec(s@) == Err::<u64, Seq<char>>(e@),
        all_ascii(s@) && trim_spec(s@).len() > 0 ==> units_ascii(trim_spec(s@)),
{
    if bandwidth_fits(s) {
        Some(parse_bandwidth(s))
    } else {
        None
    }
}

/// What `parse_size_bytes` gives: a number with an optional unit (B, K, M, G, with or without
/// `B`/`iB`, in any case, as powers of 1024), refused when the product overflows.
pub open spec fn size_spec(s: Seq<char>) -> Result<u64, Seq<char>> {
    let t = trim_spec(s);
    if t.len() == 0 {
        Err("size cannot be empty"@)
    } else {
        let (n, u) = split_unit(t);
        match parse_unsigned_spec(n, u64::MAX as int) {
            None => Err("invalid number: "@ + n),
            Some(num) => match size_multiplier(uppercase(u)) {
                None => Err("unknown unit: "@ + u + ". Use B, K, M, or G"@),
                Some(m) => if num * m > u64::MAX {
                    Err("size overflow"@)
                } else {
                    Ok((num * m) as u64)
                },
            },
        }
    }
}

/// Parses a size in bytes with an optional binary unit.
pub fn parse_size_bytes(s: &str) -> (r: Result<u64, String>)
    ensures
        match r {
            Ok(v) => size_spec(s@) == Ok::<u64, Seq<char>>(v),
            Err(e) => size_spec(s@) == Err::<u64, Seq<char>>(e@),
        },
        all_ascii(s@) && trim_spec(s@).len() > 0 ==> units_ascii(trim_spec(s@)),
{
    let cs = chars_of(s);
    let t = trim_chars(cs.as_slice());
    if t.len() == 0 {
        return Err(String::from_str("size cannot be empty"));
    }
    let (n, u, up) = split_quantity(t.as_slice());
    proof {
        if all_ascii(s@) {
            lemma_trim_ascii(s@);
        }
    }
    let num = match parse_unsigned(n.as_slice(), u64::MAX) {
        Some(v) => v,
        None => {
            return Err(crate::text::concat2("invalid number: ", n.as_slice()));
        },
    };
    let m = match size_factor(&up) {
        Some(m) => m,
        None => {
            return Err(concat3("unknown unit: ", u.as_slice(), ". Use B, K, M, or G"));
        },
    };
    match num.checked_mul(m) {
        Some(v) => Ok(v),
        None => Err(String::from_str("size overflow")),
    }
}

/// The largest UDP receive buffer accepted (256 MiB).
pub const MAX_UDP_BUF_SIZE: u64 = 268_435_456;

/// What `parse_udp_buf_mem_size` gives: a size from 1 byte to 256 MiB.
pub open spec fn udp_buf_spec(s: Seq<char>) -> Result<u64, Seq<char>> {
    match size_spec(s) {
        Err(e) => Err(e),
        Ok(v) => if v == 0 {
            Err("buffer size must be at least 1 byte"@)
        } else if v > MAX_UDP_BUF_SIZE {
            Err("buffer size exceeds maximum allowed limit of 256 MiB"@)
        } else {
            Ok(v)
        },
    }
}

/// Parses the memory size of the UDP receive buffer.
pub fn parse_udp_buf_mem_size(s: &str) -> (r: Result<u64, String>)
    ensures
        match r {
            Ok(v) => udp_buf_spec(s@) == Ok::<u64, Seq<char>>(v),
            Err(e) => udp_buf_spec(s@) == Err::<u64, Seq<char>>(e@),
        },
        all_ascii(s@) && trim_spec(s@).len() > 0 ==> units_ascii(trim_spec(s@)),
{
    let size = match parse_size_bytes(s) {
        Ok(v) => v,
        Err(e) => {
            return Err(e);
        },
    };
    if size == 0 {
        return Err(String::from_str("buffer size must be at least 1 byte"));
    }
    if size > MAX_UDP_BUF_SIZE {
        return Err(String::from_str("buffer size exceeds maximum allowed limit of 256 MiB"));
    }
    Ok(size)
}

/// Why a `--verify` size was refused.
#[derive(Debug, Clone, PartialEq, Eq)]
pub enum VerifySizeError {
    /// The size does not parse or is zero; the message says why.
    Invalid(String),
    /// The size is larger than the available memory, which is given in bytes.
    ExceedsMemory(u64),
}

/// What `parse_verify_size` gives for a size and the machine's total memory, if known.
pub open spec fn verify_size_spec(s: Seq<char>, total_memory: Option<u64>) -> Result<u64, Result<Seq<char>, u64>> {
    match size_spec(s) {
        Err(e) => Err(Ok(e)),
        Ok(v) => if v == 0 {
            Err(Ok("verify size must be at least 1 byte"@))
        } else {
            match total_memory {
                Some(max) => if v > max {
                    Err(Err(max))
                } else {
                    Ok(v)
                },
                None => Ok(v),
            }
        },
    }
}

/// Parses the `--verify` buffer size; it must be positive and no larger than the machine's
/// total memory, when that is known.
pub fn parse_verify_size(s: &str, total_memory: Option<u64>) -> (r: Result<u64, VerifySizeError>)
    ensures
        match r {
            Ok(v) => verify_size_spec(s@, total_memory) == Ok::<u64, Result<Seq<char>, u64>>(v),
            Err(VerifySizeError::Invalid(e)) => verify_size_spec(s@, total_memory) == Err::<u64, Result<Seq<char>, u64>>(Ok(e@)),
            Err(VerifySizeError::ExceedsMemory(m)) => verify_size_spec(s@, total_memory) == Err::<u64, Result<Seq<char>, u64>>(Err(m)),
        },
{
    let size = match parse_size_bytes(s) {
        Ok(v) => v,
        Err(e) => {
            return Err(VerifySizeError::Invalid(e));
        },
    };
    if size == 0 {
        return Err(VerifySizeError::Invalid(String::from_str("verify size must be at least 1 byte")));
    }
    match total_memory {
        Some(max) => {
            if size > max {
                return Err(VerifySizeError::ExceedsMemory(max));
            }
        },
        None => {},
    }
    Ok(size)
}

/// What `parse_stream_number` gives for the number of CPU cores available.
pub open spec fn stream_number_spec(s: Seq<char>, max_streams: usize) -> Result<u16, Seq<char>> {
    match parse_unsigned_spec(s, u16::MAX as int) {
        None => Err("invalid stream count"@),
        Some(n) => if n == 0 {
            Err("stream count must be at least 1"@)
        } else if n > max_streams {
            Err("stream count exceeds available CPU cores ("@ + decimal_spec(max_streams as nat) + ")"@)
        } else {
            Ok(n as u16)
        },
    }
}

/// Parses a stream count: from 1 to the number of CPU cores available.
pub fn parse_stream_number(s: &str, max_streams: usize) -> (r: Result<u16, String>)
    ensures
        match r {
            Ok(n) => stream_number_spec(s@, max_streams) == Ok::<u16, Seq<char>>(n),
            Err(e) => stream_number_spec(s@, max_streams) == Err::<u16, Seq<char>>(e@),
        },
{
    let cs = chars_of(s);
    let n = match parse_unsigned(cs.as_slice(), 0xffff) {
        Some(v) => v as u16,
        None => {
            return Err(String::from_str("invalid stream count"));
        },
    };
    if n == 0 {
        return Err(String::from_str("stream count must be at least 1"));
    }
    if n as usize > max_streams {
        let digits = crate::text::decimal_chars(max_streams as u64);
        return Err(concat3("stream count exceeds available CPU cores (", digits.as_slice(), ")"));
    }
    Ok(n)
}

/// An accepted bandwidth is at most 5 Gbit/s.
pub proof fn lemma_bandwidth_within_limit(s: Seq<char>)
    ensures
        bandwidth_spec(s) matches Ok(v) ==> v <= MAX_BANDWIDTH,
{
    let t = trim_spec(s);
    let (n, u) = split_unit(t);
    crate::text::lemma_parse_unsigned_range(n, u64::MAX as int);
    match (parse_unsigned_spec(n, u64::MAX as int), bandwidth_multiplier(uppercase(u))) {
        (Some(num), Some(m)) => {
            if num * m <= MAX_BANDWIDTH {
                assert(0 <= num * m) by (nonlinear_arith)
                    requires
                        0 <= num,
                        0 <= m,
                ;
                assert(((num * m) as u64) == num * m);
            }
        },
        _ => {},
    }
}

/// An accepted UDP receive buffer size is between one byte and 256 MiB.
pub proof fn lemma_udp_buf_within_limits(s: Seq<char>)
    ensures
        udp_buf_spec(s) matches Ok(v) ==> 1 <= v <= MAX_UDP_BUF_SIZE,
{
}

/// An accepted stream count is between one and the number of CPU cores.
pub proof fn lemma_stream_number_within_limits(s: Seq<char>, max_streams: usize)
    ensures
        stream_number_spec(s, max_streams) matches Ok(n) ==> 1 <= n <= max_streams,
{
    crate::text::lemma_parse_unsigned_range(s, u16::MAX as int);
}

/// An accepted duration lasts at least one second.
pub proof fn lemma_duration_at_least_one_second(parsed: Result<(u64, u32), Seq<char>>)
    ensures
        min_1s_spec(parsed) matches Ok(t) ==> t.secs >= 1,
{
}

} // verus!
