//! Resolving a server identifier: an IP address literal, or a hostname to look up.

use vstd::prelude::*;

use crate::interfaces::types::IpAddress;
use crate::parser::{ipv4_spec, parse_ipv4};
use crate::text::{chars_of, split_chars, split_spec, string_of};

verus! {

/// Why a server identifier could not be resolved.
#[derive(Debug, Clone, PartialEq, Eq)]
pub enum ResolveError {
    /// Neither an IP address nor a valid hostname.
    InvalidAddress(String),
    /// A valid hostname that resolved to no address.
    NotFound(String),
}

impl ResolveError {
    /// The error's message.
    pub fn message(&self) -> (r: String)
        ensures
            self matches ResolveError::InvalidAddress(s) ==> r@ == "invalid address '"@ + s@ + "'"@,
            self matches ResolveError::NotFound(s) ==> r@ == "could not resolve '"@ + s@ + "'"@,
    {
        let (mut m, s) = match self {
            ResolveError::InvalidAddress(s) => (String::from_str("invalid address '"), s),
            ResolveError::NotFound(s) => (String::from_str("could not resolve '"), s),
        };
        m.append(s.as_str());
        m.append("'");
        m
    }
}

/// What `str::parse::<IpAddr>` gives: an IPv4 address, else an IPv6 address. The IPv6 reading
/// of the text (`ipv6`, big-endian) comes from the standard library's parser, which runs
/// outside this crate.
pub open spec fn ip_literal(s: Seq<char>, ipv6: Option<u128>) -> Option<IpAddress> {
    match ipv4_spec(s) {
        Some(v4) => Some(IpAddress::V4(v4)),
        None => match ipv6 {
            Some(v6) => Some(IpAddress::V6(v6)),
            None => None,
        },
    }
}

/// Reads an IP address literal: dotted-quad IPv4 first, else the IPv6 reading `ipv6` that the
/// standard library's parser made of the same text.
pub fn parse_ip_literal(s: &str, ipv6: Option<u128>) -> (r: Option<IpAddress>)
    ensures
        r == ip_literal(s@, ipv6),
{
    let cs = chars_of(s);
    match parse_ipv4(cs.as_slice()) {
        Some(v4) => Some(IpAddress::V4(v4)),
        None => match ipv6 {
            Some(v6) => Some(IpAddress::V6(v6)),
            None => None,
        },
    }
}

/// An ASCII letter or digit, or a hyphen.
pub open spec fn hostname_char(c: char) -> bool {
    let x = c as u32;
    ||| 48 <= x <= 57
    ||| 65 <= x <= 90
    ||| 97 <= x <= 122
    ||| c == '-'
}

/// A valid hostname label (RFC 1123): 1 to 63 letters, digits or hyphens, not starting or
/// ending with a hyphen.
pub open spec fn label_ok(l: Seq<char>) -> bool {
    &&& 1 <= l.len() <= 63
    &&& l[0] != '-'
    &&& l.last() != '-'
    &&& forall|i: int| 0 <= i < l.len() ==> hostname_char(#[trigger] l[i])
}

/// A valid hostname: one optional trailing dot, then 1 to 253 characters forming labels
/// separated by dots. (A hostname with characters outside ASCII fails either way, so the
/// byte length that `str::len` counts and the character count agree wherever it matters.)
pub open spec fn hostname_ok(h: Seq<char>) -> bool {
    let s = if h.len() > 0 && h.last() == '.' {
        h.drop_last()
    } else {
        h
    };
    &&& 1 <= s.len() <= 253
    &&& labels_ok(split_spec(s, '.'))
}

/// Every label is valid.
pub open spec fn labels_ok(labels: Seq<Seq<char>>) -> bool {
    forall|k: int| 0 <= k < labels.len() ==> label_ok(#[trigger] labels[k])
}

fn label_valid(l: &[char]) -> (r: bool)
    ensures
        r == label_ok(l@),
{
    if l.len() == 0 || l.len() > 63 {
        return false;
    }
    if l[0] == '-' || l[l.len() - 1] == '-' {
        return false;
    }
    let mut i: usize = 0;
    while i < l.len()
        invariant
            i <= l@.len(),
            forall|j: int| 0 <= j < i ==> hostname_char(#[trigger] l@[j]),
        decreases l@.len() - i,
    {
        let x = l[i] as u32;
        if !((48 <= x && x <= 57) || (65 <= x && x <= 90) || (97 <= x && x <= 122) || l[i] == '-') {
            return false;
        }
        i = i + 1;
    }
    true
}

/// Validates a hostname (RFC 1123).
pub fn is_valid_hostname(hostname: &str) -> (r: bool)
    ensures
        r == hostname_ok(hostname@),
{
    let cs = chars_of(hostname);
    let s = if cs.len() > 0 && cs[cs.len() - 1] == '.' {
        let t = &cs.as_slice()[0..cs.len() - 1];
        assert(t@ =~= cs@.drop_last());
        t
    } else {
        cs.as_slice()
    };
    assert(s@ == (if hostname@.len() > 0 && hostname@.last() == '.' {
        hostname@.drop_last()
    } else {
        hostname@
    }));
    if s.len() == 0 || s.len() > 253 {
        return false;
    }
    let labels = split_chars(s, '.');
    let mut k: usize = 0;
    while k < labels.len()
        invariant
            k <= labels@.len(),
            labels@.len() == split_spec(s@, '.').len(),
            forall|j: int| 0 <= j < labels@.len() ==> (#[trigger] labels@[j])@ == split_spec(s@, '.')[j],
            forall|j: int| 0 <= j < k ==> label_ok(#[trigger] split_spec(s@, '.')[j]),
            1 <= s@.len() <= 253,
            s@ == (if hostname@.len() > 0 && hostname@.last() == '.' {
                hostname@.drop_last()
            } else {
                hostname@
            }),
        decreases labels@.len() - k,
    {
        if !label_valid(labels[k].as_slice()) {
            proof {
                let labels_spec = split_spec(s@, '.');
                assert(!label_ok(labels_spec[k as int]));
                assert(!labels_ok(labels_spec));
            }
            return false;
        }
        k = k + 1;
    }
    assert(labels_ok(split_spec(s@, '.')));
    true
}

/// How a server identifier resolves before any lookup: an IP literal resolves to itself, a
/// valid hostname needs a lookup (`None`), anything else is an invalid address.
pub open spec fn literal_resolution(server: Seq<char>, ipv6: Option<u128>) -> Result<Option<IpAddress>, Seq<char>> {
    match ip_literal(server, ipv6) {
        Some(ip) => Ok(Some(ip)),
        None => if hostname_ok(server) {
            Ok(None)
        } else {
            Err(server)
        },
    }
}

/// Resolves a server identifier as far as it can without a lookup: `Ok(Some(ip))` for an IP
/// address literal, `Ok(None)` for a valid hostname that needs a lookup. `ipv6` is the
/// standard library's IPv6 reading of `server`.
pub fn resolve_literal(server: &str, ipv6: Option<u128>) -> (r: Result<Option<IpAddress>, ResolveError>)
    ensures
        match r {
            Ok(x) => literal_resolution(server@, ipv6) == Ok::<Option<IpAddress>, Seq<char>>(x),
            Err(ResolveError::InvalidAddress(s)) => literal_resolution(server@, ipv6) == Err::<Option<IpAddress>, Seq<char>>(s@),
            Err(ResolveError::NotFound(_)) => false,
        },
{
    match parse_ip_literal(server, ipv6) {
        Some(ip) => Ok(Some(ip)),
        None => {
            if is_valid_hostname(server) {
                Ok(None)
            } else {
                let cs = chars_of(server);
                Err(ResolveError::InvalidAddress(string_of(cs.as_slice())))
            }
        },
    }
}

/// Completes the resolution of a hostname from the addresses its lookup gave (`None` when the
/// lookup failed): an empty or failed lookup is `NotFound`.
pub fn resolve_lookup(server: &str, lookup: Option<Vec<IpAddress>>) -> (r: Result<Vec<IpAddress>, ResolveError>)
    ensures
        match r {
            Ok(v) => lookup matches Some(l) && l@.len() > 0 && v@ == l@,
            Err(ResolveError::NotFound(s)) => s@ == server@ && (lookup is None || lookup.unwrap()@.len() == 0),
            Err(ResolveError::InvalidAddress(_)) => false,
        },
{
    match lookup {
        Some(v) => {
            if v.len() == 0 {
                let cs = chars_of(server);
                Err(ResolveError::NotFound(string_of(cs.as_slice())))
            } else {
                Ok(v)
            }
        },
        None => {
            let cs = chars_of(server);
            Err(ResolveError::NotFound(string_of(cs.as_slice())))
        },
    }
}

} // verus!
