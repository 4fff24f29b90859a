//! The checks a UDP benchmark request goes through, shared by the configuration builder and the
//! validator.

use vstd::prelude::*;

use crate::interfaces::types::{InterfaceAddress, IpAddress};
use crate::protocol::constants::{
    ETHERNET_IPV4_UDP_OVERHEAD_BYTES, ETHERNET_IPV6_UDP_OVERHEAD_BYTES,
    IPV4_UDP_MAX_PAYLOAD_LENGTH_BYTES, IPV6_UDP_MAX_PAYLOAD_LENGTH_BYTES,
};
use crate::resolve::ResolveError;

verus! {

/// Why a UDP benchmark request was refused. Names (the interface, the server) are those of the
/// request; the variants carry the values that the message reports.
#[derive(Debug, Clone)]
pub enum UdpConfigError {
    /// The client interface is not operationally up.
    InterfaceDown,
    /// The client interface has no configured address.
    NoAddresses,
    /// The requested source address is not configured on the client interface.
    SourceNotConfigured { source: IpAddress },
    /// The server could not be resolved.
    Unresolved(ResolveError),
    /// No server address has the family of the requested source address.
    SourceFamilyMismatch { source: IpAddress },
    /// No server address has the family of any interface address.
    NoCompatibleAddress,
    /// The requested bandwidth is above the interface speed.
    BandwidthExceedsSpeed { bandwidth: u64, speed: u64 },
    /// The payload length is above the protocol maximum for the server's family.
    PayloadTooLong { length: u16, ipv6: bool, max_payload: u16 },
    /// More streams than the interface has queue pairs.
    StreamsExceedQueues { streams: u16, queues: u32 },
}

/// Something about an accepted request that deserves a warning.
#[derive(Debug, Clone, Copy, PartialEq, Eq, Structural)]
pub enum UdpWarning {
    /// More streams than CPUs: expect context switching.
    StreamsExceedCpus { streams: u16, cpus: u32 },
    /// The frame is larger than the MTU: packets will be fragmented.
    FrameExceedsMtu { frame: u32, mtu: u32 },
}

/// Two addresses of the same family.
pub open spec fn same_family(a: IpAddress, b: IpAddress) -> bool {
    (a is V4) == (b is V4)
}

/// Whether `a` is among the addresses configured on an interface.
pub open spec fn has_address(addrs: Seq<InterfaceAddress>, a: IpAddress) -> bool {
    exists|i: int| 0 <= i < addrs.len() && (#[trigger] addrs[i]).addr == a
}

/// The first server address, from index `from` on, of the family of `a`.
pub open spec fn first_same_family(servers: Seq<IpAddress>, a: IpAddress, from: int) -> Option<IpAddress>
    decreases servers.len() - from,
{
    if from < 0 || from >= servers.len() {
        None
    } else if same_family(servers[from], a) {
        Some(servers[from])
    } else {
        first_same_family(servers, a, from + 1)
    }
}

/// Going through the interface addresses in order from index `from`, the first server address
/// of the family of one of them.
pub open spec fn first_for_addresses(addrs: Seq<InterfaceAddress>, servers: Seq<IpAddress>, from: int) -> Option<IpAddress>
    decreases addrs.len() - from,
{
    if from < 0 || from >= addrs.len() {
        None
    } else {
        match first_same_family(servers, addrs[from].addr, 0) {
            Some(s) => Some(s),
            None => first_for_addresses(addrs, servers, from + 1),
        }
    }
}

/// The largest UDP payload for the server's address family.
pub open spec fn max_payload(server: IpAddress) -> u16 {
    if server is V4 {
        IPV4_UDP_MAX_PAYLOAD_LENGTH_BYTES
    } else {
        IPV6_UDP_MAX_PAYLOAD_LENGTH_BYTES
    }
}

/// The bytes an Ethernet frame adds to a UDP payload for the server's address family.
pub open spec fn frame_overhead(server: IpAddress) -> u32 {
    if server is V4 {
        ETHERNET_IPV4_UDP_OVERHEAD_BYTES
    } else {
        ETHERNET_IPV6_UDP_OVERHEAD_BYTES
    }
}

/// The number of streams the interface's queues allow: the smaller of its RX and TX queue
/// counts, when both are known.
pub open spec fn queue_limit(rx: Option<u32>, tx: Option<u32>) -> Option<u32> {
    match (rx, tx) {
        (Some(r), Some(t)) => Some(if r < t { r } else { t }),
        _ => None,
    }
}

/// The stream limit of an interface is known exactly when both queue counts are, and it is the
/// smaller of the two: no greater than either, and equal to one of them.
pub proof fn lemma_queue_limit_is_min(rx: Option<u32>, tx: Option<u32>)
    ensures
        queue_limit(rx, tx) is Some <==> (rx is Some && tx is Some),
        queue_limit(rx, tx) matches Some(q) ==> q <= rx.unwrap() && q <= tx.unwrap()
            && (q == rx.unwrap() || q == tx.unwrap()),
{
}

/// The warnings for an accepted request, in the order they are reported.
pub open spec fn udp_warnings(streams: u16, cpu_count: u32, mtu: Option<u32>, length: u16, server: IpAddress) -> Seq<UdpWarning> {
    let first: Seq<UdpWarning> = if streams as u32 > cpu_count {
        seq![UdpWarning::StreamsExceedCpus { streams, cpus: cpu_count }]
    } else {
        Seq::empty()
    };
    let frame = (length + frame_overhead(server)) as u32;
    match mtu {
        Some(m) => if frame > m {
            first.push(UdpWarning::FrameExceedsMtu { frame, mtu: m })
        } else {
            first
        },
        None => first,
    }
}

/// What `first_same_family` finds is a server address, at or after `from`, of the family of `a`;
/// it finds nothing only when no such address exists.
pub proof fn lemma_first_same_family(servers: Seq<IpAddress>, a: IpAddress, from: int)
    requires
        0 <= from,
    ensures
        first_same_family(servers, a, from) matches Some(s) ==> exists|i: int|
            from <= i < servers.len() && servers[i] == s && same_family(s, a),
        first_same_family(servers, a, from) is None ==> forall|i: int|
            from <= i < servers.len() ==> !same_family(#[trigger] servers[i], a),
    decreases servers.len() - from,
{
    if from < servers.len() && !same_family(servers[from], a) {
        lemma_first_same_family(servers, a, from + 1);
    }
}

/// What `first_for_addresses` finds is a server address of the family of some interface address
/// at or after `from`.
pub proof fn lemma_first_for_addresses(addrs: Seq<InterfaceAddress>, servers: Seq<IpAddress>, from: int)
    requires
        0 <= from,
    ensures
        first_for_addresses(addrs, servers, from) matches Some(s) ==> (servers.contains(s) && exists|j: int|
            from <= j < addrs.len() && same_family(s, #[trigger] addrs[j].addr)),
    decreases addrs.len() - from,
{
    if from < addrs.len() {
        lemma_first_same_family(servers, addrs[from].addr, 0);
        match first_same_family(servers, addrs[from].addr, 0) {
            Some(s) => {
                let i = choose|i: int| 0 <= i < servers.len() && servers[i] == s && same_family(s, addrs[from].addr);
                assert(servers[i] == s);
            },
            None => {
                lemma_first_for_addresses(addrs, servers, from + 1);
            },
        }
    }
}

/// Whether `a` is configured on the interface.
pub fn address_configured(addrs: &Vec<InterfaceAddress>, a: IpAddress) -> (r: bool)
    ensures
        r == has_address(addrs@, a),
{
    let mut i: usize = 0;
    while i < addrs.len()
        invariant
            i <= addrs@.len(),
            forall|j: int| 0 <= j < i ==> (#[trigger] addrs@[j]).addr != a,
        decreases addrs@.len() - i,
    {
        if addrs[i].addr == a {
            return true;
        }
        i = i + 1;
    }
    false
}

/// Whether two addresses have the same family.
pub fn is_same_family(a: IpAddress, b: IpAddress) -> (r: bool)
    ensures
        r == same_family(a, b),
{
    a.is_ipv4() == b.is_ipv4()
}

/// The first server address of the family of `a`.
pub fn find_same_family(servers: &Vec<IpAddress>, a: IpAddress) -> (r: Option<IpAddress>)
    ensures
        r == first_same_family(servers@, a, 0),
{
    let mut i: usize = 0;
    while i < servers.len()
        invariant
            i <= servers@.len(),
            first_same_family(servers@, a, 0) == first_same_family(servers@, a, i as int),
        decreases servers@.len() - i,
    {
        if is_same_family(servers[i], a) {
            return Some(servers[i]);
        }
        i = i + 1;
    }
    None
}

/// The first server address compatible with an interface address, taking the interface
/// addresses in order.
pub fn find_for_addresses(addrs: &Vec<InterfaceAddress>, servers: &Vec<IpAddress>) -> (r: Option<IpAddress>)
    ensures
        r == first_for_addresses(addrs@, servers@, 0),
{
    let mut i: usize = 0;
    while i < addrs.len()
        invariant
            i <= addrs@.len(),
            first_for_addresses(addrs@, servers@, 0) == first_for_addresses(addrs@, servers@, i as int),
        decreases addrs@.len() - i,
    {
        match find_same_family(servers, addrs[i].addr) {
            Some(s) => {
                return Some(s);
            },
            None => {},
        }
        i = i + 1;
    }
    None
}

/// The largest UDP payload for the server's address family.
pub fn max_payload_for(server: IpAddress) -> (r: u16)
    ensures
        r == max_payload(server),
{
    match server {
        IpAddress::V4(_) => IPV4_UDP_MAX_PAYLOAD_LENGTH_BYTES,
        IpAddress::V6(_) => IPV6_UDP_MAX_PAYLOAD_LENGTH_BYTES,
    }
}

/// The number of streams the queues allow, when both queue counts are known.
pub fn queue_limit_of(rx: Option<u32>, tx: Option<u32>) -> (r: Option<u32>)
    ensures
        r == queue_limit(rx, tx),
{
    match (rx, tx) {
        (Some(r), Some(t)) => Some(if r < t { r } else { t }),
        _ => None,
    }
}

/// The warnings for an accepted request: more streams than CPUs, then a frame above the MTU.
pub fn warnings_for(streams: u16, cpu_count: u32, mtu: Option<u32>, length: u16, server: IpAddress) -> (r: Vec<UdpWarning>)
    ensures
        r@ == udp_warnings(streams, cpu_count, mtu, length, server),
{
    let mut w: Vec<UdpWarning> = Vec::new();
    if streams as u32 > cpu_count {
        w.push(UdpWarning::StreamsExceedCpus { streams, cpus: cpu_count });
    }
    let overhead = match server {
        IpAddress::V4(_) => ETHERNET_IPV4_UDP_OVERHEAD_BYTES,
        IpAddress::V6(_) => ETHERNET_IPV6_UDP_OVERHEAD_BYTES,
    };
    let frame = length as u32 + overhead;
    match mtu {
        Some(m) => {
            if frame > m {
                w.push(UdpWarning::FrameExceedsMtu { frame, mtu: m });
            }
        },
        None => {},
    }
    proof {
        let first: Seq<UdpWarning> = if streams as u32 > cpu_count {
            seq![UdpWarning::StreamsExceedCpus { streams, cpus: cpu_count }]
        } else {
            Seq::empty()
        };
        assert(frame == (length + frame_overhead(server)) as u32);
    }
    w
}

} // verus!
