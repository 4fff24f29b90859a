//! Protocol sizes used when checking a UDP benchmark request.

use vstd::prelude::*;

verus! {

/// Bytes an Ethernet frame adds around a UDP payload carried over IPv4: the Ethernet header
/// (14), the IPv4 header without options (20) and the UDP header (8).
pub const ETHERNET_IPV4_UDP_OVERHEAD_BYTES: u32 = 42;

/// Bytes an Ethernet frame adds around a UDP payload carried over IPv6: the Ethernet header
/// (14), the fixed IPv6 header (40) and the UDP header (8).
pub const ETHERNET_IPV6_UDP_OVERHEAD_BYTES: u32 = 62;

/// The largest UDP payload in one IPv4 datagram: 65535 - 20 (IPv4) - 8 (UDP).
pub const IPV4_UDP_MAX_PAYLOAD_LENGTH_BYTES: u16 = 65507;

/// The largest UDP payload without a jumbogram over IPv6: 65535 - 8 (UDP).
pub const IPV6_UDP_MAX_PAYLOAD_LENGTH_BYTES: u16 = 65527;

} // verus!
