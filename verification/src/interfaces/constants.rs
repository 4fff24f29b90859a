//! Interface link types, operational states and address families (linux/if_arp.h,
//! linux/if.h, linux/socket.h).

use vstd::prelude::*;

verus! {

/// Link type: Ethernet.
pub const ARPHRD_ETHER: u32 = 1;

/// Link type: PPP.
pub const ARPHRD_PPP: u32 = 512;

/// Link type: GRE over IPv4.
pub const ARPHRD_IPGRE: u32 = 768;

/// Link type: GRE over IPv6.
pub const ARPHRD_IP6GRE: u32 = 769;

/// Link type: IPv6-in-IPv4 (SIT).
pub const ARPHRD_SIT: u32 = 776;

/// Link type: IP-in-IPv6 tunnel.
pub const ARPHRD_TUNNEL6: u32 = 778;

/// Link type: loopback.
pub const ARPHRD_LOOPBACK: u32 = 772;

/// Link type: raw IP.
pub const ARPHRD_RAWIP: u32 = 65534;

/// Operational state: up.
pub const IF_OPER_UP: u8 = 6;

/// Address family: IPv4.
pub const AF_INET: u8 = 2;

/// Address family: IPv6.
pub const AF_INET6: u8 = 10;

} // verus!
