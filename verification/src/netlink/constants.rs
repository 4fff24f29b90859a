//! Netlink and rtnetlink protocol constants (linux/netlink.h, linux/rtnetlink.h).

use vstd::prelude::*;

verus! {

/// Generic Netlink message type: error report.
pub const NLMSG_ERROR: u16 = 2;

/// Generic Netlink message type: end of a multipart message.
pub const NLMSG_DONE: u16 = 3;

/// Message flag: this is a request.
pub const NLM_F_REQUEST: u16 = 0x0001;

/// Message flag: part of a multipart message.
pub const NLM_F_MULTI: u16 = 0x0002;

/// Dump flag: return the complete table.
pub const NLM_F_ROOT: u16 = 0x0100;

/// Dump flag: return all matching entries.
pub const NLM_F_MATCH: u16 = 0x0200;

/// Dump flag: `NLM_F_ROOT | NLM_F_MATCH`.
pub const NLM_F_DUMP: u16 = 0x0300;

/// rtnetlink message type: new link.
pub const RTM_NEWLINK: u16 = 16;

/// rtnetlink message type: get link.
pub const RTM_GETLINK: u16 = 18;

/// rtnetlink message type: new address.
pub const RTM_NEWADDR: u16 = 20;

/// rtnetlink message type: get address.
pub const RTM_GETADDR: u16 = 22;

/// ifinfomsg attribute: MTU.
pub const IFLA_MTU: u16 = 4;

/// ifinfomsg attribute: operational state.
pub const IFLA_OPERSTATE: u16 = 16;

/// ifinfomsg attribute: nested XDP attributes.
pub const IFLA_XDP: u16 = 43;

/// ifinfomsg attribute: number of transmit queues.
pub const IFLA_NUM_TX_QUEUES: u16 = 31;

/// ifinfomsg attribute: number of receive queues.
pub const IFLA_NUM_RX_QUEUES: u16 = 32;

/// Nested IFLA_XDP attribute: attachment mode.
pub const IFLA_XDP_ATTACHED: u16 = 2;

/// Nested IFLA_XDP attribute: attached program id.
pub const IFLA_XDP_PROG_ID: u16 = 4;

/// Nested IFLA_XDP attribute: supported XDP features.
pub const IFLA_XDP_FEATURES: u16 = 8;

/// ifaddrmsg attribute: interface address.
pub const IFA_ADDRESS: u16 = 1;

/// ifaddrmsg attribute: local address.
pub const IFA_LOCAL: u16 = 2;

/// XDP attachment: none.
pub const XDP_ATTACHED_NONE: u8 = 0;

/// XDP attachment: driver mode.
pub const XDP_ATTACHED_DRV: u8 = 1;

/// XDP attachment: generic (skb) mode.
pub const XDP_ATTACHED_SKB: u8 = 2;

/// XDP attachment: hardware offload.
pub const XDP_ATTACHED_HW: u8 = 3;

/// XDP attachment: several programs.
pub const XDP_ATTACHED_MULTI: u8 = 4;

/// IFLA_XDP_FEATURES bit: basic XDP.
pub const NETDEV_XDP_ACT_BASIC: u32 = 1;

/// IFLA_XDP_FEATURES bit: AF_XDP zero copy.
pub const NETDEV_XDP_ACT_XSK_ZEROCOPY: u32 = 8;

/// IFLA_XDP_FEATURES bit: scatter-gather receive.
pub const NETDEV_XDP_ACT_RX_SG: u32 = 32;

/// Attribute type flag: nested attribute.
pub const NLA_F_NESTED: u16 = 0x8000;

/// Attribute type flag: payload in network byte order.
pub const NLA_F_NET_BYTEORDER: u16 = 0x4000;

/// Mask that keeps the base attribute type.
pub const NLA_TYPE_MASK: u16 = 0x3fff;

/// Alignment of Netlink messages.
pub const NLMSG_ALIGNTO: usize = 4;

/// Alignment of routing attributes.
pub const RTA_ALIGNTO: usize = 4;

} // verus!
