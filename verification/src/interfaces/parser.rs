//! Parsing interface facts out of sysfs attribute text and rtnetlink payloads.

use vstd::prelude::*;

use super::constants::{
    ARPHRD_ETHER, ARPHRD_IP6GRE, ARPHRD_IPGRE, ARPHRD_LOOPBACK, ARPHRD_PPP, ARPHRD_RAWIP,
    ARPHRD_SIT, ARPHRD_TUNNEL6,
};
use super::error::InterfaceError;
use super::netlink::{
    apply_link_attributes, link_ifindex, link_payload_details, own_address_attribute,
    own_payload_address, read_payload_address,
};
use super::types::{Interface, InterfaceClass, InterfaceDetails, InterfaceKind};
use crate::netlink::parser::parse_ifinfomsg;
use crate::netlink::types::IfAddrMsg;
use crate::text::{chars_of, parse_signed, parse_signed_spec, parse_unsigned, parse_unsigned_spec, trim_chars, trim_spec};

verus! {

/// The kind of link a sysfs `type` value names.
pub open spec fn kind_of(ty: u32) -> InterfaceKind {
    if ty == ARPHRD_ETHER {
        InterfaceKind::Ethernet
    } else if ty == ARPHRD_PPP {
        InterfaceKind::Ppp
    } else if ty == ARPHRD_IPGRE || ty == ARPHRD_IP6GRE || ty == ARPHRD_SIT || ty == ARPHRD_TUNNEL6 {
        InterfaceKind::Tunnel
    } else if ty == ARPHRD_LOOPBACK {
        InterfaceKind::Loopback
    } else if ty == ARPHRD_RAWIP {
        InterfaceKind::RawIp
    } else {
        InterfaceKind::Other(ty)
    }
}

/// The link type number that sysfs `type` text holds: its trimmed text parsed as a `u32`,
/// or 0 when that fails.
pub open spec fn link_type_of(text: Seq<char>) -> u32 {
    match parse_unsigned_spec(trim_spec(text), u32::MAX as int) {
        Some(v) => v as u32,
        None => 0,
    }
}

/// The interface index that sysfs `ifindex` text holds: its trimmed text parsed as an `i32`.
pub open spec fn ifindex_of(text: Seq<char>) -> Option<i32> {
    match parse_signed_spec(trim_spec(text), i32::MIN as int, i32::MAX as int) {
        Some(v) => Some(v as i32),
        None => None,
    }
}

/// The link speed, in Mbit/s, that sysfs `speed` text holds: its trimmed text parsed as a `u64`.
pub open spec fn speed_mbps_of(text: Seq<char>) -> Option<u64> {
    match parse_unsigned_spec(trim_spec(text), u64::MAX as int) {
        Some(v) => Some(v as u64),
        None => None,
    }
}

/// The link speed in bit/s from sysfs `speed` text: Mbit/s times one million.
pub open spec fn speed_bps_of(text: Seq<char>) -> Option<u64> {
    match speed_mbps_of(text) {
        Some(v) => Some((v * 1_000_000) as u64),
        None => None,
    }
}

/// Whether sysfs `speed` text, when it parses, holds a speed whose bit rate fits in a `u64`.
pub open spec fn speed_in_range(text: Seq<char>) -> bool {
    speed_mbps_of(text) matches Some(v) ==> v * 1_000_000 <= u64::MAX
}

/// Maps a link type number to the kind of link.
pub fn interface_kind_of(ty: u32) -> (k: InterfaceKind)
    ensures
        k == kind_of(ty),
{
    if ty == ARPHRD_ETHER {
        InterfaceKind::Ethernet
    } else if ty == ARPHRD_PPP {
        InterfaceKind::Ppp
    } else if ty == ARPHRD_IPGRE || ty == ARPHRD_IP6GRE || ty == ARPHRD_SIT || ty == ARPHRD_TUNNEL6 {
        InterfaceKind::Tunnel
    } else if ty == ARPHRD_LOOPBACK {
        InterfaceKind::Loopback
    } else if ty == ARPHRD_RAWIP {
        InterfaceKind::RawIp
    } else {
        InterfaceKind::Other(ty)
    }
}

/// Parses the interface class: a device when sysfs has a `device` entry for it.
pub fn parse_interface_class(has_device: bool) -> (c: InterfaceClass)
    ensures
        c == (if has_device {
            InterfaceClass::Device
        } else {
            InterfaceClass::Virtual
        }),
{
    if has_device {
        InterfaceClass::Device
    } else {
        InterfaceClass::Virtual
    }
}

/// Parses the text of sysfs `ifindex`.
pub fn parse_interface_index(text: &str) -> (r: Result<i32, InterfaceError>)
    ensures
        r == (match ifindex_of(text@) {
            Some(i) => Ok::<i32, InterfaceError>(i),
            None => Err(InterfaceError::InvalidData),
        }),
{
    let cs = chars_of(text);
    let t = trim_chars(cs.as_slice());
    match parse_signed(t.as_slice(), -2147483648i64, 2147483647i64) {
        Some(v) => Ok(v as i32),
        None => Err(InterfaceError::InvalidData),
    }
}

/// Parses the text of sysfs `type` into the kind of link; text that does not parse counts
/// as type 0.
pub fn parse_interface_kind(text: &str) -> (k: InterfaceKind)
    ensures
        k == kind_of(link_type_of(text@)),
{
    let cs = chars_of(text);
    let t = trim_chars(cs.as_slice());
    let ty: u32 = match parse_unsigned(t.as_slice(), 0xffff_ffffu64) {
        Some(v) => v as u32,
        None => 0,
    };
    interface_kind_of(ty)
}

/// Parses the text of sysfs `speed` (Mbit/s) into bit/s; `None` when the attribute could not
/// be read or does not parse.
pub fn parse_interface_speed(text: Option<&str>) -> (r: Option<u64>)
    requires
        text matches Some(t) ==> speed_in_range(t@),
    ensures
        r == (match text {
            Some(t) => speed_bps_of(t@),
            None => None,
        }),
{
    match text {
        None => None,
        Some(t) => {
            let cs = chars_of(t);
            let tr = trim_chars(cs.as_slice());
            match parse_unsigned(tr.as_slice(), u64::MAX) {
                Some(v) => Some(v * 1_000_000),
                None => None,
            }
        },
    }
}

/// Extracts the interface index from an RTM_NEWLINK payload.
pub fn parse_netlink_ifindex(payload: &[u8]) -> (r: Option<i32>)
    ensures
        r == link_ifindex(payload@),
{
    match parse_ifinfomsg(payload) {
        Some((m, _)) => Some(m.ifi_index),
        None => None,
    }
}

/// Fills an interface's link details from an RTM_NEWLINK payload and returns the payload's
/// interface index; `None`, and no change, for a payload shorter than an ifinfomsg.
pub fn parse_netlink_interface_details(payload: &[u8], interface: &mut Interface) -> (r: Option<i32>)
    ensures
        r == link_ifindex(payload@),
        final(interface).details() == link_payload_details(old(interface).details(), payload@),
        final(interface).sysfs_facts() == old(interface).sysfs_facts(),
        final(interface).addresses@ == old(interface).addresses@,
{
    let (m, attrs) = match parse_ifinfomsg(payload) {
        Some(x) => x,
        None => {
            return None;
        },
    };
    let d = InterfaceDetails {
        mtu: interface.mtu,
        operstate: interface.operstate,
        rx_queues: interface.rx_queues,
        tx_queues: interface.tx_queues,
        xdp_features: interface.xdp_features,
        xdp_attached: interface.xdp_attached,
        xdp_prog_id: interface.xdp_prog_id,
    };
    let r = apply_link_attributes(d, attrs);
    interface.mtu = r.mtu;
    interface.operstate = r.operstate;
    interface.rx_queues = r.rx_queues;
    interface.tx_queues = r.tx_queues;
    interface.xdp_features = r.xdp_features;
    interface.xdp_attached = r.xdp_attached;
    interface.xdp_prog_id = r.xdp_prog_id;
    Some(m.ifi_index)
}

/// Adds to an interface the address an RTM_NEWADDR payload reports, whatever interface the
/// payload names, and returns that payload's interface index; `None`, and no change, when the
/// payload carries no address of its family.
pub fn parse_netlink_interface_address(payload: &[u8], interface: &mut Interface) -> (r: Option<i32>)
    ensures
        r == (match own_payload_address(payload@) {
            Some((idx, _)) => Some(idx),
            None => None::<i32>,
        }),
        final(interface).addresses@ == (match own_payload_address(payload@) {
            Some((_, a)) => old(interface).addresses@.push(a),
            None => old(interface).addresses@,
        }),
        final(interface).details() == old(interface).details(),
        final(interface).sysfs_facts() == old(interface).sysfs_facts(),
{
    let m = match IfAddrMsg::read(payload, 0) {
        Some(m) => m,
        None => {
            return None;
        },
    };
    let target = own_address_attribute(m.ifa_family);
    match read_payload_address(payload, target) {
        Some((idx, a)) => {
            interface.addresses.push(a);
            Some(idx)
        },
        None => None,
    }
}

} // verus!
