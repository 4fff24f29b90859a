//! Reading interface details and addresses out of rtnetlink payloads.

use vstd::prelude::*;

use super::constants::{AF_INET, AF_INET6};
use super::types::{no_details, Interface, InterfaceAddress, InterfaceDetails, IpAddress};
use crate::netlink::bytes::{le_u32, le_u64, read_u32, read_u64};
use crate::netlink::constants::{
    IFA_ADDRESS, IFA_LOCAL, IFLA_MTU, IFLA_NUM_RX_QUEUES, IFLA_NUM_TX_QUEUES, IFLA_OPERSTATE,
    IFLA_XDP, IFLA_XDP_ATTACHED, IFLA_XDP_FEATURES, IFLA_XDP_PROG_ID,
};
use crate::netlink::parser::{parse_ifinfomsg, rtattrs, RtAttrIter};
use crate::netlink::types::{ifaddrmsg_at, ifinfomsg_at, IfAddrMsg};

verus! {

/// `d` after one nested IFLA_XDP attribute of type `t` carrying `data`.
pub open spec fn apply_xdp_attr(d: InterfaceDetails, t: u16, data: Seq<u8>) -> InterfaceDetails {
    if t == IFLA_XDP_FEATURES && data.len() >= 8 {
        InterfaceDetails { xdp_features: Some(le_u64(data, 0)), ..d }
    } else if t == IFLA_XDP_ATTACHED && data.len() > 0 {
        InterfaceDetails { xdp_attached: Some(data[0]), ..d }
    } else if t == IFLA_XDP_PROG_ID && data.len() >= 4 {
        InterfaceDetails { xdp_prog_id: Some(le_u32(data, 0)), ..d }
    } else {
        d
    }
}

/// `d` after the nested IFLA_XDP attributes `attrs`, in order.
pub open spec fn apply_xdp_attrs(d: InterfaceDetails, attrs: Seq<(u16, Seq<u8>)>) -> InterfaceDetails
    decreases attrs.len(),
{
    if attrs.len() == 0 {
        d
    } else {
        apply_xdp_attrs(apply_xdp_attr(d, attrs[0].0, attrs[0].1), attrs.drop_first())
    }
}

/// `d` after one RTM_NEWLINK attribute of type `t` carrying `data`.
pub open spec fn apply_link_attr(d: InterfaceDetails, t: u16, data: Seq<u8>) -> InterfaceDetails {
    if t == IFLA_OPERSTATE && data.len() > 0 {
        InterfaceDetails { operstate: Some(data[0]), ..d }
    } else if t == IFLA_XDP {
        apply_xdp_attrs(d, rtattrs(data))
    } else if t == IFLA_MTU && data.len() >= 4 {
        InterfaceDetails { mtu: Some(le_u32(data, 0)), ..d }
    } else if t == IFLA_NUM_RX_QUEUES && data.len() >= 4 {
        InterfaceDetails { rx_queues: Some(le_u32(data, 0)), ..d }
    } else if t == IFLA_NUM_TX_QUEUES && data.len() >= 4 {
        InterfaceDetails { tx_queues: Some(le_u32(data, 0)), ..d }
    } else {
        d
    }
}

/// `d` after the RTM_NEWLINK attributes `attrs`, in order: later attributes win.
pub open spec fn apply_link_attrs(d: InterfaceDetails, attrs: Seq<(u16, Seq<u8>)>) -> InterfaceDetails
    decreases attrs.len(),
{
    if attrs.len() == 0 {
        d
    } else {
        apply_link_attrs(apply_link_attr(d, attrs[0].0, attrs[0].1), attrs.drop_first())
    }
}

/// The details that an RTM_NEWLINK payload reports on top of `d`: its attributes, after the
/// 16-byte ifinfomsg, applied in order; a payload shorter than an ifinfomsg changes nothing.
pub open spec fn link_payload_details(d: InterfaceDetails, payload: Seq<u8>) -> InterfaceDetails {
    if payload.len() < 16 {
        d
    } else {
        apply_link_attrs(d, rtattrs(payload.skip(16)))
    }
}

fn apply_xdp(d: InterfaceDetails, data: &[u8]) -> (r: InterfaceDetails)
    ensures
        r == apply_xdp_attrs(d, rtattrs(data@)),
{
    let mut cur = d;
    let mut it = RtAttrIter::new(data);
    loop
        invariant
            apply_xdp_attrs(cur, it.remaining()) == apply_xdp_attrs(d, rtattrs(data@)),
        decreases it.remaining().len(),
    {
        let ghost rem = it.remaining();
        match it.next() {
            None => {
                return cur;
            },
            Some((t, x)) => {
                if t == IFLA_XDP_FEATURES && x.len() >= 8 {
                    cur = InterfaceDetails { xdp_features: Some(read_u64(x, 0)), ..cur };
                } else if t == IFLA_XDP_ATTACHED && x.len() > 0 {
                    cur = InterfaceDetails { xdp_attached: Some(x[0]), ..cur };
                } else if t == IFLA_XDP_PROG_ID && x.len() >= 4 {
                    cur = InterfaceDetails { xdp_prog_id: Some(read_u32(x, 0)), ..cur };
                }
            },
        }
    }
}

/// Applies the RTM_NEWLINK attributes laid out in `attrs` to `d`.
pub fn apply_link_attributes(d: InterfaceDetails, attrs: &[u8]) -> (r: InterfaceDetails)
    ensures
        r == apply_link_attrs(d, rtattrs(attrs@)),
{
    let mut cur = d;
    let mut it = RtAttrIter::new(attrs);
    loop
        invariant
            apply_link_attrs(cur, it.remaining()) == apply_link_attrs(d, rtattrs(attrs@)),
        decreases it.remaining().len(),
    {
        match it.next() {
            None => {
                return cur;
            },
            Some((t, x)) => {
                if t == IFLA_OPERSTATE && x.len() > 0 {
                    cur = InterfaceDetails { operstate: Some(x[0]), ..cur };
                } else if t == IFLA_XDP {
                    cur = apply_xdp(cur, x);
                } else if t == IFLA_MTU && x.len() >= 4 {
                    cur = InterfaceDetails { mtu: Some(read_u32(x, 0)), ..cur };
                } else if t == IFLA_NUM_RX_QUEUES && x.len() >= 4 {
                    cur = InterfaceDetails { rx_queues: Some(read_u32(x, 0)), ..cur };
                } else if t == IFLA_NUM_TX_QUEUES && x.len() >= 4 {
                    cur = InterfaceDetails { tx_queues: Some(read_u32(x, 0)), ..cur };
                }
            },
        }
    }
}

} // verus!

verus! {

/// The big-endian value of a byte string.
pub open spec fn be_value(s: Seq<u8>) -> nat
    decreases s.len(),
{
    if s.len() == 0 {
        0
    } else {
        be_value(s.drop_last()) * 256 + s.last() as nat
    }
}

/// The address that an attribute of family `family` carries in `data`: IPv4 from four bytes,
/// IPv6 from sixteen; `None` for other families or shorter data.
pub open spec fn address_of(family: u8, data: Seq<u8>) -> Option<IpAddress> {
    if family == AF_INET && data.len() >= 4 {
        Some(IpAddress::V4(be_value(data.take(4)) as u32))
    } else if family == AF_INET6 && data.len() >= 16 {
        Some(IpAddress::V6(be_value(data.take(16)) as u128))
    } else {
        None
    }
}

/// The first address carried by an attribute of type `target` among `attrs`.
pub open spec fn first_address(family: u8, target: u16, attrs: Seq<(u16, Seq<u8>)>) -> Option<IpAddress>
    decreases attrs.len(),
{
    if attrs.len() == 0 {
        None
    } else if attrs[0].0 == target && address_of(family, attrs[0].1) is Some {
        address_of(family, attrs[0].1)
    } else {
        first_address(family, target, attrs.drop_first())
    }
}

/// The attribute that holds an interface's own address: IFA_ADDRESS for IPv6, IFA_LOCAL
/// otherwise.
pub open spec fn own_address_attr(family: u8) -> u16 {
    if family == AF_INET6 {
        IFA_ADDRESS
    } else {
        IFA_LOCAL
    }
}

/// `256` to the power `n`.
pub open spec fn pow256(n: nat) -> nat
    decreases n,
{
    if n == 0 {
        1
    } else {
        256 * pow256((n - 1) as nat)
    }
}

fn be_u32(d: &[u8]) -> (r: u32)
    requires
        d@.len() >= 4,
    ensures
        r as nat == be_value(d@.take(4)),
{
    let mut acc: u64 = 0;
    let mut i: usize = 0;
    while i < 4
        invariant
            i <= 4 <= d@.len(),
            acc as nat == be_value(d@.take(i as int)),
            acc < pow256(i as nat),
        decreases 4 - i,
    {
        proof {
            assert(d@.take(i + 1).drop_last() =~= d@.take(i as int));
            assert(pow256((i + 1) as nat) == 256 * pow256(i as nat));
            reveal_with_fuel(pow256, 5);
            assert(pow256(4) == 0x1_0000_0000);
        }
        acc = acc * 256 + d[i] as u64;
        i = i + 1;
    }
    proof {
        reveal_with_fuel(pow256, 5);
    }
    acc as u32
}

fn be_u128(d: &[u8]) -> (r: u128)
    requires
        d@.len() >= 16,
    ensures
        r as nat == be_value(d@.take(16)),
{
    let mut acc: u128 = 0;
    let mut i: usize = 0;
    while i < 16
        invariant
            i <= 16 <= d@.len(),
            acc as nat == be_value(d@.take(i as int)),
            acc < pow256(i as nat),
        decreases 16 - i,
    {
        proof {
            assert(d@.take(i + 1).drop_last() =~= d@.take(i as int));
            assert(pow256((i + 1) as nat) == 256 * pow256(i as nat));
            reveal_with_fuel(pow256, 17);
            assert(pow256(16) == 0x1_0000_0000_0000_0000_0000_0000_0000_0000);
        }
        acc = acc * 256 + d[i] as u128;
        i = i + 1;
    }
    acc
}

/// Finds the first address carried by an attribute of type `target` in `attrs`.
fn find_address(attrs: &[u8], family: u8, target: u16) -> (r: Option<IpAddress>)
    ensures
        r == first_address(family, target, rtattrs(attrs@)),
{
    let mut it = RtAttrIter::new(attrs);
    loop
        invariant
            first_address(family, target, it.remaining()) == first_address(family, target, rtattrs(attrs@)),
        decreases it.remaining().len(),
    {
        match it.next() {
            None => {
                return None;
            },
            Some((t, x)) => {
                if t == target {
                    if family == AF_INET && x.len() >= 4 {
                        return Some(IpAddress::V4(be_u32(x)));
                    } else if family == AF_INET6 && x.len() >= 16 {
                        return Some(IpAddress::V6(be_u128(x)));
                    }
                }
            },
        }
    }
}

} // verus!

verus! {

/// The interface index of an RTM_NEWLINK payload, or `None` when it is shorter than an
/// ifinfomsg.
pub open spec fn link_ifindex(payload: Seq<u8>) -> Option<i32> {
    if payload.len() >= 16 {
        Some(ifinfomsg_at(payload, 0).ifi_index)
    } else {
        None
    }
}

/// The interface index of an RTM_NEWADDR payload (the ifaddrmsg index as `i32`), or `None`
/// when it is shorter than an ifaddrmsg.
pub open spec fn addr_ifindex(payload: Seq<u8>) -> Option<i32> {
    if payload.len() >= 8 {
        Some(ifaddrmsg_at(payload, 0).ifa_index as i32)
    } else {
        None
    }
}

/// The address an RTM_NEWADDR payload reports, with the index and prefix length of its
/// ifaddrmsg: the first attribute of type `target` that carries an address of the message's
/// family.
pub open spec fn payload_address(payload: Seq<u8>, target: u16) -> Option<(i32, InterfaceAddress)> {
    if payload.len() < 8 {
        None
    } else {
        let m = ifaddrmsg_at(payload, 0);
        match first_address(m.ifa_family, target, rtattrs(payload.skip(8))) {
            Some(a) => Some((m.ifa_index as i32, InterfaceAddress { addr: a, prefix_len: m.ifa_prefixlen })),
            None => None,
        }
    }
}

/// The address an RTM_NEWADDR payload reports for its own interface: IFA_ADDRESS for IPv6,
/// IFA_LOCAL otherwise.
pub open spec fn own_payload_address(payload: Seq<u8>) -> Option<(i32, InterfaceAddress)> {
    if payload.len() < 8 {
        None
    } else {
        payload_address(payload, own_address_attr(ifaddrmsg_at(payload, 0).ifa_family))
    }
}

/// An interface's own address is read from IFA_ADDRESS (type 1) for IPv6 and from IFA_LOCAL
/// (type 2) for IPv4: for any RTM_NEWADDR payload, the address kept is the first address of the
/// message's family in an attribute of that type, with the message's index and prefix length.
/// In particular, an IPv6 payload whose first attribute is an IFA_ADDRESS of sixteen bytes gives
/// those bytes as the address, and an IPv4 payload whose first attribute is an IFA_LOCAL of four
/// bytes gives those.
pub proof fn lemma_own_address_attribute_by_family(payload: Seq<u8>)
    requires
        payload.len() >= 8,
    ensures
        IFA_ADDRESS == 1 && IFA_LOCAL == 2 && AF_INET6 == 10 && AF_INET == 2,
        payload[0] == AF_INET6 ==> own_payload_address(payload) == payload_address(payload, 1),
        payload[0] == AF_INET ==> own_payload_address(payload) == payload_address(payload, 2),
        ({
            let m = ifaddrmsg_at(payload, 0);
            let attrs = rtattrs(payload.skip(8));
            &&& payload[0] == AF_INET6 && attrs.len() > 0 && attrs[0].0 == 1 && attrs[0].1.len() >= 16 ==>
                own_payload_address(payload) == Some((m.ifa_index as i32, InterfaceAddress {
                    addr: IpAddress::V6(be_value(attrs[0].1.take(16)) as u128),
                    prefix_len: payload[1],
                }))
            &&& payload[0] == AF_INET && attrs.len() > 0 && attrs[0].0 == 2 && attrs[0].1.len() >= 4 ==>
                own_payload_address(payload) == Some((m.ifa_index as i32, InterfaceAddress {
                    addr: IpAddress::V4(be_value(attrs[0].1.take(4)) as u32),
                    prefix_len: payload[1],
                }))
        }),
{
}

/// Reads the address that an RTM_NEWADDR payload carries in attributes of type `target`.
pub fn read_payload_address(payload: &[u8], target: u16) -> (r: Option<(i32, InterfaceAddress)>)
    ensures
        r == payload_address(payload@, target),
{
    let m = match IfAddrMsg::read(payload, 0) {
        Some(m) => m,
        None => {
            return None;
        },
    };
    let attrs = &payload[8..payload.len()];
    assert(attrs@ =~= payload@.skip(8));
    match find_address(attrs, m.ifa_family, target) {
        Some(a) => Some((m.ifa_index as i32, InterfaceAddress { addr: a, prefix_len: m.ifa_prefixlen })),
        None => None,
    }
}

/// The family-dependent attribute that holds an interface's own address.
pub fn own_address_attribute(family: u8) -> (r: u16)
    ensures
        r == own_address_attr(family),
{
    if family == AF_INET6 {
        IFA_ADDRESS
    } else {
        IFA_LOCAL
    }
}

/// Extracts the interface index from an RTM_NEWLINK payload.
pub fn extract_netlink_ifindex(payload: &[u8]) -> (r: Option<i32>)
    ensures
        r == link_ifindex(payload@),
{
    match parse_ifinfomsg(payload) {
        Some((m, _)) => Some(m.ifi_index),
        None => None,
    }
}

/// Extracts the interface index from an RTM_NEWADDR payload.
pub fn extract_netlink_addr_ifindex(payload: &[u8]) -> (r: Option<i32>)
    ensures
        r == addr_ifindex(payload@),
{
    match IfAddrMsg::read(payload, 0) {
        Some(m) => Some(m.ifa_index as i32),
        None => None,
    }
}

/// Fills an interface's link details from an RTM_NEWLINK payload; its sysfs facts and
/// addresses stay as they were.
pub fn parse_netlink_interface_details(payload: &[u8], interface: &mut Interface)
    ensures
        final(interface).details() == link_payload_details(old(interface).details(), payload@),
        final(interface).sysfs_facts() == old(interface).sysfs_facts(),
        final(interface).addresses@ == old(interface).addresses@,
{
    let attrs = match parse_ifinfomsg(payload) {
        Some((_, a)) => a,
        None => {
            return;
        },
    };
    let d = InterfaceDetails {
        mtu: interface.mtu,
        operstate: interface.operstate,
        rx_queues: interface.rx_queues,
        tx_queues: interface.tx_queues,
        xdp_features: interface.xdp_features,
        xdp_attached: interface.xdp_attached,
        xdp_prog_id: interface.xdp_prog_id,
    };
    let r = apply_link_attributes(d, attrs);
    interface.mtu = r.mtu;
    interface.operstate = r.operstate;
    interface.rx_queues = r.rx_queues;
    interface.tx_queues = r.tx_queues;
    interface.xdp_features = r.xdp_features;
    interface.xdp_attached = r.xdp_attached;
    interface.xdp_prog_id = r.xdp_prog_id;
}

/// Adds to an interface the address that an RTM_NEWADDR payload reports for it: nothing
/// when the payload is for another interface index or carries no address of its family.
pub fn parse_netlink_interface_address(payload: &[u8], interface: &mut Interface)
    ensures
        final(interface).addresses@ == (match own_payload_address(payload@) {
            Some((idx, a)) => if idx == old(interface).index {
                old(interface).addresses@.push(a)
            } else {
                old(interface).addresses@
            },
            None => old(interface).addresses@,
        }),
        final(interface).details() == old(interface).details(),
        final(interface).sysfs_facts() == old(interface).sysfs_facts(),
{
    let m = match IfAddrMsg::read(payload, 0) {
        Some(m) => m,
        None => {
            return;
        },
    };
    if m.ifa_index as i32 != interface.index {
        proof {
            let r = own_payload_address(payload@);
            if r is Some {
                assert(r.unwrap().0 == m.ifa_index as i32);
            }
        }
        return;
    }
    let target = own_address_attribute(m.ifa_family);
    match read_payload_address(payload, target) {
        Some((_, a)) => {
            interface.addresses.push(a);
        },
        None => {},
    }
}

/// Parses an RTM_NEWLINK payload into its interface index and link details.
pub fn parse_interface_details(payload: &[u8]) -> (r: Option<(i32, InterfaceDetails)>)
    ensures
        r == (match link_ifindex(payload@) {
            Some(i) => Some((i, link_payload_details(no_details(), payload@))),
            None => None,
        }),
{
    match parse_ifinfomsg(payload) {
        Some((m, attrs)) => {
            let d = apply_link_attributes(InterfaceDetails::empty(), attrs);
            Some((m.ifi_index, d))
        },
        None => None,
    }
}

/// Parses an RTM_NEWADDR payload into its interface index and the address in its first
/// IFA_LOCAL attribute of the message's family.
pub fn parse_interface_address(payload: &[u8]) -> (r: Option<(i32, InterfaceAddress)>)
    ensures
        r == payload_address(payload@, IFA_LOCAL),
{
    read_payload_address(payload, IFA_LOCAL)
}

} // verus!
