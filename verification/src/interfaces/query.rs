//! Reading interfaces out of complete rtnetlink replies.

use std::collections::HashMap;

use vstd::prelude::*;

use super::netlink::{
    extract_netlink_ifindex, link_ifindex, link_payload_details, own_payload_address,
    parse_interface_address, parse_interface_details, parse_netlink_interface_address,
    parse_netlink_interface_details, payload_address,
};
use super::types::{no_details, Interface, InterfaceAddress, InterfaceDetails};
use crate::netlink::constants::{IFA_LOCAL, RTM_NEWADDR, RTM_NEWLINK};
use crate::netlink::parser::{nlmsgs, NlMsgIter};

verus! {

/// The payload of the first RTM_NEWLINK message among `msgs` that names interface `index`.
pub open spec fn first_link_payload(msgs: Seq<(u16, Seq<u8>)>, index: i32) -> Option<Seq<u8>>
    decreases msgs.len(),
{
    if msgs.len() == 0 {
        None
    } else if msgs[0].0 == RTM_NEWLINK && link_ifindex(msgs[0].1) == Some(index) {
        Some(msgs[0].1)
    } else {
        first_link_payload(msgs.drop_first(), index)
    }
}

/// The addresses that the RTM_NEWADDR messages among `msgs` report for interface `index`,
/// in order.
pub open spec fn reply_addresses(msgs: Seq<(u16, Seq<u8>)>, index: i32) -> Seq<InterfaceAddress>
    decreases msgs.len(),
{
    if msgs.len() == 0 {
        Seq::empty()
    } else {
        let rest = reply_addresses(msgs.drop_first(), index);
        if msgs[0].0 == RTM_NEWADDR {
            match own_payload_address(msgs[0].1) {
                Some((idx, a)) => if idx == index {
                    seq![a] + rest
                } else {
                    rest
                },
                None => rest,
            }
        } else {
            rest
        }
    }
}

/// Fills an interface's link details from an RTM_GETLINK reply: the first RTM_NEWLINK message
/// for the interface's index is applied, and the others are ignored.
pub fn apply_link_reply(interface: &mut Interface, reply: &[u8])
    ensures
        final(interface).details() == (match first_link_payload(nlmsgs(reply@), old(interface).index) {
            Some(p) => link_payload_details(old(interface).details(), p),
            None => old(interface).details(),
        }),
        final(interface).sysfs_facts() == old(interface).sysfs_facts(),
        final(interface).addresses@ == old(interface).addresses@,
{
    let mut it = NlMsgIter::new(reply);
    loop
        invariant
            first_link_payload(it.remaining(), interface.index) == first_link_payload(nlmsgs(reply@), old(interface).index),
            interface.details() == old(interface).details(),
            interface.sysfs_facts() == old(interface).sysfs_facts(),
            interface.addresses@ == old(interface).addresses@,
        decreases it.remaining().len(),
    {
        match it.next() {
            None => {
                return;
            },
            Some((t, payload)) => {
                if t == RTM_NEWLINK {
                    match extract_netlink_ifindex(payload) {
                        Some(idx) => {
                            if idx == interface.index {
                                parse_netlink_interface_details(payload, interface);
                                return;
                            }
                        },
                        None => {},
                    }
                }
            },
        }
    }
}

/// Adds to an interface the addresses an RTM_GETADDR reply reports for its index, in order.
pub fn apply_addr_reply(interface: &mut Interface, reply: &[u8])
    ensures
        final(interface).addresses@ == old(interface).addresses@ + reply_addresses(nlmsgs(reply@), old(interface).index),
        final(interface).details() == old(interface).details(),
        final(interface).sysfs_facts() == old(interface).sysfs_facts(),
{
    let mut it = NlMsgIter::new(reply);
    loop
        invariant
            interface.addresses@ + reply_addresses(it.remaining(), interface.index)
                == old(interface).addresses@ + reply_addresses(nlmsgs(reply@), old(interface).index),
            interface.index == old(interface).index,
            interface.details() == old(interface).details(),
            interface.sysfs_facts() == old(interface).sysfs_facts(),
        decreases it.remaining().len(),
    {
        let ghost rem = it.remaining();
        let ghost before = interface.addresses@;
        match it.next() {
            None => {
                assert(interface.addresses@ + reply_addresses(it.remaining(), interface.index) =~= interface.addresses@);
                return;
            },
            Some((t, payload)) => {
                if t == RTM_NEWADDR {
                    parse_netlink_interface_address(payload, interface);
                }
                proof {
                    let rest = reply_addresses(rem.drop_first(), interface.index);
                    match own_payload_address(rem[0].1) {
                        Some((idx, a)) => {
                            if t == RTM_NEWADDR && idx == interface.index {
                                assert(before.push(a) + rest =~= before + (seq![a] + rest));
                            }
                        },
                        None => {},
                    }
                }
            },
        }
    }
}

/// The details that the first RTM_NEWLINK message of `msgs` long enough to carry an ifinfomsg
/// reports.
pub open spec fn first_link_details(msgs: Seq<(u16, Seq<u8>)>) -> Option<InterfaceDetails>
    decreases msgs.len(),
{
    if msgs.len() == 0 {
        None
    } else if msgs[0].0 == RTM_NEWLINK && link_ifindex(msgs[0].1) is Some {
        Some(link_payload_details(no_details(), msgs[0].1))
    } else {
        first_link_details(msgs.drop_first())
    }
}

/// Reads the link details out of an RTM_GETLINK reply for one interface.
pub fn get_interface_details(reply: &[u8]) -> (r: Option<InterfaceDetails>)
    ensures
        r == first_link_details(nlmsgs(reply@)),
{
    let mut it = NlMsgIter::new(reply);
    loop
        invariant
            first_link_details(it.remaining()) == first_link_details(nlmsgs(reply@)),
        decreases it.remaining().len(),
    {
        match it.next() {
            None => {
                return None;
            },
            Some((t, payload)) => {
                if t == RTM_NEWLINK {
                    match parse_interface_details(payload) {
                        Some((_, d)) => {
                            return Some(d);
                        },
                        None => {},
                    }
                }
            },
        }
    }
}

/// The IFA_LOCAL addresses that the RTM_NEWADDR messages of `msgs` report for `ifindex`.
pub open spec fn local_addresses(msgs: Seq<(u16, Seq<u8>)>, ifindex: i32) -> Seq<InterfaceAddress>
    decreases msgs.len(),
{
    if msgs.len() == 0 {
        Seq::empty()
    } else {
        let rest = local_addresses(msgs.drop_first(), ifindex);
        if msgs[0].0 == RTM_NEWADDR {
            match payload_address(msgs[0].1, IFA_LOCAL) {
                Some((idx, a)) => if idx == ifindex {
                    seq![a] + rest
                } else {
                    rest
                },
                None => rest,
            }
        } else {
            rest
        }
    }
}

/// Reads the addresses of one interface out of an RTM_GETADDR dump reply.
pub fn get_interface_addresses(reply: &[u8], ifindex: i32) -> (r: Vec<InterfaceAddress>)
    ensures
        r@ == local_addresses(nlmsgs(reply@), ifindex),
{
    let mut out: Vec<InterfaceAddress> = Vec::new();
    let mut it = NlMsgIter::new(reply);
    loop
        invariant
            out@ + local_addresses(it.remaining(), ifindex) == local_addresses(nlmsgs(reply@), ifindex),
        decreases it.remaining().len(),
    {
        let ghost rem = it.remaining();
        let ghost before = out@;
        match it.next() {
            None => {
                assert(out@ + local_addresses(it.remaining(), ifindex) =~= out@);
                return out;
            },
            Some((t, payload)) => {
                if t == RTM_NEWADDR {
                    match parse_interface_address(payload) {
                        Some((idx, a)) => {
                            if idx == ifindex {
                                out.push(a);
                                assert(before.push(a) + local_addresses(rem.drop_first(), ifindex)
                                    =~= before + (seq![a] + local_addresses(rem.drop_first(), ifindex)));
                            }
                        },
                        None => {},
                    }
                }
            },
        }
    }
}

/// The link details of every interface an RTM_GETLINK dump reply describes, keyed by
/// interface index; of several messages for one index the last wins.
pub open spec fn all_link_details(msgs: Seq<(u16, Seq<u8>)>) -> Map<i32, InterfaceDetails>
    decreases msgs.len(),
{
    if msgs.len() == 0 {
        Map::empty()
    } else {
        let m = all_link_details(msgs.drop_last());
        let (t, p) = msgs.last();
        if t == RTM_NEWLINK {
            match link_ifindex(p) {
                Some(i) => m.insert(i, link_payload_details(no_details(), p)),
                None => m,
            }
        } else {
            m
        }
    }
}

/// Reads the link details of all interfaces out of an RTM_GETLINK dump reply.
pub fn get_all_interface_details(reply: &[u8]) -> (r: HashMap<i32, InterfaceDetails>)
    ensures
        r@ == all_link_details(nlmsgs(reply@)),
{
    broadcast use vstd::std_specs::hash::axiom_i32_obeys_hash_table_key_model;
    broadcast use vstd::std_specs::hash::axiom_random_state_builds_valid_hashers;

    let mut map: HashMap<i32, InterfaceDetails> = HashMap::new();
    let mut it = NlMsgIter::new(reply);
    let ghost mut seen: Seq<(u16, Seq<u8>)> = Seq::empty();
    loop
        invariant
            nlmsgs(reply@) == seen + it.remaining(),
            map@ == all_link_details(seen),
        decreases it.remaining().len(),
    {
        let ghost rem = it.remaining();
        match it.next() {
            None => {
                assert(seen + rem =~= seen);
                return map;
            },
            Some((t, payload)) => {
                proof {
                    assert(seen.push(rem[0]).drop_last() =~= seen);
                    assert(seen + rem =~= seen.push(rem[0]) + rem.drop_first());
                    seen = seen.push(rem[0]);
                }
                if t == RTM_NEWLINK {
                    match parse_interface_details(payload) {
                        Some((idx, d)) => {
                            map.insert(idx, d);
                        },
                        None => {},
                    }
                }
            },
        }
    }
}

} // verus!
