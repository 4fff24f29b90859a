//! Listing all interfaces: applying dump replies to every interface and ordering by name.

use vstd::prelude::*;

use super::netlink::{
    extract_netlink_ifindex, link_ifindex, link_payload_details, own_payload_address,
    parse_netlink_interface_address, parse_netlink_interface_details,
};
use super::types::{Interface, InterfaceAddress, InterfaceDetails};
use crate::netlink::constants::{RTM_NEWADDR, RTM_NEWLINK};
use crate::netlink::parser::{nlmsgs, NlMsgIter};
use crate::text::{chars_less, chars_lt, chars_of, lemma_chars_lt_transitive};

verus! {

/// The interface indices of a list of interfaces, in order.
pub open spec fn indices_of(v: Seq<Interface>) -> Seq<i32> {
    Seq::new(v.len(), |j: int| v[j].index)
}

/// The last position holding `idx` in `ixs` (a map built from the list keeps the last entry).
pub open spec fn last_position(ixs: Seq<i32>, idx: i32) -> Option<int>
    decreases ixs.len(),
{
    if ixs.len() == 0 {
        None
    } else if ixs.last() == idx {
        Some(ixs.len() - 1)
    } else {
        last_position(ixs.drop_last(), idx)
    }
}

/// The position a reply message is routed to: the last interface whose index equals the
/// index read from the message's ifinfomsg layout.
pub open spec fn routed_to(ixs: Seq<i32>, payload: Seq<u8>) -> Option<int> {
    match link_ifindex(payload) {
        Some(idx) => last_position(ixs, idx),
        None => None,
    }
}

/// The link details of the interface at position `j` after the RTM_NEWLINK messages `msgs`
/// routed to it, applied in order on top of `d`.
pub open spec fn link_fold(d: InterfaceDetails, msgs: Seq<(u16, Seq<u8>)>, ixs: Seq<i32>, j: int) -> InterfaceDetails
    decreases msgs.len(),
{
    if msgs.len() == 0 {
        d
    } else {
        let d1 = link_fold(d, msgs.drop_last(), ixs, j);
        let (t, p) = msgs.last();
        if t == RTM_NEWLINK && routed_to(ixs, p) == Some(j) {
            link_payload_details(d1, p)
        } else {
            d1
        }
    }
}

/// The addresses of the interface at position `j`, with index `index`, after the RTM_NEWADDR
/// messages `msgs` routed to it: each adds the address it reports when it names `index`.
pub open spec fn addr_fold(a: Seq<InterfaceAddress>, msgs: Seq<(u16, Seq<u8>)>, ixs: Seq<i32>, j: int, index: i32) -> Seq<InterfaceAddress>
    decreases msgs.len(),
{
    if msgs.len() == 0 {
        a
    } else {
        let a1 = addr_fold(a, msgs.drop_last(), ixs, j, index);
        let (t, p) = msgs.last();
        if t == RTM_NEWADDR && routed_to(ixs, p) == Some(j) {
            match own_payload_address(p) {
                Some((idx, x)) => if idx == index {
                    a1.push(x)
                } else {
                    a1
                },
                None => a1,
            }
        } else {
            a1
        }
    }
}

/// Finds the last interface with index `idx`.
pub fn find_last_index(v: &Vec<Interface>, idx: i32) -> (r: Option<usize>)
    ensures
        match r {
            Some(i) => last_position(indices_of(v@), idx) == Some(i as int) && i < v@.len() && v@[i as int].index == idx,
            None => last_position(indices_of(v@), idx) is None,
        },
{
    let mut k = v.len();
    assert(indices_of(v@).take(k as int) =~= indices_of(v@));
    while k > 0
        invariant
            k <= v@.len(),
            last_position(indices_of(v@), idx) == last_position(indices_of(v@).take(k as int), idx),
        decreases k,
    {
        assert(indices_of(v@).take(k as int).drop_last() =~= indices_of(v@).take(k - 1));
        if v[k - 1].index == idx {
            assert(indices_of(v@).take(k as int).last() == idx);
            return Some(k - 1);
        }
        k = k - 1;
    }
    None
}

/// Applies an RTM_GETLINK dump reply to a list of interfaces: each RTM_NEWLINK message goes to
/// the last interface with its index.
pub fn apply_link_dump(ifaces: &mut Vec<Interface>, reply: &[u8])
    ensures
        final(ifaces)@.len() == old(ifaces)@.len(),
        forall|j: int|
            0 <= j < old(ifaces)@.len() ==> {
                &&& (#[trigger] final(ifaces)@[j]).details() == link_fold(
                    old(ifaces)@[j].details(),
                    nlmsgs(reply@),
                    indices_of(old(ifaces)@),
                    j,
                )
                &&& final(ifaces)@[j].sysfs_facts() == old(ifaces)@[j].sysfs_facts()
                &&& final(ifaces)@[j].addresses@ == old(ifaces)@[j].addresses@
            },
{
    let ghost orig = ifaces@;
    let ghost ixs = indices_of(orig);
    let mut it = NlMsgIter::new(reply);
    let ghost mut seen: Seq<(u16, Seq<u8>)> = Seq::empty();
    loop
        invariant
            nlmsgs(reply@) == seen + it.remaining(),
            orig == old(ifaces)@,
            ixs == indices_of(orig),
            ifaces@.len() == orig.len(),
            indices_of(ifaces@) == ixs,
            forall|j: int|
                0 <= j < orig.len() ==> {
                    &&& (#[trigger] ifaces@[j]).details() == link_fold(orig[j].details(), seen, ixs, j)
                    &&& ifaces@[j].sysfs_facts() == orig[j].sysfs_facts()
                    &&& ifaces@[j].addresses@ == orig[j].addresses@
                },
        decreases it.remaining().len(),
    {
        let ghost rem = it.remaining();
        let ghost before = ifaces@;
        match it.next() {
            None => {
                assert(seen + rem =~= seen);
                return;
            },
            Some((t, payload)) => {
                proof {
                    assert(seen.push(rem[0]).drop_last() =~= seen);
                    assert(seen + rem =~= seen.push(rem[0]) + rem.drop_first());
                    seen = seen.push(rem[0]);
                }
                if t == RTM_NEWLINK {
                    match extract_netlink_ifindex(payload) {
                        Some(idx) => {
                            match find_last_index(ifaces, idx) {
                                Some(i) => {
                                    let mut item = ifaces.remove(i);
                                    parse_netlink_interface_details(payload, &mut item);
                                    ifaces.insert(i, item);
                                    assert(ifaces@ =~= before.update(i as int, item));
                                    assert(indices_of(ifaces@) =~= ixs);
                                },
                                None => {},
                            }
                        },
                        None => {},
                    }
                }
                assert forall|j: int| 0 <= j < orig.len() implies (#[trigger] ifaces@[j]).details()
                    == link_fold(orig[j].details(), seen, ixs, j) by {
                    assert(seen.drop_last() == seen.drop_last());
                }
            },
        }
    }
}

/// Applies an RTM_GETADDR dump reply to a list of interfaces: each RTM_NEWADDR message goes to
/// the last interface whose index equals the index read from its ifinfomsg layout, which adds
/// the message's address when it names that interface.
pub fn apply_addr_dump(ifaces: &mut Vec<Interface>, reply: &[u8])
    ensures
        final(ifaces)@.len() == old(ifaces)@.len(),
        forall|j: int|
            0 <= j < old(ifaces)@.len() ==> {
                &&& (#[trigger] final(ifaces)@[j]).addresses@ == addr_fold(
                    old(ifaces)@[j].addresses@,
                    nlmsgs(reply@),
                    indices_of(old(ifaces)@),
                    j,
                    old(ifaces)@[j].index,
                )
                &&& final(ifaces)@[j].sysfs_facts() == old(ifaces)@[j].sysfs_facts()
                &&& final(ifaces)@[j].details() == old(ifaces)@[j].details()
            },
{
    let ghost orig = ifaces@;
    let ghost ixs = indices_of(orig);
    let mut it = NlMsgIter::new(reply);
    let ghost mut seen: Seq<(u16, Seq<u8>)> = Seq::empty();
    loop
        invariant
            nlmsgs(reply@) == seen + it.remaining(),
            orig == old(ifaces)@,
            ixs == indices_of(orig),
            ifaces@.len() == orig.len(),
            indices_of(ifaces@) == ixs,
            forall|j: int|
                0 <= j < orig.len() ==> {
                    &&& (#[trigger] ifaces@[j]).addresses@ == addr_fold(orig[j].addresses@, seen, ixs, j, orig[j].index)
                    &&& ifaces@[j].sysfs_facts() == orig[j].sysfs_facts()
                    &&& ifaces@[j].details() == orig[j].details()
                },
        decreases it.remaining().len(),
    {
        let ghost rem = it.remaining();
        let ghost before = ifaces@;
        match it.next() {
            None => {
                assert(seen + rem =~= seen);
                return;
            },
            Some((t, payload)) => {
                proof {
                    assert(seen.push(rem[0]).drop_last() =~= seen);
                    assert(seen + rem =~= seen.push(rem[0]) + rem.drop_first());
                    seen = seen.push(rem[0]);
                }
                if t == RTM_NEWADDR {
                    match extract_netlink_ifindex(payload) {
                        Some(idx) => {
                            match find_last_index(ifaces, idx) {
                                Some(i) => {
                                    let mut item = ifaces.remove(i);
                                    parse_netlink_interface_address(payload, &mut item);
                                    ifaces.insert(i, item);
                                    assert(ifaces@ =~= before.update(i as int, item));
                                    assert(indices_of(ifaces@) =~= ixs);
                                },
                                None => {},
                            }
                        },
                        None => {},
                    }
                }
                assert forall|j: int| 0 <= j < orig.len() implies (#[trigger] ifaces@[j]).addresses@
                    == addr_fold(orig[j].addresses@, seen, ixs, j, orig[j].index) by {
                    assert(seen.drop_last() == seen.drop_last());
                }
            },
        }
    }
}

/// Whether interfaces are in ascending order of name.
pub open spec fn sorted_by_name(v: Seq<Interface>) -> bool {
    forall|i: int, j: int| 0 <= i < j < v.len() ==> !chars_lt(#[trigger] v[j].name@, #[trigger] v[i].name@)
}

/// Whether `a` sorts before `b` by name.
fn name_less(a: &Interface, b: &Interface) -> (r: bool)
    ensures
        r == chars_lt(a.name@, b.name@),
{
    let x = chars_of(a.name.as_str());
    let y = chars_of(b.name.as_str());
    chars_less(x.as_slice(), y.as_slice())
}

/// Orders interfaces by name (as `str` orders); the result holds the same interfaces.
pub fn sort_by_name(v: Vec<Interface>) -> (r: Vec<Interface>)
    ensures
        sorted_by_name(r@),
        r@.to_multiset() == v@.to_multiset(),
{
    broadcast use vstd::seq_lib::group_to_multiset_ensures;

    let mut rem = v;
    let mut out: Vec<Interface> = Vec::new();
    while rem.len() > 0
        invariant
            out@.to_multiset().add(rem@.to_multiset()) == v@.to_multiset(),
            sorted_by_name(out@),
            forall|i: int, k: int|
                0 <= i < out@.len() && 0 <= k < rem@.len() ==> !chars_lt(
                    #[trigger] rem@[k].name@,
                    #[trigger] out@[i].name@,
                ),
        decreases rem@.len(),
    {
        let mut b: usize = 0;
        let mut k: usize = 1;
        proof {
            crate::text::lemma_chars_lt_irreflexive(rem@[0].name@);
        }
        while k < rem.len()
            invariant
                b < k <= rem@.len(),
                forall|x: int| 0 <= x < k ==> !chars_lt(#[trigger] rem@[x].name@, rem@[b as int].name@),
            decreases rem@.len() - k,
        {
            if name_less(&rem[k], &rem[b]) {
                proof {
                    assert forall|x: int| 0 <= x < k + 1 implies !chars_lt(#[trigger] rem@[x].name@, rem@[k as int].name@) by {
                        if x < k && chars_lt(rem@[x].name@, rem@[k as int].name@) {
                            lemma_chars_lt_transitive(rem@[x].name@, rem@[k as int].name@, rem@[b as int].name@);
                        }
                        if x == k {
                            crate::text::lemma_chars_lt_irreflexive(rem@[k as int].name@);
                        }
                    }
                }
                b = k;
            }
            k = k + 1;
        }
        let ghost old_rem = rem@;
        let ghost old_out = out@;
        let x = rem.remove(b);
        proof {
            assert forall|y: int| 0 <= y < rem@.len() implies !chars_lt(#[trigger] rem@[y].name@, x.name@) by {
                if y < b {
                    assert(rem@[y] == old_rem[y]);
                } else {
                    assert(rem@[y] == old_rem[y + 1]);
                }
            }
        }
        out.push(x);
        proof {
            vstd::seq_lib::to_multiset_remove(old_rem, b as int);
            vstd::seq_lib::to_multiset_build(old_out, x);
            vstd::seq_lib::to_multiset_contains(old_rem, x);
            assert(old_rem[b as int] == x);
            assert(old_rem.to_multiset().count(x) > 0);
            assert(out@.to_multiset().add(rem@.to_multiset()) =~= v@.to_multiset());
            assert forall|i: int, k2: int|
                0 <= i < out@.len() && 0 <= k2 < rem@.len() implies !chars_lt(
                    #[trigger] rem@[k2].name@,
                    #[trigger] out@[i].name@,
                ) by {
                if k2 < b {
                    assert(rem@[k2] == old_rem[k2]);
                } else {
                    assert(rem@[k2] == old_rem[k2 + 1]);
                }
                if i < old_out.len() {
                    assert(out@[i] == old_out[i]);
                }
            }
            assert forall|i: int, j: int| 0 <= i < j < out@.len() implies !chars_lt(#[trigger] out@[j].name@, #[trigger] out@[i].name@) by {
                if j < old_out.len() {
                    assert(out@[i] == old_out[i]);
                    assert(out@[j] == old_out[j]);
                } else {
                    assert(out@[i] == old_out[i]);
                    assert(old_rem[b as int] == x);
                }
            }
        }
    }
    assert(rem@.to_multiset() =~= vstd::multiset::Multiset::empty());
    out
}

/// Completes a listing of interfaces built from sysfs: applies the RTM_GETLINK dump reply, then
/// the RTM_GETADDR dump reply, then orders the interfaces by name.
pub fn complete_interfaces(ifaces: Vec<Interface>, link_reply: &[u8], addr_reply: &[u8]) -> (r: Vec<Interface>)
    ensures
        sorted_by_name(r@),
        exists|mid: Seq<Interface>|
            {
                &&& mid.len() == ifaces@.len()
                &&& r@.to_multiset() == #[trigger] mid.to_multiset()
                &&& forall|j: int|
                    0 <= j < mid.len() ==> {
                        &&& (#[trigger] mid[j]).sysfs_facts() == ifaces@[j].sysfs_facts()
                        &&& mid[j].details() == link_fold(
                            ifaces@[j].details(),
                            nlmsgs(link_reply@),
                            indices_of(ifaces@),
                            j,
                        )
                        &&& mid[j].addresses@ == addr_fold(
                            ifaces@[j].addresses@,
                            nlmsgs(addr_reply@),
                            indices_of(ifaces@),
                            j,
                            ifaces@[j].index,
                        )
                    }
            },
{
    let mut v = ifaces;
    let ghost orig = v@;
    apply_link_dump(&mut v, link_reply);
    let ghost after_link = v@;
    assert(indices_of(after_link) =~= indices_of(orig)) by {
        assert forall|j: int| 0 <= j < orig.len() implies after_link[j].index == orig[j].index by {
            assert(after_link[j].sysfs_facts() == orig[j].sysfs_facts());
        }
    }
    apply_addr_dump(&mut v, addr_reply);
    let ghost mid = v@;
    assert forall|j: int| 0 <= j < mid.len() implies mid[j].index == orig[j].index by {
        assert(mid[j].sysfs_facts() == after_link[j].sysfs_facts());
        assert(after_link[j].sysfs_facts() == orig[j].sysfs_facts());
    }
    let r = sort_by_name(v);
    assert(forall|j: int| 0 <= j < mid.len() ==> (#[trigger] mid[j]).sysfs_facts() == orig[j].sysfs_facts());
    r
}

} // verus!
