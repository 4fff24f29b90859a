//! Building rtnetlink requests.

use vstd::prelude::*;

use super::bytes::{i32_bytes, lemma_i32_roundtrip, lemma_u16_roundtrip, lemma_u32_roundtrip, u16_bytes, u32_bytes};
use super::constants::{NLMSG_DONE, NLM_F_DUMP, NLM_F_REQUEST, RTM_GETADDR, RTM_GETLINK};
use super::parser::{nlmsgs, nlmsgs_from};
use super::types::{
    ifaddrmsg_bytes, ifinfomsg_at, ifinfomsg_bytes, nlmsghdr_at, nlmsghdr_bytes,
    IfAddrMsg, IfInfoMsg, NlMsgHdr,
};

verus! {

/// The header of a request of type `t` with flags `flags`, sequence number `seq`, port id 0
/// and a body of `body_len` bytes.
pub open spec fn request_header(t: u16, flags: u16, body_len: nat, seq: u32) -> NlMsgHdr {
    NlMsgHdr {
        nlmsg_len: (16 + body_len) as u32,
        nlmsg_type: t,
        nlmsg_flags: flags,
        nlmsg_seq: seq,
        nlmsg_pid: 0,
    }
}

/// The bytes of a request: its header followed by its body.
pub open spec fn request_bytes(t: u16, flags: u16, body: Seq<u8>, seq: u32) -> Seq<u8> {
    nlmsghdr_bytes(request_header(t, flags, body.len(), seq)) + body
}

/// The ifinfomsg of a link request for `ifindex`.
pub open spec fn link_query(ifindex: i32) -> IfInfoMsg {
    IfInfoMsg {
        ifi_family: 0,
        ifi_pad: 0,
        ifi_type: 0,
        ifi_index: ifindex,
        ifi_flags: 0,
        ifi_change: 0,
    }
}

/// The ifaddrmsg of an address dump request.
pub open spec fn addr_query() -> IfAddrMsg {
    IfAddrMsg { ifa_family: 0, ifa_prefixlen: 0, ifa_flags: 0, ifa_scope: 0, ifa_index: 0 }
}

/// Builds a raw Netlink request from a header and a body.
fn build(nlmsg_type: u16, nlmsg_flags: u16, body: &[u8], seq: u32) -> (r: Vec<u8>)
    requires
        body@.len() <= 16,
    ensures
        r@ == request_bytes(nlmsg_type, nlmsg_flags, body@, seq),
{
    let nlmsg_len = (16 + body.len()) as u32;
    let header = NlMsgHdr { nlmsg_len, nlmsg_type, nlmsg_flags, nlmsg_seq: seq, nlmsg_pid: 0 };
    let mut buf: Vec<u8> = Vec::with_capacity(nlmsg_len as usize);
    header.write(&mut buf);
    let mut i: usize = 0;
    while i < body.len()
        invariant
            i <= body@.len(),
            buf@ == nlmsghdr_bytes(header) + body@.take(i as int),
        decreases body@.len() - i,
    {
        buf.push(body[i]);
        i = i + 1;
        assert(buf@ =~= nlmsghdr_bytes(header) + body@.take(i as int));
    }
    assert(body@.take(body@.len() as int) =~= body@);
    buf
}

/// Builds an RTM_GETLINK request for one interface.
pub fn build_getlink_request(ifindex: i32, seq: u32) -> (r: Vec<u8>)
    ensures
        r@ == request_bytes(RTM_GETLINK, NLM_F_REQUEST, ifinfomsg_bytes(link_query(ifindex)), seq),
{
    let body_msg = IfInfoMsg {
        ifi_family: 0,
        ifi_pad: 0,
        ifi_type: 0,
        ifi_index: ifindex,
        ifi_flags: 0,
        ifi_change: 0,
    };
    let mut body: Vec<u8> = Vec::new();
    body_msg.write(&mut body);
    assert(body@ =~= ifinfomsg_bytes(link_query(ifindex)));
    build(RTM_GETLINK, NLM_F_REQUEST, body.as_slice(), seq)
}

/// Builds an RTM_GETLINK dump request for all interfaces.
pub fn build_getlink_dump_request(seq: u32) -> (r: Vec<u8>)
    ensures
        r@ == request_bytes(
            RTM_GETLINK,
            NLM_F_REQUEST | NLM_F_DUMP,
            ifinfomsg_bytes(link_query(0)),
            seq,
        ),
{
    let body_msg = IfInfoMsg {
        ifi_family: 0,
        ifi_pad: 0,
        ifi_type: 0,
        ifi_index: 0,
        ifi_flags: 0,
        ifi_change: 0,
    };
    let mut body: Vec<u8> = Vec::new();
    body_msg.write(&mut body);
    assert(body@ =~= ifinfomsg_bytes(link_query(0)));
    build(RTM_GETLINK, NLM_F_REQUEST | NLM_F_DUMP, body.as_slice(), seq)
}

/// Builds an RTM_GETADDR dump request for all interface addresses.
pub fn build_getaddr_dump_request(seq: u32) -> (r: Vec<u8>)
    ensures
        r@ == request_bytes(
            RTM_GETADDR,
            NLM_F_REQUEST | NLM_F_DUMP,
            ifaddrmsg_bytes(addr_query()),
            seq,
        ),
{
    let body_msg = IfAddrMsg { ifa_family: 0, ifa_prefixlen: 0, ifa_flags: 0, ifa_scope: 0, ifa_index: 0 };
    let mut body: Vec<u8> = Vec::new();
    body_msg.write(&mut body);
    assert(body@ =~= ifaddrmsg_bytes(addr_query()));
    build(RTM_GETADDR, NLM_F_REQUEST | NLM_F_DUMP, body.as_slice(), seq)
}

/// A built request reads back as its own header and, for any type but NLMSG_DONE, as a single
/// message of that type whose payload is the body.
pub proof fn lemma_request_roundtrip(t: u16, flags: u16, body: Seq<u8>, seq: u32)
    requires
        body.len() <= 16,
    ensures
        nlmsghdr_at(request_bytes(t, flags, body, seq), 0) == request_header(t, flags, body.len(), seq),
        t != NLMSG_DONE ==> nlmsgs(request_bytes(t, flags, body, seq)) == seq![(t, body)],
{
    let h = request_header(t, flags, body.len(), seq);
    let b = request_bytes(t, flags, body, seq);
    assert(b.subrange(0, 4) =~= u32_bytes(h.nlmsg_len));
    assert(b.subrange(4, 6) =~= u16_bytes(h.nlmsg_type));
    assert(b.subrange(6, 8) =~= u16_bytes(h.nlmsg_flags));
    assert(b.subrange(8, 12) =~= u32_bytes(h.nlmsg_seq));
    assert(b.subrange(12, 16) =~= u32_bytes(h.nlmsg_pid));
    lemma_u32_roundtrip(h.nlmsg_len, b, 0);
    lemma_u16_roundtrip(h.nlmsg_type, b, 4);
    lemma_u16_roundtrip(h.nlmsg_flags, b, 6);
    lemma_u32_roundtrip(h.nlmsg_seq, b, 8);
    lemma_u32_roundtrip(h.nlmsg_pid, b, 12);
    assert(nlmsghdr_at(b, 0) == h);
    if t != NLMSG_DONE {
        assert(b.len() == 16 + body.len());
        assert(b.subrange(16, b.len() as int) =~= body);
        let n: int = ((b.len() as int + 3) / 4) * 4;
        if n <= b.len() {
            assert(nlmsgs_from(b, n) == Seq::<(u16, Seq<u8>)>::empty());
        }
        assert(nlmsgs(b) =~= seq![(t, body)]);
    }
}

/// The ifinfomsg of a request for `ifindex` reads back with that index.
pub proof fn lemma_link_query_roundtrip(ifindex: i32)
    ensures
        ifinfomsg_at(ifinfomsg_bytes(link_query(ifindex)), 0) == link_query(ifindex),
{
    let m = link_query(ifindex);
    let b = ifinfomsg_bytes(m);
    assert(b.subrange(2, 4) =~= u16_bytes(m.ifi_type));
    assert(b.subrange(4, 8) =~= i32_bytes(m.ifi_index));
    assert(b.subrange(8, 12) =~= u32_bytes(m.ifi_flags));
    assert(b.subrange(12, 16) =~= u32_bytes(m.ifi_change));
    lemma_u16_roundtrip(m.ifi_type, b, 2);
    lemma_i32_roundtrip(m.ifi_index, b, 4);
    lemma_u32_roundtrip(m.ifi_flags, b, 8);
    lemma_u32_roundtrip(m.ifi_change, b, 12);
}

/// An RTM_GETLINK request built for an interface parses back as one RTM_GETLINK message whose
/// ifinfomsg names that interface.
pub proof fn lemma_getlink_request_roundtrip(ifindex: i32, seq: u32)
    ensures
        nlmsgs(request_bytes(RTM_GETLINK, NLM_F_REQUEST, ifinfomsg_bytes(link_query(ifindex)), seq))
            == seq![(RTM_GETLINK, ifinfomsg_bytes(link_query(ifindex)))],
        ifinfomsg_at(ifinfomsg_bytes(link_query(ifindex)), 0).ifi_index == ifindex,
{
    lemma_request_roundtrip(RTM_GETLINK, NLM_F_REQUEST, ifinfomsg_bytes(link_query(ifindex)), seq);
    lemma_link_query_roundtrip(ifindex);
}

} // verus!
