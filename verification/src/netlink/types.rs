//! Netlink wire structures and their byte layouts.

use vstd::prelude::*;

use super::bytes::{
    i32_bytes, le_i32, le_u16, le_u32, push_i32, push_u16, push_u32, read_i32, read_u16, read_u32,
    u16_bytes, u32_bytes,
};

verus! {

/// Netlink message header (`struct nlmsghdr`, 16 bytes).
#[derive(Debug, Clone, Copy, PartialEq, Eq, Structural)]
pub struct NlMsgHdr {
    pub nlmsg_len: u32,
    pub nlmsg_type: u16,
    pub nlmsg_flags: u16,
    pub nlmsg_seq: u32,
    pub nlmsg_pid: u32,
}

/// Interface information message (`struct ifinfomsg`, 16 bytes).
#[derive(Debug, Clone, Copy, PartialEq, Eq, Structural)]
pub struct IfInfoMsg {
    pub ifi_family: u8,
    pub ifi_pad: u8,
    pub ifi_type: u16,
    pub ifi_index: i32,
    pub ifi_flags: u32,
    pub ifi_change: u32,
}

/// Interface address message (`struct ifaddrmsg`, 8 bytes).
#[derive(Debug, Clone, Copy, PartialEq, Eq, Structural)]
pub struct IfAddrMsg {
    pub ifa_family: u8,
    pub ifa_prefixlen: u8,
    pub ifa_flags: u8,
    pub ifa_scope: u8,
    pub ifa_index: u32,
}

/// Routing attribute header (`struct rtattr`, 4 bytes).
#[derive(Debug, Clone, Copy, PartialEq, Eq, Structural)]
pub struct RtAttr {
    pub rta_len: u16,
    pub rta_type: u16,
}

/// Netlink error message body (`struct nlmsgerr`, its leading error code).
#[derive(Debug, Clone, Copy, PartialEq, Eq, Structural)]
pub struct NlMsgErr {
    pub error: i32,
}

/// Size of `NlMsgHdr` on the wire.
pub const NLMSG_HDR_SIZE: usize = 16;

/// Size of `IfInfoMsg` on the wire.
pub const IFINFOMSG_SIZE: usize = 16;

/// Size of `IfAddrMsg` on the wire.
pub const IFADDRMSG_SIZE: usize = 8;

/// Size of `RtAttr` on the wire.
pub const RTATTR_SIZE: usize = 4;

/// Size of `NlMsgErr` on the wire.
pub const NLMSGERR_SIZE: usize = 4;

/// The header laid out at `pos` of `b`.
pub open spec fn nlmsghdr_at(b: Seq<u8>, pos: int) -> NlMsgHdr {
    NlMsgHdr {
        nlmsg_len: le_u32(b, pos),
        nlmsg_type: le_u16(b, pos + 4),
        nlmsg_flags: le_u16(b, pos + 6),
        nlmsg_seq: le_u32(b, pos + 8),
        nlmsg_pid: le_u32(b, pos + 12),
    }
}

/// The ifinfomsg laid out at `pos` of `b`.
pub open spec fn ifinfomsg_at(b: Seq<u8>, pos: int) -> IfInfoMsg {
    IfInfoMsg {
        ifi_family: b[pos],
        ifi_pad: b[pos + 1],
        ifi_type: le_u16(b, pos + 2),
        ifi_index: le_i32(b, pos + 4),
        ifi_flags: le_u32(b, pos + 8),
        ifi_change: le_u32(b, pos + 12),
    }
}

/// The ifaddrmsg laid out at `pos` of `b`.
pub open spec fn ifaddrmsg_at(b: Seq<u8>, pos: int) -> IfAddrMsg {
    IfAddrMsg {
        ifa_family: b[pos],
        ifa_prefixlen: b[pos + 1],
        ifa_flags: b[pos + 2],
        ifa_scope: b[pos + 3],
        ifa_index: le_u32(b, pos + 4),
    }
}

/// The rtattr laid out at `pos` of `b`.
pub open spec fn rtattr_at(b: Seq<u8>, pos: int) -> RtAttr {
    RtAttr { rta_len: le_u16(b, pos), rta_type: le_u16(b, pos + 2) }
}

/// The bytes of a header.
pub open spec fn nlmsghdr_bytes(h: NlMsgHdr) -> Seq<u8> {
    u32_bytes(h.nlmsg_len) + u16_bytes(h.nlmsg_type) + u16_bytes(h.nlmsg_flags) + u32_bytes(
        h.nlmsg_seq,
    ) + u32_bytes(h.nlmsg_pid)
}

/// The bytes of an ifinfomsg.
pub open spec fn ifinfomsg_bytes(m: IfInfoMsg) -> Seq<u8> {
    seq![m.ifi_family, m.ifi_pad] + u16_bytes(m.ifi_type) + i32_bytes(m.ifi_index) + u32_bytes(
        m.ifi_flags,
    ) + u32_bytes(m.ifi_change)
}

/// The bytes of an ifaddrmsg.
pub open spec fn ifaddrmsg_bytes(m: IfAddrMsg) -> Seq<u8> {
    seq![m.ifa_family, m.ifa_prefixlen, m.ifa_flags, m.ifa_scope] + u32_bytes(m.ifa_index)
}

impl NlMsgHdr {
    /// Reads a header at `pos`, or `None` when fewer than 16 bytes remain there.
    pub fn read(b: &[u8], pos: usize) -> (r: Option<NlMsgHdr>)
        ensures
            r == (if pos + 16 <= b@.len() {
                Some(nlmsghdr_at(b@, pos as int))
            } else {
                None::<NlMsgHdr>
            }),
    {
        if pos > b.len() || b.len() - pos < 16 {
            return None;
        }
        Some(
            NlMsgHdr {
                nlmsg_len: read_u32(b, pos),
                nlmsg_type: read_u16(b, pos + 4),
                nlmsg_flags: read_u16(b, pos + 6),
                nlmsg_seq: read_u32(b, pos + 8),
                nlmsg_pid: read_u32(b, pos + 12),
            },
        )
    }

    /// Appends the header's bytes.
    pub fn write(&self, v: &mut Vec<u8>)
        ensures
            final(v)@ == old(v)@ + nlmsghdr_bytes(*self),
    {
        push_u32(v, self.nlmsg_len);
        push_u16(v, self.nlmsg_type);
        push_u16(v, self.nlmsg_flags);
        push_u32(v, self.nlmsg_seq);
        push_u32(v, self.nlmsg_pid);
        assert(v@ =~= old(v)@ + nlmsghdr_bytes(*self));
    }
}

impl IfInfoMsg {
    /// Reads an ifinfomsg at `pos`, or `None` when fewer than 16 bytes remain there.
    pub fn read(b: &[u8], pos: usize) -> (r: Option<IfInfoMsg>)
        ensures
            r == (if pos + 16 <= b@.len() {
                Some(ifinfomsg_at(b@, pos as int))
            } else {
                None::<IfInfoMsg>
            }),
    {
        if pos > b.len() || b.len() - pos < 16 {
            return None;
        }
        Some(
            IfInfoMsg {
                ifi_family: b[pos],
                ifi_pad: b[pos + 1],
                ifi_type: read_u16(b, pos + 2),
                ifi_index: read_i32(b, pos + 4),
                ifi_flags: read_u32(b, pos + 8),
                ifi_change: read_u32(b, pos + 12),
            },
        )
    }

    /// Appends the ifinfomsg's bytes.
    pub fn write(&self, v: &mut Vec<u8>)
        ensures
            final(v)@ == old(v)@ + ifinfomsg_bytes(*self),
    {
        v.push(self.ifi_family);
        v.push(self.ifi_pad);
        push_u16(v, self.ifi_type);
        push_i32(v, self.ifi_index);
        push_u32(v, self.ifi_flags);
        push_u32(v, self.ifi_change);
        assert(v@ =~= old(v)@ + ifinfomsg_bytes(*self));
    }
}

impl IfAddrMsg {
    /// Reads an ifaddrmsg at `pos`, or `None` when fewer than 8 bytes remain there.
    pub fn read(b: &[u8], pos: usize) -> (r: Option<IfAddrMsg>)
        ensures
            r == (if pos + 8 <= b@.len() {
                Some(ifaddrmsg_at(b@, pos as int))
            } else {
                None::<IfAddrMsg>
            }),
    {
        if pos > b.len() || b.len() - pos < 8 {
            return None;
        }
        Some(
            IfAddrMsg {
                ifa_family: b[pos],
                ifa_prefixlen: b[pos + 1],
                ifa_flags: b[pos + 2],
                ifa_scope: b[pos + 3],
                ifa_index: read_u32(b, pos + 4),
            },
        )
    }

    /// Appends the ifaddrmsg's bytes.
    pub fn write(&self, v: &mut Vec<u8>)
        ensures
            final(v)@ == old(v)@ + ifaddrmsg_bytes(*self),
    {
        v.push(self.ifa_family);
        v.push(self.ifa_prefixlen);
        v.push(self.ifa_flags);
        v.push(self.ifa_scope);
        push_u32(v, self.ifa_index);
        assert(v@ =~= old(v)@ + ifaddrmsg_bytes(*self));
    }
}

impl RtAttr {
    /// Reads an rtattr at `pos`, or `None` when fewer than 4 bytes remain there.
    pub fn read(b: &[u8], pos: usize) -> (r: Option<RtAttr>)
        ensures
            r == (if pos + 4 <= b@.len() {
                Some(rtattr_at(b@, pos as int))
            } else {
                None::<RtAttr>
            }),
    {
        if pos > b.len() || b.len() - pos < 4 {
            return None;
        }
        Some(RtAttr { rta_len: read_u16(b, pos), rta_type: read_u16(b, pos + 2) })
    }
}

impl NlMsgErr {
    /// Reads the error code at `pos`, or `None` when fewer than 4 bytes remain there.
    pub fn read(b: &[u8], pos: usize) -> (r: Option<NlMsgErr>)
        ensures
            r == (if pos + 4 <= b@.len() {
                Some(NlMsgErr { error: le_i32(b@, pos as int) })
            } else {
                None::<NlMsgErr>
            }),
    {
        if pos > b.len() || b.len() - pos < 4 {
            return None;
        }
        Some(NlMsgErr { error: read_i32(b, pos) })
    }
}

} // verus!
