//! Netlink message and attribute parsing.

use vstd::prelude::*;

use super::bytes::le_i32;
use super::constants::{NLA_TYPE_MASK, NLMSG_ALIGNTO, NLMSG_DONE, NLMSG_ERROR, NLM_F_MULTI, RTA_ALIGNTO};
use super::types::{
    nlmsghdr_at, rtattr_at, ifinfomsg_at, IfInfoMsg, NlMsgErr, NlMsgHdr, RtAttr,
};

verus! {

/// `len` rounded up to a multiple of four.
pub open spec fn align4(len: int) -> int {
    ((len + 3) / 4) * 4
}

/// Rounds a message length up to the Netlink alignment of four bytes.
pub fn nlmsg_align(len: usize) -> (r: usize)
    requires
        len <= usize::MAX - 3,
    ensures
        r == align4(len as int),
{
    ((len + (NLMSG_ALIGNTO - 1)) / NLMSG_ALIGNTO) * NLMSG_ALIGNTO
}

/// Rounds an attribute length up to the attribute alignment of four bytes.
pub fn rta_align(len: usize) -> (r: usize)
    requires
        len <= usize::MAX - 3,
    ensures
        r == align4(len as int),
{
    ((len + (RTA_ALIGNTO - 1)) / RTA_ALIGNTO) * RTA_ALIGNTO
}

/// `align4` of a 32-bit length, computed without overflow.
fn align4_u64(len: u32) -> (r: u64)
    ensures
        r == align4(len as int),
{
    let l = len as u64;
    ((l + 3) / 4) * 4
}

/// A length rounded up to four is the least multiple of four not below it: it grows by at most
/// three, and rounding it again leaves it as it is.
pub proof fn lemma_align4_bounds(len: int)
    requires
        len >= 0,
    ensures
        len <= align4(len) <= len + 3,
        align4(len) % 4 == 0,
        align4(align4(len)) == align4(len),
{
    let a = align4(len);
    assert(a % 4 == 0);
    assert(align4(a) == ((a + 3) / 4) * 4);
    assert((a + 3) / 4 == a / 4);
}

/// The message at `pos` of `b`: its type, the bounds of its payload and where the next
/// message begins; `None` when no complete header is there, the header announces the end
/// of a dump, or its length is shorter than a header or runs past the buffer.
pub open spec fn nlmsg_at(b: Seq<u8>, pos: int) -> Option<(u16, int, int, int)> {
    if pos < 0 || pos + 16 > b.len() {
        None
    } else {
        let h = nlmsghdr_at(b, pos);
        if h.nlmsg_type == NLMSG_DONE || h.nlmsg_len < 16 || pos + h.nlmsg_len > b.len() {
            None
        } else {
            Some((h.nlmsg_type, pos + 16, pos + h.nlmsg_len, pos + align4(h.nlmsg_len as int)))
        }
    }
}

/// The messages of `b` from `pos` on, each as its type and payload.
pub open spec fn nlmsgs_from(b: Seq<u8>, pos: int) -> Seq<(u16, Seq<u8>)>
    decreases b.len() - pos,
{
    match nlmsg_at(b, pos) {
        None => Seq::empty(),
        Some((t, s, e, n)) => {
            proof {
                lemma_align4_bounds(nlmsghdr_at(b, pos).nlmsg_len as int);
            }
            seq![(t, b.subrange(s, e))] + (if n <= b.len() {
                nlmsgs_from(b, n)
            } else {
                Seq::empty()
            })
        },
    }
}

/// The messages of a buffer, each as its type and payload.
pub open spec fn nlmsgs(b: Seq<u8>) -> Seq<(u16, Seq<u8>)> {
    nlmsgs_from(b, 0)
}

/// The attribute at `pos` of `b`: its base type, the bounds of its data and where the
/// next attribute begins; `None` when no complete attribute header is there or its length
/// is shorter than a header or runs past the buffer.
pub open spec fn rtattr_at_pos(b: Seq<u8>, pos: int) -> Option<(u16, int, int, int)> {
    if pos < 0 || pos + 4 > b.len() {
        None
    } else {
        let a = rtattr_at(b, pos);
        if a.rta_len < 4 || pos + a.rta_len > b.len() {
            None
        } else {
            Some(
                (
                    (a.rta_type & NLA_TYPE_MASK) as u16,
                    pos + 4,
                    pos + a.rta_len,
                    pos + align4(a.rta_len as int),
                ),
            )
        }
    }
}

/// A buffer walked from `pos` holds at most one message for every sixteen bytes left, so the
/// message walk of a buffer of `n` bytes yields at most `n / 16` messages.
pub proof fn lemma_nlmsgs_count(b: Seq<u8>, pos: int)
    requires
        0 <= pos <= b.len(),
    ensures
        nlmsgs_from(b, pos).len() <= (b.len() - pos) / 16,
    decreases b.len() - pos,
{
    match nlmsg_at(b, pos) {
        None => {},
        Some((t, s, e, n)) => {
            lemma_align4_bounds(nlmsghdr_at(b, pos).nlmsg_len as int);
            if n <= b.len() {
                lemma_nlmsgs_count(b, n);
                assert((b.len() - n) / 16 + 1 <= (b.len() - pos) / 16);
            } else {
                assert(1 <= (b.len() - pos) / 16);
            }
        },
    }
}

/// The attributes of `b` from `pos` on, each as its base type and data.
pub open spec fn rtattrs_from(b: Seq<u8>, pos: int) -> Seq<(u16, Seq<u8>)>
    decreases b.len() - pos,
{
    match rtattr_at_pos(b, pos) {
        None => Seq::empty(),
        Some((t, s, e, n)) => {
            proof {
                lemma_align4_bounds(rtattr_at(b, pos).rta_len as int);
            }
            seq![(t, b.subrange(s, e))] + (if n <= b.len() {
                rtattrs_from(b, n)
            } else {
                Seq::empty()
            })
        },
    }
}

/// The attributes of a buffer, each as its base type and data.
pub open spec fn rtattrs(b: Seq<u8>) -> Seq<(u16, Seq<u8>)> {
    rtattrs_from(b, 0)
}

/// Reads the ifinfomsg that starts an RTM_NEWLINK payload, with the attributes after it.
pub fn parse_ifinfomsg(payload: &[u8]) -> (r: Option<(IfInfoMsg, &[u8])>)
    ensures
        match r {
            Some((m, rest)) => payload@.len() >= 16 && m == ifinfomsg_at(payload@, 0)
                && rest@ == payload@.skip(16),
            None => payload@.len() < 16,
        },
{
    match IfInfoMsg::read(payload, 0) {
        Some(m) => {
            let rest = &payload[16..payload.len()];
            assert(rest@ =~= payload@.skip(16));
            Some((m, rest))
        },
        None => None,
    }
}

/// Iterates over the Netlink messages of a buffer.
pub struct NlMsgIter<'a> {
    buf: &'a [u8],
    pos: usize,
}

impl<'a> NlMsgIter<'a> {
    /// The messages not handed out yet.
    pub closed spec fn remaining(&self) -> Seq<(u16, Seq<u8>)> {
        nlmsgs_from(self.buf@, self.pos as int)
    }

    /// Starts at the beginning of `buf`.
    pub fn new(buf: &'a [u8]) -> (it: Self)
        ensures
            it.remaining() == nlmsgs(buf@),
            it.remaining().len() <= buf@.len() / 16,
    {
        proof {
            lemma_nlmsgs_count(buf@, 0);
        }
        Self { buf, pos: 0 }
    }

    /// The next message's type and payload.
    pub fn next(&mut self) -> (r: Option<(u16, &'a [u8])>)
        ensures
            old(self).remaining().len() == 0 ==> r is None && final(self).remaining() == old(
                self,
            ).remaining(),
            old(self).remaining().len() > 0 ==> (r matches Some((t, p)) && t == old(
                self,
            ).remaining()[0].0 && p@ == old(self).remaining()[0].1 && final(self).remaining()
                == old(self).remaining().drop_first()),
    {
        let ghost b = self.buf@;
        let ghost pos = self.pos as int;
        let hdr = match NlMsgHdr::read(self.buf, self.pos) {
            Some(h) => h,
            None => {
                return None;
            },
        };
        if hdr.nlmsg_type == NLMSG_DONE {
            return None;
        }
        let msg_len = hdr.nlmsg_len as usize;
        if msg_len < 16 || msg_len > self.buf.len() - self.pos {
            return None;
        }
        let start = self.pos + 16;
        let end = self.pos + msg_len;
        let payload = &self.buf[start..end];
        let adv = align4_u64(hdr.nlmsg_len);
        let rest = (self.buf.len() - self.pos) as u64;
        if adv > rest {
            self.pos = self.buf.len();
            assert(nlmsgs_from(b, b.len() as int) == Seq::<(u16, Seq<u8>)>::empty());
        } else {
            self.pos = self.pos + adv as usize;
        }
        assert(nlmsgs_from(b, pos).drop_first() =~= nlmsgs_from(b, self.pos as int));
        Some((hdr.nlmsg_type, payload))
    }
}

/// Iterates over the routing attributes of a buffer.
pub struct RtAttrIter<'a> {
    buf: &'a [u8],
    pos: usize,
}

impl<'a> RtAttrIter<'a> {
    /// The attributes not handed out yet.
    pub closed spec fn remaining(&self) -> Seq<(u16, Seq<u8>)> {
        rtattrs_from(self.buf@, self.pos as int)
    }

    /// Starts at the beginning of `buf`.
    pub fn new(buf: &'a [u8]) -> (it: Self)
        ensures
            it.remaining() == rtattrs(buf@),
    {
        Self { buf, pos: 0 }
    }

    /// The next attribute's base type and data.
    pub fn next(&mut self) -> (r: Option<(u16, &'a [u8])>)
        ensures
            old(self).remaining().len() == 0 ==> r is None && final(self).remaining() == old(
                self,
            ).remaining(),
            old(self).remaining().len() > 0 ==> (r matches Some((t, p)) && t == old(
                self,
            ).remaining()[0].0 && p@ == old(self).remaining()[0].1 && final(self).remaining()
                == old(self).remaining().drop_first()),
    {
        let ghost b = self.buf@;
        let ghost pos = self.pos as int;
        let attr = match RtAttr::read(self.buf, self.pos) {
            Some(a) => a,
            None => {
                return None;
            },
        };
        let attr_len = attr.rta_len as usize;
        if attr_len < 4 || attr_len > self.buf.len() - self.pos {
            return None;
        }
        let start = self.pos + 4;
        let end = self.pos + attr_len;
        let data = &self.buf[start..end];
        let adv = align4_u64(attr.rta_len as u32);
        let rest = (self.buf.len() - self.pos) as u64;
        if adv > rest {
            self.pos = self.buf.len();
            assert(rtattrs_from(b, b.len() as int) == Seq::<(u16, Seq<u8>)>::empty());
        } else {
            self.pos = self.pos + adv as usize;
        }
        assert(rtattrs_from(b, pos).drop_first() =~= rtattrs_from(b, self.pos as int));
        Some((attr.rta_type & NLA_TYPE_MASK, data))
    }
}

/// The error code of a buffer that starts with an NLMSG_ERROR message carrying a non-zero
/// code; `None` for any other buffer (zero is an acknowledgement).
pub open spec fn nlmsg_error_spec(b: Seq<u8>) -> Option<i32> {
    if b.len() < 20 || nlmsghdr_at(b, 0).nlmsg_type != NLMSG_ERROR || le_i32(b, 16) == 0 {
        None
    } else {
        Some(le_i32(b, 16))
    }
}

/// Returns the error code if the buffer starts with a failed NLMSG_ERROR message.
pub fn parse_nlmsg_error(buf: &[u8]) -> (r: Option<i32>)
    ensures
        r == nlmsg_error_spec(buf@),
{
    let hdr = match NlMsgHdr::read(buf, 0) {
        Some(h) => h,
        None => {
            return None;
        },
    };
    if hdr.nlmsg_type != NLMSG_ERROR {
        return None;
    }
    let err = match NlMsgErr::read(buf, 16) {
        Some(e) => e,
        None => {
            return None;
        },
    };
    if err.error != 0 {
        Some(err.error)
    } else {
        None
    }
}

/// Whether a received chunk ends the reply, walking headers from `pos`: a header of type
/// NLMSG_DONE or NLMSG_ERROR, one without the multipart flag, or one shorter than a header
/// ends it; running out of complete headers does not.
pub open spec fn recv_done_from(b: Seq<u8>, pos: int) -> bool
    decreases b.len() - pos,
{
    if pos < 0 || pos + 16 > b.len() {
        false
    } else {
        let h = nlmsghdr_at(b, pos);
        if h.nlmsg_type == NLMSG_DONE || h.nlmsg_type == NLMSG_ERROR {
            true
        } else if h.nlmsg_flags & NLM_F_MULTI == 0 {
            true
        } else if h.nlmsg_len < 16 {
            true
        } else {
            let n = pos + align4(h.nlmsg_len as int);
            if n + 16 > b.len() {
                false
            } else {
                recv_done_from(b, n)
            }
        }
    }
}

/// Returns true if the chunk contains the end of the reply.
pub fn recv_is_done(buf: &[u8]) -> (r: bool)
    ensures
        r == recv_done_from(buf@, 0),
{
    let mut pos: usize = 0;
    loop
        invariant
            pos + 16 <= buf@.len() ==> recv_done_from(buf@, 0) == recv_done_from(buf@, pos as int),
            pos + 16 > buf@.len() ==> !recv_done_from(buf@, 0),
        decreases buf@.len() - pos,
    {
        let hdr = match NlMsgHdr::read(buf, pos) {
            Some(h) => h,
            None => {
                return false;
            },
        };
        if hdr.nlmsg_type == NLMSG_DONE || hdr.nlmsg_type == NLMSG_ERROR {
            return true;
        }
        if hdr.nlmsg_flags & NLM_F_MULTI == 0 {
            return true;
        }
        let msg_len = hdr.nlmsg_len;
        if msg_len < 16 {
            return true;
        }
        let adv = align4_u64(msg_len);
        let rest = (buf.len() - pos) as u64;
        if adv >= rest || rest - adv < 16 {
            return false;
        }
        pos = pos + adv as usize;
    }
}

} // verus!
