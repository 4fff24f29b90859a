//! Per-stream statistics and their totals.

use vstd::prelude::*;

verus! {

/// What one TCP stream measured.
#[derive(Debug, Clone, Copy, PartialEq, Eq, Structural)]
pub struct TcpStreamStats {
    pub stream_id: u16,
    pub bytes_sent: u64,
    pub bytes_received: u64,
    pub duration_ns: u64,
}

/// What one UDP stream measured.
#[derive(Debug, Clone, Copy, PartialEq, Eq, Structural)]
pub struct UdpStreamStats {
    pub stream_id: u16,
    pub bytes_sent: u64,
    pub bytes_received: u64,
    pub packets_sent: u64,
    pub packets_recv: u64,
    pub packets_lost: u64,
    pub packets_out_of_order: u64,
    pub packets_duplicate: u64,
    /// Interarrival jitter (RFC 3550), in milliseconds.
    pub jitter_rfc3550_ms: u64,
    pub duration_ns: u64,
}

/// The bytes a TCP stream counts for one end: sent by the sender, received by the receiver.
pub open spec fn tcp_bytes(s: TcpStreamStats, is_sender: bool) -> u64 {
    if is_sender {
        s.bytes_sent
    } else {
        s.bytes_received
    }
}

/// The bytes of all streams, for one end.
pub open spec fn tcp_bytes_total(stats: Seq<TcpStreamStats>, is_sender: bool) -> nat
    decreases stats.len(),
{
    if stats.len() == 0 {
        0
    } else {
        tcp_bytes_total(stats.drop_last(), is_sender) + tcp_bytes(stats.last(), is_sender) as nat
    }
}

/// The longest stream duration (0 for no stream).
pub open spec fn tcp_max_duration(stats: Seq<TcpStreamStats>) -> u64
    decreases stats.len(),
{
    if stats.len() == 0 {
        0
    } else {
        let m = tcp_max_duration(stats.drop_last());
        if stats.last().duration_ns > m {
            stats.last().duration_ns
        } else {
            m
        }
    }
}

/// Totals over the TCP streams of one end.
#[derive(Debug, Clone, Copy, PartialEq, Eq, Structural)]
pub struct TcpTotals {
    pub bytes: u64,
    pub max_duration_ns: u64,
}

/// Adds up the bytes of all streams (sent by the sender, received by the receiver) and finds
/// the longest duration.
pub fn tcp_totals(stats: &[TcpStreamStats], is_sender: bool) -> (r: TcpTotals)
    requires
        tcp_bytes_total(stats@, is_sender) <= u64::MAX,
    ensures
        r.bytes == tcp_bytes_total(stats@, is_sender),
        r.max_duration_ns == tcp_max_duration(stats@),
{
    let mut bytes: u64 = 0;
    let mut max: u64 = 0;
    let mut i: usize = 0;
    while i < stats.len()
        invariant
            i <= stats@.len(),
            tcp_bytes_total(stats@, is_sender) <= u64::MAX,
            bytes == tcp_bytes_total(stats@.take(i as int), is_sender),
            max == tcp_max_duration(stats@.take(i as int)),
        decreases stats@.len() - i,
    {
        proof {
            assert(stats@.take(i + 1).drop_last() =~= stats@.take(i as int));
            lemma_tcp_total_prefix(stats@, is_sender, i + 1);
        }
        let s = stats[i];
        bytes = bytes + if is_sender { s.bytes_sent } else { s.bytes_received };
        if s.duration_ns > max {
            max = s.duration_ns;
        }
        i = i + 1;
    }
    assert(stats@.take(stats@.len() as int) =~= stats@);
    TcpTotals { bytes, max_duration_ns: max }
}

/// A prefix never adds up to more bytes than the whole.
pub proof fn lemma_tcp_total_prefix(stats: Seq<TcpStreamStats>, is_sender: bool, n: int)
    requires
        0 <= n <= stats.len(),
    ensures
        tcp_bytes_total(stats.take(n), is_sender) <= tcp_bytes_total(stats, is_sender),
    decreases stats.len() - n,
{
    if n < stats.len() {
        lemma_tcp_total_prefix(stats, is_sender, n + 1);
        assert(stats.take(n + 1).drop_last() =~= stats.take(n));
    } else {
        assert(stats.take(n) =~= stats);
    }
}

/// The longest duration is at least that of every stream, and is that of some stream when there
/// is one.
pub proof fn lemma_tcp_max_duration(stats: Seq<TcpStreamStats>)
    ensures
        forall|i: int| 0 <= i < stats.len() ==> (#[trigger] stats[i]).duration_ns <= tcp_max_duration(stats),
        stats.len() > 0 ==> exists|i: int| 0 <= i < stats.len() && (#[trigger] stats[i]).duration_ns == tcp_max_duration(stats),
    decreases stats.len(),
{
    if stats.len() > 0 {
        let p = stats.drop_last();
        lemma_tcp_max_duration(p);
        assert forall|i: int| 0 <= i < stats.len() implies (#[trigger] stats[i]).duration_ns <= tcp_max_duration(stats) by {
            if i < stats.len() - 1 {
                assert(stats[i] == p[i]);
            }
        }
        if p.len() > 0 && tcp_max_duration(stats) == tcp_max_duration(p) {
            let j = choose|j: int| 0 <= j < p.len() && (#[trigger] p[j]).duration_ns == tcp_max_duration(p);
            assert(stats[j] == p[j]);
        } else {
            assert(stats[stats.len() - 1] == stats.last());
        }
    }
}

/// The bytes a UDP stream counts for one end.
pub open spec fn udp_bytes(s: UdpStreamStats, is_sender: bool) -> u64 {
    if is_sender {
        s.bytes_sent
    } else {
        s.bytes_received
    }
}

/// The packets a UDP stream counts for one end.
pub open spec fn udp_packets(s: UdpStreamStats, is_sender: bool) -> u64 {
    if is_sender {
        s.packets_sent
    } else {
        s.packets_recv
    }
}

/// The bytes, packets and lost packets of all UDP streams, for one end.
pub open spec fn udp_sums(stats: Seq<UdpStreamStats>, is_sender: bool) -> (nat, nat, nat)
    decreases stats.len(),
{
    if stats.len() == 0 {
        (0, 0, 0)
    } else {
        let p = udp_sums(stats.drop_last(), is_sender);
        let s = stats.last();
        (p.0 + udp_bytes(s, is_sender) as nat, p.1 + udp_packets(s, is_sender) as nat, p.2 + s.packets_lost as nat)
    }
}

/// The longest UDP stream duration (0 for no stream).
pub open spec fn udp_max_duration(stats: Seq<UdpStreamStats>) -> u64
    decreases stats.len(),
{
    if stats.len() == 0 {
        0
    } else {
        let m = udp_max_duration(stats.drop_last());
        if stats.last().duration_ns > m {
            stats.last().duration_ns
        } else {
            m
        }
    }
}

/// Totals over the UDP streams of one end.
#[derive(Debug, Clone, Copy, PartialEq, Eq, Structural)]
pub struct UdpTotals {
    pub bytes: u64,
    pub packets: u64,
    pub lost: u64,
    pub max_duration_ns: u64,
}

/// Whether the UDP sums fit in 64 bits.
pub open spec fn udp_sums_fit(stats: Seq<UdpStreamStats>, is_sender: bool) -> bool {
    let t = udp_sums(stats, is_sender);
    t.0 <= u64::MAX && t.1 <= u64::MAX && t.2 <= u64::MAX
}

/// A prefix never adds up to more than the whole.
pub proof fn lemma_udp_sums_prefix(stats: Seq<UdpStreamStats>, is_sender: bool, n: int)
    requires
        0 <= n <= stats.len(),
    ensures
        udp_sums(stats.take(n), is_sender).0 <= udp_sums(stats, is_sender).0,
        udp_sums(stats.take(n), is_sender).1 <= udp_sums(stats, is_sender).1,
        udp_sums(stats.take(n), is_sender).2 <= udp_sums(stats, is_sender).2,
    decreases stats.len() - n,
{
    if n < stats.len() {
        lemma_udp_sums_prefix(stats, is_sender, n + 1);
        assert(stats.take(n + 1).drop_last() =~= stats.take(n));
    } else {
        assert(stats.take(n) =~= stats);
    }
}

/// Adds up the bytes and packets of all UDP streams (sent by the sender, received by the
/// receiver) and their lost packets, and finds the longest duration.
pub fn udp_totals(stats: &[UdpStreamStats], is_sender: bool) -> (r: UdpTotals)
    requires
        udp_sums_fit(stats@, is_sender),
    ensures
        r.bytes == udp_sums(stats@, is_sender).0,
        r.packets == udp_sums(stats@, is_sender).1,
        r.lost == udp_sums(stats@, is_sender).2,
        r.max_duration_ns == udp_max_duration(stats@),
{
    let mut bytes: u64 = 0;
    let mut packets: u64 = 0;
    let mut lost: u64 = 0;
    let mut max: u64 = 0;
    let mut i: usize = 0;
    while i < stats.len()
        invariant
            i <= stats@.len(),
            udp_sums_fit(stats@, is_sender),
            bytes == udp_sums(stats@.take(i as int), is_sender).0,
            packets == udp_sums(stats@.take(i as int), is_sender).1,
            lost == udp_sums(stats@.take(i as int), is_sender).2,
            max == udp_max_duration(stats@.take(i as int)),
        decreases stats@.len() - i,
    {
        proof {
            assert(stats@.take(i + 1).drop_last() =~= stats@.take(i as int));
            lemma_udp_sums_prefix(stats@, is_sender, i + 1);
        }
        let s = stats[i];
        bytes = bytes + if is_sender { s.bytes_sent } else { s.bytes_received };
        packets = packets + if is_sender { s.packets_sent } else { s.packets_recv };
        lost = lost + s.packets_lost;
        if s.duration_ns > max {
            max = s.duration_ns;
        }
        i = i + 1;
    }
    assert(stats@.take(stats@.len() as int) =~= stats@);
    UdpTotals { bytes, packets, lost, max_duration_ns: max }
}

} // verus!
