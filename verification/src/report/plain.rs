//! The plain-text results reports: fixed-width columns, no colors.

use vstd::prelude::*;

use crate::report::lines::{
    direction_label, packets_label, rate_cell_views, stream_label, stream_label_text, udp_cell_views,
    RateCells, RateCellsView, UdpCells, UdpCellsView,
};
use crate::report::stats::{udp_packets, udp_sums, udp_sums_fit, udp_totals, TcpStreamStats, UdpStreamStats};
use crate::report::table::views;
use crate::text::{chars_of, decimal_chars, decimal_spec, pad_left_spec, pad_right_spec, push_chars, push_padded_left, push_padded_right};

verus! {

/// A plain TCP line: label and direction left-aligned on 10 and 8 columns, bytes and bit rate
/// right-aligned on 12.
pub open spec fn plain_tcp_line(label: Seq<char>, is_sender: bool, c: RateCellsView) -> Seq<char> {
    pad_right_spec(label, 10) + " "@ + pad_right_spec(direction_label(is_sender), 8) + " "@
        + pad_left_spec(c.bytes, 12, ' ') + " "@ + pad_left_spec(c.bitrate, 12, ' ')
}

/// The plain TCP report: two blank lines, the role, a line per stream, then a blank line and
/// the total when there are several streams.
pub open spec fn plain_tcp_report(role: Seq<char>, stats: Seq<TcpStreamStats>, is_sender: bool, cells: Seq<RateCellsView>, total: RateCellsView) -> Seq<Seq<char>> {
    let head = seq![Seq::<char>::empty(), Seq::<char>::empty(), role];
    let streams = Seq::new(stats.len(), |i: int| plain_tcp_line(stream_label(stats[i].stream_id), is_sender, cells[i]));
    let tail: Seq<Seq<char>> = if stats.len() > 1 {
        seq![Seq::<char>::empty(), plain_tcp_line("total"@, is_sender, total)]
    } else {
        Seq::empty()
    };
    head + streams + tail
}

fn plain_tcp_text(label: &String, is_sender: bool, c: &RateCells) -> (r: String)
    ensures
        r@ == plain_tcp_line(label@, is_sender, c@),
{
    let mut s = String::new();
    let lc = chars_of(label.as_str());
    push_padded_right(&mut s, lc.as_slice(), 10);
    s.append(" ");
    let dir = if is_sender { chars_of("sent") } else { chars_of("received") };
    push_padded_right(&mut s, dir.as_slice(), 8);
    s.append(" ");
    let bc = chars_of(c.bytes.as_str());
    push_padded_left(&mut s, bc.as_slice(), 12, ' ');
    s.append(" ");
    let rc = chars_of(c.bitrate.as_str());
    push_padded_left(&mut s, rc.as_slice(), 12, ' ');
    proof {
        assert(s@ =~= plain_tcp_line(label@, is_sender, c@));
    }
    s
}

/// The lines of the plain TCP results report (printing them is the caller's).
pub fn print_tcp_results(role: &str, stats: &[TcpStreamStats], is_sender: bool, cells: &[RateCells], total: &RateCells) -> (r: Vec<String>)
    requires
        cells@.len() == stats@.len(),
    ensures
        views(r@) == plain_tcp_report(role@, stats@, is_sender, rate_cell_views(cells@), total@),
{
    let ghost expected = plain_tcp_report(role@, stats@, is_sender, rate_cell_views(cells@), total@);
    let mut lines: Vec<String> = Vec::new();
    lines.push(String::new());
    lines.push(String::new());
    lines.push(String::from_str(role));
    let mut i: usize = 0;
    while i < stats.len()
        invariant
            i <= stats@.len(),
            cells@.len() == stats@.len(),
            lines@.len() == i + 3,
            forall|j: int| 0 <= j < i + 3 ==> (#[trigger] lines@[j])@ == expected[j],
            expected == plain_tcp_report(role@, stats@, is_sender, rate_cell_views(cells@), total@),
        decreases stats@.len() - i,
    {
        let label = stream_label_text(stats[i].stream_id);
        lines.push(plain_tcp_text(&label, is_sender, &cells[i]));
        i = i + 1;
    }
    if stats.len() > 1 {
        lines.push(String::new());
        let label = String::from_str("total");
        lines.push(plain_tcp_text(&label, is_sender, total));
    }
    assert(views(lines@) =~= expected);
    lines
}

/// A plain UDP line: label left-aligned on 10 columns, packets, bytes and bit rate right-aligned
/// on 12, then the loss.
pub open spec fn plain_udp_line(label: Seq<char>, packets: u64, c: UdpCellsView) -> Seq<char> {
    pad_right_spec(label, 10) + " "@ + pad_left_spec(packets_label(packets), 12, ' ') + " "@
        + pad_left_spec(c.bytes, 12, ' ') + " "@ + pad_left_spec(c.bitrate, 12, ' ') + " loss "@ + c.loss + "%"@
}

/// The receiver's detail line: jitter, out-of-order and duplicate counts.
pub open spec fn plain_udp_detail(s: UdpStreamStats) -> Seq<char> {
    "           jitter "@ + decimal_spec(s.jitter_rfc3550_ms as nat) + "ms   ooo "@
        + decimal_spec(s.packets_out_of_order as nat) + "   dup "@ + decimal_spec(s.packets_duplicate as nat)
}

/// The lines for the first `n` UDP streams: each stream's line, and the receiver's detail line.
pub open spec fn plain_udp_streams(stats: Seq<UdpStreamStats>, is_sender: bool, cells: Seq<UdpCellsView>, n: int) -> Seq<Seq<char>>
    decreases n,
{
    if n <= 0 {
        Seq::empty()
    } else {
        let s = stats[n - 1];
        let line = plain_udp_line(stream_label(s.stream_id), udp_packets(s, is_sender), cells[n - 1]);
        let detail: Seq<Seq<char>> = if is_sender { Seq::empty() } else { seq![plain_udp_detail(s)] };
        plain_udp_streams(stats, is_sender, cells, n - 1) + seq![line] + detail
    }
}

/// The plain UDP report: two blank lines, the role, the streams, then a blank line and the total
/// when there are several streams.
pub open spec fn plain_udp_report(role: Seq<char>, stats: Seq<UdpStreamStats>, is_sender: bool, cells: Seq<UdpCellsView>, total: UdpCellsView) -> Seq<Seq<char>> {
    let head = seq![Seq::<char>::empty(), Seq::<char>::empty(), role];
    let tail: Seq<Seq<char>> = if stats.len() > 1 {
        seq![Seq::<char>::empty(), plain_udp_line("total"@, udp_sums(stats, is_sender).1 as u64, total)]
    } else {
        Seq::empty()
    };
    head + plain_udp_streams(stats, is_sender, cells, stats.len() as int) + tail
}

fn plain_udp_text(label: &String, packets: u64, c: &UdpCells) -> (r: String)
    ensures
        r@ == plain_udp_line(label@, packets, c@),
{
    let mut s = String::new();
    let lc = chars_of(label.as_str());
    push_padded_right(&mut s, lc.as_slice(), 10);
    s.append(" ");
    let mut pk = String::new();
    let pd = decimal_chars(packets);
    push_chars(&mut pk, pd.as_slice());
    pk.append(" pkts");
    let pc = chars_of(pk.as_str());
    push_padded_left(&mut s, pc.as_slice(), 12, ' ');
    s.append(" ");
    let bc = chars_of(c.bytes.as_str());
    push_padded_left(&mut s, bc.as_slice(), 12, ' ');
    s.append(" ");
    let rc = chars_of(c.bitrate.as_str());
    push_padded_left(&mut s, rc.as_slice(), 12, ' ');
    s.append(" loss ");
    s.append(c.loss.as_str());
    s.append("%");
    proof {
        assert(pk@ =~= packets_label(packets));
        assert(s@ =~= plain_udp_line(label@, packets, c@));
    }
    s
}

fn plain_udp_detail_text(st: &UdpStreamStats) -> (r: String)
    ensures
        r@ == plain_udp_detail(*st),
{
    let mut s = String::from_str("           jitter ");
    let j = decimal_chars(st.jitter_rfc3550_ms);
    push_chars(&mut s, j.as_slice());
    s.append("ms   ooo ");
    let o = decimal_chars(st.packets_out_of_order);
    push_chars(&mut s, o.as_slice());
    s.append("   dup ");
    let d = decimal_chars(st.packets_duplicate);
    push_chars(&mut s, d.as_slice());
    s
}

/// The lines of the plain UDP results report (printing them is the caller's).
pub fn print_udp_results(role: &str, stats: &[UdpStreamStats], is_sender: bool, cells: &[UdpCells], total: &UdpCells) -> (r: Vec<String>)
    requires
        cells@.len() == stats@.len(),
        udp_sums_fit(stats@, is_sender),
    ensures
        views(r@) == plain_udp_report(role@, stats@, is_sender, udp_cell_views(cells@), total@),
{
    let ghost head = seq![Seq::<char>::empty(), Seq::<char>::empty(), role@];
    let mut lines: Vec<String> = Vec::new();
    lines.push(String::new());
    lines.push(String::new());
    lines.push(String::from_str(role));
    assert(views(lines@) =~= head);
    let mut i: usize = 0;
    while i < stats.len()
        invariant
            i <= stats@.len(),
            cells@.len() == stats@.len(),
            head == seq![Seq::<char>::empty(), Seq::<char>::empty(), role@],
            views(lines@) == head + plain_udp_streams(stats@, is_sender, udp_cell_views(cells@), i as int),
        decreases stats@.len() - i,
    {
        let ghost before = lines@;
        let s = stats[i];
        let label = stream_label_text(s.stream_id);
        let packets = if is_sender { s.packets_sent } else { s.packets_recv };
        lines.push(plain_udp_text(&label, packets, &cells[i]));
        let ghost mid = lines@;
        if !is_sender {
            lines.push(plain_udp_detail_text(&s));
        }
        proof {
            let detail: Seq<Seq<char>> = if is_sender { Seq::empty() } else { seq![plain_udp_detail(s)] };
            assert(views(mid) =~= views(before) + seq![plain_udp_line(stream_label(s.stream_id), udp_packets(s, is_sender), udp_cell_views(cells@)[i as int])]);
            assert(views(lines@) =~= views(mid) + detail);
        }
        i = i + 1;
    }
    if stats.len() > 1 {
        let ghost before = lines@;
        let totals = udp_totals(stats, is_sender);
        lines.push(String::new());
        let label = String::from_str("total");
        lines.push(plain_udp_text(&label, totals.packets, total));
        proof {
            assert(views(lines@) =~= views(before) + seq![Seq::<char>::empty(), plain_udp_line("total"@, udp_sums(stats@, is_sender).1 as u64, total@)]);
        }
    }
    lines
}

/// The role label of the summary report, padded to the width of `received`.
pub open spec fn summary_label(is_sender: bool) -> Seq<char> {
    if is_sender {
        "sent    "@
    } else {
        "received"@
    }
}

/// A summary line of a stream.
pub open spec fn summary_line(id: u16, is_sender: bool, c: RateCellsView) -> Seq<char> {
    "  stream "@ + pad_left_spec(decimal_spec(id as nat), 2, ' ') + " — "@ + summary_label(is_sender) + " "@
        + c.bytes + " — "@ + c.bitrate
}

/// The summary report: a blank line, the role between rules, a line per stream, then a rule and
/// the total when there are several streams.
pub open spec fn summary_report(role: Seq<char>, stats: Seq<TcpStreamStats>, is_sender: bool, cells: Seq<RateCellsView>, total: RateCellsView) -> Seq<Seq<char>> {
    let head = seq![Seq::<char>::empty(), "======== "@ + role + " ========"@];
    let streams = Seq::new(stats.len(), |i: int| summary_line(stats[i].stream_id, is_sender, cells[i]));
    let tail: Seq<Seq<char>> = if stats.len() > 1 {
        seq![
            "  "@ + crate::text::repeat_spec('─', 40),
            "  total    — "@ + summary_label(is_sender) + " "@ + total.bytes + " — "@ + total.bitrate,
        ]
    } else {
        Seq::empty()
    };
    head + streams + tail
}

/// The lines of the per-stream summary with its total (printing them is the caller's).
pub fn print_results(role: &str, stats: &[TcpStreamStats], is_sender: bool, cells: &[RateCells], total: &RateCells) -> (r: Vec<String>)
    requires
        cells@.len() == stats@.len(),
    ensures
        views(r@) == summary_report(role@, stats@, is_sender, rate_cell_views(cells@), total@),
{
    let ghost expected = summary_report(role@, stats@, is_sender, rate_cell_views(cells@), total@);
    let label = if is_sender { "sent    " } else { "received" };
    let mut lines: Vec<String> = Vec::new();
    lines.push(String::new());
    let mut title = String::from_str("======== ");
    title.append(role);
    title.append(" ========");
    lines.push(title);
    let mut i: usize = 0;
    while i < stats.len()
        invariant
            i <= stats@.len(),
            cells@.len() == stats@.len(),
            label@ == summary_label(is_sender),
            lines@.len() == i + 2,
            forall|j: int| 0 <= j < i + 2 ==> (#[trigger] lines@[j])@ == expected[j],
            expected == summary_report(role@, stats@, is_sender, rate_cell_views(cells@), total@),
        decreases stats@.len() - i,
    {
        let mut s = String::from_str("  stream ");
        let d = decimal_chars(stats[i].stream_id as u64);
        push_padded_left(&mut s, d.as_slice(), 2, ' ');
        s.append(" — ");
        s.append(label);
        s.append(" ");
        s.append(cells[i].bytes.as_str());
        s.append(" — ");
        s.append(cells[i].bitrate.as_str());
        proof {
            assert(s@ =~= expected[i + 2]);
        }
        lines.push(s);
        i = i + 1;
    }
    if stats.len() > 1 {
        let mut rule = String::from_str("  ");
        crate::text::push_repeat(&mut rule, '─', 40);
        lines.push(rule);
        let mut s = String::from_str("  total    — ");
        s.append(label);
        s.append(" ");
        s.append(total.bytes.as_str());
        s.append(" — ");
        s.append(total.bitrate.as_str());
        lines.push(s);
    }
    assert(views(lines@) =~= expected);
    lines
}

} // verus!
