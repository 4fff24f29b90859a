//! The results reports, from per-stream statistics and the cells formatted for them (byte
//! counts, bit rates and loss rates, whose decimal formatting lies outside this crate).

use vstd::prelude::*;

use crate::report::stats::{udp_packets, udp_sums, udp_sums_fit, udp_totals, TcpStreamStats, UdpStreamStats};
use crate::report::table::{
    tcp_report, tcp_report_lines, tcp_row_views, tcp_rows_width, udp_report, udp_report_lines,
    udp_row_views, udp_rows_width, views, TcpRow, TcpRowView, UdpRow, UdpRowView,
};
use crate::text::{decimal_chars, decimal_spec, pad_left_spec, push_chars, push_padded_left, string_of};

verus! {

/// The formatted byte count and bit rate of a stream (or of the total).
#[derive(Debug, Clone)]
pub struct RateCells {
    pub bytes: String,
    pub bitrate: String,
}

/// The formatted byte count, bit rate and loss percentage (without the `%`) of a UDP stream
/// (or of the total).
#[derive(Debug, Clone)]
pub struct UdpCells {
    pub bytes: String,
    pub bitrate: String,
    pub loss: String,
}

/// The texts of a stream's rate cells.
pub struct RateCellsView {
    pub bytes: Seq<char>,
    pub bitrate: Seq<char>,
}

impl View for RateCells {
    type V = RateCellsView;

    open spec fn view(&self) -> RateCellsView {
        RateCellsView { bytes: self.bytes@, bitrate: self.bitrate@ }
    }
}

/// The texts of a UDP stream's cells.
pub struct UdpCellsView {
    pub bytes: Seq<char>,
    pub bitrate: Seq<char>,
    pub loss: Seq<char>,
}

impl View for UdpCells {
    type V = UdpCellsView;

    open spec fn view(&self) -> UdpCellsView {
        UdpCellsView { bytes: self.bytes@, bitrate: self.bitrate@, loss: self.loss@ }
    }
}

/// The texts of a list of rate cells.
pub open spec fn rate_cell_views(cells: Seq<RateCells>) -> Seq<RateCellsView> {
    cells.map_values(|c: RateCells| c@)
}

/// The texts of a list of UDP cells.
pub open spec fn udp_cell_views(cells: Seq<UdpCells>) -> Seq<UdpCellsView> {
    cells.map_values(|c: UdpCells| c@)
}

/// `stream` and the stream number right-aligned on two columns.
pub open spec fn stream_label(id: u16) -> Seq<char> {
    "stream "@ + pad_left_spec(decimal_spec(id as nat), 2, ' ')
}

/// What the streams did: sent (by the sender) or received.
pub open spec fn direction_label(is_sender: bool) -> Seq<char> {
    if is_sender {
        "sent"@
    } else {
        "received"@
    }
}

/// The label of a stream.
pub fn stream_label_text(id: u16) -> (r: String)
    ensures
        r@ == stream_label(id),
{
    let mut s = String::from_str("stream ");
    let d = decimal_chars(id as u64);
    push_padded_left(&mut s, d.as_slice(), 2, ' ');
    s
}

fn direction_text(is_sender: bool) -> (r: String)
    ensures
        r@ == direction_label(is_sender),
{
    if is_sender {
        String::from_str("sent")
    } else {
        String::from_str("received")
    }
}

/// A count followed by ` pkts`.
pub open spec fn packets_label(n: u64) -> Seq<char> {
    decimal_spec(n as nat) + " pkts"@
}

fn packets_text(n: u64) -> (r: String)
    ensures
        r@ == packets_label(n),
{
    let d = decimal_chars(n);
    let mut s = string_of(d.as_slice());
    s.append(" pkts");
    s
}

fn decimal_text(n: u64) -> (r: String)
    ensures
        r@ == decimal_spec(n as nat),
{
    let d = decimal_chars(n);
    string_of(d.as_slice())
}

fn suffixed(t: &String, suffix: &str) -> (r: String)
    ensures
        r@ == t@ + suffix@,
{
    let mut s = t.clone();
    s.append(suffix);
    s
}

/// The rows of the TCP report: one per stream, then a total row when there are several streams.
pub open spec fn tcp_rows_spec(stats: Seq<TcpStreamStats>, is_sender: bool, cells: Seq<RateCellsView>, total: RateCellsView) -> Seq<TcpRowView> {
    let streams = Seq::new(stats.len(), |i: int| TcpRowView {
        stream: stream_label(stats[i].stream_id),
        direction: direction_label(is_sender),
        bytes: cells[i].bytes,
        bitrate: cells[i].bitrate,
        is_total: false,
    });
    if stats.len() > 1 {
        streams.push(TcpRowView {
            stream: "total"@,
            direction: direction_label(is_sender),
            bytes: total.bytes,
            bitrate: total.bitrate,
            is_total: true,
        })
    } else {
        streams
    }
}

/// Builds the rows of the TCP report.
pub fn tcp_report_rows(stats: &[TcpStreamStats], is_sender: bool, cells: &[RateCells], total: &RateCells) -> (r: Vec<TcpRow>)
    requires
        cells@.len() == stats@.len(),
    ensures
        tcp_row_views(r@) == tcp_rows_spec(stats@, is_sender, rate_cell_views(cells@), total@),
{
    let ghost spec_rows = tcp_rows_spec(stats@, is_sender, rate_cell_views(cells@), total@);
    let mut rows: Vec<TcpRow> = Vec::new();
    let mut i: usize = 0;
    while i < stats.len()
        invariant
            i <= stats@.len(),
            cells@.len() == stats@.len(),
            rows@.len() == i,
            forall|j: int| 0 <= j < i ==> (#[trigger] rows@[j])@ == spec_rows[j],
            spec_rows == tcp_rows_spec(stats@, is_sender, rate_cell_views(cells@), total@),
        decreases stats@.len() - i,
    {
        rows.push(TcpRow {
            stream: stream_label_text(stats[i].stream_id),
            direction: direction_text(is_sender),
            bytes: cells[i].bytes.clone(),
            bitrate: cells[i].bitrate.clone(),
            is_total: false,
        });
        i = i + 1;
    }
    if stats.len() > 1 {
        rows.push(TcpRow {
            stream: String::from_str("total"),
            direction: direction_text(is_sender),
            bytes: total.bytes.clone(),
            bitrate: total.bitrate.clone(),
            is_total: true,
        });
    }
    assert(tcp_row_views(rows@) =~= spec_rows);
    rows
}

/// The lines of the TCP results report (printing them is the caller's): a table of the streams
/// and, for several streams, their total, under a header that names the role.
pub fn print_tcp_results(role: &str, stats: &[TcpStreamStats], is_sender: bool, cells: &[RateCells], total: &RateCells) -> (r: Vec<String>)
    requires
        cells@.len() == stats@.len(),
        tcp_rows_width(tcp_rows_spec(stats@, is_sender, rate_cell_views(cells@), total@)) <= usize::MAX,
    ensures
        views(r@) == tcp_report(role@, tcp_rows_spec(stats@, is_sender, rate_cell_views(cells@), total@)),
{
    let rows = tcp_report_rows(stats, is_sender, cells, total);
    tcp_report_lines(role, rows.as_slice())
}

/// The rows of the UDP report: one per stream (with jitter, out-of-order and duplicate counts
/// for the receiver), then a total row when there are several streams.
pub open spec fn udp_rows_spec(stats: Seq<UdpStreamStats>, is_sender: bool, cells: Seq<UdpCellsView>, total: UdpCellsView) -> Seq<UdpRowView> {
    let streams = Seq::new(stats.len(), |i: int| UdpRowView {
        stream: stream_label(stats[i].stream_id),
        packets: packets_label(udp_packets(stats[i], is_sender)),
        bytes: cells[i].bytes,
        bitrate: cells[i].bitrate,
        loss: cells[i].loss + "%"@,
        jitter: if is_sender { None } else { Some(decimal_spec(stats[i].jitter_rfc3550_ms as nat) + "ms"@) },
        ooo: if is_sender { None } else { Some(decimal_spec(stats[i].packets_out_of_order as nat)) },
        dup: if is_sender { None } else { Some(decimal_spec(stats[i].packets_duplicate as nat)) },
        is_total: false,
    });
    if stats.len() > 1 {
        streams.push(UdpRowView {
            stream: "total"@,
            packets: packets_label(udp_sums(stats, is_sender).1 as u64),
            bytes: total.bytes,
            bitrate: total.bitrate,
            loss: total.loss + "%"@,
            jitter: None,
            ooo: None,
            dup: None,
            is_total: true,
        })
    } else {
        streams
    }
}

/// Builds the rows of the UDP report.
pub fn udp_report_rows(stats: &[UdpStreamStats], is_sender: bool, cells: &[UdpCells], total: &UdpCells) -> (r: Vec<UdpRow>)
    requires
        cells@.len() == stats@.len(),
        udp_sums_fit(stats@, is_sender),
    ensures
        udp_row_views(r@) == udp_rows_spec(stats@, is_sender, udp_cell_views(cells@), total@),
{
    let ghost spec_rows = udp_rows_spec(stats@, is_sender, udp_cell_views(cells@), total@);
    let mut rows: Vec<UdpRow> = Vec::new();
    let mut i: usize = 0;
    while i < stats.len()
        invariant
            i <= stats@.len(),
            cells@.len() == stats@.len(),
            rows@.len() == i,
            forall|j: int| 0 <= j < i ==> (#[trigger] rows@[j])@ == spec_rows[j],
            spec_rows == udp_rows_spec(stats@, is_sender, udp_cell_views(cells@), total@),
        decreases stats@.len() - i,
    {
        let s = stats[i];
        let packets = if is_sender { s.packets_sent } else { s.packets_recv };
        let jitter = if is_sender {
            None
        } else {
            let j = decimal_text(s.jitter_rfc3550_ms);
            Some(suffixed(&j, "ms"))
        };
        rows.push(UdpRow {
            stream: stream_label_text(s.stream_id),
            packets: packets_text(packets),
            bytes: cells[i].bytes.clone(),
            bitrate: cells[i].bitrate.clone(),
            loss: suffixed(&cells[i].loss, "%"),
            jitter,
            ooo: if is_sender { None } else { Some(decimal_text(s.packets_out_of_order)) },
            dup: if is_sender { None } else { Some(decimal_text(s.packets_duplicate)) },
            is_total: false,
        });
        i = i + 1;
    }
    if stats.len() > 1 {
        let totals = udp_totals(stats, is_sender);
        rows.push(UdpRow {
            stream: String::from_str("total"),
            packets: packets_text(totals.packets),
            bytes: total.bytes.clone(),
            bitrate: total.bitrate.clone(),
            loss: suffixed(&total.loss, "%"),
            jitter: None,
            ooo: None,
            dup: None,
            is_total: true,
        });
    }
    assert(udp_row_views(rows@) =~= spec_rows);
    rows
}

/// The lines of the UDP results report (printing them is the caller's): a table of the streams,
/// with detail lines for the receiver and, for several streams, their total, under a header that
/// names the role.
pub fn print_udp_results(role: &str, stats: &[UdpStreamStats], is_sender: bool, cells: &[UdpCells], total: &UdpCells) -> (r: Vec<String>)
    requires
        cells@.len() == stats@.len(),
        udp_sums_fit(stats@, is_sender),
        udp_rows_width(udp_rows_spec(stats@, is_sender, udp_cell_views(cells@), total@)) <= usize::MAX,
    ensures
        views(r@) == udp_report(role@, udp_rows_spec(stats@, is_sender, udp_cell_views(cells@), total@)),
{
    let rows = udp_report_rows(stats, is_sender, cells, total);
    udp_report_lines(role, rows.as_slice())
}

/// The TUI line of a TCP stream: number, bit rate, bytes and direction.
pub open spec fn tcp_tui_line(id: u16, c: RateCellsView, is_sender: bool) -> Seq<char> {
    "  stream "@ + pad_left_spec(decimal_spec(id as nat), 2, ' ') + "  "@ + c.bitrate + "  "@ + c.bytes
        + "  ("@ + direction_label(is_sender) + ")"@
}

/// The TUI line of the TCP total.
pub open spec fn tcp_tui_total(c: RateCellsView, is_sender: bool) -> Seq<char> {
    "  total     "@ + c.bitrate + "  "@ + c.bytes + "  ("@ + direction_label(is_sender) + ")"@
}

/// The TUI lines of TCP results: one per stream, then the total when there are several.
pub open spec fn tcp_tui_lines(stats: Seq<TcpStreamStats>, is_sender: bool, cells: Seq<RateCellsView>, total: RateCellsView) -> Seq<Seq<char>> {
    let streams = Seq::new(stats.len(), |i: int| tcp_tui_line(stats[i].stream_id, cells[i], is_sender));
    if stats.len() > 1 {
        streams.push(tcp_tui_total(total, is_sender))
    } else {
        streams
    }
}

/// Formats TCP results as plain-text lines for the TUI.
pub fn format_tcp_result(stats: &[TcpStreamStats], is_sender: bool, cells: &[RateCells], total: &RateCells) -> (r: Vec<String>)
    requires
        cells@.len() == stats@.len(),
    ensures
        views(r@) == tcp_tui_lines(stats@, is_sender, rate_cell_views(cells@), total@),
{
    let ghost expected = tcp_tui_lines(stats@, is_sender, rate_cell_views(cells@), total@);
    let mut lines: Vec<String> = Vec::new();
    let mut i: usize = 0;
    while i < stats.len()
        invariant
            i <= stats@.len(),
            cells@.len() == stats@.len(),
            lines@.len() == i,
            forall|j: int| 0 <= j < i ==> (#[trigger] lines@[j])@ == expected[j],
            expected == tcp_tui_lines(stats@, is_sender, rate_cell_views(cells@), total@),
        decreases stats@.len() - i,
    {
        let mut s = String::from_str("  stream ");
        let d = decimal_chars(stats[i].stream_id as u64);
        push_padded_left(&mut s, d.as_slice(), 2, ' ');
        s.append("  ");
        s.append(cells[i].bitrate.as_str());
        s.append("  ");
        s.append(cells[i].bytes.as_str());
        s.append("  (");
        let dir = direction_text(is_sender);
        s.append(dir.as_str());
        s.append(")");
        proof {
            assert(s@ =~= expected[i as int]);
        }
        lines.push(s);
        i = i + 1;
    }
    if stats.len() > 1 {
        let mut s = String::from_str("  total     ");
        s.append(total.bitrate.as_str());
        s.append("  ");
        s.append(total.bytes.as_str());
        s.append("  (");
        let dir = direction_text(is_sender);
        s.append(dir.as_str());
        s.append(")");
        lines.push(s);
    }
    assert(views(lines@) =~= expected);
    lines
}

/// Formats TCP results as plain-text lines for the TUI (the same lines as `format_tcp_result`).
pub fn format_tcp_result_lines(stats: &[TcpStreamStats], is_sender: bool, cells: &[RateCells], total: &RateCells) -> (r: Vec<String>)
    requires
        cells@.len() == stats@.len(),
    ensures
        views(r@) == tcp_tui_lines(stats@, is_sender, rate_cell_views(cells@), total@),
{
    format_tcp_result(stats, is_sender, cells, total)
}

/// The TUI line of a UDP stream (receiver side): number, bit rate, bytes, loss and jitter.
pub open spec fn udp_tui_line(s: UdpStreamStats, c: UdpCellsView) -> Seq<char> {
    "  stream "@ + pad_left_spec(decimal_spec(s.stream_id as nat), 2, ' ') + "  "@ + c.bitrate + "  "@ + c.bytes
        + "  loss "@ + c.loss + "%  jitter "@ + decimal_spec(s.jitter_rfc3550_ms as nat) + "ms"@
}

/// The TUI line of the UDP total.
pub open spec fn udp_tui_total(c: UdpCellsView) -> Seq<char> {
    "  total     "@ + c.bitrate + "  "@ + c.bytes + "  loss "@ + c.loss + "%"@
}

/// The TUI lines of UDP results: one per stream, then the total when there are several.
pub open spec fn udp_tui_lines(stats: Seq<UdpStreamStats>, cells: Seq<UdpCellsView>, total: UdpCellsView) -> Seq<Seq<char>> {
    let streams = Seq::new(stats.len(), |i: int| udp_tui_line(stats[i], cells[i]));
    if stats.len() > 1 {
        streams.push(udp_tui_total(total))
    } else {
        streams
    }
}

/// Formats UDP results (receiver side) as plain-text lines for the TUI.
pub fn format_udp_result_lines(stats: &[UdpStreamStats], cells: &[UdpCells], total: &UdpCells) -> (r: Vec<String>)
    requires
        cells@.len() == stats@.len(),
    ensures
        views(r@) == udp_tui_lines(stats@, udp_cell_views(cells@), total@),
{
    let ghost expected = udp_tui_lines(stats@, udp_cell_views(cells@), total@);
    let mut lines: Vec<String> = Vec::new();
    let mut i: usize = 0;
    while i < stats.len()
        invariant
            i <= stats@.len(),
            cells@.len() == stats@.len(),
            lines@.len() == i,
            forall|j: int| 0 <= j < i ==> (#[trigger] lines@[j])@ == expected[j],
            expected == udp_tui_lines(stats@, udp_cell_views(cells@), total@),
        decreases stats@.len() - i,
    {
        let mut s = String::from_str("  stream ");
        let d = decimal_chars(stats[i].stream_id as u64);
        push_padded_left(&mut s, d.as_slice(), 2, ' ');
        s.append("  ");
        s.append(cells[i].bitrate.as_str());
        s.append("  ");
        s.append(cells[i].bytes.as_str());
        s.append("  loss ");
        s.append(cells[i].loss.as_str());
        s.append("%  jitter ");
        let j = decimal_chars(stats[i].jitter_rfc3550_ms);
        push_chars(&mut s, j.as_slice());
        s.append("ms");
        proof {
            assert(s@ =~= expected[i as int]);
        }
        lines.push(s);
        i = i + 1;
    }
    if stats.len() > 1 {
        let mut s = String::from_str("  total     ");
        s.append(total.bitrate.as_str());
        s.append("  ");
        s.append(total.bytes.as_str());
        s.append("  loss ");
        s.append(total.loss.as_str());
        s.append("%");
        lines.push(s);
    }
    assert(views(lines@) =~= expected);
    lines
}

} // verus!
