use aether_wire::report::lines::{format_tcp_result, format_tcp_result_lines, format_udp_result_lines, print_tcp_results, print_udp_results, stream_label_text, RateCells, UdpCells};
use aether_wire::report::plain;
use aether_wire::report::stats::{tcp_totals, udp_totals, TcpStreamStats, UdpStreamStats};
use aether_wire::report::table::visible_width;
use aether_wire::report::units::{byte_unit, rate_unit, ByteUnit, RateUnit};

fn tcp(id: u16, sent: u64, recv: u64, ns: u64) -> TcpStreamStats {
    TcpStreamStats { stream_id: id, bytes_sent: sent, bytes_received: recv, duration_ns: ns }
}

fn cells(b: &str, r: &str) -> RateCells {
    RateCells { bytes: b.to_string(), bitrate: r.to_string() }
}

fn udp(id: u16) -> UdpStreamStats {
    UdpStreamStats {
        stream_id: id,
        bytes_sent: 1000,
        bytes_received: 900,
        packets_sent: 10,
        packets_recv: 9,
        packets_lost: 1,
        packets_out_of_order: 2,
        packets_duplicate: 0,
        jitter_rfc3550_ms: 3,
        duration_ns: 1_000_000_000,
    }
}

#[test]
fn totals() {
    let stats = vec![tcp(1, 100, 90, 5), tcp(2, 50, 40, 9)];
    let t = tcp_totals(&stats, true);
    assert_eq!(t.bytes, 150);
    assert_eq!(t.max_duration_ns, 9);
    assert_eq!(tcp_totals(&stats, false).bytes, 130);
    assert_eq!(tcp_totals(&[], true).max_duration_ns, 0);
    let u = udp_totals(&[udp(1), udp(2)], false);
    assert_eq!(u.bytes, 1800);
    assert_eq!(u.packets, 18);
    assert_eq!(u.lost, 2);
}

#[test]
fn units() {
    assert_eq!(byte_unit(1023), ByteUnit::B);
    assert_eq!(byte_unit(1024), ByteUnit::KiB);
    assert_eq!(byte_unit(5 << 30), ByteUnit::GiB);
    assert_eq!(byte_unit(u64::MAX), ByteUnit::EiB);
    assert_eq!(ByteUnit::MiB.divisor(), 1 << 20);
    assert_eq!(ByteUnit::TiB.suffix(), "TiB");
    assert_eq!(rate_unit(999), RateUnit::Bit);
    assert_eq!(rate_unit(1000), RateUnit::Kilo);
    assert_eq!(rate_unit(2_500_000_000), RateUnit::Giga);
    assert_eq!(RateUnit::Mega.suffix(), "Mbit/s");
    assert_eq!(RateUnit::Tera.divisor(), 1_000_000_000_000);
}

#[test]
fn widths_skip_escape_sequences() {
    assert_eq!(visible_width("abc"), 3);
    assert_eq!(visible_width("\x1b[1mab\x1b[0m"), 2);
    assert_eq!(visible_width("\x1b[38;2;1;2;3mx"), 1);
    assert_eq!(visible_width("é"), 1);
    assert_eq!(stream_label_text(3), "stream  3");
    assert_eq!(stream_label_text(12), "stream 12");
}

#[test]
fn tui_lines() {
    let stats = vec![tcp(1, 100, 90, 5), tcp(2, 50, 40, 9)];
    let c = vec![cells("100 B", "1.00 kbit/s"), cells("50 B", "500 bit/s")];
    let total = cells("150 B", "2.00 kbit/s");
    let lines = format_tcp_result(&stats, true, &c, &total);
    assert_eq!(lines, vec![
        "  stream  1  1.00 kbit/s  100 B  (sent)",
        "  stream  2  500 bit/s  50 B  (sent)",
        "  total     2.00 kbit/s  150 B  (sent)",
    ]);
    let one = format_tcp_result_lines(&stats[..1], false, &c[..1], &total);
    assert_eq!(one, vec!["  stream  1  1.00 kbit/s  100 B  (received)"]);
    let uc = vec![UdpCells { bytes: "900 B".to_string(), bitrate: "7.20 kbit/s".to_string(), loss: "10.0".to_string() }];
    let ut = UdpCells { bytes: "x".to_string(), bitrate: "y".to_string(), loss: "z".to_string() };
    assert_eq!(format_udp_result_lines(&[udp(4)], &uc, &ut), vec!["  stream  4  7.20 kbit/s  900 B  loss 10.0%  jitter 3ms"]);
}

#[test]
fn boxed_tcp_report() {
    let stats = vec![tcp(1, 100, 90, 5), tcp(2, 50, 40, 9)];
    let c = vec![cells("100 B", "1 kbit/s"), cells("50 B", "5 bit/s")];
    let total = cells("150 B", "2 kbit/s");
    let lines = print_tcp_results("client", &stats, true, &c, &total);
    assert_eq!(lines.len(), 2 + 2 + 1 + 1 + 1);
    assert_eq!(lines[0], "");
    assert!(lines[1].contains(" client "));
    assert!(lines[2].contains("stream  1"));
    assert!(lines[4].contains("─"));
    assert!(lines[5].contains("total"));
    assert_eq!(lines[6], "");
    let width = visible_width(&lines[2]) - 6;
    assert_eq!(width, 9 + 3 + 4 + 3 + 5 + 3 + 8);
    assert_eq!(visible_width(&lines[1]) - 6, width);
}

#[test]
fn boxed_udp_report() {
    let uc = vec![
        UdpCells { bytes: "900 B".to_string(), bitrate: "7 kbit/s".to_string(), loss: "10.0".to_string() },
        UdpCells { bytes: "900 B".to_string(), bitrate: "7 kbit/s".to_string(), loss: "10.0".to_string() },
    ];
    let ut = UdpCells { bytes: "1800 B".to_string(), bitrate: "14 kbit/s".to_string(), loss: "10.0".to_string() };
    let lines = print_udp_results("server", &[udp(1), udp(2)], false, &uc, &ut);
    assert_eq!(lines.len(), 2 + 2 * 2 + 2 + 1);
    assert!(lines[2].contains("9 pkts"));
    assert!(lines[3].contains("jit: 3ms"));
    assert!(lines[3].contains("ooo: 2"));
    assert!(lines[3].contains("dup: 0"));
    assert!(lines[7].contains("18 pkts"));
    assert!(lines[7].contains("loss 10.0%"));
}

#[test]
fn plain_reports() {
    let stats = vec![tcp(1, 100, 90, 5)];
    let c = vec![cells("100 B", "1 kbit/s")];
    let lines = plain::print_tcp_results("client", &stats, true, &c, &cells("", ""));
    assert_eq!(lines, vec![
        "".to_string(),
        "".to_string(),
        "client".to_string(),
        format!("{:<10} {:<8} {:>12} {:>12}", "stream  1", "sent", "100 B", "1 kbit/s"),
    ]);
    let uc = vec![UdpCells { bytes: "900 B".to_string(), bitrate: "7 kbit/s".to_string(), loss: "10.0".to_string() }];
    let u = plain::print_udp_results("server", &[udp(1)], false, &uc, &uc[0]);
    assert_eq!(u[3], format!("{:<10} {:>12} {:>12} {:>12} loss {}", "stream  1", "9 pkts", "900 B", "7 kbit/s", "10.0%"));
    assert_eq!(u[4], "           jitter 3ms   ooo 2   dup 0");
    let s = plain::print_results("client", &[tcp(1, 1, 1, 1), tcp(2, 1, 1, 1)], true, &[cells("1 B", "8 bit/s"), cells("1 B", "8 bit/s")], &cells("2 B", "16 bit/s"));
    assert_eq!(s[1], "======== client ========");
    assert_eq!(s[2], "  stream  1 — sent     1 B — 8 bit/s");
    assert_eq!(s[4], format!("  {}", "─".repeat(40)));
    assert_eq!(s[5], "  total    — sent     2 B — 16 bit/s");
}
