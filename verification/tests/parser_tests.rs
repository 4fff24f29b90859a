use aether_wire::parser::{
    parse_bandwidth, parse_bandwidth_checked, parse_duration_checked, parse_duration_min_1s, parse_server_ipv4, parse_size_bytes,
    parse_stream_number, parse_udp_buf_mem_size, parse_verify_size, TimeSpan, VerifySizeError,
};
use aether_wire::text::{decimal_string, is_whitespace};

#[test]
fn durations_of_at_least_one_second() {
    assert_eq!(parse_duration_min_1s("10s"), Ok(TimeSpan { secs: 10, nanos: 0 }));
    assert_eq!(parse_duration_min_1s("1min 30s"), Ok(TimeSpan { secs: 90, nanos: 0 }));
    assert_eq!(parse_duration_min_1s("1500ms"), Ok(TimeSpan { secs: 1, nanos: 500_000_000 }));
    assert_eq!(parse_duration_min_1s("500ms"), Err("duration must be at least 1s".to_string()));
    assert!(parse_duration_min_1s("abc").is_err());
}

#[test]
fn server_addresses() {
    assert_eq!(parse_server_ipv4("192.168.1.11"), Ok(0xc0a8010b));
    assert_eq!(parse_server_ipv4("0.0.0.0"), Err("0.0.0.0 is not a valid host address".to_string()));
    assert_eq!(parse_server_ipv4("224.0.0.1"), Err("multicast addresses are not valid hosts".to_string()));
    assert_eq!(parse_server_ipv4("255.255.255.255"), Err("broadcast addresses is not a valid host".to_string()));
    assert_eq!(parse_server_ipv4("300.1.1.1"), Err("300.1.1.1 is not a valid IPv4 address".to_string()));
    assert_eq!(parse_server_ipv4("01.2.3.4"), Err("01.2.3.4 is not a valid IPv4 address".to_string()));
}

#[test]
fn bandwidths() {
    assert_eq!(parse_bandwidth("10M"), Ok(10_000_000));
    assert_eq!(parse_bandwidth(" 2gbps "), Ok(2_000_000_000));
    assert_eq!(parse_bandwidth("500"), Ok(500));
    assert_eq!(parse_bandwidth("5G"), Ok(5_000_000_000));
    assert_eq!(parse_bandwidth("6G"), Err("bandwidth exceeds maximum allowed limit of 5 Gbit/s".to_string()));
    assert_eq!(parse_bandwidth(""), Err("bandwidth cannot be empty".to_string()));
    assert_eq!(parse_bandwidth("x5"), Err("invalid number: ".to_string()));
    assert_eq!(parse_bandwidth("5T"), Err("unknown unit: T. Use K, M, or G".to_string()));
    assert_eq!(parse_bandwidth_checked("99999999999999999999G"), Some(Err("invalid number: 99999999999999999999".to_string())));
    assert_eq!(parse_bandwidth_checked("18446744073709551615G"), None);
    assert_eq!(parse_bandwidth_checked("1k"), Some(Ok(1000)));
}

#[test]
fn sizes() {
    assert_eq!(parse_size_bytes("16M"), Ok(16 * 1024 * 1024));
    assert_eq!(parse_size_bytes("1kib"), Ok(1024));
    assert_eq!(parse_size_bytes("7"), Ok(7));
    assert_eq!(parse_size_bytes("18446744073709551615K"), Err("size overflow".to_string()));
    assert_eq!(parse_size_bytes("3X"), Err("unknown unit: X. Use B, K, M, or G".to_string()));
    assert_eq!(parse_udp_buf_mem_size("16M"), Ok(16 * 1024 * 1024));
    assert_eq!(parse_udp_buf_mem_size("0"), Err("buffer size must be at least 1 byte".to_string()));
    assert_eq!(parse_udp_buf_mem_size("1G"), Err("buffer size exceeds maximum allowed limit of 256 MiB".to_string()));
}

#[test]
fn verify_sizes() {
    assert_eq!(parse_verify_size("1G", Some(8 << 30)), Ok(1 << 30));
    assert_eq!(parse_verify_size("1G", None), Ok(1 << 30));
    assert_eq!(parse_verify_size("16G", Some(8 << 30)), Err(VerifySizeError::ExceedsMemory(8 << 30)));
    assert_eq!(parse_verify_size("0", None), Err(VerifySizeError::Invalid("verify size must be at least 1 byte".to_string())));
}

#[test]
fn stream_counts() {
    assert_eq!(parse_stream_number("4", 8), Ok(4));
    assert_eq!(parse_stream_number("0", 8), Err("stream count must be at least 1".to_string()));
    assert_eq!(parse_stream_number("9", 8), Err("stream count exceeds available CPU cores (8)".to_string()));
    assert_eq!(parse_stream_number("x", 8), Err("invalid stream count".to_string()));
}

#[test]
fn text_helpers() {
    assert!(is_whitespace(' '));
    assert!(is_whitespace('\u{2003}'));
    assert!(!is_whitespace('a'));
    assert_eq!(decimal_string(1234), "1234".to_string());
    assert_eq!(decimal_string(0), "0".to_string());
}

#[test]
fn unicode_units_in_bandwidth() {
    assert_eq!(parse_bandwidth("3kbps"), Ok(3_000));
    assert_eq!(parse_bandwidth("7mBps"), Ok(7_000_000));
    assert_eq!(parse_bandwidth("5é"), Err("unknown unit: é. Use K, M, or G".to_string()));
    assert_eq!(parse_bandwidth("5ß"), Err("unknown unit: ß. Use K, M, or G".to_string()));
}

#[test]
fn duration_total_limit() {
    assert_eq!(parse_duration_checked("1h 30m"), Ok(TimeSpan { secs: 5400, nanos: 0 }));
    assert_eq!(parse_duration_checked("12345678901s"), Ok(TimeSpan { secs: 12_345_678_901, nanos: 0 }));
    assert_eq!(parse_duration_checked("000000000010s"), Ok(TimeSpan { secs: 10, nanos: 0 }));
    assert_eq!(
        parse_duration_checked("1h 1m 1s 1h 1m 1s 1h 1m 1s 1h 1m 1s"),
        Ok(TimeSpan { secs: 4 * 3661, nanos: 0 })
    );
    assert_eq!(parse_duration_checked("584542027567s"), Ok(TimeSpan { secs: 584_542_027_567, nanos: 0 }));
    assert_eq!(parse_duration_checked("584542027568s"), Err("duration is too large".to_string()));
    assert_eq!(
        parse_duration_checked("18446744073709551615s 500ms 500ms"),
        Err("duration is too large".to_string())
    );
    assert_eq!(parse_duration_checked("0.5s"), Err("duration must be at least 1s".to_string()));
}

#[test]
fn ascii_units_in_any_case() {
    assert_eq!(parse_bandwidth("10mbps"), Ok(10_000_000));
    assert_eq!(parse_bandwidth("1Gbps"), Ok(1_000_000_000));
    assert_eq!(parse_size_bytes("2kib"), Ok(2048));
}
