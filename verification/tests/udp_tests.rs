use aether_wire::interfaces::ip_text::ip_string;
use aether_wire::interfaces::types::{Interface, InterfaceAddress, IpAddress};
use aether_wire::resolve::{is_valid_hostname, parse_ip_literal, resolve_literal, resolve_lookup, ResolveError};
use aether_wire::udp::checks::{UdpConfigError, UdpWarning};
use aether_wire::udp::config::{UdpCliArgs, UdpConfig};
use aether_wire::udp::validator::validate_config;

fn iface() -> Interface {
    let mut i = Interface::new("eth0".to_string());
    i.operstate = Some(6);
    i.speed = Some(1_000_000_000);
    i.mtu = Some(1500);
    i.rx_queues = Some(4);
    i.tx_queues = Some(2);
    i.addresses = vec![
        InterfaceAddress { addr: IpAddress::V6(1), prefix_len: 64 },
        InterfaceAddress { addr: IpAddress::V4(0x0a000001), prefix_len: 24 },
    ];
    i
}

fn args() -> UdpCliArgs {
    UdpCliArgs {
        client_iface: "eth0".to_string(),
        server_host: "server.example".to_string(),
        server_port: 9000,
        client_source_addr: None,
        bandwidth: 100_000_000,
        length: 1400,
        duration_secs: 10,
        streams: 2,
    }
}

#[test]
fn accepted_request_picks_compatible_server() {
    let servers = vec![IpAddress::V4(0x0a000002), IpAddress::V6(2)];
    let (cfg, warnings) = UdpConfig::try_from_args(args(), iface(), Ok(servers), None, 8).unwrap();
    assert_eq!(cfg.server_addr, IpAddress::V6(2));
    assert_eq!(cfg.server_hostname, Some("server.example".to_string()));
    assert_eq!(cfg.server_port, 9000);
    assert_eq!(cfg.streams, 2);
    assert!(warnings.is_empty());
}

#[test]
fn source_address_selects_family() {
    let mut a = args();
    a.client_source_addr = Some(IpAddress::V4(0x0a000001));
    a.server_host = "10.0.0.2".to_string();
    let servers = vec![IpAddress::V6(2), IpAddress::V4(0x0a000002)];
    let (cfg, _) = UdpConfig::try_from_args(a, iface(), Ok(servers), None, 8).unwrap();
    assert_eq!(cfg.server_addr, IpAddress::V4(0x0a000002));
    assert_eq!(cfg.server_hostname, None);
}

#[test]
fn refusals_in_order() {
    let mut down = iface();
    down.operstate = Some(2);
    assert!(matches!(UdpConfig::try_from_args(args(), down, Ok(vec![]), None, 8), Err(UdpConfigError::InterfaceDown)));

    let mut bare = iface();
    bare.addresses = vec![];
    assert!(matches!(UdpConfig::try_from_args(args(), bare, Ok(vec![]), None, 8), Err(UdpConfigError::NoAddresses)));

    let mut a = args();
    a.client_source_addr = Some(IpAddress::V4(0x0b000001));
    assert!(matches!(
        UdpConfig::try_from_args(a, iface(), Ok(vec![IpAddress::V4(1)]), None, 8),
        Err(UdpConfigError::SourceNotConfigured { source: IpAddress::V4(0x0b000001) })
    ));

    let unresolved = Err(ResolveError::NotFound("server.example".to_string()));
    assert!(matches!(UdpConfig::try_from_args(args(), iface(), unresolved, None, 8), Err(UdpConfigError::Unresolved(_))));

    let mut a = args();
    a.client_source_addr = Some(IpAddress::V4(0x0a000001));
    assert!(matches!(
        UdpConfig::try_from_args(a, iface(), Ok(vec![IpAddress::V6(2)]), None, 8),
        Err(UdpConfigError::SourceFamilyMismatch { .. })
    ));

    let mut only_v4 = iface();
    only_v4.addresses = vec![InterfaceAddress { addr: IpAddress::V4(1), prefix_len: 8 }];
    assert!(matches!(
        UdpConfig::try_from_args(args(), only_v4, Ok(vec![IpAddress::V6(2)]), None, 8),
        Err(UdpConfigError::NoCompatibleAddress)
    ));

    let mut a = args();
    a.bandwidth = 2_000_000_000;
    assert!(matches!(
        UdpConfig::try_from_args(a, iface(), Ok(vec![IpAddress::V4(2)]), None, 8),
        Err(UdpConfigError::BandwidthExceedsSpeed { bandwidth: 2_000_000_000, speed: 1_000_000_000 })
    ));

    let mut a = args();
    a.length = 65520;
    assert!(matches!(
        UdpConfig::try_from_args(a, iface(), Ok(vec![IpAddress::V4(2)]), None, 8),
        Err(UdpConfigError::PayloadTooLong { length: 65520, ipv6: false, max_payload: 65507 })
    ));

    let mut a = args();
    a.streams = 3;
    assert!(matches!(
        UdpConfig::try_from_args(a, iface(), Ok(vec![IpAddress::V4(2)]), None, 8),
        Err(UdpConfigError::StreamsExceedQueues { streams: 3, queues: 2 })
    ));
}

#[test]
fn warnings_for_cpus_and_mtu() {
    let mut a = args();
    a.length = 1480;
    let (_, warnings) = UdpConfig::try_from_args(a, iface(), Ok(vec![IpAddress::V4(2)]), None, 1).unwrap();
    assert_eq!(
        warnings,
        vec![
            UdpWarning::StreamsExceedCpus { streams: 2, cpus: 1 },
            UdpWarning::FrameExceedsMtu { frame: 1522, mtu: 1500 },
        ]
    );
}

#[test]
fn validator_checks() {
    let i = iface();
    assert_eq!(validate_config(&i, None, 1000, 1, 100, Ok(IpAddress::V4(2)), 4).unwrap(), vec![]);
    assert!(matches!(
        validate_config(&i, None, 2_000_000_000, 1, 100, Ok(IpAddress::V4(2)), 4),
        Err(UdpConfigError::BandwidthExceedsSpeed { .. })
    ));
    assert!(matches!(
        validate_config(&i, Some(IpAddress::V4(0x0a000001)), 1000, 1, 100, Ok(IpAddress::V6(2)), 4),
        Err(UdpConfigError::SourceFamilyMismatch { .. })
    ));
    let w = validate_config(&i, None, 1000, 1, 1500, Ok(IpAddress::V6(2)), 4).unwrap();
    assert_eq!(w, vec![UdpWarning::FrameExceedsMtu { frame: 1562, mtu: 1500 }]);
}

#[test]
fn hostnames_and_literals() {
    assert!(is_valid_hostname("example.com"));
    assert!(is_valid_hostname("example.com."));
    assert!(!is_valid_hostname("-bad.example"));
    assert!(!is_valid_hostname("a..b"));
    assert!(!is_valid_hostname(""));
    assert_eq!(parse_ip_literal("10.0.0.1", None), Some(IpAddress::V4(0x0a000001)));
    assert_eq!(parse_ip_literal("::1", Some(1)), Some(IpAddress::V6(1)));
    assert_eq!(parse_ip_literal("host", None), None);
    assert!(matches!(resolve_literal("10.0.0.1", None), Ok(Some(IpAddress::V4(0x0a000001)))));
    assert!(matches!(resolve_literal("example.com", None), Ok(None)));
    match resolve_literal("bad host", None) {
        Err(ResolveError::InvalidAddress(s)) => assert_eq!(s, "bad host"),
        _ => panic!("expected an invalid address"),
    }
    assert_eq!(resolve_lookup("example.com", Some(vec![IpAddress::V4(1)])), Ok(vec![IpAddress::V4(1)]));
    assert_eq!(resolve_lookup("example.com", Some(vec![])), Err(ResolveError::NotFound("example.com".to_string())));
    assert_eq!(resolve_lookup("example.com", None), Err(ResolveError::NotFound("example.com".to_string())));
    assert_eq!(ResolveError::NotFound("x".to_string()).message(), "could not resolve 'x'".to_string());
    assert_eq!(ResolveError::InvalidAddress("x".to_string()).message(), "invalid address 'x'".to_string());
}

#[test]
fn refusal_messages_match_the_command_line_texts() {
    let mut down = iface();
    down.operstate = Some(2);
    let e = UdpConfig::try_from_args(args(), down, Ok(vec![]), None, 8).unwrap_err();
    assert_eq!(e.message("eth0", "server.example", "", ""), "interface 'eth0' is not up");
    let mut a = args();
    a.streams = 3;
    let e = UdpConfig::try_from_args(a, iface(), Ok(vec![IpAddress::V4(0xc0000207)]), None, 8).unwrap_err();
    assert_eq!(e.message("eth0", "192.0.2.7", "", ""), "streams (3) exceeds available queues on 'eth0' (2)");
    assert_eq!(
        UdpConfigError::SourceNotConfigured { source: IpAddress::V4(0xc0000202) }.message("eth0", "s", "", ""),
        "address '192.0.2.2' is not configured on interface 'eth0'"
    );
    assert_eq!(
        UdpConfigError::SourceFamilyMismatch { source: IpAddress::V6(0x2001_0db8_0000_0000_0000_0000_0000_0001) }
            .message("eth0", "srv", "", ""),
        "source address '2001:db8::1' is not compatible with server 'srv' (address family mismatch)"
    );
    assert_eq!(
        UdpConfigError::NoCompatibleAddress.message("eth0", "srv", "", ""),
        "interface 'eth0' has no address compatible with server 'srv' (no matching address family)"
    );
    assert_eq!(
        UdpConfigError::NoAddresses.message("eth0", "srv", "", ""),
        "interface 'eth0' has no configured addresses"
    );
    assert_eq!(
        UdpConfigError::BandwidthExceedsSpeed { bandwidth: 2_000_000_000, speed: 1_000_000_000 }
            .message("eth0", "srv", "2.00 Gbit/s", "1.00 Gbit/s"),
        "requested bandwidth (2.00 Gbit/s) exceeds interface 'eth0' speed (1.00 Gbit/s)"
    );
    assert_eq!(
        UdpConfigError::PayloadTooLong { length: 65508, ipv6: false, max_payload: 65507 }.message("eth0", "srv", "", ""),
        "UDP payload length (65508 bytes) exceeds the maximum for IPv4 (65507 bytes)"
    );
    assert_eq!(
        UdpConfigError::Unresolved(ResolveError::NotFound("nowhere".to_string())).message("eth0", "nowhere", "", ""),
        "could not resolve 'nowhere'"
    );
}

#[test]
fn warning_messages_match_the_command_line_texts() {
    assert_eq!(
        UdpWarning::StreamsExceedCpus { streams: 8, cpus: 4 }.message("eth0"),
        "streams (8) exceeds CPU count (4), expect context switching"
    );
    assert_eq!(
        UdpWarning::FrameExceedsMtu { frame: 1442, mtu: 1400 }.message("eth0"),
        "frame size (1442 bytes) exceeds MTU on 'eth0' (1400 bytes), packets will be fragmented"
    );
}

#[test]
fn address_texts_follow_display() {
    assert_eq!(ip_string(IpAddress::V4(0x0a000001)), "10.0.0.1");
    assert_eq!(ip_string(IpAddress::V4(0)), "0.0.0.0");
    assert_eq!(ip_string(IpAddress::V6(0)), "::");
    assert_eq!(ip_string(IpAddress::V6(1)), "::1");
    assert_eq!(ip_string(IpAddress::V6(0xfe80_0000_0000_0000_0202_b3ff_fe1e_8329)), "fe80::202:b3ff:fe1e:8329");
    assert_eq!(ip_string(IpAddress::V6(0x2001_0db8_0000_0001_0000_0000_0000_0001)), "2001:db8:0:1::1");
    assert_eq!(ip_string(IpAddress::V6(0x2001_0db8_0000_0000_0001_0000_0000_0001)), "2001:db8::1:0:0:1");
    assert_eq!(ip_string(IpAddress::V6(0x0001_0000_0002_0003_0004_0005_0006_0007)), "1:0:2:3:4:5:6:7");
    assert_eq!(ip_string(IpAddress::V6(0x0000_0000_0000_0000_0000_ffff_c000_0280)), "::ffff:192.0.2.128");
}
