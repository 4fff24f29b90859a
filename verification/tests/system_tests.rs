use aether_wire::kernel::flags::{find_kernel_config_path, get_kernel_flag, kernel_config_candidates, KernelConfigError, KernelFlagValue};
use aether_wire::kernel::modules::is_in_proc_modules;
use aether_wire::kernel::version::KernelVersion;
use aether_wire::logging::{local_timestamp, log, log_message, LogLevel, TmFields};
use aether_wire::payload::{make_buffer, stream_seed, BUFFER_SIZE};

fn lines(v: &[&str]) -> Vec<String> {
    v.iter().map(|s| s.to_string()).collect()
}

#[test]
fn kernel_flags() {
    let cfg = lines(&["# comment", "CONFIG_XDP_SOCKETS=y", "CONFIG_BPF=m", "# CONFIG_FOO is not set", "CONFIG_HZ=250", "CONFIG_N=n"]);
    assert!(matches!(get_kernel_flag(&cfg, "CONFIG_XDP_SOCKETS"), KernelFlagValue::Yes));
    assert!(matches!(get_kernel_flag(&cfg, "CONFIG_BPF"), KernelFlagValue::Module));
    assert!(matches!(get_kernel_flag(&cfg, "CONFIG_FOO"), KernelFlagValue::No));
    assert!(matches!(get_kernel_flag(&cfg, "CONFIG_N"), KernelFlagValue::No));
    assert!(matches!(get_kernel_flag(&cfg, "CONFIG_MISSING"), KernelFlagValue::No));
    match get_kernel_flag(&cfg, "CONFIG_HZ") {
        KernelFlagValue::Value(v) => assert_eq!(v, "250"),
        _ => panic!("expected a value"),
    }
    let spaced = lines(&["  CONFIG_X=y  "]);
    assert!(matches!(get_kernel_flag(&spaced, "CONFIG_X"), KernelFlagValue::Yes));
}

#[test]
fn kernel_config_paths() {
    let (boot, modules) = kernel_config_candidates("6.8.0-45-generic");
    assert_eq!(boot, "/boot/config-6.8.0-45-generic");
    assert_eq!(modules, "/lib/modules/6.8.0-45-generic/config");
    assert_eq!(find_kernel_config_path("6.1", true, true).unwrap(), "/boot/config-6.1");
    assert_eq!(find_kernel_config_path("6.1", false, true).unwrap(), "/lib/modules/6.1/config");
    assert!(matches!(find_kernel_config_path("6.1", false, false), Err(KernelConfigError::ConfigNotFound)));
    assert_eq!(KernelConfigError::ConfigNotFound.message(), "kernel config not found");
}

#[test]
fn proc_modules() {
    let m = lines(&["veth 40960 0 - Live 0x0", "  mlx5_core 1 0 - Live", ""]);
    assert!(is_in_proc_modules(&m, "veth"));
    assert!(is_in_proc_modules(&m, "mlx5_core"));
    assert!(!is_in_proc_modules(&m, "mlx5"));
    assert!(!is_in_proc_modules(&m, "Live"));
}

#[test]
fn kernel_versions() {
    assert_eq!(KernelVersion::from_release("6.8.0-45-generic"), Some(KernelVersion { major: 6, minor: 8 }));
    assert_eq!(KernelVersion::from_release("5.15"), Some(KernelVersion { major: 5, minor: 15 }));
    assert_eq!(KernelVersion::from_release("6"), None);
    assert_eq!(KernelVersion::from_release("x.1"), None);
    assert_eq!(KernelVersion::from_release("6-rc1.2"), None);
}

#[test]
fn payload_seeds_and_buffers() {
    assert_eq!(stream_seed(42, 0), 42);
    assert_eq!(stream_seed(0, 1), 0x9E37_79B9_7F4A_7C15);
    assert_eq!(stream_seed(stream_seed(123, 7), 7), 123);
    let seeds: Vec<u64> = (0u16..64).map(|id| stream_seed(99, id)).collect();
    for i in 0..seeds.len() {
        for j in (i + 1)..seeds.len() {
            assert_ne!(seeds[i], seeds[j]);
        }
    }
    let a = make_buffer(7);
    assert_eq!(a.len(), BUFFER_SIZE);
    assert_eq!(a, make_buffer(7));
    assert_ne!(a, make_buffer(8));
    assert!(a.iter().any(|b| *b != 0));
}

#[test]
fn log_lines() {
    let tm = TmFields { tm_year: 124, tm_mon: 0, tm_mday: 5, tm_hour: 9, tm_min: 3, tm_sec: 7 };
    assert_eq!(local_timestamp(Some(tm), 45_000_000), "2024-01-05 09:03:07.045");
    assert_eq!(local_timestamp(None, 0), "0000-00-00 00:00:00.000");
    assert_eq!(log("T", LogLevel::Warn, "hello"), "T - WARN - hello");
    assert_eq!(LogLevel::Error.label(), "ERROR");
    assert_eq!(log_message(LogLevel::Info, Some("udp"), "T", "m"), "\x1b[38;2;137;180;250mT [udp] m\x1b[0m");
    assert_eq!(log_message(LogLevel::Error, None, "T", "m"), "\x1b[91mT m\x1b[0m");
}
