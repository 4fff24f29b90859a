//! The texts of refused UDP benchmark requests and of their warnings.

use vstd::prelude::*;

use crate::interfaces::ip_text::{ip_text, push_ip};
use crate::resolve::ResolveError;
use crate::text::{decimal_chars, decimal_spec, push_chars};
use crate::udp::checks::{UdpConfigError, UdpWarning};

verus! {

/// The message of a resolution error.
pub open spec fn resolve_error_text(e: ResolveError) -> Seq<char> {
    match e {
        ResolveError::InvalidAddress(s) => "invalid address '"@ + s@ + "'"@,
        ResolveError::NotFound(s) => "could not resolve '"@ + s@ + "'"@,
    }
}

/// The message of a refused request on interface `iface` towards server `server`. The rates of
/// a bandwidth above the interface speed are shown as `bandwidth_text` and `speed_text` (their
/// human-readable forms, which are computed in floating point outside the library).
pub open spec fn config_error_text(
    e: UdpConfigError,
    iface: Seq<char>,
    server: Seq<char>,
    bandwidth_text: Seq<char>,
    speed_text: Seq<char>,
) -> Seq<char> {
    match e {
        UdpConfigError::InterfaceDown => "interface '"@ + iface + "' is not up"@,
        UdpConfigError::NoAddresses => "interface '"@ + iface + "' has no configured addresses"@,
        UdpConfigError::SourceNotConfigured { source } => "address '"@ + ip_text(source)
            + "' is not configured on interface '"@ + iface + "'"@,
        UdpConfigError::Unresolved(r) => resolve_error_text(r),
        UdpConfigError::SourceFamilyMismatch { source } => "source address '"@ + ip_text(source)
            + "' is not compatible with server '"@ + server + "' (address family mismatch)"@,
        UdpConfigError::NoCompatibleAddress => "interface '"@ + iface
            + "' has no address compatible with server '"@ + server
            + "' (no matching address family)"@,
        UdpConfigError::BandwidthExceedsSpeed { .. } => "requested bandwidth ("@ + bandwidth_text
            + ") exceeds interface '"@ + iface + "' speed ("@ + speed_text + ")"@,
        UdpConfigError::PayloadTooLong { length, ipv6, max_payload } => "UDP payload length ("@
            + decimal_spec(length as nat) + " bytes) exceeds the maximum for "@ + (if ipv6 {
            "IPv6"@
        } else {
            "IPv4"@
        }) + " ("@ + decimal_spec(max_payload as nat) + " bytes)"@,
        UdpConfigError::StreamsExceedQueues { streams, queues } => "streams ("@ + decimal_spec(
            streams as nat,
        ) + ") exceeds available queues on '"@ + iface + "' ("@ + decimal_spec(queues as nat)
            + ")"@,
    }
}

/// The message of a warning on interface `iface`.
pub open spec fn warning_text(w: UdpWarning, iface: Seq<char>) -> Seq<char> {
    match w {
        UdpWarning::StreamsExceedCpus { streams, cpus } => "streams ("@ + decimal_spec(streams as nat)
            + ") exceeds CPU count ("@ + decimal_spec(cpus as nat) + "), expect context switching"@,
        UdpWarning::FrameExceedsMtu { frame, mtu } => "frame size ("@ + decimal_spec(frame as nat)
            + " bytes) exceeds MTU on '"@ + iface + "' ("@ + decimal_spec(mtu as nat)
            + " bytes), packets will be fragmented"@,
    }
}

/// Appends the decimal text of a number.
fn push_decimal(s: &mut String, n: u64)
    ensures
        final(s)@ == old(s)@ + decimal_spec(n as nat),
{
    let d = decimal_chars(n);
    push_chars(s, d.as_slice());
}

impl UdpConfigError {
    /// The message of the refusal, for a request on interface `iface` towards server `server`;
    /// `bandwidth_text` and `speed_text` are the human-readable rates shown when the bandwidth
    /// is above the interface speed.
    pub fn message(&self, iface: &str, server: &str, bandwidth_text: &str, speed_text: &str) -> (r: String)
        ensures
            r@ == config_error_text(*self, iface@, server@, bandwidth_text@, speed_text@),
    {
        let mut s = String::new();
        match self {
            UdpConfigError::InterfaceDown => {
                s.append("interface '");
                s.append(iface);
                s.append("' is not up");
            },
            UdpConfigError::NoAddresses => {
                s.append("interface '");
                s.append(iface);
                s.append("' has no configured addresses");
            },
            UdpConfigError::SourceNotConfigured { source } => {
                s.append("address '");
                push_ip(&mut s, *source);
                s.append("' is not configured on interface '");
                s.append(iface);
                s.append("'");
            },
            UdpConfigError::Unresolved(r) => {
                s = r.message();
            },
            UdpConfigError::SourceFamilyMismatch { source } => {
                s.append("source address '");
                push_ip(&mut s, *source);
                s.append("' is not compatible with server '");
                s.append(server);
                s.append("' (address family mismatch)");
            },
            UdpConfigError::NoCompatibleAddress => {
                s.append("interface '");
                s.append(iface);
                s.append("' has no address compatible with server '");
                s.append(server);
                s.append("' (no matching address family)");
            },
            UdpConfigError::BandwidthExceedsSpeed { .. } => {
                s.append("requested bandwidth (");
                s.append(bandwidth_text);
                s.append(") exceeds interface '");
                s.append(iface);
                s.append("' speed (");
                s.append(speed_text);
                s.append(")");
            },
            UdpConfigError::PayloadTooLong { length, ipv6, max_payload } => {
                s.append("UDP payload length (");
                push_decimal(&mut s, *length as u64);
                s.append(" bytes) exceeds the maximum for ");
                if *ipv6 {
                    s.append("IPv6");
                } else {
                    s.append("IPv4");
                }
                s.append(" (");
                push_decimal(&mut s, *max_payload as u64);
                s.append(" bytes)");
            },
            UdpConfigError::StreamsExceedQueues { streams, queues } => {
                s.append("streams (");
                push_decimal(&mut s, *streams as u64);
                s.append(") exceeds available queues on '");
                s.append(iface);
                s.append("' (");
                push_decimal(&mut s, *queues as u64);
                s.append(")");
            },
        }
        assert(s@ =~= config_error_text(*self, iface@, server@, bandwidth_text@, speed_text@));
        s
    }
}

impl UdpWarning {
    /// The message of the warning, for a request on interface `iface`.
    pub fn message(&self, iface: &str) -> (r: String)
        ensures
            r@ == warning_text(*self, iface@),
    {
        let mut s = String::new();
        match self {
            UdpWarning::StreamsExceedCpus { streams, cpus } => {
                s.append("streams (");
                push_decimal(&mut s, *streams as u64);
                s.append(") exceeds CPU count (");
                push_decimal(&mut s, *cpus as u64);
                s.append("), expect context switching");
            },
            UdpWarning::FrameExceedsMtu { frame, mtu } => {
                s.append("frame size (");
                push_decimal(&mut s, *frame as u64);
                s.append(" bytes) exceeds MTU on '");
                s.append(iface);
                s.append("' (");
                push_decimal(&mut s, *mtu as u64);
                s.append(" bytes), packets will be fragmented");
            },
        }
        assert(s@ =~= warning_text(*self, iface@));
        s
    }
}

} // verus!
