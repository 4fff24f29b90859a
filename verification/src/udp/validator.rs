//! Validating a UDP benchmark configuration against the client interface.

use vstd::prelude::*;

use crate::interfaces::constants::IF_OPER_UP;
use crate::interfaces::types::{Interface, InterfaceAddress, IpAddress};
use crate::resolve::ResolveError;
use crate::udp::checks::{
    address_configured, has_address, is_same_family, queue_limit, queue_limit_of, same_family,
    udp_warnings, warnings_for, UdpConfigError, UdpWarning,
};

verus! {

/// Whether some interface address has the family of `server`.
pub open spec fn has_family(addrs: Seq<InterfaceAddress>, server: IpAddress) -> bool {
    exists|i: int| 0 <= i < addrs.len() && same_family((#[trigger] addrs[i]).addr, server)
}

/// The outcome of validating a configuration, in the order the checks are made: the interface
/// is up, the bandwidth is within its speed, it has an address, the source address (if any) is
/// configured on it, the server resolved, the source address (or else some interface address)
/// has the server's family, and the streams are within the interface queues.
pub open spec fn validation_outcome(
    iface: Interface,
    source_addr: Option<IpAddress>,
    bandwidth: u64,
    streams: u16,
    resolved: Result<IpAddress, ResolveError>,
) -> Result<IpAddress, UdpConfigError> {
    if iface.operstate != Some(IF_OPER_UP) {
        Err(UdpConfigError::InterfaceDown)
    } else if iface.speed is Some && bandwidth > iface.speed.unwrap() {
        Err(UdpConfigError::BandwidthExceedsSpeed { bandwidth, speed: iface.speed.unwrap() })
    } else if iface.addresses@.len() == 0 {
        Err(UdpConfigError::NoAddresses)
    } else if source_addr is Some && !has_address(iface.addresses@, source_addr.unwrap()) {
        Err(UdpConfigError::SourceNotConfigured { source: source_addr.unwrap() })
    } else {
        match resolved {
            Err(e) => Err(UdpConfigError::Unresolved(e)),
            Ok(server) => {
                if source_addr is Some && !same_family(source_addr.unwrap(), server) {
                    Err(UdpConfigError::SourceFamilyMismatch { source: source_addr.unwrap() })
                } else if source_addr is None && !has_family(iface.addresses@, server) {
                    Err(UdpConfigError::NoCompatibleAddress)
                } else if queue_limit(iface.rx_queues, iface.tx_queues) is Some
                    && streams as u32 > queue_limit(iface.rx_queues, iface.tx_queues).unwrap() {
                    Err(UdpConfigError::StreamsExceedQueues { streams, queues: queue_limit(iface.rx_queues, iface.tx_queues).unwrap() })
                } else {
                    Ok(server)
                }
            },
        }
    }
}

/// Whether some interface address has the family of `server`.
fn family_available(addrs: &Vec<InterfaceAddress>, server: IpAddress) -> (r: bool)
    ensures
        r == has_family(addrs@, server),
{
    let mut i: usize = 0;
    while i < addrs.len()
        invariant
            i <= addrs@.len(),
            forall|j: int| 0 <= j < i ==> !same_family((#[trigger] addrs@[j]).addr, server),
        decreases addrs@.len() - i,
    {
        if is_same_family(addrs[i].addr, server) {
            return true;
        }
        i = i + 1;
    }
    false
}

/// Validates a UDP benchmark configuration against its client interface `iface` and the
/// resolution of its server, and gives the warnings it deserves (`cpu_count` is the number of
/// CPUs available).
pub fn validate_config(
    iface: &Interface,
    source_addr: Option<IpAddress>,
    bandwidth: u64,
    streams: u16,
    length: u16,
    resolved: Result<IpAddress, ResolveError>,
    cpu_count: u32,
) -> (r: Result<Vec<UdpWarning>, UdpConfigError>)
    ensures
        match r {
            Ok(warnings) => {
                &&& validation_outcome(*iface, source_addr, bandwidth, streams, resolved) is Ok
                &&& warnings@ == udp_warnings(streams, cpu_count, iface.mtu, length,
                    validation_outcome(*iface, source_addr, bandwidth, streams, resolved).unwrap())
            },
            Err(e) => validation_outcome(*iface, source_addr, bandwidth, streams, resolved) == Err::<IpAddress, UdpConfigError>(e),
        },
{
    if iface.operstate != Some(IF_OPER_UP) {
        return Err(UdpConfigError::InterfaceDown);
    }
    match iface.speed {
        Some(speed) => {
            if bandwidth > speed {
                return Err(UdpConfigError::BandwidthExceedsSpeed { bandwidth, speed });
            }
        },
        None => {},
    }
    if iface.addresses.len() == 0 {
        return Err(UdpConfigError::NoAddresses);
    }
    match source_addr {
        Some(src) => {
            if !address_configured(&iface.addresses, src) {
                return Err(UdpConfigError::SourceNotConfigured { source: src });
            }
        },
        None => {},
    }
    let server = match resolved {
        Err(e) => {
            return Err(UdpConfigError::Unresolved(e));
        },
        Ok(s) => s,
    };
    match source_addr {
        Some(src) => {
            if !is_same_family(src, server) {
                return Err(UdpConfigError::SourceFamilyMismatch { source: src });
            }
        },
        None => {
            if !family_available(&iface.addresses, server) {
                return Err(UdpConfigError::NoCompatibleAddress);
            }
        },
    }
    match queue_limit_of(iface.rx_queues, iface.tx_queues) {
        Some(queues) => {
            if streams as u32 > queues {
                return Err(UdpConfigError::StreamsExceedQueues { streams, queues });
            }
        },
        None => {},
    }
    Ok(warnings_for(streams, cpu_count, iface.mtu, length, server))
}

/// A validated configuration respects every limit it was checked against: the interface is up,
/// the bandwidth is within its speed, the source address (if any) is configured on it and has
/// the server's family, else some interface address has it, and the streams are within the
/// interface queues.
pub proof fn lemma_validated_within_limits(
    iface: Interface,
    source_addr: Option<IpAddress>,
    bandwidth: u64,
    streams: u16,
    resolved: Result<IpAddress, ResolveError>,
)
    requires
        validation_outcome(iface, source_addr, bandwidth, streams, resolved) is Ok,
    ensures
        ({
            let server = validation_outcome(iface, source_addr, bandwidth, streams, resolved).unwrap();
            &&& iface.operstate == Some(IF_OPER_UP)
            &&& resolved == Ok::<IpAddress, ResolveError>(server)
            &&& (iface.speed matches Some(speed) ==> bandwidth <= speed)
            &&& (source_addr matches Some(src) ==> has_address(iface.addresses@, src) && same_family(src, server))
            &&& (source_addr is None ==> has_family(iface.addresses@, server))
            &&& (queue_limit(iface.rx_queues, iface.tx_queues) matches Some(q) ==> streams <= q)
            &&& (iface.rx_queues matches Some(rx) ==> iface.tx_queues matches Some(tx) ==> streams <= rx
                && streams <= tx)
        }),
{
}

/// A request refused for its streams names the streams asked for and the smaller of the
/// interface's RX and TX queue counts, both of which are known, and asks for more streams than
/// that.
pub proof fn lemma_validation_queue_refusal(
    iface: Interface,
    source_addr: Option<IpAddress>,
    bandwidth: u64,
    streams: u16,
    resolved: Result<IpAddress, ResolveError>,
    s: u16,
    q: u32,
)
    requires
        validation_outcome(iface, source_addr, bandwidth, streams, resolved) == Err::<IpAddress, UdpConfigError>(
            UdpConfigError::StreamsExceedQueues { streams: s, queues: q }),
    ensures
        s == streams,
        iface.rx_queues is Some && iface.tx_queues is Some,
        q <= iface.rx_queues.unwrap() && q <= iface.tx_queues.unwrap(),
        q == iface.rx_queues.unwrap() || q == iface.tx_queues.unwrap(),
        streams > q,
{
}

} // verus!
