//! Building the UDP benchmark configuration from the command line request.

use vstd::prelude::*;

use crate::interfaces::constants::IF_OPER_UP;
use crate::interfaces::types::{Interface, IpAddress};
use crate::resolve::{ip_literal, parse_ip_literal, ResolveError};
use crate::text::{chars_of, string_of};
use crate::udp::checks::{
    address_configured, find_for_addresses, find_same_family, first_for_addresses,
    first_same_family, has_address, lemma_first_for_addresses, lemma_first_same_family,
    max_payload, same_family, max_payload_for, queue_limit, queue_limit_of,
    udp_warnings, warnings_for, UdpConfigError, UdpWarning,
};

verus! {

/// The UDP benchmark request as the command line gives it.
#[derive(Debug, Clone)]
pub struct UdpCliArgs {
    /// Name of the client interface.
    pub client_iface: String,
    /// Server hostname or IP address.
    pub server_host: String,
    pub server_port: u16,
    /// Source address to send from, if one was asked for.
    pub client_source_addr: Option<IpAddress>,
    /// Requested bandwidth, in bits per second.
    pub bandwidth: u64,
    /// UDP payload length, in bytes.
    pub length: u16,
    pub duration_secs: u64,
    pub streams: u16,
}

/// An accepted UDP benchmark configuration.
#[derive(Debug, Clone)]
pub struct UdpConfig {
    /// The server's hostname, when it was not given as an IP address.
    pub server_hostname: Option<String>,
    pub server_addr: IpAddress,
    pub server_port: u16,
    pub client_iface: Interface,
    pub client_source_addr: Option<IpAddress>,
    pub bandwidth: u64,
    pub length: u16,
    pub duration_secs: u64,
    pub streams: u16,
}

/// The server address a request goes to, among the resolved addresses: the first of the
/// source address's family when a source was asked for, else the first compatible with an
/// interface address (interface addresses taken in order).
pub open spec fn server_choice(source: Option<IpAddress>, iface: Interface, servers: Seq<IpAddress>) -> Option<IpAddress> {
    match source {
        Some(src) => first_same_family(servers, src, 0),
        None => first_for_addresses(iface.addresses@, servers, 0),
    }
}

/// The checks after the server is resolved: a compatible server address, the bandwidth
/// within the interface speed, the payload within the protocol maximum, the streams within
/// the interface queues.
pub open spec fn udp_server_outcome(args: UdpCliArgs, iface: Interface, servers: Seq<IpAddress>) -> Result<IpAddress, UdpConfigError> {
    match server_choice(args.client_source_addr, iface, servers) {
        None => match args.client_source_addr {
            Some(src) => Err(UdpConfigError::SourceFamilyMismatch { source: src }),
            None => Err(UdpConfigError::NoCompatibleAddress),
        },
        Some(server) => {
            if iface.speed is Some && args.bandwidth > iface.speed.unwrap() {
                Err(UdpConfigError::BandwidthExceedsSpeed { bandwidth: args.bandwidth, speed: iface.speed.unwrap() })
            } else if args.length > max_payload(server) {
                Err(UdpConfigError::PayloadTooLong { length: args.length, ipv6: server is V6, max_payload: max_payload(server) })
            } else if queue_limit(iface.rx_queues, iface.tx_queues) is Some
                && args.streams as u32 > queue_limit(iface.rx_queues, iface.tx_queues).unwrap() {
                Err(UdpConfigError::StreamsExceedQueues { streams: args.streams, queues: queue_limit(iface.rx_queues, iface.tx_queues).unwrap() })
            } else {
                Ok(server)
            }
        },
    }
}

/// The outcome of checking a request against its interface and the resolution of its server,
/// in the order the checks are made: the interface is up, it has an address, the source address
/// (if any) is configured on it, the server resolved, then `udp_server_outcome`.
pub open spec fn udp_config_outcome(args: UdpCliArgs, iface: Interface, resolved: Result<Vec<IpAddress>, ResolveError>) -> Result<IpAddress, UdpConfigError> {
    if iface.operstate != Some(IF_OPER_UP) {
        Err(UdpConfigError::InterfaceDown)
    } else if iface.addresses@.len() == 0 {
        Err(UdpConfigError::NoAddresses)
    } else if args.client_source_addr is Some && !has_address(iface.addresses@, args.client_source_addr.unwrap()) {
        Err(UdpConfigError::SourceNotConfigured { source: args.client_source_addr.unwrap() })
    } else {
        match resolved {
            Err(e) => Err(UdpConfigError::Unresolved(e)),
            Ok(servers) => udp_server_outcome(args, iface, servers@),
        }
    }
}

/// An accepted request respects every limit it was checked against: the interface is up, the
/// server address is one of the resolved addresses, of the source address's family when a
/// source was asked for (and the source is configured on the interface), else of the family of
/// some interface address; the bandwidth is within the interface speed, the payload within the
/// protocol maximum and the streams within the interface queues.
pub proof fn lemma_accepted_request_within_limits(args: UdpCliArgs, iface: Interface, resolved: Result<Vec<IpAddress>, ResolveError>)
    requires
        udp_config_outcome(args, iface, resolved) is Ok,
    ensures
        ({
            let server = udp_config_outcome(args, iface, resolved).unwrap();
            &&& iface.operstate == Some(IF_OPER_UP)
            &&& resolved is Ok && resolved.unwrap()@.contains(server)
            &&& (args.client_source_addr matches Some(src) ==> has_address(iface.addresses@, src) && same_family(src, server))
            &&& (args.client_source_addr is None ==> exists|j: int|
                0 <= j < iface.addresses@.len() && same_family(server, #[trigger] iface.addresses@[j].addr))
            &&& (iface.speed matches Some(speed) ==> args.bandwidth <= speed)
            &&& args.length <= max_payload(server)
            &&& (queue_limit(iface.rx_queues, iface.tx_queues) matches Some(q) ==> args.streams <= q)
            &&& (iface.rx_queues matches Some(rx) ==> iface.tx_queues matches Some(tx) ==> args.streams <= rx
                && args.streams <= tx)
        }),
{
    let servers = resolved.unwrap()@;
    match args.client_source_addr {
        Some(src) => {
            lemma_first_same_family(servers, src, 0);
        },
        None => {
            lemma_first_for_addresses(iface.addresses@, servers, 0);
        },
    }
}

/// A request refused for its streams names the streams asked for and the smaller of the
/// interface's RX and TX queue counts, both of which are known, and asks for more streams than
/// that.
pub proof fn lemma_config_queue_refusal(
    args: UdpCliArgs,
    iface: Interface,
    resolved: Result<Vec<IpAddress>, ResolveError>,
    s: u16,
    q: u32,
)
    requires
        udp_config_outcome(args, iface, resolved) == Err::<IpAddress, UdpConfigError>(
            UdpConfigError::StreamsExceedQueues { streams: s, queues: q }),
    ensures
        s == args.streams,
        iface.rx_queues is Some && iface.tx_queues is Some,
        q <= iface.rx_queues.unwrap() && q <= iface.tx_queues.unwrap(),
        q == iface.rx_queues.unwrap() || q == iface.tx_queues.unwrap(),
        args.streams > q,
{
}

impl UdpConfig {
    /// Checks a UDP benchmark request and builds its configuration, with the warnings it
    /// deserves. `iface` is the client interface named by the request, `resolved` what
    /// resolving the server gave, `server_ipv6` the standard library's IPv6 reading of the
    /// server text (to tell a hostname from an address), `cpu_count` the CPUs available.
    pub fn try_from_args(
        args: UdpCliArgs,
        iface: Interface,
        resolved: Result<Vec<IpAddress>, ResolveError>,
        server_ipv6: Option<u128>,
        cpu_count: u32,
    ) -> (r: Result<(UdpConfig, Vec<UdpWarning>), UdpConfigError>)
        ensures
            match r {
                Ok((cfg, warnings)) => {
                    &&& udp_config_outcome(args, iface, resolved) == Ok::<IpAddress, UdpConfigError>(cfg.server_addr)
                    &&& (cfg.server_hostname is Some <==> ip_literal(args.server_host@, server_ipv6) is None)
                    &&& (cfg.server_hostname matches Some(h) ==> h@ == args.server_host@)
                    &&& cfg.server_port == args.server_port
                    &&& cfg.client_iface == iface
                    &&& cfg.client_source_addr == args.client_source_addr
                    &&& cfg.bandwidth == args.bandwidth
                    &&& cfg.length == args.length
                    &&& cfg.duration_secs == args.duration_secs
                    &&& cfg.streams == args.streams
                    &&& warnings@ == udp_warnings(args.streams, cpu_count, iface.mtu, args.length, cfg.server_addr)
                },
                Err(e) => udp_config_outcome(args, iface, resolved) == Err::<IpAddress, UdpConfigError>(e),
            },
    {
        if iface.operstate != Some(IF_OPER_UP) {
            return Err(UdpConfigError::InterfaceDown);
        }
        if iface.addresses.len() == 0 {
            return Err(UdpConfigError::NoAddresses);
        }
        match args.client_source_addr {
            Some(src) => {
                if !address_configured(&iface.addresses, src) {
                    return Err(UdpConfigError::SourceNotConfigured { source: src });
                }
            },
            None => {},
        }
        let server_hostname = match parse_ip_literal(args.server_host.as_str(), server_ipv6) {
            Some(_) => None,
            None => {
                let cs = chars_of(args.server_host.as_str());
                Some(string_of(cs.as_slice()))
            },
        };
        let servers = match resolved {
            Err(e) => {
                return Err(UdpConfigError::Unresolved(e));
            },
            Ok(v) => v,
        };
        let choice = match args.client_source_addr {
            Some(src) => find_same_family(&servers, src),
            None => find_for_addresses(&iface.addresses, &servers),
        };
        let server_addr = match choice {
            Some(s) => s,
            None => {
                return match args.client_source_addr {
                    Some(src) => Err(UdpConfigError::SourceFamilyMismatch { source: src }),
                    None => Err(UdpConfigError::NoCompatibleAddress),
                };
            },
        };
        match iface.speed {
            Some(speed) => {
                if args.bandwidth > speed {
                    return Err(UdpConfigError::BandwidthExceedsSpeed { bandwidth: args.bandwidth, speed });
                }
            },
            None => {},
        }
        let max = max_payload_for(server_addr);
        if args.length > max {
            return Err(UdpConfigError::PayloadTooLong {
                length: args.length,
                ipv6: !server_addr.is_ipv4(),
                max_payload: max,
            });
        }
        match queue_limit_of(iface.rx_queues, iface.tx_queues) {
            Some(queues) => {
                if args.streams as u32 > queues {
                    return Err(UdpConfigError::StreamsExceedQueues { streams: args.streams, queues });
                }
            },
            None => {},
        }
        let warnings = warnings_for(args.streams, cpu_count, iface.mtu, args.length, server_addr);
        let cfg = UdpConfig {
            server_hostname,
            server_addr,
            server_port: args.server_port,
            client_iface: iface,
            client_source_addr: args.client_source_addr,
            bandwidth: args.bandwidth,
            length: args.length,
            duration_secs: args.duration_secs,
            streams: args.streams,
        };
        Ok((cfg, warnings))
    }
}

} // verus!
