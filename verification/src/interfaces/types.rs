//! Interface records.

use vstd::prelude::*;

verus! {

/// An IP address, its octets read as a big-endian integer (as `Ipv4Addr::from(u32)` and
/// `Ipv6Addr::from(u128)` take them).
#[derive(Debug, Clone, Copy, PartialEq, Eq, Structural)]
pub enum IpAddress {
    V4(u32),
    V6(u128),
}

impl IpAddress {
    /// Whether this is an IPv4 address.
    pub fn is_ipv4(&self) -> (r: bool)
        ensures
            r == (*self is V4),
    {
        match self {
            IpAddress::V4(_) => true,
            IpAddress::V6(_) => false,
        }
    }
}

/// The kind of link behind an interface.
#[derive(Debug, Clone, Copy, PartialEq, Eq, Structural)]
pub enum InterfaceKind {
    Ethernet,
    Loopback,
    Ppp,
    Tunnel,
    RawIp,
    Other(u32),
}

/// Whether an interface is backed by a device.
#[derive(Debug, Clone, Copy, PartialEq, Eq, Structural)]
pub enum InterfaceClass {
    Device,
    Virtual,
}

/// An address configured on an interface.
#[derive(Debug, Clone, Copy, PartialEq, Eq, Structural)]
pub struct InterfaceAddress {
    pub addr: IpAddress,
    pub prefix_len: u8,
}

/// Link details reported by Netlink RTM_GETLINK.
#[derive(Debug, Clone, Copy, PartialEq, Eq, Structural)]
pub struct InterfaceDetails {
    pub mtu: Option<u32>,
    pub operstate: Option<u8>,
    pub rx_queues: Option<u32>,
    pub tx_queues: Option<u32>,
    pub xdp_features: Option<u64>,
    pub xdp_attached: Option<u8>,
    pub xdp_prog_id: Option<u32>,
}

/// Link details that report nothing.
pub open spec fn no_details() -> InterfaceDetails {
    InterfaceDetails {
        mtu: None,
        operstate: None,
        rx_queues: None,
        tx_queues: None,
        xdp_features: None,
        xdp_attached: None,
        xdp_prog_id: None,
    }
}

impl InterfaceDetails {
    /// Link details that report nothing.
    pub fn empty() -> (d: InterfaceDetails)
        ensures
            d == no_details(),
    {
        InterfaceDetails {
            mtu: None,
            operstate: None,
            rx_queues: None,
            tx_queues: None,
            xdp_features: None,
            xdp_attached: None,
            xdp_prog_id: None,
        }
    }
}

/// A network interface, from sysfs and Netlink.
#[derive(Debug, Clone)]
pub struct Interface {
    pub index: i32,
    pub name: String,
    pub kind: InterfaceKind,
    pub class: InterfaceClass,
    pub driver: Option<String>,
    pub speed: Option<u64>,
    pub mtu: Option<u32>,
    pub operstate: Option<u8>,
    pub rx_queues: Option<u32>,
    pub tx_queues: Option<u32>,
    pub xdp_features: Option<u64>,
    pub xdp_attached: Option<u8>,
    pub xdp_prog_id: Option<u32>,
    pub addresses: Vec<InterfaceAddress>,
}

impl Interface {
    /// The Netlink link details held by this interface.
    pub open spec fn details(&self) -> InterfaceDetails {
        InterfaceDetails {
            mtu: self.mtu,
            operstate: self.operstate,
            rx_queues: self.rx_queues,
            tx_queues: self.tx_queues,
            xdp_features: self.xdp_features,
            xdp_attached: self.xdp_attached,
            xdp_prog_id: self.xdp_prog_id,
        }
    }

    /// The sysfs facts of this interface: what Netlink replies do not change.
    pub open spec fn sysfs_facts(&self) -> (i32, Seq<char>, InterfaceKind, InterfaceClass, Option<Seq<char>>, Option<u64>) {
        (
            self.index,
            self.name@,
            self.kind,
            self.class,
            match self.driver {
                Some(d) => Some(d@),
                None => None,
            },
            self.speed,
        )
    }

    /// A fresh interface record for `name`: index 0, kind `Other(0)`, virtual, and nothing
    /// else known.
    pub fn new(name: String) -> (i: Interface)
        ensures
            i.name@ == name@,
            i.index == 0,
            i.kind == InterfaceKind::Other(0),
            i.class == InterfaceClass::Virtual,
            i.driver is None,
            i.speed is None,
            i.details() == no_details(),
            i.addresses@ == Seq::<InterfaceAddress>::empty(),
    {
        Interface {
            index: 0,
            name,
            kind: InterfaceKind::Other(0),
            class: InterfaceClass::Virtual,
            driver: None,
            speed: None,
            mtu: None,
            operstate: None,
            rx_queues: None,
            tx_queues: None,
            xdp_features: None,
            xdp_attached: None,
            xdp_prog_id: None,
            addresses: Vec::new(),
        }
    }
}

} // verus!
