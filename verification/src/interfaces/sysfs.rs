//! Filling an interface from what sysfs holds for it.

use vstd::prelude::*;

use super::error::InterfaceError;
use super::parser::{
    ifindex_of, kind_of, link_type_of, parse_interface_class, parse_interface_index,
    parse_interface_kind, parse_interface_speed, speed_bps_of, speed_in_range,
};
use super::types::{no_details, Interface, InterfaceClass, InterfaceKind};

verus! {

/// What `/sys/class/net/<name>` holds for an interface, as read from disk.
pub struct SysfsRecord {
    /// Text of `ifindex`.
    pub ifindex: String,
    /// Text of `type`, or `None` when it could not be read.
    pub link_type: Option<String>,
    /// Whether a `device` entry exists.
    pub has_device: bool,
    /// File name of the `device/driver` link target, if the link could be read.
    pub driver: Option<String>,
    /// Text of `speed`, or `None` when it could not be read.
    pub speed: Option<String>,
}

/// The sysfs link type of a record: unreadable counts as type 0.
pub open spec fn record_link_type(r: SysfsRecord) -> u32 {
    match r.link_type {
        Some(t) => link_type_of(t@),
        None => 0,
    }
}

/// Whether a record's `speed`, when it parses, gives a bit rate that fits in a `u64`.
pub open spec fn record_speed_ok(r: SysfsRecord) -> bool {
    r.speed matches Some(t) ==> speed_in_range(t@)
}

/// Fills an interface's sysfs facts from a record: index, kind, class, driver and speed. An
/// `ifindex` that does not parse is an error and leaves the interface unchanged; an
/// unreadable or unparsable `type` counts as type 0, an unreadable or unparsable `speed` as
/// unknown.
pub fn parse_sysfs_interface(record: &SysfsRecord, interface: &mut Interface) -> (r: Result<(), InterfaceError>)
    requires
        record.speed matches Some(t) ==> speed_in_range(t@),
    ensures
        ifindex_of(record.ifindex@) is None ==> r == Err::<(), InterfaceError>(InterfaceError::InvalidData)
            && final(interface).sysfs_facts() == old(interface).sysfs_facts(),
        ifindex_of(record.ifindex@) matches Some(i) ==> {
            &&& r is Ok
            &&& final(interface).index == i
            &&& final(interface).kind == kind_of(record_link_type(*record))
            &&& final(interface).class == (if record.has_device {
                InterfaceClass::Device
            } else {
                InterfaceClass::Virtual
            })
            &&& final(interface).driver == record.driver
            &&& final(interface).speed == (match record.speed {
                Some(t) => speed_bps_of(t@),
                None => None,
            })
        },
        final(interface).name@ == old(interface).name@,
        final(interface).details() == old(interface).details(),
        final(interface).addresses@ == old(interface).addresses@,
{
    let index = match parse_interface_index(record.ifindex.as_str()) {
        Ok(i) => i,
        Err(e) => {
            return Err(e);
        },
    };
    let kind = match &record.link_type {
        Some(t) => parse_interface_kind(t.as_str()),
        None => InterfaceKind::Other(0),
    };
    let speed = match &record.speed {
        Some(t) => parse_interface_speed(Some(t.as_str())),
        None => None,
    };
    interface.index = index;
    interface.kind = kind;
    interface.class = parse_interface_class(record.has_device);
    interface.driver = record.driver.clone();
    interface.speed = speed;
    Ok(())
}

/// The interface a sysfs record describes, for an interface named `name`; `None` when its
/// `ifindex` does not parse.
pub open spec fn record_describes(name: Seq<char>, r: SysfsRecord, i: Interface) -> bool {
    &&& ifindex_of(r.ifindex@) == Some(i.index)
    &&& i.name@ == name
    &&& i.kind == kind_of(record_link_type(r))
    &&& i.class == (if r.has_device {
        InterfaceClass::Device
    } else {
        InterfaceClass::Virtual
    })
    &&& i.driver == r.driver
    &&& i.speed == (match r.speed {
        Some(t) => speed_bps_of(t@),
        None => None,
    })
    &&& i.details() == no_details()
    &&& i.addresses@.len() == 0
}

/// Builds the interface named `name` from its sysfs record.
pub fn interface_from_sysfs(name: String, record: &SysfsRecord) -> (r: Result<Interface, InterfaceError>)
    requires
        record.speed matches Some(t) ==> speed_in_range(t@),
    ensures
        match r {
            Ok(i) => record_describes(name@, *record, i),
            Err(e) => ifindex_of(record.ifindex@) is None && e == InterfaceError::InvalidData,
        },
{
    let mut iface = Interface::new(name);
    match parse_sysfs_interface(record, &mut iface) {
        Ok(()) => Ok(iface),
        Err(e) => Err(e),
    }
}

/// Builds interfaces from the sysfs records of a directory listing, in listing order; the
/// first record whose `ifindex` does not parse makes the whole listing fail.
pub fn interfaces_from_sysfs(entries: Vec<(String, SysfsRecord)>) -> (r: Result<Vec<Interface>, InterfaceError>)
    requires
        forall|k: int| 0 <= k < entries@.len() ==> record_speed_ok(#[trigger] entries@[k].1),
    ensures
        match r {
            Ok(v) => v@.len() == entries@.len() && forall|k: int|
                0 <= k < entries@.len() ==> record_describes(entries@[k].0@, entries@[k].1, #[trigger] v@[k]),
            Err(e) => e == InterfaceError::InvalidData && exists|k: int|
                0 <= k < entries@.len() && ifindex_of((#[trigger] entries@[k]).1.ifindex@) is None,
        },
{
    let mut out: Vec<Interface> = Vec::new();
    let mut i: usize = 0;
    while i < entries.len()
        invariant
            i <= entries@.len(),
            out@.len() == i,
            forall|k: int| 0 <= k < entries@.len() ==> record_speed_ok(#[trigger] entries@[k].1),
            forall|k: int| 0 <= k < i ==> record_describes(entries@[k].0@, entries@[k].1, #[trigger] out@[k]),
        decreases entries@.len() - i,
    {
        let (name, record) = &entries[i];
        match interface_from_sysfs(name.clone(), record) {
            Ok(iface) => {
                out.push(iface);
            },
            Err(e) => {
                assert(ifindex_of(entries@[i as int].1.ifindex@) is None);
                return Err(e);
            },
        }
        i = i + 1;
    }
    Ok(out)
}

} // verus!
