use aether_wire::interfaces::error::InterfaceError;
use aether_wire::interfaces::parser::{parse_interface_class, parse_interface_index, parse_interface_kind, parse_interface_speed};
use aether_wire::interfaces::query::{get_interface_addresses, get_interface_details};
use aether_wire::interfaces::types::{InterfaceClass, InterfaceKind, IpAddress};

fn header(len: u32, ty: u16, flags: u16) -> Vec<u8> {
    let mut v = Vec::new();
    v.extend_from_slice(&len.to_le_bytes());
    v.extend_from_slice(&ty.to_le_bytes());
    v.extend_from_slice(&flags.to_le_bytes());
    v.extend_from_slice(&1u32.to_le_bytes());
    v.extend_from_slice(&0u32.to_le_bytes());
    v
}

fn attr(ty: u16, data: &[u8]) -> Vec<u8> {
    let mut v = Vec::new();
    v.extend_from_slice(&((4 + data.len()) as u16).to_le_bytes());
    v.extend_from_slice(&ty.to_le_bytes());
    v.extend_from_slice(data);
    while v.len() % 4 != 0 {
        v.push(0);
    }
    v
}

fn message(ty: u16, body: &[u8]) -> Vec<u8> {
    let mut m = header((16 + body.len()) as u32, ty, 0);
    m.extend_from_slice(body);
    while m.len() % 4 != 0 {
        m.push(0);
    }
    m
}

fn newlink(index: i32, attrs: &[u8]) -> Vec<u8> {
    let mut body = vec![0u8, 0, 1, 0];
    body.extend_from_slice(&index.to_le_bytes());
    body.extend_from_slice(&[0u8; 8]);
    body.extend_from_slice(attrs);
    message(16, &body)
}

#[test]
fn link_details_from_reply() {
    let mut attrs = attr(4, &9000u32.to_le_bytes());
    attrs.extend_from_slice(&attr(16, &[6]));
    attrs.extend_from_slice(&attr(32, &4u32.to_le_bytes()));
    attrs.extend_from_slice(&attr(31, &2u32.to_le_bytes()));
    let mut xdp = attr(2, &[1]);
    xdp.extend_from_slice(&attr(4, &42u32.to_le_bytes()));
    attrs.extend_from_slice(&attr(43, &xdp));
    let reply = newlink(3, &attrs);
    let d = get_interface_details(&reply).unwrap();
    assert_eq!(d.mtu, Some(9000));
    assert_eq!(d.operstate, Some(6));
    assert_eq!(d.rx_queues, Some(4));
    assert_eq!(d.tx_queues, Some(2));
    assert_eq!(d.xdp_attached, Some(1));
    assert_eq!(d.xdp_prog_id, Some(42));
    assert_eq!(d.xdp_features, None);
}

#[test]
fn no_link_message_no_details() {
    let reply = message(20, &[0u8; 8]);
    assert!(get_interface_details(&reply).is_none());
}

#[test]
fn addresses_of_one_interface() {
    let mut body = vec![2u8, 24, 0, 0];
    body.extend_from_slice(&5i32.to_le_bytes());
    body.extend_from_slice(&attr(2, &[192, 168, 1, 10]));
    let mut reply = message(20, &body);
    let mut other = vec![2u8, 16, 0, 0];
    other.extend_from_slice(&6i32.to_le_bytes());
    other.extend_from_slice(&attr(2, &[10, 0, 0, 1]));
    reply.extend_from_slice(&message(20, &other));
    let addrs = get_interface_addresses(&reply, 5);
    assert_eq!(addrs.len(), 1);
    assert_eq!(addrs[0].addr, IpAddress::V4(0xc0a8010a));
    assert_eq!(addrs[0].prefix_len, 24);
}

#[test]
fn sysfs_field_parsing() {
    assert_eq!(parse_interface_index(" 12\n"), Ok(12));
    assert_eq!(parse_interface_index("x"), Err(InterfaceError::InvalidData));
    assert_eq!(parse_interface_kind("1\n"), InterfaceKind::Ethernet);
    assert_eq!(parse_interface_kind("772"), InterfaceKind::Loopback);
    assert_eq!(parse_interface_kind("garbage"), InterfaceKind::Other(0));
    assert_eq!(parse_interface_class(true), InterfaceClass::Device);
    assert_eq!(parse_interface_class(false), InterfaceClass::Virtual);
    assert_eq!(parse_interface_speed(Some("1000\n")), Some(1_000_000_000));
    assert_eq!(parse_interface_speed(Some("-1")), None);
    assert_eq!(parse_interface_speed(None), None);
}

#[test]
fn interface_error_messages() {
    assert_eq!(InterfaceError::InterfaceNotFound.message(), "interface not found");
}
