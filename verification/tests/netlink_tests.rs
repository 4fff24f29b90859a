use aether_wire::netlink::builder::{build_getaddr_dump_request, build_getlink_dump_request, build_getlink_request};
use aether_wire::netlink::parser::{nlmsg_align, parse_nlmsg_error, recv_is_done, rta_align, NlMsgIter, RtAttrIter};

fn header(len: u32, ty: u16, flags: u16, seq: u32) -> Vec<u8> {
    let mut v = Vec::new();
    v.extend_from_slice(&len.to_le_bytes());
    v.extend_from_slice(&ty.to_le_bytes());
    v.extend_from_slice(&flags.to_le_bytes());
    v.extend_from_slice(&seq.to_le_bytes());
    v.extend_from_slice(&0u32.to_le_bytes());
    v
}

fn attr(ty: u16, data: &[u8]) -> Vec<u8> {
    let mut v = Vec::new();
    v.extend_from_slice(&((4 + data.len()) as u16).to_le_bytes());
    v.extend_from_slice(&ty.to_le_bytes());
    v.extend_from_slice(data);
    while v.len() % 4 != 0 {
        v.push(0);
    }
    v
}

#[test]
fn getlink_request_layout() {
    let r = build_getlink_request(7, 1337);
    assert_eq!(r.len(), 32);
    let mut expected = header(32, 18, 1, 1337);
    expected.extend_from_slice(&[0, 0, 0, 0]);
    expected.extend_from_slice(&7i32.to_le_bytes());
    expected.extend_from_slice(&[0u8; 8]);
    assert_eq!(r, expected);
}

#[test]
fn dump_requests_layout() {
    let l = build_getlink_dump_request(5);
    assert_eq!(l.len(), 32);
    assert_eq!(&l[0..16], &header(32, 18, 0x0301, 5)[..]);
    let a = build_getaddr_dump_request(6);
    assert_eq!(a.len(), 24);
    assert_eq!(&a[0..16], &header(24, 22, 0x0301, 6)[..]);
    assert_eq!(&a[16..24], &[0u8; 8]);
}

#[test]
fn alignment_rounds_up_to_four() {
    assert_eq!(nlmsg_align(0), 0);
    assert_eq!(nlmsg_align(1), 4);
    assert_eq!(nlmsg_align(4), 4);
    assert_eq!(nlmsg_align(17), 20);
    assert_eq!(rta_align(5), 8);
    assert_eq!(rta_align(8), 8);
}

#[test]
fn nlmsg_error_code() {
    let mut b = header(36, 2, 0, 1);
    b.extend_from_slice(&(-19i32).to_le_bytes());
    b.extend_from_slice(&[0u8; 16]);
    assert_eq!(parse_nlmsg_error(&b), Some(-19));
    let mut ack = header(36, 2, 0, 1);
    ack.extend_from_slice(&0i32.to_le_bytes());
    assert_eq!(parse_nlmsg_error(&ack), None);
    let other = header(16, 16, 0, 1);
    assert_eq!(parse_nlmsg_error(&other), None);
    assert_eq!(parse_nlmsg_error(&[1, 2, 3]), None);
}

#[test]
fn recv_done_detection() {
    assert!(recv_is_done(&header(16, 3, 2, 1)));
    assert!(recv_is_done(&header(16, 16, 0, 1)));
    let mut multi = header(16, 16, 2, 1);
    assert!(!recv_is_done(&multi));
    multi.extend_from_slice(&header(16, 3, 2, 1));
    assert!(recv_is_done(&multi));
    assert!(!recv_is_done(&[0u8; 4]));
}

#[test]
fn message_iterator_walks_messages() {
    let mut b = header(20, 16, 0, 1);
    b.extend_from_slice(&[9, 9, 9, 9]);
    b.extend_from_slice(&header(17, 20, 0, 1));
    b.push(5);
    b.extend_from_slice(&[0, 0, 0]);
    let mut it = NlMsgIter::new(&b);
    let first = it.next().unwrap();
    assert_eq!(first.0, 16);
    assert_eq!(first.1, &[9, 9, 9, 9]);
    let second = it.next().unwrap();
    assert_eq!(second.0, 20);
    assert_eq!(second.1, &[5]);
    assert!(it.next().is_none());
}

#[test]
fn message_iterator_stops_at_done() {
    let mut b = header(16, 3, 2, 1);
    b.extend_from_slice(&header(16, 16, 0, 1));
    let mut it = NlMsgIter::new(&b);
    assert!(it.next().is_none());
}

#[test]
fn attribute_iterator_walks_attributes() {
    let mut b = attr(4, &1500u32.to_le_bytes());
    b.extend_from_slice(&attr(16, &[6]));
    let mut it = RtAttrIter::new(&b);
    let a = it.next().unwrap();
    assert_eq!(a.0, 4);
    assert_eq!(a.1, &1500u32.to_le_bytes());
    let o = it.next().unwrap();
    assert_eq!(o.0, 16);
    assert_eq!(o.1, &[6]);
    assert!(it.next().is_none());
}

#[test]
fn alignment_at_the_top_of_the_range() {
    assert_eq!(nlmsg_align(usize::MAX - 3), usize::MAX - 3);
    assert_eq!(rta_align(usize::MAX - 4), usize::MAX - 3);
}

#[test]
fn message_walk_is_bounded_by_sixteen_byte_headers() {
    let mut b = Vec::new();
    for _ in 0..3 {
        b.extend(header(16, 16, 0, 1));
    }
    let mut it = NlMsgIter::new(&b);
    let mut n = 0;
    while it.next().is_some() {
        n += 1;
    }
    assert_eq!(n, 3);
    assert!(n <= b.len() / 16);
}
