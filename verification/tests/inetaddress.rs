use std::cmp::Ordering;
use zerotier_utils::arrayvec::ArrayVec;
use zerotier_utils::inetaddress::{
    ipv4_scope, ipv4_to_string, ipv6_scope, parse_u16, split_port, u16_to_decimal, InetAddress,
    IpScope, AF_INET, AF_INET6,
};
use zerotier_utils::stream::StreamError;
use zerotier_utils::tofrombytes::ToFromBytes;

#[test]
fn values() {
    assert_ne!(AF_INET, 0);
    assert_ne!(AF_INET6, 0);
    assert_ne!(AF_INET, AF_INET6);
}

#[test]
fn set_get() {
    // ipv4
    let mut v = [0_u8; 4];
    for port in 0..=65535 {
        v.fill_with(rand::random);
        let mut addr = InetAddress::new();
        assert_ne!(addr.set(&v, port), 0);
        assert_eq!(addr.ip_bytes(), &v);
        assert_eq!(addr.port(), port);
    }

    // ipv6
    let mut v = [0_u8; 16];
    for port in 0..=65535 {
        v.fill_with(rand::random);
        let mut addr = InetAddress::new();
        assert_ne!(addr.set(&v, port), 0);
        assert_eq!(addr.ip_bytes(), &v);
        assert_eq!(addr.port(), port);
    }
}

fn v4(a: u8, b: u8, c: u8, d: u8, port: u16) -> InetAddress {
    InetAddress::from_ip_port(&[a, b, c, d], port)
}

fn v6(ip: [u8; 16], port: u16) -> InetAddress {
    InetAddress::from_ip_port(&ip, port)
}

#[test]
fn inet_constructors() {
    assert!(InetAddress::new().is_nil());
    assert!(InetAddress::default().is_nil());
    assert!(InetAddress::from_ip_port(&[1, 2, 3], 5).is_nil());
    assert!(InetAddress::from_ip_port(&[], 5).is_nil());
    assert_eq!(InetAddress::from_ip_port(&[1, 2, 3], 5).port(), 0);
    let a = v4(1, 2, 3, 4, 80);
    assert!(a.is_ipv4() && a.is_ip() && !a.is_ipv6() && !a.is_nil());
    assert_eq!(a.family(), AF_INET);
    assert_eq!(a.ip_bytes(), &[1, 2, 3, 4]);
    assert_eq!(a.port(), 80);
    let b = v6([7; 16], 443);
    assert!(b.is_ipv6() && b.is_ip() && !b.is_ipv4() && !b.is_nil());
    assert_eq!(b.family(), AF_INET6);
    assert_eq!(b.ip_bytes(), &[7; 16]);
    assert_eq!(InetAddress::new().family(), 0);
    assert_eq!(InetAddress::new().ip_bytes(), &[] as &[u8]);
    assert!(InetAddress::ipv4_loopback(9) == v4(127, 0, 0, 1, 9));
    assert!(InetAddress::ipv4_any() == v4(0, 0, 0, 0, 0));
    let mut one = [0u8; 16];
    one[15] = 1;
    assert!(InetAddress::ipv6_loopback(9) == v6(one, 9));
    assert!(InetAddress::ipv6_any() == v6([0; 16], 0));
}

#[test]
fn inet_set_zero_and_port() {
    let mut a = InetAddress::new();
    assert_eq!(a.set(&[1, 2, 3, 4], 7), AF_INET);
    assert_eq!(a.set(&[9; 16], 8), AF_INET6);
    assert_eq!(a.port(), 8);
    a.set_port(9);
    assert!(a == v6([9; 16], 9));
    assert_eq!(a.set(&[1, 2], 7), 0);
    assert!(a.is_nil());
    a.set_port(5);
    assert!(a.is_nil());
    assert_eq!(a.port(), 0);
    let mut b = v4(1, 2, 3, 4, 1);
    b.set_port(65535);
    assert!(b == v4(1, 2, 3, 4, 65535));
    b.zero();
    assert!(b.is_nil());
}

#[test]
fn inet_key_reads_as_the_machine_does() {
    assert_eq!(InetAddress::new().key(), (0, 0));
    let a = v4(1, 2, 3, 4, 0x1234);
    assert_eq!(a.key(), (u32::from_ne_bytes([1, 2, 3, 4]) as u128, 0x1234u16.to_be()));
    let mut ip = [0u8; 16];
    for i in 0..16 {
        ip[i] = i as u8 + 1;
    }
    let b = v6(ip, 0x00ff);
    assert_eq!(b.key(), (u128::from_ne_bytes(ip), 0x00ffu16.to_be()));
    assert_ne!(b.key().0, 0);
    assert_ne!(v4(1, 2, 3, 4, 1).key(), v4(1, 2, 3, 5, 1).key());
    assert_ne!(v4(1, 2, 3, 4, 1).key(), v4(1, 2, 3, 4, 2).key());
}

#[test]
fn inet_equality() {
    assert!(InetAddress::new() == InetAddress::new());
    assert!(v4(1, 2, 3, 4, 5) == v4(1, 2, 3, 4, 5));
    assert!(v4(1, 2, 3, 4, 5) != v4(1, 2, 3, 4, 6));
    assert!(v4(1, 2, 3, 4, 5) != v4(1, 2, 3, 5, 5));
    assert!(v4(0, 0, 0, 0, 0) != InetAddress::new());
    assert!(v6([1; 16], 5) == v6([1; 16], 5));
    assert!(v6([1; 16], 5) != v6([1; 16], 6));
    let mut other = [1u8; 16];
    other[15] = 2;
    assert!(v6([1; 16], 5) != v6(other, 5));
    assert!(v6([0; 16], 0) != v4(0, 0, 0, 0, 0));
}

#[test]
fn inet_order() {
    let nil = InetAddress::new();
    let a = v4(1, 2, 3, 4, 5);
    let b = v4(1, 2, 3, 4, 6);
    let c = v4(1, 2, 4, 0, 0);
    let d = v4(200, 0, 0, 0, 0);
    let e = v6([0; 16], 0);
    let f = v6([0; 16], 1);
    let mut hi = [0u8; 16];
    hi[0] = 1;
    let g = v6(hi, 0);
    let sorted = [nil, a, b, c, d, e, f, g];
    for i in 0..sorted.len() {
        for j in 0..sorted.len() {
            let want = i.cmp(&j);
            assert_eq!(sorted[i].compare(&sorted[j]), want);
            assert_eq!(sorted[i].partial_cmp(&sorted[j]), Some(want));
            assert_eq!(sorted[i].cmp(&sorted[j]), want);
            assert_eq!(sorted[i] == sorted[j], want == Ordering::Equal);
        }
    }
    let mut shuffled = vec![g, c, nil, f, a, e, d, b];
    shuffled.sort();
    assert!(shuffled == sorted.to_vec());
}

#[test]
fn inet_within_ipv4_ranges() {
    let a = v4(10, 1, 2, 3, 0);
    assert!(a.is_within(&v4(10, 0, 0, 0, 8)));
    assert!(a.is_within(&v4(10, 1, 0, 0, 16)));
    assert!(a.is_within(&v4(10, 1, 2, 0, 24)));
    assert!(a.is_within(&v4(10, 1, 2, 99, 24)));
    assert!(a.is_within(&v4(10, 1, 2, 3, 32)));
    assert!(!a.is_within(&v4(10, 1, 2, 2, 32)));
    assert!(a.is_within(&v4(10, 1, 2, 2, 31)));
    assert!(!a.is_within(&v4(11, 0, 0, 0, 8)));
    assert!(a.is_within(&v4(11, 0, 0, 0, 7)));
    assert!(!a.is_within(&v4(10, 1, 2, 3, 33)));
    assert!(a.is_within(&v4(10, 1, 2, 3, 0)));
    assert!(!a.is_within(&v4(10, 1, 2, 4, 0)));
    assert!(!a.is_within(&v6([0; 16], 0)));
    assert!(!a.is_within(&InetAddress::new()));
    assert!(!InetAddress::new().is_within(&InetAddress::new()));
}

#[test]
fn inet_within_ipv6_ranges() {
    let mut ip = [0u8; 16];
    ip[0] = 0xfd;
    ip[1] = 0x80;
    ip[2] = 0x56;
    ip[15] = 1;
    let a = v6(ip, 0);
    let mut net = [0u8; 16];
    net[0] = 0xfd;
    net[1] = 0x80;
    assert!(a.is_within(&v6(net, 15)));
    assert!(a.is_within(&v6(net, 9)));
    assert!(a.is_within(&v6(net, 17)));
    assert!(!a.is_within(&v6(net, 18)));
    assert!(!a.is_within(&v6(net, 24)));
    assert!(!a.is_within(&v6(net, 128)));
    assert!(!a.is_within(&v6(net, 129)));
    net[1] = 0x81;
    assert!(!a.is_within(&v6(net, 16)));
    assert!(a.is_within(&v6(net, 15)));
    assert!(!a.is_within(&v6(net, 8)));
    net[1] = 0x80;
    net[2] = 0x56;
    assert!(!a.is_within(&v6(net, 120)));
    net[15] = 1;
    assert!(a.is_within(&v6(net, 120)));
    assert!(a.is_within(&v6(net, 127)));
    assert!(!a.is_within(&v4(0, 0, 0, 0, 0)));
}

#[test]
fn ipv4_scope_known_values() {
    let n = |a: u8, b: u8, c: u8, d: u8| u32::from_be_bytes([a, b, c, d]);
    assert!(ipv4_scope(n(0, 1, 2, 3)) == IpScope::NoScope);
    assert!(ipv4_scope(n(255, 255, 255, 255)) == IpScope::NoScope);
    assert!(ipv4_scope(n(10, 1, 2, 3)) == IpScope::Private);
    assert!(ipv4_scope(n(127, 0, 0, 1)) == IpScope::Loopback);
    assert!(ipv4_scope(n(100, 64, 0, 1)) == IpScope::Private);
    assert!(ipv4_scope(n(100, 127, 255, 255)) == IpScope::Private);
    assert!(ipv4_scope(n(100, 128, 0, 0)) == IpScope::Global);
    assert!(ipv4_scope(n(100, 63, 0, 0)) == IpScope::Global);
    assert!(ipv4_scope(n(169, 254, 1, 1)) == IpScope::LinkLocal);
    assert!(ipv4_scope(n(169, 253, 1, 1)) == IpScope::Global);
    assert!(ipv4_scope(n(172, 16, 0, 1)) == IpScope::Private);
    assert!(ipv4_scope(n(172, 31, 0, 1)) == IpScope::Private);
    assert!(ipv4_scope(n(172, 32, 0, 1)) == IpScope::Global);
    assert!(ipv4_scope(n(172, 15, 0, 1)) == IpScope::Global);
    assert!(ipv4_scope(n(192, 168, 1, 1)) == IpScope::Private);
    assert!(ipv4_scope(n(192, 0, 2, 1)) == IpScope::Private);
    assert!(ipv4_scope(n(192, 0, 3, 1)) == IpScope::Global);
    assert!(ipv4_scope(n(198, 18, 0, 1)) == IpScope::Private);
    assert!(ipv4_scope(n(198, 19, 0, 1)) == IpScope::Private);
    assert!(ipv4_scope(n(198, 20, 0, 1)) == IpScope::Global);
    assert!(ipv4_scope(n(198, 51, 100, 1)) == IpScope::Private);
    assert!(ipv4_scope(n(198, 51, 101, 1)) == IpScope::Global);
    assert!(ipv4_scope(n(203, 0, 113, 1)) == IpScope::Private);
    assert!(ipv4_scope(n(203, 0, 114, 1)) == IpScope::Global);
    for a in [6u8, 21, 22, 25, 26, 28, 29, 30, 51, 55, 56] {
        assert!(ipv4_scope(n(a, 1, 1, 1)) == IpScope::PseudoPrivate);
    }
    assert!(ipv4_scope(n(224, 0, 0, 1)) == IpScope::Multicast);
    assert!(ipv4_scope(n(239, 0, 0, 1)) == IpScope::Multicast);
    assert!(ipv4_scope(n(240, 0, 0, 1)) == IpScope::Private);
    assert!(ipv4_scope(n(254, 0, 0, 1)) == IpScope::Private);
    assert!(ipv4_scope(n(8, 8, 8, 8)) == IpScope::Global);
    assert!(ipv4_scope(n(1, 1, 1, 1)) == IpScope::Global);
}

#[test]
fn ipv6_scope_known_values() {
    let with = |first: &[u8], last: u8| {
        let mut ip = [0u8; 16];
        ip[..first.len()].copy_from_slice(first);
        ip[15] = last;
        ip
    };
    assert!(ipv6_scope(&with(&[0xff, 0x02], 1)) == IpScope::Multicast);
    assert!(ipv6_scope(&with(&[0xfe, 0x80], 1)) == IpScope::Loopback);
    assert!(ipv6_scope(&with(&[0xfe, 0x80], 2)) == IpScope::LinkLocal);
    assert!(ipv6_scope(&with(&[0xfe, 0xbf, 0, 1], 1)) == IpScope::LinkLocal);
    assert!(ipv6_scope(&with(&[0xfe, 0xc0], 1)) == IpScope::Global);
    assert!(ipv6_scope(&with(&[0xfe, 0x7f], 1)) == IpScope::Global);
    assert!(ipv6_scope(&with(&[0xfc], 1)) == IpScope::Private);
    assert!(ipv6_scope(&with(&[0xfd, 0x80], 1)) == IpScope::Private);
    assert!(ipv6_scope(&with(&[0xf0], 1)) == IpScope::Global);
    assert!(ipv6_scope(&with(&[], 1)) == IpScope::Loopback);
    assert!(ipv6_scope(&with(&[], 0)) == IpScope::NoScope);
    assert!(ipv6_scope(&with(&[], 2)) == IpScope::Global);
    assert!(ipv6_scope(&with(&[0, 0, 0, 0, 0, 0, 0, 0, 0, 0, 0, 0, 0, 0, 1], 1)) == IpScope::Global);
    assert!(ipv6_scope(&with(&[0x26, 0x03], 1)) == IpScope::Global);
}

#[test]
fn inet_scope_of_addresses() {
    assert!(InetAddress::new().scope() == IpScope::NoScope);
    for ip in [[10u8, 1, 2, 3], [3, 2, 1, 10], [127, 0, 0, 1], [224, 1, 1, 8], [8, 1, 1, 224]] {
        let a = InetAddress::from_ip_port(&ip, 0);
        assert!(a.scope() == ipv4_scope(u32::from_ne_bytes(ip)));
    }
    let mixed = [10u8, 0, 0, 127];
    let got = InetAddress::from_ip_port(&mixed, 0).scope();
    assert!(got == IpScope::Private || got == IpScope::Loopback);
    assert!(InetAddress::ipv6_loopback(0).scope() == IpScope::Loopback);
    assert!(InetAddress::ipv6_any().scope() == IpScope::NoScope);
}

#[test]
fn inet_wire_form() {
    assert_eq!(InetAddress::new().to_bytes(), vec![0]);
    assert_eq!(v4(1, 2, 3, 4, 1234).to_bytes(), vec![4, 1, 2, 3, 4, 0x04, 0xd2]);
    let mut ip = [0u8; 16];
    for i in 0..16 {
        ip[i] = 0xa0 + i as u8;
    }
    let mut want = vec![6];
    want.extend_from_slice(&ip);
    want.extend_from_slice(&[0xff, 0xfe]);
    assert_eq!(v6(ip, 0xfffe).to_bytes(), want);
    let on_stack: ArrayVec<u8, 32> = v6(ip, 0xfffe).to_bytes_on_stack();
    assert_eq!(on_stack.as_slice(), &want[..]);

    assert!(InetAddress::from_bytes(&[4, 1, 2, 3, 4, 0x04, 0xd2]).ok() == Some(v4(1, 2, 3, 4, 1234)));
    assert!(InetAddress::from_bytes(&want).ok() == Some(v6(ip, 0xfffe)));
    assert!(InetAddress::from_bytes(&[0]).ok() == Some(InetAddress::new()));
    assert!(InetAddress::from_bytes(&[9, 1, 2]).ok() == Some(InetAddress::new()));
    assert!(InetAddress::from_bytes(&[]).err() == Some(StreamError::UnexpectedEof));
    assert!(InetAddress::from_bytes(&[4, 1, 2, 3, 4, 5]).is_err());
    assert!(InetAddress::from_bytes(&want[..18]).is_err());
}

#[test]
fn inet_read_leaves_what_follows() {
    let bytes = [4u8, 1, 2, 3, 4, 0, 80, 0, 6, 6];
    let mut s: &[u8] = &bytes;
    assert!(InetAddress::read_bytes(&mut s).ok() == Some(v4(1, 2, 3, 4, 80)));
    assert_eq!(s, &[0, 6, 6]);
    assert!(InetAddress::read_bytes(&mut s).ok() == Some(InetAddress::new()));
    assert_eq!(s, &[6, 6]);
    assert!(InetAddress::read_bytes(&mut s).is_err());
}

#[test]
fn inet_write_to_a_sink_that_is_too_small() {
    let mut small = ArrayVec::<u8, 4>::new();
    assert!(v4(1, 2, 3, 4, 80).write_bytes(&mut small).is_err());
    let mut sink: Vec<u8> = vec![0xee];
    assert!(v4(1, 2, 3, 4, 80).write_bytes(&mut sink).is_ok());
    assert!(InetAddress::new().write_bytes(&mut sink).is_ok());
    assert_eq!(sink, vec![0xee, 4, 1, 2, 3, 4, 0, 80, 0]);
}

#[test]
fn inet_decimal_text() {
    assert_eq!(u16_to_decimal(0), b"0".to_vec());
    assert_eq!(u16_to_decimal(7), b"7".to_vec());
    assert_eq!(u16_to_decimal(10), b"10".to_vec());
    assert_eq!(u16_to_decimal(105), b"105".to_vec());
    assert_eq!(u16_to_decimal(1234), b"1234".to_vec());
    assert_eq!(u16_to_decimal(65535), b"65535".to_vec());
    assert_eq!(u16_to_decimal(10000), b"10000".to_vec());
    assert_eq!(parse_u16(b"0"), Some(0));
    assert_eq!(parse_u16(b"1234"), Some(1234));
    assert_eq!(parse_u16(b"+1234"), Some(1234));
    assert_eq!(parse_u16(b"0000000080"), Some(80));
    assert_eq!(parse_u16(b"65535"), Some(65535));
    assert_eq!(parse_u16(b"65536"), None);
    assert_eq!(parse_u16(b"99999999999999999999999"), None);
    assert_eq!(parse_u16(b""), None);
    assert_eq!(parse_u16(b"+"), None);
    assert_eq!(parse_u16(b"-1"), None);
    assert_eq!(parse_u16(b"12a"), None);
    assert_eq!(parse_u16(b" 12"), None);
    assert_eq!(parse_u16(b"1+2"), None);
    assert_eq!(parse_u16(b"++2"), None);
    for p in [0u16, 9, 10, 99, 100, 999, 1000, 9999, 10000, 65535] {
        assert_eq!(parse_u16(&u16_to_decimal(p)), Some(p));
        assert_eq!(u16_to_decimal(p), p.to_string().into_bytes());
        assert_eq!(parse_u16(p.to_string().as_bytes()), u16::from_str_radix(&p.to_string(), 10).ok());
    }
    for t in ["+0", "+65535", "+65536", "007", "", "+", "-0", "1_0", "0x10"] {
        assert_eq!(parse_u16(t.as_bytes()), u16::from_str_radix(t, 10).ok());
    }
}

#[test]
fn inet_split_port() {
    assert_eq!(split_port(b"1.2.3.4/1234"), (7, 1234));
    assert_eq!(split_port(b"1.2.3.4"), (7, 0));
    assert_eq!(split_port(b"1.2.3.4/"), (7, 0));
    assert_eq!(split_port(b"fd80::1/24"), (7, 24));
    assert_eq!(split_port(b"/80"), (0, 80));
    assert_eq!(split_port(b""), (0, 0));
    assert_eq!(split_port(b"a/1/2"), (1, 0));
    assert_eq!(split_port(b"a//2"), (1, 0));
    assert_eq!(split_port(b"a/70000"), (1, 0));
    assert_eq!(split_port(b"a/+7"), (1, 7));
}

#[test]
fn inet_text() {
    assert_eq!(ipv4_to_string(&[1, 2, 3, 4]), "1.2.3.4");
    assert_eq!(ipv4_to_string(&[0, 0, 0, 0]), "0.0.0.0");
    assert_eq!(ipv4_to_string(&[255, 100, 10, 9]), "255.100.10.9");
    assert_eq!(v4(1, 2, 3, 4, 1234).to_ip_string(), Some(String::from("1.2.3.4")));
    assert_eq!(v4(1, 2, 3, 4, 1234).to_string(), Some(String::from("1.2.3.4/1234")));
    assert_eq!(v4(127, 0, 0, 1, 0).to_string(), Some(String::from("127.0.0.1/0")));
    assert_eq!(InetAddress::new().to_ip_string(), Some(String::from("(null)")));
    assert_eq!(InetAddress::new().to_string(), Some(String::from("(null)")));
    assert_eq!(v6([0; 16], 1).to_ip_string(), None);
    assert_eq!(v6([0; 16], 1).to_string(), None);
    assert_eq!(v6([0; 16], 1234).with_port("fd80::1"), "fd80::1/1234");
    assert_eq!(v4(1, 2, 3, 4, 65535).with_port("x"), "x/65535");
    assert_eq!(InetAddress::new().with_port("(null)"), "(null)");
}

#[test]
fn inet_wire_rest_len() {
    assert_eq!(zerotier_utils::inetaddress::wire_rest_len(4), 6);
    assert_eq!(zerotier_utils::inetaddress::wire_rest_len(6), 18);
    assert_eq!(zerotier_utils::inetaddress::wire_rest_len(0), 0);
    assert_eq!(zerotier_utils::inetaddress::wire_rest_len(5), 0);
    assert_eq!(zerotier_utils::inetaddress::wire_rest_len(255), 0);
}
