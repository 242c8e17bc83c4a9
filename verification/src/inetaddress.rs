//! An IPv4 or IPv6 address with a port.

use crate::slices::{
    lemma_lex_sign_zero, lex_order, lex_sign, ascii, be16, be16_bytes, be32, is_ascii, string_from_ascii, u16_from_be, u16_to_be,
    u32_from_be,
};
use crate::stream::{ByteSink, ByteSource, StreamError};
use crate::tofrombytes::ToFromBytes;
use core::cmp::Ordering;
use vstd::prelude::*;
use vstd::std_specs::cmp::{PartialEqSpecImpl, PartialOrdSpecImpl};
use vstd::string::StringExecFns;

verus! {

/// The number of an address family.
pub type AddressFamilyType = u16;

/// The number of the IPv4 address family.
pub const AF_INET: AddressFamilyType = 2;

/// The number of the IPv6 address family.
pub const AF_INET6: AddressFamilyType = 10;

/// How far an address reaches.
#[derive(Clone, Copy, PartialEq, Eq, Hash, Debug, Structural)]
pub enum IpScope {
    /// No scope: the address cannot be used, or there is none.
    NoScope,
    Multicast,
    Loopback,
    PseudoPrivate,
    Global,
    LinkLocal,
    Shared,
    Private,
}

/// An address: none, or the bytes of an IPv4 or IPv6 address with a port.
///
/// Addresses are ordered: the nil address first, then IPv4, then IPv6, each
/// family by its bytes and then by port.
#[derive(Clone, Copy, Debug, Hash, Eq, Ord)]
#[allow(inconsistent_fields)]
pub enum InetAddress {
    Nil,
    V4 { ip: [u8; 4], port: u16 },
    V6 { ip: [u8; 16], port: u16 },
}

/// The number that four bytes spell, the lowest byte first.
pub open spec fn le32(b: Seq<u8>) -> u32
    recommends
        b.len() == 4,
{
    (b[3] * 0x100_0000 + b[2] * 0x1_0000 + b[1] * 0x100 + b[0]) as u32
}

/// The number that the bytes `b` spell, the highest byte first.
pub open spec fn be_number(b: Seq<u8>) -> nat
    decreases b.len(),
{
    if b.len() == 0 {
        0
    } else {
        be_number(b.drop_last()) * 256 + b.last() as nat
    }
}

/// The number that the bytes `b` spell, the lowest byte first.
pub open spec fn le_number(b: Seq<u8>) -> nat
    decreases b.len(),
{
    if b.len() == 0 {
        0
    } else {
        b[0] as nat + 256 * le_number(b.drop_first())
    }
}

/// `p` with its two bytes in the other order.
pub open spec fn swapped16(p: u16) -> u16 {
    (p % 0x100 * 0x100 + p / 0x100) as u16
}

/// The number that the machine reads from four bytes.
///
/// Trusted: this is `u32::from_ne_bytes`, which reads the bytes in the order
/// of the machine. That is the order with the highest byte first or the order
/// with the lowest byte first; which of the two is not stated.
#[verifier::external_body]
fn u32_from_ne(b: [u8; 4]) -> (r: u32)
    ensures
        r == be32(b@) || r == le32(b@),
{
    u32::from_ne_bytes(b)
}

/// The number that the machine reads from sixteen bytes.
///
/// Trusted: this is `u128::from_ne_bytes`, which reads the bytes in the order
/// of the machine. That is the order with the highest byte first or the order
/// with the lowest byte first; which of the two is not stated.
#[verifier::external_body]
fn u128_from_ne(b: [u8; 16]) -> (r: u128)
    ensures
        r == be_number(b@) || r == le_number(b@),
{
    u128::from_ne_bytes(b)
}

/// The number that the machine reads from the two bytes of `p` laid out with
/// the high byte first.
///
/// Trusted: this is `u16::to_be`, which gives `p` back on a machine that puts
/// the highest byte first and swaps its two bytes on one that puts the lowest
/// first; which of the two is not stated.
#[verifier::external_body]
fn u16_to_network(p: u16) -> (r: u16)
    ensures
        r == p || r == swapped16(p),
{
    p.to_be()
}

/// Whether a first octet is one of the ranges that are public on paper and
/// in fact used within single organizations.
pub open spec fn is_pseudo_private(a: int) -> bool {
    a == 0x06 || a == 0x15 || a == 0x16 || a == 0x19 || a == 0x1a || a == 0x1c || a == 0x1d || a
        == 0x1e || a == 0x33 || a == 0x37 || a == 0x38
}

/// The scope of the IPv4 address whose four octets spell the number `n`, the
/// first octet highest.
pub open spec fn spec_ipv4_scope(n: u32) -> IpScope {
    let a = n as int / 0x100_0000;
    let b = n as int / 0x1_0000 % 0x100;
    let c = n as int / 0x100 % 0x100;
    if a == 0 || a == 255 {
        IpScope::NoScope
    } else if a == 10 {
        IpScope::Private
    } else if a == 127 {
        IpScope::Loopback
    } else if a == 100 {
        if 64 <= b < 128 {
            IpScope::Private
        } else {
            IpScope::Global
        }
    } else if a == 169 {
        if b == 254 {
            IpScope::LinkLocal
        } else {
            IpScope::Global
        }
    } else if a == 172 {
        if 16 <= b < 32 {
            IpScope::Private
        } else {
            IpScope::Global
        }
    } else if a == 192 {
        if b == 168 || (b == 0 && c == 2) {
            IpScope::Private
        } else {
            IpScope::Global
        }
    } else if a == 198 {
        if b == 18 || b == 19 || (b == 51 && c == 100) {
            IpScope::Private
        } else {
            IpScope::Global
        }
    } else if a == 203 {
        if b == 0 && c == 113 {
            IpScope::Private
        } else {
            IpScope::Global
        }
    } else if is_pseudo_private(a) {
        IpScope::PseudoPrivate
    } else if 224 <= a < 240 {
        IpScope::Multicast
    } else if a >= 240 {
        IpScope::Private
    } else {
        IpScope::Global
    }
}

/// Whether the bytes of `ip` from index `from` up to the last but one are
/// all zero.
pub open spec fn zero_up_to_last(ip: Seq<u8>, from: int) -> bool {
    forall|i: int| from <= i < 15 ==> ip[i] == 0
}

/// The scope of the IPv6 address with the sixteen bytes `ip`.
pub open spec fn spec_ipv6_scope(ip: Seq<u8>) -> IpScope
    recommends
        ip.len() == 16,
{
    if ip[0] == 0xff {
        IpScope::Multicast
    } else if ip[0] == 0xfe && 0x80 <= ip[1] < 0xc0 {
        if zero_up_to_last(ip, 2) && ip[15] == 1 {
            IpScope::Loopback
        } else {
            IpScope::LinkLocal
        }
    } else if ip[0] == 0xfc || ip[0] == 0xfd {
        IpScope::Private
    } else if zero_up_to_last(ip, 0) && ip[15] == 1 {
        IpScope::Loopback
    } else if zero_up_to_last(ip, 0) && ip[15] == 0 {
        IpScope::NoScope
    } else {
        IpScope::Global
    }
}

/// The scope of the IPv4 address whose four octets spell the number `ip`,
/// the first octet highest.
pub fn ipv4_scope(ip: u32) -> (r: IpScope)
    ensures
        r == spec_ipv4_scope(ip),
{
    let a: u32 = ip / 0x100_0000;
    let b: u32 = ip / 0x1_0000 % 0x100;
    let c: u32 = ip / 0x100 % 0x100;
    if a == 0 || a == 255 {
        IpScope::NoScope
    } else if a == 10 {
        IpScope::Private
    } else if a == 127 {
        IpScope::Loopback
    } else if a == 100 {
        if 64 <= b && b < 128 {
            IpScope::Private
        } else {
            IpScope::Global
        }
    } else if a == 169 {
        if b == 254 {
            IpScope::LinkLocal
        } else {
            IpScope::Global
        }
    } else if a == 172 {
        if 16 <= b && b < 32 {
            IpScope::Private
        } else {
            IpScope::Global
        }
    } else if a == 192 {
        if b == 168 || (b == 0 && c == 2) {
            IpScope::Private
        } else {
            IpScope::Global
        }
    } else if a == 198 {
        if b == 18 || b == 19 || (b == 51 && c == 100) {
            IpScope::Private
        } else {
            IpScope::Global
        }
    } else if a == 203 {
        if b == 0 && c == 113 {
            IpScope::Private
        } else {
            IpScope::Global
        }
    } else if a == 0x06 || a == 0x15 || a == 0x16 || a == 0x19 || a == 0x1a || a == 0x1c || a
        == 0x1d || a == 0x1e || a == 0x33 || a == 0x37 || a == 0x38 {
        IpScope::PseudoPrivate
    } else if 224 <= a && a < 240 {
        IpScope::Multicast
    } else if a >= 240 {
        IpScope::Private
    } else {
        IpScope::Global
    }
}

fn first_nonzero(ip: &[u8; 16], from: usize) -> (k: usize)
    requires
        from <= 15,
    ensures
        from <= k <= 15,
        forall|i: int| from <= i < k ==> ip@[i] == 0,
        k < 15 ==> ip@[k as int] != 0,
{
    let mut k: usize = from;
    while k < 15 && ip[k] == 0
        invariant
            from <= k <= 15,
            forall|i: int| from <= i < k ==> ip@[i] == 0,
        decreases 15 - k,
    {
        k = k + 1;
    }
    k
}

/// The scope of the IPv6 address with the sixteen bytes `ip`.
pub fn ipv6_scope(ip: &[u8; 16]) -> (r: IpScope)
    ensures
        r == spec_ipv6_scope(ip@),
{
    if ip[0] >= 0xf0 {
        if ip[0] == 0xff {
            return IpScope::Multicast;
        }
        if ip[0] == 0xfe && 0x80 <= ip[1] && ip[1] < 0xc0 {
            let k: usize = first_nonzero(ip, 2);
            return if k == 15 && ip[15] == 0x01 {
                IpScope::Loopback
            } else {
                IpScope::LinkLocal
            };
        }
        if ip[0] == 0xfc || ip[0] == 0xfd {
            return IpScope::Private;
        }
    }
    let k: usize = first_nonzero(ip, 0);
    if k == 15 {
        if ip[15] == 0x01 {
            return IpScope::Loopback;
        } else if ip[15] == 0x00 {
            return IpScope::NoScope;
        }
    }
    IpScope::Global
}

fn sign_of_ports(p: u16, q: u16) -> (r: i8)
    ensures
        r == port_sign(p, q),
{
    if p < q {
        -1
    } else if p > q {
        1
    } else {
        0
    }
}

/// How the port `p` stands to the port `q`: -1, 0 or 1.
pub open spec fn port_sign(p: u16, q: u16) -> int {
    if p < q {
        -1
    } else if p > q {
        1
    } else {
        0
    }
}

/// How `a` stands to `b`: -1 where `a` comes first, 1 where `b` does, 0
/// where they are the same address.
pub open spec fn sign_of(a: InetAddress, b: InetAddress) -> int {
    match (a, b) {
        (InetAddress::Nil, InetAddress::Nil) => 0,
        (InetAddress::Nil, _) => -1,
        (_, InetAddress::Nil) => 1,
        (InetAddress::V4 { ip: x, port: p }, InetAddress::V4 { ip: y, port: q }) => if lex_sign(
            x@,
            y@,
        ) != 0 {
            lex_sign(x@, y@)
        } else {
            port_sign(p, q)
        },
        (InetAddress::V4 { .. }, InetAddress::V6 { .. }) => -1,
        (InetAddress::V6 { .. }, InetAddress::V4 { .. }) => 1,
        (InetAddress::V6 { ip: x, port: p }, InetAddress::V6 { ip: y, port: q }) => if lex_sign(
            x@,
            y@,
        ) != 0 {
            lex_sign(x@, y@)
        } else {
            port_sign(p, q)
        },
    }
}

/// The order of two addresses.
pub open spec fn order_of(a: InetAddress, b: InetAddress) -> Ordering {
    if sign_of(a, b) < 0 {
        Ordering::Less
    } else if sign_of(a, b) > 0 {
        Ordering::Greater
    } else {
        Ordering::Equal
    }
}

fn sign(a: &InetAddress, b: &InetAddress) -> (r: i8)
    ensures
        r == sign_of(*a, *b),
{
    match (a, b) {
        (InetAddress::Nil, InetAddress::Nil) => 0,
        (InetAddress::Nil, _) => -1,
        (_, InetAddress::Nil) => 1,
        (InetAddress::V4 { ip: x, port: p }, InetAddress::V4 { ip: y, port: q }) => {
            let by_ip: i8 = lex_order(x.as_slice(), y.as_slice());
            if by_ip != 0 {
                by_ip
            } else {
                sign_of_ports(*p, *q)
            }
        },
        (InetAddress::V4 { .. }, InetAddress::V6 { .. }) => -1,
        (InetAddress::V6 { .. }, InetAddress::V4 { .. }) => 1,
        (InetAddress::V6 { ip: x, port: p }, InetAddress::V6 { ip: y, port: q }) => {
            let by_ip: i8 = lex_order(x.as_slice(), y.as_slice());
            if by_ip != 0 {
                by_ip
            } else {
                sign_of_ports(*p, *q)
            }
        },
    }
}

/// Two addresses are the same exactly where neither comes before the other.
pub proof fn lemma_sign_zero(a: InetAddress, b: InetAddress)
    ensures
        sign_of(a, b) == 0 <==> a == b,
{
    match (a, b) {
        (InetAddress::V4 { ip: x, port: p }, InetAddress::V4 { ip: y, port: q }) => {
            lemma_lex_sign_zero(x@, y@);
            assert(x@ == y@ ==> x =~= y);
        },
        (InetAddress::V6 { ip: x, port: p }, InetAddress::V6 { ip: y, port: q }) => {
            lemma_lex_sign_zero(x@, y@);
            assert(x@ == y@ ==> x =~= y);
        },
        _ => {},
    }
}

impl InetAddress {
    /// The number of this address's family: `AF_INET`, `AF_INET6`, or 0 for
    /// the nil address.
    pub open spec fn spec_family(&self) -> AddressFamilyType {
        match *self {
            InetAddress::Nil => 0,
            InetAddress::V4 { .. } => AF_INET,
            InetAddress::V6 { .. } => AF_INET6,
        }
    }

    /// The port, which is 0 for the nil address.
    pub open spec fn spec_port(&self) -> u16 {
        match *self {
            InetAddress::Nil => 0,
            InetAddress::V4 { port, .. } => port,
            InetAddress::V6 { port, .. } => port,
        }
    }

    /// The bytes of the address: four, sixteen, or none.
    pub open spec fn spec_ip(&self) -> Seq<u8> {
        match *self {
            InetAddress::Nil => Seq::empty(),
            InetAddress::V4 { ip, .. } => ip@,
            InetAddress::V6 { ip, .. } => ip@,
        }
    }

    /// Whether `self` is the address made of the bytes `ip` and of `port`:
    /// an IPv4 address for four bytes, an IPv6 address for sixteen, and the
    /// nil address for any other number of bytes.
    pub open spec fn made_of(&self, ip: Seq<u8>, port: u16) -> bool {
        match *self {
            InetAddress::Nil => ip.len() != 4 && ip.len() != 16,
            InetAddress::V4 { ip: a, port: p } => ip.len() == 4 && a@ == ip && p == port,
            InetAddress::V6 { ip: a, port: p } => ip.len() == 16 && a@ == ip && p == port,
        }
    }

    /// The nil address.
    pub fn new() -> (r: InetAddress)
        ensures
            r == InetAddress::Nil,
    {
        InetAddress::Nil
    }

    /// The address made of `ip` and `port`: IPv4 for four bytes, IPv6 for
    /// sixteen, nil for any other number.
    pub fn from_ip_port(ip: &[u8], port: u16) -> (r: InetAddress)
        ensures
            r.made_of(ip@, port),
    {
        if ip.len() == 4 {
            let a: [u8; 4] = [ip[0], ip[1], ip[2], ip[3]];
            assert(a@ =~= ip@);
            InetAddress::V4 { ip: a, port }
        } else if ip.len() == 16 {
            let a: [u8; 16] = [
                ip[0],
                ip[1],
                ip[2],
                ip[3],
                ip[4],
                ip[5],
                ip[6],
                ip[7],
                ip[8],
                ip[9],
                ip[10],
                ip[11],
                ip[12],
                ip[13],
                ip[14],
                ip[15],
            ];
            assert(a@ =~= ip@);
            InetAddress::V6 { ip: a, port }
        } else {
            InetAddress::Nil
        }
    }

    /// Makes this the nil address.
    pub fn zero(&mut self)
        ensures
            *final(self) == InetAddress::Nil,
    {
        *self = InetAddress::Nil;
    }

    /// The address 127.0.0.1 with the given port.
    pub fn ipv4_loopback(port: u16) -> (r: InetAddress)
        ensures
            r.made_of(seq![127u8, 0u8, 0u8, 1u8], port),
    {
        let a: [u8; 4] = [127, 0, 0, 1];
        assert(a@ =~= seq![127u8, 0u8, 0u8, 1u8]);
        InetAddress::V4 { ip: a, port }
    }

    /// The address 0.0.0.0 with port 0.
    pub fn ipv4_any() -> (r: InetAddress)
        ensures
            r.made_of(Seq::new(4, |i: int| 0u8), 0),
    {
        let a: [u8; 4] = [0, 0, 0, 0];
        assert(a@ =~= Seq::new(4, |i: int| 0u8));
        InetAddress::V4 { ip: a, port: 0 }
    }

    /// The address ::1 with the given port.
    pub fn ipv6_loopback(port: u16) -> (r: InetAddress)
        ensures
            r.made_of(
                Seq::new(
                    16,
                    |i: int|
                        if i == 15 {
                            1u8
                        } else {
                            0u8
                        },
                ),
                port,
            ),
    {
        let a: [u8; 16] = [0, 0, 0, 0, 0, 0, 0, 0, 0, 0, 0, 0, 0, 0, 0, 1];
        assert(a@ =~= Seq::new(
            16,
            |i: int|
                if i == 15 {
                    1u8
                } else {
                    0u8
                },
        ));
        InetAddress::V6 { ip: a, port }
    }

    /// The address :: with port 0.
    pub fn ipv6_any() -> (r: InetAddress)
        ensures
            r.made_of(Seq::new(16, |i: int| 0u8), 0),
    {
        let a: [u8; 16] = [0, 0, 0, 0, 0, 0, 0, 0, 0, 0, 0, 0, 0, 0, 0, 0];
        assert(a@ =~= Seq::new(16, |i: int| 0u8));
        InetAddress::V6 { ip: a, port: 0 }
    }

    /// Whether this is the nil address.
    pub fn is_nil(&self) -> (r: bool)
        ensures
            r == (*self is Nil),
    {
        match self {
            InetAddress::Nil => true,
            _ => false,
        }
    }

    /// Whether this is an IPv4 address.
    pub fn is_ipv4(&self) -> (r: bool)
        ensures
            r == (*self is V4),
    {
        match self {
            InetAddress::V4 { .. } => true,
            _ => false,
        }
    }

    /// Whether this is an IPv6 address.
    pub fn is_ipv6(&self) -> (r: bool)
        ensures
            r == (*self is V6),
    {
        match self {
            InetAddress::V6 { .. } => true,
            _ => false,
        }
    }

    /// Whether this is an IPv4 or an IPv6 address.
    pub fn is_ip(&self) -> (r: bool)
        ensures
            r == !(*self is Nil),
    {
        !self.is_nil()
    }

    /// The number of this address's family: `AF_INET`, `AF_INET6`, or 0 for
    /// the nil address.
    pub fn family(&self) -> (r: AddressFamilyType)
        ensures
            r == self.spec_family(),
    {
        match self {
            InetAddress::Nil => 0,
            InetAddress::V4 { .. } => AF_INET,
            InetAddress::V6 { .. } => AF_INET6,
        }
    }

    /// Makes this the address of `ip` and `port`, as
    /// [`InetAddress::from_ip_port`] does, and returns the number of its
    /// family.
    pub fn set(&mut self, ip: &[u8], port: u16) -> (r: AddressFamilyType)
        ensures
            final(self).made_of(ip@, port),
            r == final(self).spec_family(),
    {
        *self = InetAddress::from_ip_port(ip, port);
        self.family()
    }

    /// The bytes of the address: four, sixteen, or none.
    pub fn ip_bytes(&self) -> (r: &[u8])
        ensures
            r@ == self.spec_ip(),
    {
        match self {
            InetAddress::Nil => {
                let none: &[u8] = &[];
                none
            },
            InetAddress::V4 { ip, .. } => ip.as_slice(),
            InetAddress::V6 { ip, .. } => ip.as_slice(),
        }
    }

    /// Two numbers that tell this address from every other of its family on
    /// this machine: its bytes and its port, laid out highest byte first and
    /// read as the machine reads.
    pub fn key(&self) -> (r: (u128, u16))
        ensures
            match *self {
                InetAddress::Nil => r == (0u128, 0u16),
                InetAddress::V4 { ip, port } => (r.0 == be32(ip@) || r.0 == le32(ip@)) && (r.1
                    == port || r.1 == swapped16(port)),
                InetAddress::V6 { ip, port } => (r.0 == be_number(ip@) || r.0 == le_number(ip@))
                    && (r.1 == port || r.1 == swapped16(port)),
            },
    {
        match self {
            InetAddress::Nil => (0, 0),
            InetAddress::V4 { ip, port } => (u32_from_ne(*ip) as u128, u16_to_network(*port)),
            InetAddress::V6 { ip, port } => (u128_from_ne(*ip), u16_to_network(*port)),
        }
    }

    /// The port, which is 0 for the nil address.
    pub fn port(&self) -> (r: u16)
        ensures
            r == self.spec_port(),
    {
        match self {
            InetAddress::Nil => 0,
            InetAddress::V4 { port, .. } => *port,
            InetAddress::V6 { port, .. } => *port,
        }
    }

    /// Sets the port. The nil address has none and stays as it is.
    pub fn set_port(&mut self, port: u16)
        ensures
            match *old(self) {
                InetAddress::Nil => *final(self) == InetAddress::Nil,
                InetAddress::V4 { ip, .. } => *final(self) == (InetAddress::V4 { ip, port }),
                InetAddress::V6 { ip, .. } => *final(self) == (InetAddress::V6 { ip, port }),
            },
    {
        match *self {
            InetAddress::Nil => {},
            InetAddress::V4 { ip, .. } => {
                *self = InetAddress::V4 { ip, port };
            },
            InetAddress::V6 { ip, .. } => {
                *self = InetAddress::V6 { ip, port };
            },
        }
    }

    /// Whether this address is within the range `cidr`, an address whose
    /// port is read as a number of bits.
    ///
    /// Both are of the same family, and the number of bits is no more than
    /// the family has. Of an IPv4 address the first so many bits are
    /// compared; with 0 bits, all 32 are. Of an IPv6 address the first so
    /// many whole bytes are compared, and of the next byte the bits that are
    /// left over; with none left over, all of that byte.
    pub open spec fn spec_is_within(&self, cidr: &InetAddress) -> bool {
        match (*self, *cidr) {
            (InetAddress::V4 { ip: a, .. }, InetAddress::V4 { ip: b, port: bits }) => {
                &&& bits <= 32
                &&& be32(a@) >> (((32 - bits) % 32) as u32) == be32(b@) >> (((32 - bits)
                    % 32) as u32)
            },
            (InetAddress::V6 { ip: a, .. }, InetAddress::V6 { ip: b, port: bits }) => {
                &&& bits <= 128
                &&& forall|i: int| 0 <= i < bits / 8 ==> a@[i] == b@[i]
                &&& bits < 128 ==> a@[bits as int / 8] >> (((8 - bits % 8) % 8) as u8) == b@[bits as int
                    / 8] >> (((8 - bits % 8) % 8) as u8)
            },
            _ => false,
        }
    }

    /// Whether the question [`InetAddress::is_within`] has no answer: that
    /// of an IPv6 address and a range of 128 bits with the same bytes.
    pub open spec fn is_whole_address_range(&self, cidr: &InetAddress) -> bool {
        match (*self, *cidr) {
            (InetAddress::V6 { ip: a, .. }, InetAddress::V6 { ip: b, port: bits }) => bits == 128
                && a@ == b@,
            _ => false,
        }
    }

    /// Whether this address is within the range `cidr`, an address whose
    /// port is read as a number of bits.
    #[verifier::loop_isolation(false)]
    pub fn is_within(&self, cidr: &InetAddress) -> (r: bool)
        requires
            !self.is_whole_address_range(cidr),
        ensures
            r == self.spec_is_within(cidr),
    {
        match (self, cidr) {
            (InetAddress::V4 { ip: a, .. }, InetAddress::V4 { ip: b, port: bits }) => {
                if *bits <= 32 {
                    let discard: u32 = ((32 - *bits) % 32) as u32;
                    (u32_from_be(a.as_slice()) >> discard) == (u32_from_be(b.as_slice())
                        >> discard)
                } else {
                    false
                }
            },
            (InetAddress::V6 { ip: a, .. }, InetAddress::V6 { ip: b, port: bits }) => {
                if *bits <= 128 {
                    let whole: usize = (*bits / 8) as usize;
                    let mut p: usize = 0;
                    while p < whole
                        invariant
                            p <= whole,
                            whole == *bits / 8,
                            whole <= 16,
                            forall|i: int| 0 <= i < p ==> a@[i] == b@[i],
                        decreases whole - p,
                    {
                        if a[p] != b[p] {
                            assert(a@[p as int] != b@[p as int] && p < *bits / 8);
                            return false;
                        }
                        p = p + 1;
                    }
                    assert(whole == 16 ==> a@ =~= b@);
                    let discard: u8 = ((8 - *bits % 8) % 8) as u8;
                    (a[p] >> discard) == (b[p] >> discard)
                } else {
                    false
                }
            },
            _ => false,
        }
    }

    /// The scope of this address. An IPv4 address is taken for the number
    /// that the machine reads from its four bytes.
    pub fn scope(&self) -> (r: IpScope)
        ensures
            match *self {
                InetAddress::Nil => r == IpScope::NoScope,
                InetAddress::V4 { ip, .. } => r == spec_ipv4_scope(be32(ip@)) || r
                    == spec_ipv4_scope(le32(ip@)),
                InetAddress::V6 { ip, .. } => r == spec_ipv6_scope(ip@),
            },
    {
        match self {
            InetAddress::Nil => IpScope::NoScope,
            InetAddress::V4 { ip, .. } => ipv4_scope(u32_from_ne(*ip)),
            InetAddress::V6 { ip, .. } => ipv6_scope(ip),
        }
    }

    /// How this address stands to `other` in the order of addresses.
    pub fn compare(&self, other: &InetAddress) -> (r: Ordering)
        ensures
            r == order_of(*self, *other),
    {
        let s: i8 = sign(self, other);
        if s < 0 {
            Ordering::Less
        } else if s > 0 {
            Ordering::Greater
        } else {
            Ordering::Equal
        }
    }
}

impl Default for InetAddress {
    fn default() -> (r: InetAddress)
        ensures
            r == InetAddress::Nil,
    {
        InetAddress::Nil
    }
}

impl PartialEq for InetAddress {
    fn eq(&self, other: &InetAddress) -> (r: bool) {
        proof {
            lemma_sign_zero(*self, *other);
        }
        sign(self, other) == 0
    }
}

impl PartialEqSpecImpl for InetAddress {
    open spec fn obeys_eq_spec() -> bool {
        true
    }

    open spec fn eq_spec(&self, other: &InetAddress) -> bool {
        *self == *other
    }
}

impl PartialOrd for InetAddress {
    fn partial_cmp(&self, other: &InetAddress) -> (r: Option<Ordering>) {
        Some(self.compare(other))
    }
}

impl PartialOrdSpecImpl for InetAddress {
    open spec fn obeys_partial_cmp_spec() -> bool {
        true
    }

    open spec fn partial_cmp_spec(&self, other: &InetAddress) -> Option<Ordering> {
        Some(order_of(*self, *other))
    }
}

/// The bytes that stand for the address `a`: a byte that tells the family,
/// then the bytes of the address and the two bytes of the port, the high
/// byte first. The nil address is the single byte 0.
pub open spec fn wire_of(a: InetAddress) -> Seq<u8> {
    match a {
        InetAddress::Nil => seq![0u8],
        InetAddress::V4 { ip, port } => seq![4u8] + ip@ + be16_bytes(port),
        InetAddress::V6 { ip, port } => seq![6u8] + ip@ + be16_bytes(port),
    }
}

/// The address at the front of `s` and the number of bytes that it takes. A
/// first byte that is neither 4 nor 6 stands for the nil address.
pub open spec fn parse_of(s: Seq<u8>) -> Option<(InetAddress, nat)> {
    if s.len() == 0 {
        None
    } else if s[0] == 4 {
        if s.len() >= 7 {
            Some(
                (
                    InetAddress::V4 {
                        ip: [s[1], s[2], s[3], s[4]],
                        port: be16(s.subrange(5, 7)),
                    },
                    7,
                ),
            )
        } else {
            None
        }
    } else if s[0] == 6 {
        if s.len() >= 19 {
            Some(
                (
                    InetAddress::V6 {
                        ip: [
                            s[1],
                            s[2],
                            s[3],
                            s[4],
                            s[5],
                            s[6],
                            s[7],
                            s[8],
                            s[9],
                            s[10],
                            s[11],
                            s[12],
                            s[13],
                            s[14],
                            s[15],
                            s[16],
                        ],
                        port: be16(s.subrange(17, 19)),
                    },
                    19,
                ),
            )
        } else {
            None
        }
    } else {
        Some((InetAddress::Nil, 1))
    }
}

/// The number of bytes that follow the first byte `kind` of an address in
/// bytes.
pub open spec fn spec_wire_rest_len(kind: u8) -> nat {
    if kind == 4 {
        6
    } else if kind == 6 {
        18
    } else {
        0
    }
}

/// The number of bytes that follow the first byte `kind` of an address in
/// bytes: with them the address can be read, and it takes them all.
pub fn wire_rest_len(kind: u8) -> (r: usize)
    ensures
        r == spec_wire_rest_len(kind),
        forall|s: Seq<u8>|
            s.len() > 0 && s[0] == kind ==> (#[trigger] parse_of(s) is Some <==> s.len() >= 1 + r),
        forall|s: Seq<u8>|
            s.len() > 0 && s[0] == kind && #[trigger] parse_of(s) is Some ==> parse_of(s)->Some_0.1
                == 1 + r,
{
    if kind == 4 {
        6
    } else if kind == 6 {
        18
    } else {
        0
    }
}

#[verifier::rlimit(60)]
proof fn lemma_round_trip_v4(ip: [u8; 4], port: u16, rest: Seq<u8>)
    ensures
        parse_of(wire_of(InetAddress::V4 { ip, port }) + rest) == Some(
            (InetAddress::V4 { ip, port }, 7nat),
        ),
{
    let head = seq![4u8] + ip@;
    let w = head + be16_bytes(port);
    let s = w + rest;
    assert(ip@.len() == 4);
    assert(head.len() == 5);
    assert(w.len() == 7);
    assert(wire_of(InetAddress::V4 { ip, port }) == w);
    assert forall|k: int| 0 <= k < 7 implies #[trigger] s[k] == w[k] by {}
    assert forall|k: int| 0 <= k < 5 implies #[trigger] w[k] == head[k] by {}
    assert forall|k: int| 1 <= k < 5 implies #[trigger] head[k] == ip@[k - 1] by {}
    assert(s[0] == 4);
    assert(s.subrange(5, 7) =~= be16_bytes(port));
    crate::slices::lemma_be16_round_trip(port);
    let a: [u8; 4] = [s[1], s[2], s[3], s[4]];
    assert(a@ =~= ip@);
    assert(a =~= ip);
}

#[verifier::rlimit(60)]
proof fn lemma_round_trip_v6(ip: [u8; 16], port: u16, rest: Seq<u8>)
    ensures
        parse_of(wire_of(InetAddress::V6 { ip, port }) + rest) == Some(
            (InetAddress::V6 { ip, port }, 19nat),
        ),
{
    let head = seq![6u8] + ip@;
    let w = head + be16_bytes(port);
    let s = w + rest;
    assert(ip@.len() == 16);
    assert(head.len() == 17);
    assert(w.len() == 19);
    assert(wire_of(InetAddress::V6 { ip, port }) == w);
    assert forall|k: int| 0 <= k < 19 implies #[trigger] s[k] == w[k] by {}
    assert forall|k: int| 0 <= k < 17 implies #[trigger] w[k] == head[k] by {}
    assert forall|k: int| 1 <= k < 17 implies #[trigger] head[k] == ip@[k - 1] by {}
    assert(s[0] == 6);
    assert(s.subrange(17, 19) =~= be16_bytes(port));
    crate::slices::lemma_be16_round_trip(port);
    let a: [u8; 16] = [
        s[1],
        s[2],
        s[3],
        s[4],
        s[5],
        s[6],
        s[7],
        s[8],
        s[9],
        s[10],
        s[11],
        s[12],
        s[13],
        s[14],
        s[15],
        s[16],
    ];
    assert(a@ =~= ip@);
    assert(a =~= ip);
}

impl ToFromBytes for InetAddress {
    open spec fn wire(&self) -> Seq<u8> {
        wire_of(*self)
    }

    open spec fn parse(s: Seq<u8>) -> Option<(InetAddress, nat)> {
        parse_of(s)
    }

    proof fn lemma_round_trip(&self, rest: Seq<u8>) {
        match *self {
            InetAddress::Nil => {},
            InetAddress::V4 { ip, port } => {
                lemma_round_trip_v4(ip, port, rest);
            },
            InetAddress::V6 { ip, port } => {
                lemma_round_trip_v6(ip, port, rest);
            },
        }
    }

    fn read_bytes<R: ByteSource>(r: &mut R) -> (res: Result<InetAddress, StreamError>) {
        let ghost all = r.source_bytes();
        let kind: Vec<u8> = match r.read_exact(1) {
            Ok(b) => b,
            Err(e) => {
                return Err(e);
            },
        };
        if kind[0] == 4 {
            let b: Vec<u8> = match r.read_exact(6) {
                Ok(b) => b,
                Err(e) => {
                    return Err(e);
                },
            };
            let ip: [u8; 4] = [b[0], b[1], b[2], b[3]];
            let port: u16 = u16_from_be(vstd::slice::slice_subrange(b.as_slice(), 4, 6));
            proof {
                assert(b@ =~= all.subrange(1, 7));
                assert(b@.subrange(4, 6) =~= all.subrange(5, 7));
                let a: [u8; 4] = [all[1], all[2], all[3], all[4]];
                assert(a =~= ip);
                assert(all.skip(1).skip(6) =~= all.skip(7));
            }
            Ok(InetAddress::V4 { ip, port })
        } else if kind[0] == 6 {
            let b: Vec<u8> = match r.read_exact(18) {
                Ok(b) => b,
                Err(e) => {
                    return Err(e);
                },
            };
            let ip: [u8; 16] = [
                b[0],
                b[1],
                b[2],
                b[3],
                b[4],
                b[5],
                b[6],
                b[7],
                b[8],
                b[9],
                b[10],
                b[11],
                b[12],
                b[13],
                b[14],
                b[15],
            ];
            let port: u16 = u16_from_be(vstd::slice::slice_subrange(b.as_slice(), 16, 18));
            proof {
                assert(b@ =~= all.subrange(1, 19));
                assert(b@.subrange(16, 18) =~= all.subrange(17, 19));
                let a: [u8; 16] = [
                    all[1],
                    all[2],
                    all[3],
                    all[4],
                    all[5],
                    all[6],
                    all[7],
                    all[8],
                    all[9],
                    all[10],
                    all[11],
                    all[12],
                    all[13],
                    all[14],
                    all[15],
                    all[16],
                ];
                assert(a =~= ip);
                assert(all.skip(1).skip(18) =~= all.skip(19));
            }
            Ok(InetAddress::V6 { ip, port })
        } else {
            Ok(InetAddress::Nil)
        }
    }

    fn write_bytes<W: ByteSink>(&self, w: &mut W) -> (res: Result<(), StreamError>) {
        match self {
            InetAddress::Nil => {
                let b: [u8; 1] = [0];
                assert(b@ =~= wire_of(*self));
                w.write_all(b.as_slice())
            },
            InetAddress::V4 { ip, port } => {
                let p: [u8; 2] = u16_to_be(*port);
                let b: [u8; 7] = [4, ip[0], ip[1], ip[2], ip[3], p[0], p[1]];
                assert(b@ =~= wire_of(*self));
                w.write_all(b.as_slice())
            },
            InetAddress::V6 { ip, port } => {
                let p: [u8; 2] = u16_to_be(*port);
                let b: [u8; 19] = [
                    6,
                    ip[0],
                    ip[1],
                    ip[2],
                    ip[3],
                    ip[4],
                    ip[5],
                    ip[6],
                    ip[7],
                    ip[8],
                    ip[9],
                    ip[10],
                    ip[11],
                    ip[12],
                    ip[13],
                    ip[14],
                    ip[15],
                    p[0],
                    p[1],
                ];
                assert(b@ =~= wire_of(*self));
                w.write_all(b.as_slice())
            },
        }
    }
}

/// The decimal digits of `v`, as characters, without zeroes at the front.
pub open spec fn decimal(v: nat) -> Seq<u8>
    decreases v,
{
    if v < 10 {
        seq![(48 + v) as u8]
    } else {
        decimal(v / 10).push((48 + v % 10) as u8)
    }
}

/// The number that the decimal digits `d` spell.
pub open spec fn decimal_value(d: Seq<u8>) -> nat
    decreases d.len(),
{
    if d.len() == 0 {
        0
    } else {
        decimal_value(d.drop_last()) * 10 + (d.last() - 48) as nat
    }
}

/// Whether every character of `d` is a decimal digit.
pub open spec fn all_digits(d: Seq<u8>) -> bool {
    forall|i: int| 0 <= i < d.len() ==> 48 <= #[trigger] d[i] <= 57
}

/// The 16-bit number that the text `t` spells in decimal: digits, which a
/// plus sign may precede. Nothing where `t` is no such text or the number
/// is too large.
pub open spec fn parsed_u16(t: Seq<u8>) -> Option<u16> {
    let d = if t.len() > 0 && t[0] == 43 {
        t.skip(1)
    } else {
        t
    };
    if d.len() > 0 && all_digits(d) && decimal_value(d) <= 0xffff {
        Some(decimal_value(d) as u16)
    } else {
        None
    }
}

/// The index of the first slash in `s`, or the length of `s` if it has none.
pub open spec fn first_slash(s: Seq<u8>) -> int
    decreases s.len(),
{
    if s.len() == 0 || s[0] == 47 {
        0
    } else {
        1 + first_slash(s.drop_first())
    }
}

/// The port that the text `s` of an address names: the decimal number after
/// its first slash, and 0 where there is no slash or no such number.
pub open spec fn port_in(s: Seq<u8>) -> u16 {
    if first_slash(s) < s.len() {
        match parsed_u16(s.skip(first_slash(s) + 1)) {
            Some(p) => p,
            None => 0,
        }
    } else {
        0
    }
}

/// The text of an IPv4 address: its four bytes in decimal, with dots between.
pub open spec fn ipv4_text(ip: Seq<u8>) -> Seq<u8>
    recommends
        ip.len() == 4,
{
    decimal(ip[0] as nat) + seq![46u8] + decimal(ip[1] as nat) + seq![46u8] + decimal(
        ip[2] as nat,
    ) + seq![46u8] + decimal(ip[3] as nat)
}

/// The decimal digits of a number spell that number.
pub proof fn lemma_decimal_round_trip(v: nat)
    ensures
        decimal(v).len() > 0,
        all_digits(decimal(v)),
        decimal_value(decimal(v)) == v,
    decreases v,
{
    if v < 10 {
        assert(decimal(v).drop_last() =~= Seq::<u8>::empty());
        assert(decimal_value(Seq::<u8>::empty()) == 0);
    } else {
        lemma_decimal_round_trip(v / 10);
        assert(decimal(v).drop_last() =~= decimal(v / 10));
    }
}

/// The decimal text of a port is read back as that port.
pub proof fn lemma_port_text_round_trip(p: u16)
    ensures
        parsed_u16(decimal(p as nat)) == Some(p),
{
    lemma_decimal_round_trip(p as nat);
    let d = decimal(p as nat);
    assert(48 <= d[0] <= 57);
}

proof fn lemma_first_slash(s: Seq<u8>, k: int)
    requires
        0 <= k <= s.len(),
        forall|j: int| 0 <= j < k ==> s[j] != 47,
        k < s.len() ==> s[k] == 47,
    ensures
        first_slash(s) == k,
    decreases k,
{
    if k > 0 {
        lemma_first_slash(s.drop_first(), k - 1);
    }
}

proof fn lemma_decimal_value_push(d: Seq<u8>, c: u8)
    ensures
        decimal_value(d.push(c)) == decimal_value(d) * 10 + (c - 48) as nat,
{
    assert(d.push(c).drop_last() =~= d);
}

proof fn lemma_decimal_value_grows(d: Seq<u8>, k: int)
    requires
        0 <= k <= d.len(),
        all_digits(d),
    ensures
        decimal_value(d.take(k)) <= decimal_value(d),
    decreases d.len() - k,
{
    if k < d.len() {
        lemma_decimal_value_grows(d, k + 1);
        lemma_decimal_value_push(d.take(k), d[k]);
        assert(d.take(k).push(d[k]) =~= d.take(k + 1));
    } else {
        assert(d.take(k) =~= d);
    }
}

/// The decimal digits of `v`, as characters.
pub fn u16_to_decimal(v: u16) -> (r: Vec<u8>)
    ensures
        r@ == decimal(v as nat),
        is_ascii(r@),
{
    let mut r: Vec<u8> = Vec::with_capacity(5);
    if v >= 10000 {
        r.push(48 + (v / 10000) as u8);
    }
    if v >= 1000 {
        r.push(48 + (v / 1000 % 10) as u8);
    }
    if v >= 100 {
        r.push(48 + (v / 100 % 10) as u8);
    }
    if v >= 10 {
        r.push(48 + (v / 10 % 10) as u8);
    }
    r.push(48 + (v % 10) as u8);
    proof {
        reveal_with_fuel(decimal, 6);
        assert(r@ =~= decimal(v as nat));
    }
    r
}

/// The 16-bit number that the text `t` spells in decimal, if it spells one.
pub fn parse_u16(t: &[u8]) -> (r: Option<u16>)
    ensures
        r == parsed_u16(t@),
{
    let start: usize = if t.len() > 0 && t[0] == 43 {
        1
    } else {
        0
    };
    let ghost d = t@.skip(start as int);
    assert(t@.skip(0) =~= t@);
    if start == t.len() {
        return None;
    }
    let mut acc: u32 = 0;
    let mut i: usize = start;
    while i < t.len()
        invariant
            start <= i <= t@.len(),
            start < t@.len(),
            d == t@.skip(start as int),
            d == if t@.len() > 0 && t@[0] == 43 {
                t@.skip(1)
            } else {
                t@
            },
            acc == decimal_value(d.take(i - start)),
            acc <= 0xffff,
            all_digits(d.take(i - start)),
        decreases t@.len() - i,
    {
        let c: u8 = t[i];
        if c < 48 || c > 57 {
            assert(!all_digits(d)) by {
                assert(d[i - start] == c);
            }
            return None;
        }
        proof {
            lemma_decimal_value_push(d.take(i - start), c);
            assert(d.take(i - start).push(c) =~= d.take(i - start + 1));
        }
        let next: u32 = acc * 10 + (c - 48) as u32;
        if next > 0xffff {
            proof {
                if all_digits(d) {
                    lemma_decimal_value_grows(d, i - start + 1);
                }
            }
            return None;
        }
        acc = next;
        i = i + 1;
    }
    assert(d.take(i - start) =~= d);
    Some(acc as u16)
}

/// Where the text `s` of an address parts into address and port: the index
/// of its first slash, or its length if it has none, and the port it names.
pub fn split_port(s: &[u8]) -> (r: (usize, u16))
    ensures
        r.0 == first_slash(s@),
        r.1 == port_in(s@),
{
    let mut i: usize = 0;
    while i < s.len() && s[i] != 47
        invariant
            i <= s@.len(),
            forall|j: int| 0 <= j < i ==> s@[j] != 47,
        decreases s@.len() - i,
    {
        i = i + 1;
    }
    proof {
        lemma_first_slash(s@, i as int);
    }
    if i < s.len() {
        let rest: &[u8] = vstd::slice::slice_subrange(s, i + 1, s.len());
        assert(rest@ =~= s@.skip(i + 1));
        match parse_u16(rest) {
            Some(p) => (i, p),
            None => (i, 0),
        }
    } else {
        (i, 0)
    }
}

/// The text of the IPv4 address with the bytes `ip`.
pub fn ipv4_to_string(ip: &[u8; 4]) -> (r: String)
    ensures
        r@ == ascii(ipv4_text(ip@)),
{
    let mut v: Vec<u8> = u16_to_decimal(ip[0] as u16);
    let mut k: usize = 1;
    while k < 4
        invariant
            1 <= k <= 4,
            is_ascii(v@),
            k == 1 ==> v@ == decimal(ip@[0] as nat),
            k == 2 ==> v@ == decimal(ip@[0] as nat) + seq![46u8] + decimal(ip@[1] as nat),
            k == 3 ==> v@ == decimal(ip@[0] as nat) + seq![46u8] + decimal(ip@[1] as nat) + seq![
                46u8,
            ] + decimal(ip@[2] as nat),
            k == 4 ==> v@ == ipv4_text(ip@),
        decreases 4 - k,
    {
        let mut digits: Vec<u8> = u16_to_decimal(ip[k] as u16);
        let ghost before = v@;
        v.push(46);
        v.append(&mut digits);
        assert(v@ =~= before + seq![46u8] + decimal(ip@[k as int] as nat));
        k = k + 1;
    }
    string_from_ascii(v)
}

impl InetAddress {
    /// The text of the address without its port, where this library makes
    /// it: the four bytes of an IPv4 address in decimal with dots between,
    /// and `(null)` for the nil address. The text of an IPv6 address is not
    /// made here.
    pub fn to_ip_string(&self) -> (r: Option<String>)
        ensures
            match *self {
                InetAddress::Nil => r is Some && r->Some_0@ == "(null)"@,
                InetAddress::V4 { ip, .. } => r is Some && r->Some_0@ == ascii(ipv4_text(ip@)),
                InetAddress::V6 { .. } => r is None,
            },
    {
        match self {
            InetAddress::Nil => Some("(null)".to_owned()),
            InetAddress::V4 { ip, .. } => Some(ipv4_to_string(ip)),
            InetAddress::V6 { .. } => None,
        }
    }

    /// What follows the text of the address in the text of address and
    /// port: a slash and the port in decimal, and nothing for the nil
    /// address.
    pub open spec fn port_suffix(&self) -> Seq<char> {
        match *self {
            InetAddress::Nil => Seq::empty(),
            InetAddress::V4 { port, .. } => "/"@ + ascii(decimal(port as nat)),
            InetAddress::V6 { port, .. } => "/"@ + ascii(decimal(port as nat)),
        }
    }

    /// The text of address and port, given the text of the address: the
    /// two with a slash between, and for the nil address the text given.
    pub fn with_port(&self, ip_text: &str) -> (r: String)
        ensures
            r@ == ip_text@ + self.port_suffix(),
    {
        let mut s: String = String::from_str(ip_text);
        if !self.is_nil() {
            s.append("/");
            let digits: String = string_from_ascii(u16_to_decimal(self.port()));
            s.append(digits.as_str());
            assert(s@ =~= ip_text@ + self.port_suffix());
        } else {
            assert(s@ =~= ip_text@ + self.port_suffix());
        }
        s
    }

    /// The text of address and port, where this library makes the text of
    /// the address.
    pub fn to_string(&self) -> (r: Option<String>)
        ensures
            match *self {
                InetAddress::Nil => r is Some && r->Some_0@ == "(null)"@,
                InetAddress::V4 { ip, port } => r is Some && r->Some_0@ == ascii(ipv4_text(ip@))
                    + "/"@ + ascii(decimal(port as nat)),
                InetAddress::V6 { .. } => r is None,
            },
    {
        match self.to_ip_string() {
            Some(ip_text) => {
                let r: String = self.with_port(ip_text.as_str());
                assert(r@ =~= ip_text@ + self.port_suffix());
                Some(r)
            },
            None => None,
        }
    }
}

} // verus!
