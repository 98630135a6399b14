//! IP addresses.
use vstd::prelude::*;
use crate::bytes::copy_into;

verus! {

/// An IPv4 address, in network byte order.
#[derive(Clone, Copy, Debug, PartialEq, Eq, Hash)]
pub struct Ipv4Addr(pub [u8; 4]);

/// An IPv6 address, in network byte order.
#[derive(Clone, Copy, Debug, PartialEq, Eq, Hash)]
pub struct Ipv6Addr(pub [u8; 16]);

/// An IP address of either family.
#[derive(Clone, Copy, Debug, PartialEq, Eq, Hash)]
pub enum IpAddr {
    V4(Ipv4Addr),
    V6(Ipv6Addr),
}

impl Ipv4Addr {
    /// The address 0.0.0.0.
    pub fn unspecified() -> (a: Ipv4Addr)
        ensures
            a.0@ == seq![0u8, 0, 0, 0],
    {
        let a: Ipv4Addr = Ipv4Addr([0, 0, 0, 0]);
        assert(a.0@ =~= seq![0u8, 0, 0, 0]);
        a
    }
}

/// An IP address as a mathematical value: the family and the bytes.
pub enum IpValue {
    V4(Seq<u8>),
    V6(Seq<u8>),
}

impl IpValue {
    /// The IPv4 address 0.0.0.0.
    pub open spec fn unspecified() -> IpValue {
        IpValue::V4(seq![0u8, 0, 0, 0])
    }

    /// The sixteen bytes that hold the address where either family fits: an IPv4 address fills
    /// the first four, the rest is zero.
    pub open spec fn inet_bytes(self) -> Seq<u8> {
        match self {
            IpValue::V4(octets) => octets + Seq::new(12, |i: int| 0u8),
            IpValue::V6(octets) => octets,
        }
    }
}

impl View for IpAddr {
    type V = IpValue;

    open spec fn view(&self) -> IpValue {
        match self {
            IpAddr::V4(a) => IpValue::V4(a.0@),
            IpAddr::V6(a) => IpValue::V6(a.0@),
        }
    }
}

impl IpAddr {
    /// The sixteen bytes that hold the address where either family fits.
    pub fn to_inet_bytes(&self) -> (r: [u8; 16])
        ensures
            r@ == self@.inet_bytes(),
    {
        match self {
            IpAddr::V4(a) => {
                let mut r: [u8; 16] = [0u8; 16];
                copy_into(&mut r, &a.0);
                assert(r@ =~= self@.inet_bytes());
                r
            },
            IpAddr::V6(a) => a.0,
        }
    }
}

impl Default for IpAddr {
    /// The IPv4 address 0.0.0.0.
    fn default() -> (a: IpAddr)
        ensures
            a@ == IpValue::unspecified(),
    {
        IpAddr::V4(Ipv4Addr::unspecified())
    }
}

/// Where an address of either family fits, an IPv4 address fills the first four bytes and leaves
/// the rest zero; an IPv6 address fills all sixteen. A value of the type stands for its bytes.
pub proof fn law_inet_bytes(a: Ipv4Addr, b: Ipv6Addr)
    ensures
        IpAddr::V4(a)@.inet_bytes().len() == 16,
        forall|i: int|
            0 <= i < 16 ==> #[trigger] IpAddr::V4(a)@.inet_bytes()[i] == (if i < 4 {
                a.0@[i]
            } else {
                0
            }),
        IpAddr::V6(b)@.inet_bytes() == b.0@,
        IpAddr::V4(a)@ is V4,
        IpAddr::V6(b)@ is V6,
        IpAddr::V4(a)@ == IpValue::V4(a.0@),
        IpAddr::V6(b)@ == IpValue::V6(b.0@),
        IpValue::unspecified() matches IpValue::V4(octets) && octets =~= seq![0u8, 0u8, 0u8, 0u8],
{
}

} // verus!
