use vstd::prelude::*;

verus! {

/// Errors reported by the network stack.
#[derive(Debug, Clone, Copy, PartialEq, Eq, Structural)]
pub enum NetworkError {
    InvalidPacket,
    BufferTooSmall,
    BufferOverflow,
    Busy,
    InsufficientMemory,
    InvalidAddress,
    ProtocolError,
    AddressInUse,
    NotSupported,
    PermissionDenied,
    NetworkUnreachable,
    InvalidArgument,
    InternalError,
}

/// Result type of network operations.
pub type NetworkResult<T> = Result<T, NetworkError>;

/// A network-layer or link-layer address.
#[derive(Debug, Clone, Copy, PartialEq, Eq)]
pub enum NetworkAddress {
    IPv4([u8; 4]),
    IPv6([u8; 16]),
    Mac([u8; 6]),
}

/// Byte-wise equality of two arrays.
pub fn bytes_eq<const N: usize>(a: &[u8; N], b: &[u8; N]) -> (r: bool)
    ensures
        r == (*a == *b),
{
    broadcast use vstd::array::group_array_axioms;
    let mut i: usize = 0;
    while i < N
        invariant
            i <= N,
            forall|j: int| 0 <= j < i ==> a[j] == b[j],
        decreases N - i,
    {
        if a[i] != b[i] {
            return false;
        }
        i = i + 1;
    }
    assert(*a =~= *b);
    true
}

impl NetworkAddress {
    /// Whether two addresses are the same (same family and same bytes).
    pub fn same(&self, other: &NetworkAddress) -> (r: bool)
        ensures
            r == (*self == *other),
    {
        match (self, other) {
            (NetworkAddress::IPv4(a), NetworkAddress::IPv4(b)) => bytes_eq(a, b),
            (NetworkAddress::IPv6(a), NetworkAddress::IPv6(b)) => bytes_eq(a, b),
            (NetworkAddress::Mac(a), NetworkAddress::Mac(b)) => bytes_eq(a, b),
            _ => false,
        }
    }
}

/// An IPv4 address as four octets.
#[derive(Debug, Clone, Copy, PartialEq, Eq)]
pub struct Ipv4Address(pub [u8; 4]);

impl Ipv4Address {
    /// Builds the address `a.b.c.d`.
    pub fn new(a: u8, b: u8, c: u8, d: u8) -> (r: Self)
        ensures
            r.0@ == seq![a, b, c, d],
    {
        Ipv4Address([a, b, c, d])
    }

    /// Builds an address from its four octets.
    pub fn from_bytes(bytes: [u8; 4]) -> (r: Self)
        ensures
            r.0 == bytes,
    {
        Ipv4Address(bytes)
    }

    /// The four octets of the address.
    pub fn to_bytes(&self) -> (r: [u8; 4])
        ensures
            r == self.0,
    {
        self.0
    }
}

/// An Ethernet hardware address.
#[derive(Debug, Clone, Copy, PartialEq, Eq)]
pub struct MacAddress(pub [u8; 6]);

impl MacAddress {
    /// Builds a hardware address from its six octets.
    pub fn new(bytes: [u8; 6]) -> (r: Self)
        ensures
            r.0 == bytes,
    {
        MacAddress(bytes)
    }
}

} // verus!
