//! The destination identifier carried by every relayed connection and by
//! every datagram frame: either a domain name with a port, or a resolved
//! IPv4 or IPv6 socket address.

use vstd::prelude::*;

verus! {

/// Mathematical model of an [`Address`]: the same three variants over
/// `Seq<u8>` instead of `Vec<u8>`.
pub enum AddressV {
    Domain { name: Seq<u8>, port: u16 },
    Ipv4 { ip: Seq<u8>, port: u16 },
    Ipv6 { ip: Seq<u8>, port: u16 },
}

impl AddressV {
    /// A well-formed address can be written on the wire: a domain name
    /// fits its one-byte length prefix, and an IP block has exactly the
    /// width its tag declares.
    pub open spec fn wf(self) -> bool {
        match self {
            AddressV::Domain { name, .. } => name.len() <= 255,
            AddressV::Ipv4 { ip, .. } => ip.len() == 4,
            AddressV::Ipv6 { ip, .. } => ip.len() == 16,
        }
    }

}

/// Destination of a relayed connection or of one datagram frame.
///
/// A domain name is kept as its raw bytes; an IP address as its 4- or
/// 16-byte network representation. The value is immutable once built.
#[derive(Debug, Clone)]
pub enum Address {
    Domain { name: Vec<u8>, port: u16 },
    Ipv4 { ip: Vec<u8>, port: u16 },
    Ipv6 { ip: Vec<u8>, port: u16 },
}

impl View for Address {
    type V = AddressV;

    open spec fn view(&self) -> AddressV {
        match self {
            Address::Domain { name, port } => AddressV::Domain { name: name@, port: *port },
            Address::Ipv4 { ip, port } => AddressV::Ipv4 { ip: ip@, port: *port },
            Address::Ipv6 { ip, port } => AddressV::Ipv6 { ip: ip@, port: *port },
        }
    }
}

/// Byte-for-byte comparison of two vectors.
pub fn bytes_eq(a: &Vec<u8>, b: &Vec<u8>) -> (r: bool)
    ensures
        r == (a@ == b@),
{
    if a.len() != b.len() {
        assert(a@ != b@) by {
            assert(a@.len() != b@.len());
        }
        return false;
    }
    let n = a.len();
    let mut i: usize = 0;
    while i < n
        invariant
            n == a.len() == b.len(),
            0 <= i <= n,
            forall|j: int| 0 <= j < i ==> a@[j] == b@[j],
        decreases n - i,
    {
        if a[i] != b[i] {
            return false;
        }
        i += 1;
    }
    assert(a@ =~= b@);
    true
}

impl PartialEq for Address {
    fn eq(&self, other: &Address) -> (r: bool) {
        match (self, other) {
            (
                Address::Domain { name, port },
                Address::Domain { name: on, port: op },
            ) => bytes_eq(name, on) && *port == *op,
            (Address::Ipv4 { ip, port }, Address::Ipv4 { ip: oi, port: op }) => bytes_eq(ip, oi)
                && *port == *op,
            (Address::Ipv6 { ip, port }, Address::Ipv6 { ip: oi, port: op }) => bytes_eq(ip, oi)
                && *port == *op,
            _ => false,
        }
    }
}

impl vstd::std_specs::cmp::PartialEqSpecImpl for Address {
    open spec fn obeys_eq_spec() -> bool {
        true
    }

    open spec fn eq_spec(&self, other: &Address) -> bool {
        self@ == other@
    }
}

impl Eq for Address {

}

} // verus!
