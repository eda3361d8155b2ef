//! Addresses and endpoints.

use vstd::prelude::*;

verus! {

/// An internet address, as its octets.
#[derive(Clone, Copy, Debug, PartialEq, Eq)]
pub enum IpAddress {
    Ipv4([u8; 4]),
    Ipv6([u8; 16]),
}

impl IpAddress {
    /// Whether the address stands for the absence of one: the first octet of an IPv4 address is
    /// zero, or every octet of an IPv6 address.
    pub open spec fn is_unspecified(&self) -> bool {
        match self {
            IpAddress::Ipv4(a) => a@[0] == 0,
            IpAddress::Ipv6(a) => forall|i: int| 0 <= i < 16 ==> a@[i] == 0,
        }
    }

    /// Whether two addresses belong to the same version of the protocol.
    pub open spec fn same_version(&self, other: IpAddress) -> bool {
        match (self, other) {
            (IpAddress::Ipv4(_), IpAddress::Ipv4(_)) => true,
            (IpAddress::Ipv6(_), IpAddress::Ipv6(_)) => true,
            _ => false,
        }
    }
}

/// An address and a port.
#[derive(Clone, Copy, Debug, PartialEq, Eq)]
pub struct Endpoint {
    pub addr: IpAddress,
    pub port: u16,
}

impl Endpoint {
    /// Whether packets can be sent there.
    pub open spec fn is_specified(&self) -> bool {
        self.port != 0 && !self.addr.is_unspecified()
    }
}

/// A port, and an address if packets to others are not wanted.
#[derive(Clone, Copy, Debug, PartialEq, Eq)]
pub struct ListenEndpoint {
    pub addr: Option<IpAddress>,
    pub port: u16,
}

/// The endpoint of a socket that is not bound.
pub open spec fn unbound() -> ListenEndpoint {
    ListenEndpoint { addr: None, port: 0 }
}

/// The address that packets to `dst` are sent from: the first one of the same version.
pub open spec fn source_address(addrs: Seq<IpAddress>, dst: IpAddress) -> Option<IpAddress>
    decreases addrs.len(),
{
    if addrs.len() == 0 {
        None
    } else if addrs[0].same_version(dst) {
        Some(addrs[0])
    } else {
        source_address(addrs.skip(1), dst)
    }
}

/// Packets can be sent to a port other than zero, of an IPv4 address whose first octet is not zero
/// or of an IPv6 address with an octet that is not zero.
pub proof fn lemma_specified(endpoint: Endpoint)
    ensures
        match endpoint.addr {
            IpAddress::Ipv4(a) => endpoint.is_specified() <==> endpoint.port != 0 && a@[0] != 0,
            IpAddress::Ipv6(a) => endpoint.is_specified() <==> endpoint.port != 0 && exists|i: int|
                0 <= i < 16 && a@[i] != 0,
        },
{
}

/// Two addresses belong to the same version exactly if both are IPv4 addresses or neither is.
pub proof fn lemma_same_version(a: IpAddress, b: IpAddress)
    ensures
        a.same_version(b) <==> (a is Ipv4 <==> b is Ipv4),
{
}

/// Packets are sent from an address of the interface that has the version of their destination, and
/// from none that stands behind another such address. Where there is no such address, they are not
/// sent.
pub proof fn lemma_first_of_the_version(addrs: Seq<IpAddress>, dst: IpAddress)
    ensures
        match source_address(addrs, dst) {
            Some(source) => exists|i: int|
                #![trigger addrs[i]]
                0 <= i < addrs.len() && addrs[i] == source && (source is Ipv4 <==> dst is Ipv4) && (
                forall|j: int|
                    #![trigger addrs[j]]
                    0 <= j < i ==> !(addrs[j] is Ipv4 <==> dst is Ipv4)),
            None => forall|i: int|
                #![trigger addrs[i]]
                0 <= i < addrs.len() ==> !(addrs[i] is Ipv4 <==> dst is Ipv4),
        },
    decreases addrs.len(),
{
    if addrs.len() > 0 && !addrs[0].same_version(dst) {
        let rest = addrs.skip(1);
        lemma_first_of_the_version(rest, dst);
        match source_address(rest, dst) {
            Some(source) => {
                let i = choose|i: int|
                    #![trigger rest[i]]
                    0 <= i < rest.len() && rest[i] == source && (source is Ipv4 <==> dst is Ipv4)
                        && (forall|j: int|
                        #![trigger rest[j]]
                        0 <= j < i ==> !(rest[j] is Ipv4 <==> dst is Ipv4));
                assert(addrs[i + 1] == source);
                assert forall|j: int| 0 <= j < i + 1 implies !(#[trigger] addrs[j] is Ipv4
                    <==> dst is Ipv4) by {
                    if j > 0 {
                        assert(rest[j - 1] == addrs[j]);
                    }
                }
            },
            None => {
                assert forall|j: int| 0 <= j < addrs.len() implies !(#[trigger] addrs[j] is Ipv4
                    <==> dst is Ipv4) by {
                    if j > 0 {
                        assert(rest[j - 1] == addrs[j]);
                    }
                }
            },
        }
    }
}

} // verus!
