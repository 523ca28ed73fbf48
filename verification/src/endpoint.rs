//! Upstream nameserver endpoints.

use crate::address::IpAddress;
use vstd::prelude::*;

verus! {

/// Transport over which an upstream nameserver is reached.
#[derive(Clone, Copy, Debug, PartialEq, Eq, Hash, Structural)]
pub enum Transport {
    Udp,
    Tcp,
    Tls,
    Https,
}

/// An upstream DNS service: address, port and transport. Two endpoints are
/// equal when all three are.
#[derive(Clone, Copy, Debug, PartialEq, Eq, Hash, Structural)]
pub struct NameserverEndpoint {
    pub address: IpAddress,
    pub port: u16,
    pub transport: Transport,
}

/// The port of plain DNS.
pub const DNS_PORT: u16 = 53;

/// The endpoint that a lease announces for an address: plain DNS over UDP.
pub open spec fn lease_endpoint(address: IpAddress) -> NameserverEndpoint {
    NameserverEndpoint { address, port: DNS_PORT, transport: Transport::Udp }
}

impl NameserverEndpoint {
    /// The endpoint with these three parts.
    pub fn new(address: IpAddress, port: u16, transport: Transport) -> (e: NameserverEndpoint)
        ensures
            e == (NameserverEndpoint { address, port, transport }),
    {
        NameserverEndpoint { address, port, transport }
    }

    /// The endpoint that a lease announces for an address.
    pub fn from_lease(address: IpAddress) -> (e: NameserverEndpoint)
        ensures
            e == lease_endpoint(address),
    {
        NameserverEndpoint { address, port: DNS_PORT, transport: Transport::Udp }
    }

    /// Whether the endpoint is reached over IPv4.
    pub fn is_ipv4(&self) -> (b: bool)
        ensures
            b == self.address.is_v4(),
    {
        self.address.is_ipv4()
    }
}

/// Whether `list` holds `e`.
pub fn contains_endpoint(list: &Vec<NameserverEndpoint>, e: &NameserverEndpoint) -> (b: bool)
    ensures
        b == list@.contains(*e),
{
    let mut i: usize = 0;
    while i < list.len()
        invariant
            i <= list.len(),
            forall|j: int| 0 <= j < i ==> list@[j] != *e,
        decreases list.len() - i,
    {
        if list[i] == *e {
            return true;
        }
        i += 1;
    }
    false
}

/// The first occurrences of the items of `s`, in the order in which they
/// first appear.
pub open spec fn dedup(s: Seq<NameserverEndpoint>) -> Seq<NameserverEndpoint>
    decreases s.len(),
{
    if s.len() == 0 {
        Seq::empty()
    } else {
        let front = dedup(s.drop_last());
        if front.contains(s.last()) {
            front
        } else {
            front.push(s.last())
        }
    }
}

/// Adds `e` at the end of `list` unless `list` already holds it.
pub fn push_unique(list: &mut Vec<NameserverEndpoint>, e: NameserverEndpoint)
    ensures
        final(list)@ == if old(list)@.contains(e) {
            old(list)@
        } else {
            old(list)@.push(e)
        },
{
    if !contains_endpoint(list, &e) {
        list.push(e);
    }
}

} // verus!
