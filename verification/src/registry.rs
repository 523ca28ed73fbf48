//! The resolver registry: the two long-lived default resolvers, and the
//! factory of resolvers built for one query.
//!
//! A resolver handle is a description: the nameservers to ask, in order, and
//! the options of the resolver. It is made once and never changed, and it
//! never has an empty nameserver list: where a list would be empty, the
//! well-known public set stands in.

use crate::address::IpAddress;
use crate::dedup::deduplicate;
use crate::endpoint::{dedup, NameserverEndpoint, Transport, DNS_PORT};
use crate::routing::DomainRoutingPolicy;
use vstd::prelude::*;

verus! {

/// The order in which the servers of a resolver are asked.
#[derive(Clone, Copy, Debug, PartialEq, Eq, Hash, Structural)]
pub enum ServerOrdering {
    /// The server with the best observed latency first.
    QueryStatistics,
    /// The order of the list.
    UserProvidedOrder,
    /// Each server in turn.
    RoundRobin,
}

/// Whether the hosts file is consulted before a query is sent.
#[derive(Clone, Copy, Debug, PartialEq, Eq, Hash, Structural)]
pub enum HostsPolicy {
    Always,
    Never,
    Auto,
}

/// The options of a resolver.
#[derive(Clone, Copy, Debug, PartialEq, Eq, Hash, Structural)]
pub struct ResolverOptions {
    /// Seconds after which a request is given up.
    pub timeout_secs: u64,
    /// How often a request is made before the lookup fails.
    pub attempts: usize,
    /// Number of records that the response cache holds.
    pub cache_size: usize,
    /// Number of servers asked at the same time for one query.
    pub num_concurrent_reqs: usize,
    pub server_ordering: ServerOrdering,
    pub use_hosts_file: HostsPolicy,
    /// Whether a query that failed over UDP is tried again over TCP.
    pub try_tcp_on_error: bool,
    /// Whether the servers are asked in shuffled order.
    pub shuffle_dns_servers: bool,
}

/// Options of the long-lived default resolvers: five seconds, one attempt,
/// the fastest server first, hosts file always.
pub open spec fn standard_options() -> ResolverOptions {
    ResolverOptions {
        timeout_secs: 5,
        attempts: 1,
        cache_size: 256,
        num_concurrent_reqs: 2,
        server_ordering: ServerOrdering::QueryStatistics,
        use_hosts_file: HostsPolicy::Always,
        try_tcp_on_error: false,
        shuffle_dns_servers: false,
    }
}

/// Options of a resolver built for one query: shuffled servers, and no
/// second try over TCP.
pub open spec fn ad_hoc_options() -> ResolverOptions {
    ResolverOptions {
        timeout_secs: 5,
        attempts: 2,
        cache_size: 32,
        num_concurrent_reqs: 2,
        server_ordering: ServerOrdering::QueryStatistics,
        use_hosts_file: HostsPolicy::Auto,
        try_tcp_on_error: false,
        shuffle_dns_servers: true,
    }
}

impl ResolverOptions {
    /// Options of the long-lived default resolvers.
    pub fn standard() -> (options: ResolverOptions)
        ensures
            options == standard_options(),
    {
        ResolverOptions {
            timeout_secs: 5,
            attempts: 1,
            cache_size: 256,
            num_concurrent_reqs: 2,
            server_ordering: ServerOrdering::QueryStatistics,
            use_hosts_file: HostsPolicy::Always,
            try_tcp_on_error: false,
            shuffle_dns_servers: false,
        }
    }

    /// Options of a resolver built for one query.
    pub fn ad_hoc() -> (options: ResolverOptions)
        ensures
            options == ad_hoc_options(),
    {
        ResolverOptions {
            timeout_secs: 5,
            attempts: 2,
            cache_size: 32,
            num_concurrent_reqs: 2,
            server_ordering: ServerOrdering::QueryStatistics,
            use_hosts_file: HostsPolicy::Auto,
            try_tcp_on_error: false,
            shuffle_dns_servers: true,
        }
    }
}

/// A plain-DNS endpoint at an IPv4 address.
pub open spec fn public_server(address: u32, transport: Transport) -> NameserverEndpoint {
    NameserverEndpoint { address: IpAddress::V4(address), port: DNS_PORT, transport }
}

/// The well-known public set that stands in for an empty nameserver list:
/// 8.8.8.8 and 8.8.4.4, each over UDP and over TCP.
pub open spec fn well_known_public_set() -> Seq<NameserverEndpoint> {
    seq![
        public_server(0x0808_0808, Transport::Udp),
        public_server(0x0808_0808, Transport::Tcp),
        public_server(0x0808_0404, Transport::Udp),
        public_server(0x0808_0404, Transport::Tcp),
    ]
}

/// The well-known public set.
pub fn public_fallback() -> (set: Vec<NameserverEndpoint>)
    ensures
        set@ == well_known_public_set(),
{
    let mut set: Vec<NameserverEndpoint> = Vec::new();
    set.push(NameserverEndpoint::new(IpAddress::V4(0x0808_0808), DNS_PORT, Transport::Udp));
    set.push(NameserverEndpoint::new(IpAddress::V4(0x0808_0808), DNS_PORT, Transport::Tcp));
    set.push(NameserverEndpoint::new(IpAddress::V4(0x0808_0404), DNS_PORT, Transport::Udp));
    set.push(NameserverEndpoint::new(IpAddress::V4(0x0808_0404), DNS_PORT, Transport::Tcp));
    proof {
        assert(set@ =~= well_known_public_set());
    }
    set
}

/// A list, or the well-known public set where the list is empty.
pub open spec fn or_fallback(servers: Seq<NameserverEndpoint>) -> Seq<NameserverEndpoint> {
    if servers.len() == 0 {
        well_known_public_set()
    } else {
        servers
    }
}

/// The endpoints that are reached over IPv4, in order.
pub open spec fn ipv4_only(servers: Seq<NameserverEndpoint>) -> Seq<NameserverEndpoint>
    decreases servers.len(),
{
    if servers.len() == 0 {
        Seq::empty()
    } else {
        let front = ipv4_only(servers.drop_last());
        if servers.last().address.is_v4() {
            front.push(servers.last())
        } else {
            front
        }
    }
}

/// The nameservers of a resolver built for one query from the endpoints
/// that were discovered: the endpoints without repetitions, first seen first,
/// or the well-known public set if there is none.
pub open spec fn ad_hoc_servers(discovered: Seq<NameserverEndpoint>) -> Seq<NameserverEndpoint> {
    or_fallback(dedup(discovered))
}

/// The endpoints of `servers` that are reached over IPv4.
pub fn select_ipv4(servers: &Vec<NameserverEndpoint>) -> (out: Vec<NameserverEndpoint>)
    ensures
        out@ == ipv4_only(servers@),
{
    let mut out: Vec<NameserverEndpoint> = Vec::new();
    let mut i: usize = 0;
    while i < servers.len()
        invariant
            i <= servers.len(),
            out@ == ipv4_only(servers@.take(i as int)),
        decreases servers.len() - i,
    {
        proof {
            assert(servers@.take(i + 1).drop_last() =~= servers@.take(i as int));
        }
        if servers[i].is_ipv4() {
            out.push(servers[i]);
        }
        i += 1;
    }
    proof {
        assert(servers@.take(servers@.len() as int) =~= servers@);
    }
    out
}

/// The description of a resolver: its nameservers and its options.
#[derive(Debug)]
pub struct ResolverHandle {
    endpoints: Vec<NameserverEndpoint>,
    options: ResolverOptions,
}

impl ResolverHandle {
    #[verifier::type_invariant]
    spec fn never_empty(&self) -> bool {
        self.endpoints@.len() > 0
    }

    /// The nameservers, in the order in which they were given.
    pub closed spec fn servers(&self) -> Seq<NameserverEndpoint> {
        self.endpoints@
    }

    /// The options.
    pub closed spec fn settings(&self) -> ResolverOptions {
        self.options
    }

    /// A handle over the given nameservers, or over the well-known public
    /// set if none is given.
    pub fn new(endpoints: Vec<NameserverEndpoint>, options: ResolverOptions) -> (handle:
        ResolverHandle)
        ensures
            handle.servers() == or_fallback(endpoints@),
            handle.servers().len() > 0,
            handle.settings() == options,
    {
        if endpoints.len() == 0 {
            ResolverHandle { endpoints: public_fallback(), options }
        } else {
            ResolverHandle { endpoints, options }
        }
    }

    /// The nameservers of the resolver; there is at least one.
    pub fn endpoints(&self) -> (list: &Vec<NameserverEndpoint>)
        ensures
            list@ == self.servers(),
            list@.len() > 0,
    {
        proof {
            use_type_invariant(self);
        }
        &self.endpoints
    }

    /// The options of the resolver.
    pub fn options(&self) -> (options: ResolverOptions)
        ensures
            options == self.settings(),
    {
        self.options
    }
}

/// The registry of resolvers, made once at startup and handed by reference
/// to every query.
#[derive(Debug)]
pub struct Mushroom {
    /// The default resolver over all default nameservers.
    pub resolver: ResolverHandle,
    /// The default resolver over the IPv4 default nameservers.
    pub ipv4_resolver: ResolverHandle,
    /// The routing table.
    pub policy: DomainRoutingPolicy,
}

impl Mushroom {
    /// The registry over the given default nameservers and routing table.
    pub fn new(
        defaults: &Vec<NameserverEndpoint>,
        options: ResolverOptions,
        policy: DomainRoutingPolicy,
    ) -> (registry: Mushroom)
        ensures
            registry.resolver.servers() == or_fallback(defaults@),
            registry.ipv4_resolver.servers() == or_fallback(ipv4_only(defaults@)),
            registry.resolver.settings() == options,
            registry.ipv4_resolver.settings() == options,
            registry.policy == policy,
    {
        let mut all: Vec<NameserverEndpoint> = Vec::new();
        let mut i: usize = 0;
        while i < defaults.len()
            invariant
                i <= defaults.len(),
                all@ == defaults@.take(i as int),
            decreases defaults.len() - i,
        {
            all.push(defaults[i]);
            proof {
                assert(defaults@.take(i + 1) =~= defaults@.take(i as int).push(defaults@[i as int]));
            }
            i += 1;
        }
        proof {
            assert(defaults@.take(defaults@.len() as int) =~= defaults@);
        }
        Mushroom {
            resolver: ResolverHandle::new(all, options),
            ipv4_resolver: ResolverHandle::new(select_ipv4(defaults), options),
            policy,
        }
    }

    /// The default resolver for the current protocol availability: the one
    /// over all nameservers if IPv6 is usable, else the IPv4 one.
    pub fn select_default(&self, ipv6_available: bool) -> (handle: &ResolverHandle)
        ensures
            *handle == if ipv6_available {
                self.resolver
            } else {
                self.ipv4_resolver
            },
    {
        if ipv6_available {
            &self.resolver
        } else {
            &self.ipv4_resolver
        }
    }

    /// A resolver for one query over the endpoints that were discovered,
    /// without repetitions and in first-seen order. With nothing discovered
    /// the well-known public set is used: this never fails.
    pub fn build_adhoc(&self, endpoints: &Vec<NameserverEndpoint>) -> (handle: ResolverHandle)
        ensures
            handle.servers() == ad_hoc_servers(endpoints@),
            handle.servers().len() > 0,
            handle.settings() == ad_hoc_options(),
    {
        ResolverHandle::new(deduplicate(endpoints), ResolverOptions::ad_hoc())
    }
}

/// A resolver built for one query always has a nameserver to ask; with
/// nothing discovered it has the well-known public set.
pub proof fn lemma_ad_hoc_never_empty(discovered: Seq<NameserverEndpoint>)
    ensures
        ad_hoc_servers(discovered).len() > 0,
        discovered.len() == 0 ==> ad_hoc_servers(discovered) == well_known_public_set(),
{
}

/// An endpoint that was discovered twice is asked once, at the place where
/// it was first seen.
pub proof fn lemma_repeated_endpoint_is_asked_once(a: NameserverEndpoint, b: NameserverEndpoint)
    requires
        a != b,
    ensures
        ad_hoc_servers(seq![a, b, a]) == seq![a, b],
{
    let one = seq![a];
    let two = seq![a, b];
    let three = seq![a, b, a];
    assert(one.drop_last() =~= Seq::<NameserverEndpoint>::empty());
    assert(two.drop_last() =~= one);
    assert(three.drop_last() =~= two);
    assert(dedup(one.drop_last()) =~= Seq::<NameserverEndpoint>::empty());
    assert(dedup(one) =~= one);
    assert(dedup(two) =~= two);
    assert(two[0] == a);
    assert(dedup(three) =~= two);
}

/// Every endpoint of the IPv4 selection is reached over IPv4, and every
/// IPv4 endpoint of the list is selected.
pub proof fn lemma_ipv4_only(servers: Seq<NameserverEndpoint>, e: NameserverEndpoint)
    ensures
        ipv4_only(servers).contains(e) <==> servers.contains(e) && e.address.is_v4(),
    decreases servers.len(),
{
    if servers.len() > 0 {
        let front_servers = servers.drop_last();
        let front = ipv4_only(front_servers);
        let all = ipv4_only(servers);
        lemma_ipv4_only(front_servers, e);
        if all.contains(e) {
            let k = choose|k: int| 0 <= k < all.len() && all[k] == e;
            if k < front.len() {
                assert(front[k] == e);
                let m = choose|m: int| 0 <= m < front_servers.len() && front_servers[m] == e;
                assert(servers[m] == e);
            } else {
                assert(servers[servers.len() - 1] == e);
            }
        }
        if servers.contains(e) && e.address.is_v4() {
            let m = choose|m: int| 0 <= m < servers.len() && servers[m] == e;
            if m < front_servers.len() {
                assert(front_servers[m] == e);
                let k = choose|k: int| 0 <= k < front.len() && front[k] == e;
                assert(all[k] == e);
            } else {
                assert(all[all.len() - 1] == e);
            }
        }
    }
}

/// The well-known public set is reached over IPv4 only.
pub proof fn lemma_public_set_is_ipv4()
    ensures
        well_known_public_set().len() == 4,
        forall|i: int|
            0 <= i < well_known_public_set().len() ==> (
            #[trigger] well_known_public_set()[i]).address.is_v4(),
{
}

} // verus!
