use mushroom::address::IpAddress;
use mushroom::discovery::{discover, BackendReply};
use mushroom::endpoint::{NameserverEndpoint, Transport};
use mushroom::registry::{
    public_fallback, select_ipv4, HostsPolicy, Mushroom, ResolverHandle, ResolverOptions,
    ServerOrdering,
};
use mushroom::routing::{DomainRoutingPolicy, Strategy};

fn udp(address: IpAddress) -> NameserverEndpoint {
    NameserverEndpoint { address, port: 53, transport: Transport::Udp }
}

fn a() -> NameserverEndpoint {
    udp(IpAddress::V4(0x0a00_0001))
}

fn b() -> NameserverEndpoint {
    udp(IpAddress::V4(0x0a00_0002))
}

fn six() -> NameserverEndpoint {
    NameserverEndpoint {
        address: IpAddress::V6(0x2606_4700_4700_0000_0000_0000_0000_1111),
        port: 853,
        transport: Transport::Tls,
    }
}

fn four() -> NameserverEndpoint {
    NameserverEndpoint { address: IpAddress::V4(0x0101_0101), port: 443, transport: Transport::Https }
}

fn google() -> Vec<NameserverEndpoint> {
    vec![
        NameserverEndpoint { address: IpAddress::V4(0x0808_0808), port: 53, transport: Transport::Udp },
        NameserverEndpoint { address: IpAddress::V4(0x0808_0808), port: 53, transport: Transport::Tcp },
        NameserverEndpoint { address: IpAddress::V4(0x0808_0404), port: 53, transport: Transport::Udp },
        NameserverEndpoint { address: IpAddress::V4(0x0808_0404), port: 53, transport: Transport::Tcp },
    ]
}

fn registry(defaults: Vec<NameserverEndpoint>) -> Mushroom {
    Mushroom::new(&defaults, ResolverOptions::standard(), DomainRoutingPolicy::standard())
}

#[test]
fn build_adhoc_removes_repetitions_and_keeps_order() {
    let registry = registry(vec![four()]);
    let handle = registry.build_adhoc(&vec![a(), b(), a()]);
    assert_eq!(handle.endpoints(), &vec![a(), b()]);
    let handle = registry.build_adhoc(&vec![b(), b(), a(), b(), a()]);
    assert_eq!(handle.endpoints(), &vec![b(), a()]);
}

#[test]
fn build_adhoc_tells_endpoints_apart_by_port_and_transport() {
    let registry = registry(vec![four()]);
    let tcp = NameserverEndpoint { transport: Transport::Tcp, ..a() };
    let other_port = NameserverEndpoint { port: 5353, ..a() };
    let handle = registry.build_adhoc(&vec![a(), tcp, other_port, a()]);
    assert_eq!(handle.endpoints(), &vec![a(), tcp, other_port]);
}

#[test]
fn build_adhoc_falls_back_to_the_public_set() {
    let registry = registry(vec![four()]);
    let handle = registry.build_adhoc(&Vec::new());
    assert_eq!(handle.endpoints(), &google());
}

#[test]
fn special_suffix_with_empty_discovery_falls_back() {
    let registry = registry(vec![four(), six()]);
    assert_eq!(
        registry.policy.select("foo.nordvpn.com.", true),
        Strategy::UseAdHocFromDiscovery
    );
    let found = discover(&BackendReply::Unreachable, false);
    let handle = registry.build_adhoc(&found.endpoints);
    assert_eq!(handle.endpoints(), &google());
    assert!(!handle.endpoints().is_empty());
}

#[test]
fn ad_hoc_resolvers_shuffle_and_do_not_retry_over_tcp() {
    let registry = registry(vec![four()]);
    let options = registry.build_adhoc(&vec![a()]).options();
    assert!(options.shuffle_dns_servers);
    assert!(!options.try_tcp_on_error);
    assert_eq!(options, ResolverOptions::ad_hoc());
    assert_eq!(options.timeout_secs, 5);
    assert_eq!(options.attempts, 2);
    assert_eq!(options.cache_size, 32);
    assert_eq!(options.num_concurrent_reqs, 2);
    assert_eq!(options.use_hosts_file, HostsPolicy::Auto);
}

#[test]
fn standard_options() {
    let options = ResolverOptions::standard();
    assert_eq!(options.timeout_secs, 5);
    assert_eq!(options.attempts, 1);
    assert_eq!(options.cache_size, 256);
    assert_eq!(options.num_concurrent_reqs, 2);
    assert_eq!(options.server_ordering, ServerOrdering::QueryStatistics);
    assert_eq!(options.use_hosts_file, HostsPolicy::Always);
    assert!(!options.try_tcp_on_error);
    assert!(!options.shuffle_dns_servers);
}

#[test]
fn select_default_follows_protocol_availability() {
    let registry = registry(vec![four(), six(), a()]);
    assert_eq!(registry.select_default(true).endpoints(), &vec![four(), six(), a()]);
    assert_eq!(registry.select_default(false).endpoints(), &vec![four(), a()]);
    assert_eq!(registry.resolver.endpoints(), &vec![four(), six(), a()]);
    assert_eq!(registry.ipv4_resolver.endpoints(), &vec![four(), a()]);
    assert_eq!(registry.select_default(true).options(), ResolverOptions::standard());
    assert_eq!(registry.select_default(false).options(), ResolverOptions::standard());
}

#[test]
fn default_handles_are_never_empty() {
    let none = registry(Vec::new());
    assert_eq!(none.resolver.endpoints(), &google());
    assert_eq!(none.ipv4_resolver.endpoints(), &google());
    let only_six = registry(vec![six()]);
    assert_eq!(only_six.resolver.endpoints(), &vec![six()]);
    assert_eq!(only_six.ipv4_resolver.endpoints(), &google());
}

#[test]
fn handle_over_nothing_is_the_public_set() {
    let handle = ResolverHandle::new(Vec::new(), ResolverOptions::standard());
    assert_eq!(handle.endpoints(), &google());
    let handle = ResolverHandle::new(vec![six()], ResolverOptions::ad_hoc());
    assert_eq!(handle.endpoints(), &vec![six()]);
    assert_eq!(handle.options(), ResolverOptions::ad_hoc());
}

#[test]
fn public_set_is_google_over_udp_and_tcp() {
    assert_eq!(public_fallback(), google());
    assert!(public_fallback().iter().all(|e| e.is_ipv4()));
}

#[test]
fn ipv4_selection_keeps_order() {
    assert_eq!(select_ipv4(&vec![six(), four(), six(), a(), four()]), vec![four(), a(), four()]);
    assert_eq!(select_ipv4(&vec![six()]), Vec::new());
    assert_eq!(select_ipv4(&Vec::new()), Vec::new());
}
