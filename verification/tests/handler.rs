use mushroom::address::IpAddress;
use mushroom::discovery::{
    BackendReply, DeviceKind, DeviceLeases, LeaseOption, LeaseOptionSet, LeaseValue,
};
use mushroom::endpoint::{NameserverEndpoint, Transport};
use mushroom::handler::{Action, Event, QueryState, ResolverChoice};
use mushroom::lookup::{QueryType, ResponseCode, UpstreamReply};
use mushroom::registry::{public_fallback, Mushroom, ResolverOptions};
use mushroom::routing::DomainRoutingPolicy;

fn registry() -> Mushroom {
    let defaults = vec![
        NameserverEndpoint { address: IpAddress::V4(0x0101_0101), port: 853, transport: Transport::Tls },
        NameserverEndpoint { address: IpAddress::V6(1), port: 853, transport: Transport::Tls },
    ];
    Mushroom::new(&defaults, ResolverOptions::standard(), DomainRoutingPolicy::standard())
}

fn query(name: &str, ipv6_available: bool) -> Event {
    Event::Query { name: name.to_owned(), query_type: QueryType::A, ipv6_available }
}

fn leases(servers: &str) -> BackendReply {
    BackendReply::Devices(vec![DeviceLeases {
        kind: DeviceKind::Wired,
        dhcp4: Some(LeaseOptionSet {
            options: vec![LeaseOption {
                key: "domain_name_servers".to_owned(),
                value: LeaseValue::Text(servers.to_owned()),
            }],
        }),
        dhcp6: Some(LeaseOptionSet {
            options: vec![LeaseOption {
                key: "dhcp6_name_servers".to_owned(),
                value: LeaseValue::Text("2001:db8::53".to_owned()),
            }],
        }),
    }])
}

fn udp(a: u8, b: u8, c: u8, d: u8) -> NameserverEndpoint {
    NameserverEndpoint {
        address: IpAddress::V4(u32::from_be_bytes([a, b, c, d])),
        port: 53,
        transport: Transport::Udp,
    }
}

#[test]
fn ordinary_name_goes_straight_to_a_default_resolver() {
    let registry = registry();
    let (state, action) = registry.handle_request(QueryState::Received, query("example.com.", false));
    assert_eq!(state, QueryState::Executing);
    match action {
        Action::Lookup { resolver: ResolverChoice::IPv4OnlyDefault, warnings } => {
            assert!(warnings.is_empty())
        }
        other => panic!("unexpected action {other:?}"),
    }
    let (state, action) = registry.handle_request(QueryState::Received, query("example.com.", true));
    assert_eq!(state, QueryState::Executing);
    assert!(matches!(action, Action::Lookup { resolver: ResolverChoice::DualStackDefault, .. }));
}

#[test]
fn special_name_asks_for_discovery_first() {
    let registry = registry();
    for ipv6 in [false, true] {
        let (state, action) =
            registry.handle_request(QueryState::Received, query("Foo.NordVPN.com", ipv6));
        assert_eq!(state, QueryState::RoutingDecided);
        assert!(matches!(action, Action::Discover { want_ipv6: false }));
    }
}

#[test]
fn discovery_builds_the_ad_hoc_resolver() {
    let registry = registry();
    let (state, action) = registry.handle_request(
        QueryState::RoutingDecided,
        Event::Discovered(leases("10.0.0.1 garbage 10.0.0.2 10.0.0.1")),
    );
    assert_eq!(state, QueryState::Executing);
    match action {
        Action::Lookup { resolver: ResolverChoice::AdHoc(handle), warnings } => {
            assert_eq!(handle.endpoints(), &vec![udp(10, 0, 0, 1), udp(10, 0, 0, 2)]);
            assert_eq!(handle.options(), ResolverOptions::ad_hoc());
            assert_eq!(warnings, vec!["garbage"]);
        }
        other => panic!("unexpected action {other:?}"),
    }
}

#[test]
fn failed_discovery_falls_back_to_the_public_set() {
    let registry = registry();
    for reply in [
        BackendReply::Unreachable,
        BackendReply::TimedOut,
        BackendReply::EnumerationFailed,
        BackendReply::Devices(Vec::new()),
        leases("nothing useful"),
    ] {
        let (state, action) =
            registry.handle_request(QueryState::RoutingDecided, Event::Discovered(reply));
        assert_eq!(state, QueryState::Executing);
        match action {
            Action::Lookup { resolver: ResolverChoice::AdHoc(handle), .. } => {
                assert_eq!(handle.endpoints(), &public_fallback());
            }
            other => panic!("unexpected action {other:?}"),
        }
    }
}

#[test]
fn every_reply_is_answered() {
    let registry = registry();
    let cases = [
        (UpstreamReply::Records(vec![1, 2, 6]), QueryState::Success, ResponseCode::NoError),
        (UpstreamReply::Records(vec![]), QueryState::NoRecordsFound, ResponseCode::NoError),
        (UpstreamReply::NoRecords, QueryState::NoRecordsFound, ResponseCode::NoError),
        (UpstreamReply::TimedOut, QueryState::Failure, ResponseCode::ServFail),
        (UpstreamReply::Refused, QueryState::Failure, ResponseCode::Refused),
        (UpstreamReply::ProtocolError, QueryState::Failure, ResponseCode::ServFail),
    ];
    for (reply, expected_state, expected_code) in cases {
        let (state, action) = registry
            .handle_request(QueryState::Executing, Event::Replied { reply, lookup_millis: 12 });
        assert_eq!(state, expected_state);
        match action {
            Action::Respond(plan) => {
                assert_eq!(plan.code, expected_code);
                assert_eq!(plan.lookup_millis, 12);
                if expected_state == QueryState::Success {
                    assert_eq!(plan.answers, vec![0]);
                    assert_eq!(plan.name_servers, vec![1]);
                    assert_eq!(plan.soa, vec![2]);
                } else {
                    assert!(plan.answers.is_empty());
                    assert!(plan.name_servers.is_empty());
                    assert!(plan.soa.is_empty());
                }
                assert!(plan.additionals.is_empty());
            }
            other => panic!("unexpected action {other:?}"),
        }
        let (state, action) = registry.handle_request(state, Event::Sent);
        assert_eq!(state, QueryState::Responded);
        assert!(matches!(action, Action::Done));
    }
}

#[test]
fn events_out_of_turn_change_nothing() {
    let registry = registry();
    let out_of_turn = [
        (QueryState::Received, Event::Sent),
        (QueryState::Received, Event::Discovered(BackendReply::Unreachable)),
        (QueryState::Received, Event::Replied { reply: UpstreamReply::NoRecords, lookup_millis: 1 }),
        (QueryState::RoutingDecided, query("example.com.", true)),
        (QueryState::RoutingDecided, Event::Sent),
        (QueryState::Executing, query("example.com.", true)),
        (QueryState::Executing, Event::Discovered(BackendReply::Unreachable)),
        (QueryState::Executing, Event::Sent),
        (QueryState::Success, Event::Replied { reply: UpstreamReply::NoRecords, lookup_millis: 1 }),
        (QueryState::NoRecordsFound, query("example.com.", true)),
        (QueryState::Failure, Event::Discovered(BackendReply::Unreachable)),
        (QueryState::Responded, Event::Sent),
        (QueryState::Responded, query("example.com.", true)),
    ];
    for (state, event) in out_of_turn {
        let (next, action) = registry.handle_request(state, event);
        assert_eq!(next, state);
        assert!(matches!(action, Action::Ignore));
    }
}

#[test]
fn whole_life_of_a_special_query() {
    let registry = registry();
    let (state, action) =
        registry.handle_request(QueryState::Received, query("foo.nordvpn.com.", true));
    assert!(matches!(action, Action::Discover { want_ipv6: false }));
    let (state, action) =
        registry.handle_request(state, Event::Discovered(leases("192.168.1.1")));
    match action {
        Action::Lookup { resolver: ResolverChoice::AdHoc(handle), warnings } => {
            assert_eq!(handle.endpoints(), &vec![udp(192, 168, 1, 1)]);
            assert!(warnings.is_empty());
        }
        other => panic!("unexpected action {other:?}"),
    }
    let (state, action) = registry.handle_request(
        state,
        Event::Replied { reply: UpstreamReply::Records(vec![1]), lookup_millis: 4 },
    );
    assert_eq!(state, QueryState::Success);
    assert!(matches!(action, Action::Respond(_)));
    let (state, _) = registry.handle_request(state, Event::Sent);
    assert_eq!(state, QueryState::Responded);
}

#[test]
fn passed_deadline_is_answered_as_a_timeout() {
    let registry = registry();
    for state in [QueryState::RoutingDecided, QueryState::Executing] {
        let (next, action) =
            registry.handle_request(state, Event::DeadlinePassed { elapsed_millis: 10_000 });
        assert_eq!(next, QueryState::Failure);
        match action {
            Action::Respond(plan) => {
                assert_eq!(plan.code, ResponseCode::ServFail);
                assert_eq!(plan.lookup_millis, 10_000);
                assert!(plan.answers.is_empty());
                assert!(plan.name_servers.is_empty());
                assert!(plan.soa.is_empty());
                assert!(plan.additionals.is_empty());
            }
            other => panic!("unexpected action {other:?}"),
        }
        let (next, action) = registry.handle_request(next, Event::Sent);
        assert_eq!(next, QueryState::Responded);
        assert!(matches!(action, Action::Done));
    }
}

#[test]
fn deadline_outside_of_outside_work_changes_nothing() {
    let registry = registry();
    for state in [
        QueryState::Received,
        QueryState::Success,
        QueryState::NoRecordsFound,
        QueryState::Failure,
        QueryState::Responded,
    ] {
        let (next, action) =
            registry.handle_request(state, Event::DeadlinePassed { elapsed_millis: 1 });
        assert_eq!(next, state);
        assert!(matches!(action, Action::Ignore));
    }
}
