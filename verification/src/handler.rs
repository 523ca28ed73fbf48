//! The life of one query, as a state machine.
//!
//! A query is received, routed, executed and answered. The work that only
//! the outside can do (asking the network-management service, asking the
//! upstream resolver, sending the response) is named in an action; what came
//! of it is handed back as an event. Every decision in between is taken here.
//!
//! `Received -> RoutingDecided -> Executing -> {Success | NoRecordsFound |
//! Failure} -> Responded`. A query that is routed to a default resolver needs
//! no discovery and goes from `Received` to `Executing` in one step. A query
//! whose deadline passes while discovery or the lookup is under way goes to
//! `Failure` at once, and is answered as a lookup that timed out.

use crate::dedup::lemma_dedup_idempotent;
use crate::discovery::{announced, discover, reply_devices, texts, warned, BackendReply};
use crate::lookup::{
    classify, outcome_of, plan_response, positions_in, records_of, response_code_of,
    FailureReason, LookupOutcome, OutcomeView, QueryType, ResponseCode, ResponsePlan, Section,
    UpstreamReply,
};
use crate::registry::{ad_hoc_options, ad_hoc_servers, Mushroom, ResolverHandle};
use crate::routing::{strategy_for, Strategy};
use vstd::prelude::*;

verus! {

/// Where a query stands.
#[derive(Clone, Copy, Debug, PartialEq, Eq, Hash, Structural)]
pub enum QueryState {
    /// Nothing decided yet.
    Received,
    /// Routed to an ad-hoc resolver; the host's leases are being read.
    RoutingDecided,
    /// The upstream lookup is under way.
    Executing,
    /// The lookup returned records; the response is being sent.
    Success,
    /// The lookup returned a negative answer; the response is being sent.
    NoRecordsFound,
    /// The lookup failed; the response is being sent.
    Failure,
    /// The response was sent.
    Responded,
}

/// What happened outside.
#[derive(Debug)]
pub enum Event {
    /// A parsed query arrived, and this is the current protocol availability.
    Query { name: String, query_type: QueryType, ipv6_available: bool },
    /// The network-management service answered, or did not.
    Discovered(BackendReply),
    /// The upstream lookup ended after `lookup_millis` milliseconds.
    Replied { reply: UpstreamReply, lookup_millis: u128 },
    /// The deadline of the query passed, `elapsed_millis` milliseconds after
    /// the outside work began.
    DeadlinePassed { elapsed_millis: u128 },
    /// The response was handed to the transport.
    Sent,
}

/// The resolver to ask.
#[derive(Debug)]
pub enum ResolverChoice {
    DualStackDefault,
    IPv4OnlyDefault,
    AdHoc(ResolverHandle),
}

/// What is to be done outside next.
#[derive(Debug)]
pub enum Action {
    /// Ask the network-management service for the leases of its devices.
    Discover { want_ipv6: bool },
    /// Ask the resolver; `warnings` are the lease tokens skipped on the way.
    Lookup { resolver: ResolverChoice, warnings: Vec<String> },
    /// Send this response.
    Respond(ResponsePlan),
    /// The query is done.
    Done,
    /// The event does not belong to this state; nothing changes.
    Ignore,
}

/// The state in which an outcome is answered.
pub open spec fn state_of(outcome: OutcomeView) -> QueryState {
    match outcome {
        OutcomeView::Success(_) => QueryState::Success,
        OutcomeView::NoRecordsFound => QueryState::NoRecordsFound,
        OutcomeView::Failure(_) => QueryState::Failure,
    }
}

/// The plan is the one that answers the outcome.
pub open spec fn plan_answers(plan: ResponsePlan, outcome: OutcomeView, lookup_millis: u128) -> bool {
    &&& plan.code == response_code_of(outcome)
    &&& plan.answers@ == positions_in(records_of(outcome), Section::Answer)
    &&& plan.name_servers@ == positions_in(records_of(outcome), Section::NameServer)
    &&& plan.soa@ == positions_in(records_of(outcome), Section::Soa)
    &&& plan.additionals@.len() == 0
    &&& plan.lookup_millis == lookup_millis
}

/// The outcome of a query whose deadline passed.
pub open spec fn timed_out() -> OutcomeView {
    OutcomeView::Failure(FailureReason::Timeout)
}

/// Ad-hoc resolvers are built from the IPv4 leases alone.
pub open spec fn ad_hoc_wants_ipv6() -> bool {
    false
}

/// Whether the response of a query is under way.
pub open spec fn is_outcome(state: QueryState) -> bool {
    state == QueryState::Success || state == QueryState::NoRecordsFound || state
        == QueryState::Failure
}

/// The transition relation: `next` and `action` are what the registry
/// decides in `state` on `event`.
pub open spec fn decides(
    registry: Mushroom,
    state: QueryState,
    event: Event,
    next: QueryState,
    action: Action,
) -> bool {
    match (state, event) {
        (QueryState::Received, Event::Query { name, query_type, ipv6_available }) => {
            match strategy_for(registry.policy.rules@, name@, ipv6_available) {
                Strategy::UseAdHocFromDiscovery => {
                    &&& next == QueryState::RoutingDecided
                    &&& action == (Action::Discover { want_ipv6: ad_hoc_wants_ipv6() })
                },
                Strategy::UseDualStackDefault => {
                    &&& next == QueryState::Executing
                    &&& action matches Action::Lookup { resolver, warnings }
                    &&& resolver is DualStackDefault
                    &&& warnings@.len() == 0
                },
                Strategy::UseIPv4OnlyDefault => {
                    &&& next == QueryState::Executing
                    &&& action matches Action::Lookup { resolver, warnings }
                    &&& resolver is IPv4OnlyDefault
                    &&& warnings@.len() == 0
                },
            }
        },
        (QueryState::RoutingDecided, Event::Discovered(reply)) => {
            &&& next == QueryState::Executing
            &&& action matches Action::Lookup { resolver, warnings }
            &&& resolver matches ResolverChoice::AdHoc(handle)
            &&& handle.servers() == ad_hoc_servers(
                announced(reply_devices(reply), ad_hoc_wants_ipv6()),
            )
            &&& handle.settings() == ad_hoc_options()
            &&& texts(warnings@) == warned(reply_devices(reply), ad_hoc_wants_ipv6())
        },
        (QueryState::Executing, Event::Replied { reply, lookup_millis }) => {
            &&& next == state_of(outcome_of(reply@))
            &&& action matches Action::Respond(plan)
            &&& plan_answers(plan, outcome_of(reply@), lookup_millis)
        },
        (QueryState::RoutingDecided, Event::DeadlinePassed { elapsed_millis }) => {
            &&& next == QueryState::Failure
            &&& action matches Action::Respond(plan)
            &&& plan_answers(plan, timed_out(), elapsed_millis)
        },
        (QueryState::Executing, Event::DeadlinePassed { elapsed_millis }) => {
            &&& next == QueryState::Failure
            &&& action matches Action::Respond(plan)
            &&& plan_answers(plan, timed_out(), elapsed_millis)
        },
        (QueryState::Success, Event::Sent) => next == QueryState::Responded && action is Done,
        (QueryState::NoRecordsFound, Event::Sent) => next == QueryState::Responded && action
            is Done,
        (QueryState::Failure, Event::Sent) => next == QueryState::Responded && action is Done,
        _ => next == state && action is Ignore,
    }
}

impl Mushroom {
    /// The step of a query whose deadline passed: it is answered as a
    /// lookup that timed out.
    fn give_up(elapsed_millis: u128) -> (r: (QueryState, Action))
        ensures
            r.0 == QueryState::Failure,
            r.1 matches Action::Respond(plan) && plan_answers(plan, timed_out(), elapsed_millis),
    {
        let outcome = LookupOutcome::Failure(FailureReason::Timeout);
        (QueryState::Failure, Action::Respond(plan_response(&outcome, elapsed_millis)))
    }

    /// Takes the next decision for a query: from its state and what happened
    /// outside to its next state and what is to be done outside.
    pub fn handle_request(&self, state: QueryState, event: Event) -> (r: (QueryState, Action))
        ensures
            decides(*self, state, event, r.0, r.1),
    {
        match state {
            QueryState::Received => match event {
                Event::Query { name, query_type, ipv6_available } => {
                    match self.policy.select(name.as_str(), ipv6_available) {
                        Strategy::UseAdHocFromDiscovery => (
                            QueryState::RoutingDecided,
                            Action::Discover { want_ipv6: false },
                        ),
                        Strategy::UseDualStackDefault => (
                            QueryState::Executing,
                            Action::Lookup {
                                resolver: ResolverChoice::DualStackDefault,
                                warnings: Vec::new(),
                            },
                        ),
                        Strategy::UseIPv4OnlyDefault => (
                            QueryState::Executing,
                            Action::Lookup {
                                resolver: ResolverChoice::IPv4OnlyDefault,
                                warnings: Vec::new(),
                            },
                        ),
                    }
                },
                _ => (state, Action::Ignore),
            },
            QueryState::RoutingDecided => match event {
                Event::Discovered(reply) => {
                    let found = discover(&reply, false);
                    let handle = self.build_adhoc(&found.endpoints);
                    proof {
                        lemma_dedup_idempotent(announced(reply_devices(reply), false));
                    }
                    (
                        QueryState::Executing,
                        Action::Lookup {
                            resolver: ResolverChoice::AdHoc(handle),
                            warnings: found.warnings,
                        },
                    )
                },
                Event::DeadlinePassed { elapsed_millis } => Self::give_up(elapsed_millis),
                _ => (state, Action::Ignore),
            },
            QueryState::Executing => match event {
                Event::Replied { reply, lookup_millis } => {
                    let outcome = classify(reply);
                    let plan = plan_response(&outcome, lookup_millis);
                    let next = match outcome {
                        LookupOutcome::Success(_) => QueryState::Success,
                        LookupOutcome::NoRecordsFound => QueryState::NoRecordsFound,
                        LookupOutcome::Failure(_) => QueryState::Failure,
                    };
                    (next, Action::Respond(plan))
                },
                Event::DeadlinePassed { elapsed_millis } => Self::give_up(elapsed_millis),
                _ => (state, Action::Ignore),
            },
            QueryState::Success | QueryState::NoRecordsFound | QueryState::Failure => match event {
                Event::Sent => (QueryState::Responded, Action::Done),
                _ => (state, Action::Ignore),
            },
            QueryState::Responded => (state, Action::Ignore),
        }
    }
}

/// Whatever the upstream lookup ends with, a response is planned: no reply
/// leaves a query unanswered.
pub proof fn lemma_every_reply_is_answered(
    registry: Mushroom,
    event: Event,
    next: QueryState,
    action: Action,
)
    requires
        event is Replied,
        decides(registry, QueryState::Executing, event, next, action),
    ensures
        action is Respond,
        is_outcome(next),
{
}

/// A lookup is started only by a routing decision.
pub proof fn lemma_routing_precedes_execution(
    registry: Mushroom,
    state: QueryState,
    event: Event,
    next: QueryState,
    action: Action,
)
    requires
        decides(registry, state, event, next, action),
        action is Lookup,
    ensures
        state == QueryState::Received || state == QueryState::RoutingDecided,
        next == QueryState::Executing,
{
}

/// A name that a rule claims for ad-hoc resolution is never handed to a
/// default resolver: its first step asks for discovery.
pub proof fn lemma_ad_hoc_names_start_with_discovery(
    registry: Mushroom,
    event: Event,
    next: QueryState,
    action: Action,
)
    requires
        event is Query,
        strategy_for(registry.policy.rules@, event->name@, event->ipv6_available)
            == Strategy::UseAdHocFromDiscovery,
        decides(registry, QueryState::Received, event, next, action),
    ensures
        action is Discover,
        next == QueryState::RoutingDecided,
{
}

/// Every query is answered: whatever its name, whatever the
/// network-management service and the upstream resolver come back with, the
/// query ends in `Responded`, and a response was planned on the way. For a
/// name that is routed to a default resolver the discovery event is out of
/// turn and changes nothing.
pub proof fn lemma_every_query_is_answered(
    registry: Mushroom,
    query: Event,
    discovered: Event,
    replied: Event,
    routed: (QueryState, Action),
    started: (QueryState, Action),
    answered: (QueryState, Action),
    ended: (QueryState, Action),
)
    requires
        query is Query,
        discovered is Discovered,
        replied is Replied,
        decides(registry, QueryState::Received, query, routed.0, routed.1),
        decides(registry, routed.0, discovered, started.0, started.1),
        decides(registry, started.0, replied, answered.0, answered.1),
        decides(registry, answered.0, Event::Sent, ended.0, ended.1),
    ensures
        started.0 == QueryState::Executing,
        answered.1 is Respond,
        ended.0 == QueryState::Responded,
        ended.1 is Done,
{
}

/// A deadline that passes while discovery or the lookup is under way does
/// not leave the query unanswered: a failure response is planned, and
/// sending it ends the query.
pub proof fn lemma_deadline_is_answered(
    registry: Mushroom,
    state: QueryState,
    passed: Event,
    answered: (QueryState, Action),
    ended: (QueryState, Action),
)
    requires
        state == QueryState::RoutingDecided || state == QueryState::Executing,
        passed is DeadlinePassed,
        decides(registry, state, passed, answered.0, answered.1),
        decides(registry, answered.0, Event::Sent, ended.0, ended.1),
    ensures
        answered.0 == QueryState::Failure,
        answered.1 matches Action::Respond(plan) && plan.code == ResponseCode::ServFail
            && plan.answers@.len() == 0,
        ended.0 == QueryState::Responded,
{
}

} // verus!
