//! Nameserver discovery from the host's DHCP leases.
//!
//! The network-management service is asked by the caller; what it answered
//! is handed over as plain values. Discovery reads the nameserver option of
//! each lease of each wired or wireless device, parses its tokens one by one,
//! skips what is malformed, and merges the rest without repetitions, first
//! seen first. Nothing that the service answers makes discovery fail: the
//! worst case is an empty result.

use crate::address::{ipv4_value, ipv6_value, IpAddress};
use crate::dedup::{
    distinct, extend_unique, lemma_dedup_concat, lemma_dedup_same_items,
    lemma_extend_unique_concat, lemma_extend_unique_distinct,
};
use crate::endpoint::{dedup, lease_endpoint, push_unique, NameserverEndpoint};
use crate::parse::{parse_ipv4_in, parse_ipv6_in};
use crate::text::{bounds_within, chars_of, slices, token_bounds, tokens};
use vstd::prelude::*;

verus! {

/// A lease option value as the service delivers it: text, or anything else.
#[derive(Clone, Debug)]
pub enum LeaseValue {
    Text(String),
    Other,
}

/// One option of a lease.
#[derive(Clone, Debug)]
pub struct LeaseOption {
    pub key: String,
    pub value: LeaseValue,
}

/// The options of one lease of one device. Where a key is given twice, the
/// first entry counts.
#[derive(Clone, Debug)]
pub struct LeaseOptionSet {
    pub options: Vec<LeaseOption>,
}

/// The kind of a network device.
#[derive(Clone, Copy, Debug, PartialEq, Eq, Hash, Structural)]
pub enum DeviceKind {
    Wired,
    Wireless,
    Other,
}

/// What was read of one device. A lease that could not be read is `None`.
#[derive(Clone, Debug)]
pub struct DeviceLeases {
    pub kind: DeviceKind,
    pub dhcp4: Option<LeaseOptionSet>,
    pub dhcp6: Option<LeaseOptionSet>,
}

/// What the network-management service answered.
#[derive(Clone, Debug)]
pub enum BackendReply {
    /// No connection to the service.
    Unreachable,
    /// The service did not answer in time.
    TimedOut,
    /// The service did not list its devices.
    EnumerationFailed,
    /// The devices, in the order of the service.
    Devices(Vec<DeviceLeases>),
}

/// The address family of a lease.
#[derive(Clone, Copy, Debug, PartialEq, Eq, Hash, Structural)]
pub enum Family {
    V4,
    V6,
}

/// The nameservers found, without repetitions and first seen first, and the
/// tokens that were skipped as malformed, in the order in which they were met.
#[derive(Clone, Debug, PartialEq, Eq)]
pub struct DiscoveryResult {
    pub endpoints: Vec<NameserverEndpoint>,
    pub warnings: Vec<String>,
}

/// The key of the nameserver option in a lease of the given family.
pub open spec fn nameserver_key(family: Family) -> Seq<char> {
    match family {
        Family::V4 => "domain_name_servers"@,
        Family::V6 => "dhcp6_name_servers"@,
    }
}

/// The text of the option `key`, if the set has it and it is text.
pub open spec fn option_text(options: Seq<LeaseOption>, key: Seq<char>) -> Option<Seq<char>>
    decreases options.len(),
{
    if options.len() == 0 {
        None
    } else if options[0].key@ == key {
        match options[0].value {
            LeaseValue::Text(t) => Some(t@),
            LeaseValue::Other => None,
        }
    } else {
        option_text(options.drop_first(), key)
    }
}

/// The address that a token writes in the given family, if it is well formed.
pub open spec fn token_address(token: Seq<char>, family: Family) -> Option<IpAddress> {
    match family {
        Family::V4 => match ipv4_value(token) {
            Some(v) => Some(IpAddress::V4(v)),
            None => None,
        },
        Family::V6 => match ipv6_value(token) {
            Some(v) => Some(IpAddress::V6(v)),
            None => None,
        },
    }
}

/// The endpoints of the well-formed tokens, in order.
pub open spec fn accepted(toks: Seq<Seq<char>>, family: Family) -> Seq<NameserverEndpoint>
    decreases toks.len(),
{
    if toks.len() == 0 {
        Seq::empty()
    } else {
        let front = accepted(toks.drop_last(), family);
        match token_address(toks.last(), family) {
            Some(a) => front.push(lease_endpoint(a)),
            None => front,
        }
    }
}

/// The malformed tokens, in order.
pub open spec fn rejected(toks: Seq<Seq<char>>, family: Family) -> Seq<Seq<char>>
    decreases toks.len(),
{
    if toks.len() == 0 {
        Seq::empty()
    } else {
        let front = rejected(toks.drop_last(), family);
        match token_address(toks.last(), family) {
            Some(_) => front,
            None => front.push(toks.last()),
        }
    }
}

/// The tokens of the nameserver option of a lease; none where the lease could
/// not be read, has no such option, or has one that is no text.
pub open spec fn lease_tokens(lease: Option<LeaseOptionSet>, family: Family) -> Seq<Seq<char>> {
    match lease {
        Some(set) => match option_text(set.options@, nameserver_key(family)) {
            Some(text) => tokens(text),
            None => Seq::empty(),
        },
        None => Seq::empty(),
    }
}

/// Whether the leases of a device of this kind are read.
pub open spec fn is_relevant(kind: DeviceKind) -> bool {
    kind == DeviceKind::Wired || kind == DeviceKind::Wireless
}

/// The endpoints that one device announces.
pub open spec fn device_endpoints(device: DeviceLeases, want_ipv6: bool) -> Seq<
    NameserverEndpoint,
> {
    if is_relevant(device.kind) {
        accepted(lease_tokens(device.dhcp4, Family::V4), Family::V4) + if want_ipv6 {
            accepted(lease_tokens(device.dhcp6, Family::V6), Family::V6)
        } else {
            Seq::empty()
        }
    } else {
        Seq::empty()
    }
}

/// The malformed tokens met on one device.
pub open spec fn device_warnings(device: DeviceLeases, want_ipv6: bool) -> Seq<Seq<char>> {
    if is_relevant(device.kind) {
        rejected(lease_tokens(device.dhcp4, Family::V4), Family::V4) + if want_ipv6 {
            rejected(lease_tokens(device.dhcp6, Family::V6), Family::V6)
        } else {
            Seq::empty()
        }
    } else {
        Seq::empty()
    }
}

/// All endpoints that the devices announce, repetitions included, in the
/// order of devices, leases and tokens.
pub open spec fn announced(devices: Seq<DeviceLeases>, want_ipv6: bool) -> Seq<NameserverEndpoint>
    decreases devices.len(),
{
    if devices.len() == 0 {
        Seq::empty()
    } else {
        announced(devices.drop_last(), want_ipv6) + device_endpoints(devices.last(), want_ipv6)
    }
}

/// All malformed tokens met, in the order of devices, leases and tokens.
pub open spec fn warned(devices: Seq<DeviceLeases>, want_ipv6: bool) -> Seq<Seq<char>>
    decreases devices.len(),
{
    if devices.len() == 0 {
        Seq::empty()
    } else {
        warned(devices.drop_last(), want_ipv6) + device_warnings(devices.last(), want_ipv6)
    }
}

/// The devices of a reply; none where the service gave no list.
pub open spec fn reply_devices(reply: BackendReply) -> Seq<DeviceLeases> {
    match reply {
        BackendReply::Devices(devices) => devices@,
        _ => Seq::empty(),
    }
}

/// The texts of a list of strings.
pub open spec fn texts(strings: Seq<String>) -> Seq<Seq<char>> {
    Seq::new(strings.len(), |i: int| strings[i]@)
}

impl DeviceKind {
    /// Whether the leases of a device of this kind are read: those of wired
    /// and wireless devices are.
    pub fn is_relevant(&self) -> (b: bool)
        ensures
            b == is_relevant(*self),
    {
        match self {
            DeviceKind::Wired => true,
            DeviceKind::Wireless => true,
            DeviceKind::Other => false,
        }
    }
}

impl LeaseOptionSet {
    /// Position of the first option with the given key that holds text.
    pub fn text_option(&self, key: &str) -> (r: Option<usize>)
        ensures
            r is None <==> option_text(self.options@, key@) is None,
            r is Some ==> r->0 < self.options@.len(),
            r is Some ==> self.options@[r->0 as int].value is Text,
            r is Some ==> option_text(self.options@, key@) == Some(
                self.options@[r->0 as int].value->Text_0@,
            ),
    {
        let wanted: String = key.to_owned();
        let mut i: usize = 0;
        proof {
            assert(self.options@.skip(0) =~= self.options@);
        }
        while i < self.options.len()
            invariant
                i <= self.options.len(),
                wanted@ == key@,
                option_text(self.options@, key@) == option_text(
                    self.options@.skip(i as int),
                    key@,
                ),
            decreases self.options.len() - i,
        {
            proof {
                let rest = self.options@.skip(i as int);
                assert(rest[0] == self.options@[i as int]);
                assert(rest.drop_first() =~= self.options@.skip(i + 1));
            }
            if self.options[i].key == wanted {
                return match &self.options[i].value {
                    LeaseValue::Text(_) => Some(i),
                    LeaseValue::Other => None,
                };
            }
            i += 1;
        }
        None
    }
}

impl DiscoveryResult {
    /// No endpoint is listed twice.
    pub open spec fn well_formed(&self) -> bool {
        distinct(self.endpoints@)
    }

    /// Nothing found, nothing skipped.
    pub fn empty() -> (r: DiscoveryResult)
        ensures
            r.endpoints@.len() == 0,
            r.warnings@.len() == 0,
            r.well_formed(),
    {
        DiscoveryResult { endpoints: Vec::new(), warnings: Vec::new() }
    }
}

/// Parses the tokens of one nameserver option. Each token is taken by
/// itself: a well-formed one adds its endpoint unless it is known already, a
/// malformed one is noted and skipped, and the tokens after it still count.
pub fn add_lease_servers(result: &mut DiscoveryResult, text: &str, family: Family)
    ensures
        final(result).endpoints@ == extend_unique(
            old(result).endpoints@,
            accepted(tokens(text@), family),
        ),
        texts(final(result).warnings@) == texts(old(result).warnings@) + rejected(
            tokens(text@),
            family,
        ),
        old(result).well_formed() ==> final(result).well_formed(),
{
    proof {
        if result.well_formed() {
            lemma_extend_unique_distinct(result.endpoints@, accepted(tokens(text@), family));
        }
    }
    let chars = chars_of(text);
    let bounds = token_bounds(&chars);
    let ghost toks = tokens(text@);
    let mut i: usize = 0;
    proof {
        assert(texts(result.warnings@) + Seq::<Seq<char>>::empty() =~= texts(result.warnings@));
    }
    while i < bounds.len()
        invariant
            i <= bounds.len(),
            chars@ == text@,
            toks == tokens(text@),
            bounds_within(bounds@, chars@.len()),
            slices(chars@, bounds@) == toks,
            result.endpoints@ == extend_unique(
                old(result).endpoints@,
                accepted(toks.take(i as int), family),
            ),
            texts(result.warnings@) == texts(old(result).warnings@) + rejected(
                toks.take(i as int),
                family,
            ),
        decreases bounds.len() - i,
    {
        let from: usize = bounds[i].0;
        let to: usize = bounds[i].1;
        proof {
            assert(toks.len() == bounds@.len());
            assert(toks[i as int] == chars@.subrange(from as int, to as int));
            assert(toks.take(i + 1).drop_last() =~= toks.take(i as int));
            assert(toks.take(i + 1).last() == toks[i as int]);
        }
        let address: Option<IpAddress> = match family {
            Family::V4 => match parse_ipv4_in(&chars, from, to) {
                Some(v) => Some(IpAddress::V4(v)),
                None => None,
            },
            Family::V6 => match parse_ipv6_in(&chars, from, to) {
                Some(v) => Some(IpAddress::V6(v)),
                None => None,
            },
        };
        match address {
            Some(a) => {
                proof {
                    let known = accepted(toks.take(i as int), family);
                    assert(known.push(lease_endpoint(a)).drop_last() =~= known);
                }
                push_unique(&mut result.endpoints, NameserverEndpoint::from_lease(a));
            },
            None => {
                let token: String = text.substring_char(from, to).to_owned();
                let ghost before = result.warnings@;
                result.warnings.push(token);
                proof {
                    assert(texts(before.push(token)) =~= texts(before).push(token@));
                    assert(texts(result.warnings@) =~= texts(old(result).warnings@) + rejected(
                        toks.take(i + 1),
                        family,
                    ));
                }
            },
        }
        i += 1;
    }
    proof {
        assert(toks.take(toks.len() as int) =~= toks);
    }
}

/// Adds the nameservers of one lease of the given family. A lease that could
/// not be read, or that has no nameserver option in text form, adds nothing.
pub fn add_lease(result: &mut DiscoveryResult, lease: &Option<LeaseOptionSet>, family: Family)
    ensures
        final(result).endpoints@ == extend_unique(
            old(result).endpoints@,
            accepted(lease_tokens(*lease, family), family),
        ),
        texts(final(result).warnings@) == texts(old(result).warnings@) + rejected(
            lease_tokens(*lease, family),
            family,
        ),
        old(result).well_formed() ==> final(result).well_formed(),
{
    proof {
        assert(texts(result.warnings@) + Seq::<Seq<char>>::empty() =~= texts(result.warnings@));
    }
    if let Some(set) = lease {
        let key: &str = match family {
            Family::V4 => "domain_name_servers",
            Family::V6 => "dhcp6_name_servers",
        };
        if let Some(i) = set.text_option(key) {
            if let LeaseValue::Text(text) = &set.options[i].value {
                add_lease_servers(result, text.as_str(), family);
            }
        }
    }
}

/// Adds the nameservers of a DHCPv4 lease, read from its
/// `domain_name_servers` option.
pub fn try_adding_dhcp4_ns(result: &mut DiscoveryResult, dhcp4: &Option<LeaseOptionSet>)
    ensures
        final(result).endpoints@ == extend_unique(
            old(result).endpoints@,
            accepted(lease_tokens(*dhcp4, Family::V4), Family::V4),
        ),
        texts(final(result).warnings@) == texts(old(result).warnings@) + rejected(
            lease_tokens(*dhcp4, Family::V4),
            Family::V4,
        ),
        old(result).well_formed() ==> final(result).well_formed(),
{
    add_lease(result, dhcp4, Family::V4);
}

/// Adds the nameservers of a DHCPv6 lease, read from its
/// `dhcp6_name_servers` option.
pub fn try_adding_dhcp6_ns(result: &mut DiscoveryResult, dhcp6: &Option<LeaseOptionSet>)
    ensures
        final(result).endpoints@ == extend_unique(
            old(result).endpoints@,
            accepted(lease_tokens(*dhcp6, Family::V6), Family::V6),
        ),
        texts(final(result).warnings@) == texts(old(result).warnings@) + rejected(
            lease_tokens(*dhcp6, Family::V6),
            Family::V6,
        ),
        old(result).well_formed() ==> final(result).well_formed(),
{
    add_lease(result, dhcp6, Family::V6);
}

/// Adds the nameservers of every wired and wireless device of the reply:
/// those of its DHCPv4 lease and, with `ipv6_support`, those of its DHCPv6
/// lease. A reply without a device list adds nothing.
pub fn try_adding_ns_from_dhcp(
    result: &mut DiscoveryResult,
    reply: &BackendReply,
    ipv6_support: bool,
)
    ensures
        final(result).endpoints@ == extend_unique(
            old(result).endpoints@,
            announced(reply_devices(*reply), ipv6_support),
        ),
        texts(final(result).warnings@) == texts(old(result).warnings@) + warned(
            reply_devices(*reply),
            ipv6_support,
        ),
        old(result).well_formed() ==> final(result).well_formed(),
{
    proof {
        assert(texts(result.warnings@) + Seq::<Seq<char>>::empty() =~= texts(result.warnings@));
        if result.well_formed() {
            lemma_extend_unique_distinct(
                result.endpoints@,
                announced(reply_devices(*reply), ipv6_support),
            );
        }
    }
    if let BackendReply::Devices(devices) = reply {
        let mut d: usize = 0;
        while d < devices.len()
            invariant
                d <= devices.len(),
                result.endpoints@ == extend_unique(
                    old(result).endpoints@,
                    announced(devices@.take(d as int), ipv6_support),
                ),
                texts(result.warnings@) == texts(old(result).warnings@) + warned(
                    devices@.take(d as int),
                    ipv6_support,
                ),
            decreases devices.len() - d,
        {
            let device = &devices[d];
            let ghost seen = announced(devices@.take(d as int), ipv6_support);
            let ghost noted = warned(devices@.take(d as int), ipv6_support);
            let ghost base = old(result).endpoints@;
            let ghost base_warnings = texts(old(result).warnings@);
            proof {
                assert(devices@.take(d + 1).drop_last() =~= devices@.take(d as int));
                assert(devices@.take(d + 1).last() == devices@[d as int]);
            }
            if device.kind.is_relevant() {
                let ghost v4 = accepted(lease_tokens(device.dhcp4, Family::V4), Family::V4);
                let ghost w4 = rejected(lease_tokens(device.dhcp4, Family::V4), Family::V4);
                try_adding_dhcp4_ns(result, &device.dhcp4);
                proof {
                    lemma_extend_unique_concat(base, seen, v4);
                    assert(texts(result.warnings@) =~= base_warnings + (noted + w4));
                }
                if ipv6_support {
                    let ghost v6 = accepted(lease_tokens(device.dhcp6, Family::V6), Family::V6);
                    let ghost w6 = rejected(lease_tokens(device.dhcp6, Family::V6), Family::V6);
                    try_adding_dhcp6_ns(result, &device.dhcp6);
                    proof {
                        lemma_extend_unique_concat(base, seen + v4, v6);
                        assert(seen + v4 + v6 =~= seen + (v4 + v6));
                        assert(texts(result.warnings@) =~= base_warnings + (noted + (w4 + w6)));
                    }
                } else {
                    proof {
                        assert(seen + v4 =~= seen + (v4 + Seq::<NameserverEndpoint>::empty()));
                        assert(noted + w4 =~= noted + (w4 + Seq::<Seq<char>>::empty()));
                    }
                }
            } else {
                proof {
                    assert(seen + Seq::<NameserverEndpoint>::empty() =~= seen);
                    assert(noted + Seq::<Seq<char>>::empty() =~= noted);
                }
            }
            d += 1;
        }
        proof {
            assert(devices@.take(devices@.len() as int) =~= devices@);
        }
    }
}

/// Discovers the nameservers that the host's leases announce. The result has
/// no repetitions and keeps the order in which the endpoints were first seen.
/// Where the service could not be reached, did not answer in time or did not
/// list its devices, the result is empty.
pub fn discover(reply: &BackendReply, want_ipv6: bool) -> (result: DiscoveryResult)
    ensures
        result.endpoints@ == dedup(announced(reply_devices(*reply), want_ipv6)),
        texts(result.warnings@) == warned(reply_devices(*reply), want_ipv6),
        !(reply is Devices) ==> result.endpoints@.len() == 0 && result.warnings@.len() == 0,
        result.well_formed(),
{
    let mut result = DiscoveryResult::empty();
    proof {
        assert(result.endpoints@ =~= Seq::<NameserverEndpoint>::empty());
        assert(texts(result.warnings@) =~= Seq::<Seq<char>>::empty());
    }
    try_adding_ns_from_dhcp(&mut result, reply, want_ipv6);
    proof {
        let all = announced(reply_devices(*reply), want_ipv6);
        lemma_dedup_concat(Seq::empty(), all);
        assert(Seq::<NameserverEndpoint>::empty() + all =~= all);
        assert(Seq::<Seq<char>>::empty() + warned(reply_devices(*reply), want_ipv6) =~= warned(
            reply_devices(*reply),
            want_ipv6,
        ));
    }
    result
}

/// The lease of a device for one address family.
pub open spec fn lease_of(device: DeviceLeases, family: Family) -> Option<LeaseOptionSet> {
    match family {
        Family::V4 => device.dhcp4,
        Family::V6 => device.dhcp6,
    }
}

/// A well-formed token gives its endpoint whatever stands around it: a
/// malformed token before or after it takes nothing away.
pub proof fn lemma_well_formed_token_is_accepted(toks: Seq<Seq<char>>, family: Family, i: int)
    requires
        0 <= i < toks.len(),
        token_address(toks[i], family) is Some,
    ensures
        accepted(toks, family).contains(lease_endpoint(token_address(toks[i], family)->0)),
    decreases toks.len(),
{
    let e = lease_endpoint(token_address(toks[i], family)->0);
    let front = accepted(toks.drop_last(), family);
    if i == toks.len() - 1 {
        assert(accepted(toks, family) == front.push(e));
        assert(accepted(toks, family)[front.len() as int] == e);
    } else {
        assert(toks.drop_last()[i] == toks[i]);
        lemma_well_formed_token_is_accepted(toks.drop_last(), family, i);
        let k = choose|k: int| 0 <= k < front.len() && front[k] == e;
        assert(accepted(toks, family)[k] == e);
    }
}

/// A malformed token is noted, and only malformed tokens are.
pub proof fn lemma_rejected_are_the_malformed(toks: Seq<Seq<char>>, family: Family, t: Seq<char>)
    ensures
        rejected(toks, family).contains(t) <==> toks.contains(t) && token_address(t, family)
            is None,
    decreases toks.len(),
{
    if toks.len() > 0 {
        let front_toks = toks.drop_last();
        let front = rejected(front_toks, family);
        let all = rejected(toks, family);
        lemma_rejected_are_the_malformed(front_toks, family, t);
        if all.contains(t) {
            let k = choose|k: int| 0 <= k < all.len() && all[k] == t;
            if k < front.len() {
                assert(front[k] == t);
                let m = choose|m: int| 0 <= m < front_toks.len() && front_toks[m] == t;
                assert(toks[m] == t);
            } else {
                assert(toks[toks.len() - 1] == t);
            }
        }
        if toks.contains(t) && token_address(t, family) is None {
            let m = choose|m: int| 0 <= m < toks.len() && toks[m] == t;
            if m < front_toks.len() {
                assert(front_toks[m] == t);
                let k = choose|k: int| 0 <= k < front.len() && front[k] == t;
                assert(all[k] == t);
            } else {
                assert(all[all.len() - 1] == t);
            }
        }
    }
}

/// What a device announces is part of what all devices announce.
pub proof fn lemma_announced_holds_device(
    devices: Seq<DeviceLeases>,
    want_ipv6: bool,
    d: int,
    e: NameserverEndpoint,
)
    requires
        0 <= d < devices.len(),
        device_endpoints(devices[d], want_ipv6).contains(e),
    ensures
        announced(devices, want_ipv6).contains(e),
    decreases devices.len(),
{
    let front = announced(devices.drop_last(), want_ipv6);
    let last = device_endpoints(devices.last(), want_ipv6);
    if d == devices.len() - 1 {
        let k = choose|k: int| 0 <= k < last.len() && last[k] == e;
        assert((front + last)[front.len() + k] == e);
    } else {
        assert(devices.drop_last()[d] == devices[d]);
        lemma_announced_holds_device(devices.drop_last(), want_ipv6, d, e);
        let k = choose|k: int| 0 <= k < front.len() && front[k] == e;
        assert((front + last)[k] == e);
    }
}

/// Every well-formed token of a lease that is read ends up among the
/// discovered endpoints, whatever malformed tokens the same lease, the same
/// device or any other device holds.
pub proof fn lemma_discovery_keeps_well_formed_tokens(
    devices: Seq<DeviceLeases>,
    want_ipv6: bool,
    d: int,
    family: Family,
    i: int,
)
    requires
        0 <= d < devices.len(),
        is_relevant(devices[d].kind),
        family == Family::V4 || want_ipv6,
        0 <= i < lease_tokens(lease_of(devices[d], family), family).len(),
        token_address(lease_tokens(lease_of(devices[d], family), family)[i], family) is Some,
    ensures
        dedup(announced(devices, want_ipv6)).contains(
            lease_endpoint(
                token_address(lease_tokens(lease_of(devices[d], family), family)[i], family)->0,
            ),
        ),
{
    let toks = lease_tokens(lease_of(devices[d], family), family);
    let e = lease_endpoint(token_address(toks[i], family)->0);
    lemma_well_formed_token_is_accepted(toks, family, i);
    let of_lease = accepted(toks, family);
    let k = choose|k: int| 0 <= k < of_lease.len() && of_lease[k] == e;
    let v4 = accepted(lease_tokens(devices[d].dhcp4, Family::V4), Family::V4);
    let of_device = device_endpoints(devices[d], want_ipv6);
    if family == Family::V4 {
        assert(of_device[k] == e);
    } else {
        assert(of_device[v4.len() + k] == e);
    }
    lemma_announced_holds_device(devices, want_ipv6, d, e);
    lemma_dedup_same_items(announced(devices, want_ipv6), e);
}

} // verus!
