//! Domain routing: which resolver strategy a query name is given.
//!
//! A name and a suffix pattern are compared in normal form: without the
//! trailing root dot, and in ASCII lower case. A rule matches a name when the
//! normal form of the name ends with the normal form of the rule's suffix.
//! Rules are tried in the order of the table; the first match decides.

use crate::text::{chars_of, lemma_lower_char_idempotent, lower, lower_char, to_lower};
use vstd::prelude::*;

verus! {

/// How the resolver for a query is chosen.
#[derive(Clone, Copy, Debug, PartialEq, Eq, Hash, Structural)]
pub enum Strategy {
    /// The long-lived resolver over all default nameservers.
    UseDualStackDefault,
    /// The long-lived resolver over the IPv4 default nameservers.
    UseIPv4OnlyDefault,
    /// A resolver built for this query from the nameservers of the host's leases.
    UseAdHocFromDiscovery,
}

/// One line of the routing table.
#[derive(Clone, Debug)]
pub struct RoutingRule {
    pub suffix: String,
    pub strategy: Strategy,
}

/// The ordered routing table.
#[derive(Clone, Debug)]
pub struct DomainRoutingPolicy {
    pub rules: Vec<RoutingRule>,
}

/// A name without its trailing root dot.
pub open spec fn strip_terminator(s: Seq<char>) -> Seq<char> {
    if s.len() > 0 && s.last() == '.' {
        s.drop_last()
    } else {
        s
    }
}

/// The normal form in which names and suffixes are compared.
pub open spec fn normalized(s: Seq<char>) -> Seq<char> {
    lower(strip_terminator(s))
}

/// `s` ends with `suffix`.
pub open spec fn ends_with(s: Seq<char>, suffix: Seq<char>) -> bool {
    suffix.len() <= s.len() && s.subrange(s.len() - suffix.len(), s.len() as int) == suffix
}

/// Whether a rule with this suffix applies to the name.
pub open spec fn matches_suffix(name: Seq<char>, suffix: Seq<char>) -> bool {
    ends_with(normalized(name), normalized(suffix))
}

/// The strategy for names that no rule matches.
pub open spec fn default_strategy(ipv6_available: bool) -> Strategy {
    if ipv6_available {
        Strategy::UseDualStackDefault
    } else {
        Strategy::UseIPv4OnlyDefault
    }
}

/// The strategy that a table gives a name: that of the first rule that
/// matches, or the default.
pub open spec fn strategy_for(
    rules: Seq<RoutingRule>,
    name: Seq<char>,
    ipv6_available: bool,
) -> Strategy
    decreases rules.len(),
{
    if rules.len() == 0 {
        default_strategy(ipv6_available)
    } else if matches_suffix(name, rules[0].suffix@) {
        rules[0].strategy
    } else {
        strategy_for(rules.drop_first(), name, ipv6_available)
    }
}

/// Length of a text without its trailing root dot.
fn stripped_len(chars: &Vec<char>) -> (n: usize)
    ensures
        n == strip_terminator(chars@).len(),
        n <= chars@.len(),
        strip_terminator(chars@) == chars@.take(n as int),
{
    let len = chars.len();
    if len > 0 && chars[len - 1] == '.' {
        proof {
            assert(chars@.drop_last() =~= chars@.take(len - 1));
        }
        len - 1
    } else {
        proof {
            assert(chars@ =~= chars@.take(len as int));
        }
        len
    }
}

/// Whether a rule with the suffix `suffix` applies to `name`.
pub fn suffix_matches(name: &Vec<char>, suffix: &Vec<char>) -> (b: bool)
    ensures
        b == matches_suffix(name@, suffix@),
{
    let n: usize = stripped_len(name);
    let m: usize = stripped_len(suffix);
    if m > n {
        return false;
    }
    let ghost a = normalized(name@);
    let ghost p = normalized(suffix@);
    let offset: usize = n - m;
    let mut i: usize = 0;
    while i < m
        invariant
            i <= m <= n,
            offset == n - m,
            n <= name@.len(),
            m <= suffix@.len(),
            a == normalized(name@),
            p == normalized(suffix@),
            a.len() == n,
            p.len() == m,
            strip_terminator(name@) == name@.take(n as int),
            strip_terminator(suffix@) == suffix@.take(m as int),
            forall|j: int| 0 <= j < i ==> a[offset + j] == p[j],
        decreases m - i,
    {
        if to_lower(name[offset + i]) != to_lower(suffix[i]) {
            proof {
                let tail = a.subrange(a.len() - p.len(), a.len() as int);
                assert(tail[i as int] == a[offset + i]);
                assert(tail[i as int] != p[i as int]);
            }
            return false;
        }
        i += 1;
    }
    proof {
        assert(a.subrange(a.len() - p.len(), a.len() as int) =~= p);
    }
    true
}

impl DomainRoutingPolicy {
    /// A table with the given rules, tried in this order.
    pub fn new(rules: Vec<RoutingRule>) -> (policy: DomainRoutingPolicy)
        ensures
            policy.rules == rules,
    {
        DomainRoutingPolicy { rules }
    }

    /// The built-in table: names under `nordvpn.com` are resolved through
    /// the nameservers of the host's own leases.
    pub fn standard() -> (policy: DomainRoutingPolicy)
        ensures
            policy.rules@.len() == 1,
            policy.rules@[0].suffix@ == "nordvpn.com."@,
            policy.rules@[0].strategy == Strategy::UseAdHocFromDiscovery,
    {
        let mut rules: Vec<RoutingRule> = Vec::new();
        rules.push(
            RoutingRule {
                suffix: "nordvpn.com.".to_owned(),
                strategy: Strategy::UseAdHocFromDiscovery,
            },
        );
        DomainRoutingPolicy { rules }
    }

    /// Chooses the strategy for a query name. Never fails: a name that no
    /// rule matches gets the default for the current protocol availability.
    pub fn select(&self, query_name: &str, ipv6_available: bool) -> (strategy: Strategy)
        ensures
            strategy == strategy_for(self.rules@, query_name@, ipv6_available),
    {
        let name = chars_of(query_name);
        let mut i: usize = 0;
        proof {
            assert(self.rules@.skip(0) =~= self.rules@);
        }
        while i < self.rules.len()
            invariant
                i <= self.rules.len(),
                name@ == query_name@,
                strategy_for(self.rules@, query_name@, ipv6_available) == strategy_for(
                    self.rules@.skip(i as int),
                    query_name@,
                    ipv6_available,
                ),
            decreases self.rules.len() - i,
        {
            let ghost rest = self.rules@.skip(i as int);
            proof {
                assert(rest[0] == self.rules@[i as int]);
                assert(rest.drop_first() =~= self.rules@.skip(i + 1));
            }
            let suffix = chars_of(self.rules[i].suffix.as_str());
            if suffix_matches(&name, &suffix) {
                return self.rules[i].strategy;
            }
            i += 1;
        }
        if ipv6_available {
            Strategy::UseDualStackDefault
        } else {
            Strategy::UseIPv4OnlyDefault
        }
    }
}

/// Whether some rule of the table matches the name.
pub open spec fn some_rule_matches(rules: Seq<RoutingRule>, name: Seq<char>) -> bool {
    exists|i: int| 0 <= i < rules.len() && matches_suffix(name, #[trigger] rules[i].suffix@)
}

/// A name that no rule matches gets the default strategy for the current
/// protocol availability.
pub proof fn lemma_unmatched_name_gets_default(
    rules: Seq<RoutingRule>,
    name: Seq<char>,
    ipv6_available: bool,
)
    requires
        !some_rule_matches(rules, name),
    ensures
        strategy_for(rules, name, ipv6_available) == default_strategy(ipv6_available),
    decreases rules.len(),
{
    if rules.len() > 0 {
        assert(!matches_suffix(name, rules[0].suffix@));
        let rest = rules.drop_first();
        assert forall|i: int| 0 <= i < rest.len() implies !matches_suffix(
            name,
            #[trigger] rest[i].suffix@,
        ) by {
            assert(rest[i] == rules[i + 1]);
        }
        lemma_unmatched_name_gets_default(rest, name, ipv6_available);
    }
}

/// The first rule that matches decides.
pub proof fn lemma_first_match_wins(
    rules: Seq<RoutingRule>,
    name: Seq<char>,
    ipv6_available: bool,
    i: int,
)
    requires
        0 <= i < rules.len(),
        matches_suffix(name, rules[i].suffix@),
        forall|j: int| 0 <= j < i ==> !matches_suffix(name, #[trigger] rules[j].suffix@),
    ensures
        strategy_for(rules, name, ipv6_available) == rules[i].strategy,
    decreases rules.len(),
{
    if i > 0 {
        assert(!matches_suffix(name, rules[0].suffix@));
        let rest = rules.drop_first();
        assert(rest[i - 1] == rules[i]);
        assert forall|j: int| 0 <= j < i - 1 implies !matches_suffix(
            name,
            #[trigger] rest[j].suffix@,
        ) by {
            assert(rest[j] == rules[j + 1]);
        }
        lemma_first_match_wins(rest, name, ipv6_available, i - 1);
    }
}

/// A name that matches a rule for ad-hoc resolution is resolved ad hoc, and
/// by no default resolver, unless an earlier rule of the table claims the
/// name for another strategy.
pub proof fn lemma_special_suffix_is_ad_hoc(
    rules: Seq<RoutingRule>,
    name: Seq<char>,
    ipv6_available: bool,
    i: int,
)
    requires
        0 <= i < rules.len(),
        matches_suffix(name, rules[i].suffix@),
        rules[i].strategy == Strategy::UseAdHocFromDiscovery,
        forall|j: int|
            0 <= j < i && matches_suffix(name, #[trigger] rules[j].suffix@) ==> rules[j].strategy
                == Strategy::UseAdHocFromDiscovery,
    ensures
        strategy_for(rules, name, ipv6_available) == Strategy::UseAdHocFromDiscovery,
    decreases rules.len(),
{
    if !matches_suffix(name, rules[0].suffix@) {
        let rest = rules.drop_first();
        assert(rest[i - 1] == rules[i]);
        assert forall|j: int|
            0 <= j < i - 1 && matches_suffix(name, #[trigger] rest[j].suffix@) implies rest[j].strategy
            == Strategy::UseAdHocFromDiscovery by {
            assert(rest[j] == rules[j + 1]);
        }
        lemma_special_suffix_is_ad_hoc(rest, name, ipv6_available, i - 1);
    }
}

/// The choice depends on the normal form of the name alone: two spellings
/// that differ in letter case or in the trailing dot are routed alike.
pub proof fn lemma_select_ignores_spelling(
    rules: Seq<RoutingRule>,
    name: Seq<char>,
    other: Seq<char>,
    ipv6_available: bool,
)
    requires
        normalized(name) == normalized(other),
    ensures
        strategy_for(rules, name, ipv6_available) == strategy_for(rules, other, ipv6_available),
    decreases rules.len(),
{
    if rules.len() > 0 {
        lemma_select_ignores_spelling(rules.drop_first(), name, other, ipv6_available);
    }
}

/// Writing the trailing dot, or leaving it out, does not change the normal form.
pub proof fn lemma_terminator_is_ignored(name: Seq<char>)
    requires
        name.len() == 0 || name.last() != '.',
    ensures
        normalized(name.push('.')) == normalized(name),
{
    assert(name.push('.').drop_last() =~= name);
}

/// Letter case does not change the normal form.
pub proof fn lemma_case_is_ignored(name: Seq<char>)
    ensures
        normalized(lower(name)) == normalized(name),
{
    let a = strip_terminator(lower(name));
    let b = strip_terminator(name);
    assert(lower_char('.') == '.');
    if name.len() > 0 {
        assert(lower(name).last() == lower_char(name.last()));
    }
    assert(a.len() == b.len());
    assert forall|i: int| 0 <= i < a.len() implies lower(a)[i] == lower(b)[i] by {
        lemma_lower_char_idempotent(name[i]);
    }
    assert(lower(a) =~= lower(b));
}

} // verus!
