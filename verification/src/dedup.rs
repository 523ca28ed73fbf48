//! Removing repeated endpoints while keeping the order in which they were
//! first seen.

use crate::endpoint::{dedup, push_unique, NameserverEndpoint};
use vstd::prelude::*;

verus! {

/// No endpoint occurs twice in `s`.
pub open spec fn distinct(s: Seq<NameserverEndpoint>) -> bool {
    forall|i: int, j: int| 0 <= i < j < s.len() ==> s[i] != s[j]
}

/// `base`, followed by the items of `more` that were not seen before, each
/// once and in the order of `more`.
pub open spec fn extend_unique(
    base: Seq<NameserverEndpoint>,
    more: Seq<NameserverEndpoint>,
) -> Seq<NameserverEndpoint>
    decreases more.len(),
{
    if more.len() == 0 {
        base
    } else {
        let front = extend_unique(base, more.drop_last());
        if front.contains(more.last()) {
            front
        } else {
            front.push(more.last())
        }
    }
}

/// Position `p` of `s` holds an endpoint that does not occur before `p`.
pub open spec fn is_first_occurrence(s: Seq<NameserverEndpoint>, p: int) -> bool {
    0 <= p < s.len() && forall|k: int| 0 <= k < p ==> s[k] != s[p]
}

/// The positions of `s` at which an endpoint occurs for the first time, in
/// increasing order.
pub open spec fn first_positions(s: Seq<NameserverEndpoint>) -> Seq<int>
    decreases s.len(),
{
    if s.len() == 0 {
        Seq::empty()
    } else {
        let front = first_positions(s.drop_last());
        if s.drop_last().contains(s.last()) {
            front
        } else {
            front.push(s.len() - 1)
        }
    }
}

/// Deduplication keeps exactly the endpoints that occur.
pub proof fn lemma_dedup_same_items(s: Seq<NameserverEndpoint>, e: NameserverEndpoint)
    ensures
        dedup(s).contains(e) <==> s.contains(e),
    decreases s.len(),
{
    if s.len() > 0 {
        let front = s.drop_last();
        lemma_dedup_same_items(front, e);
        lemma_dedup_same_items(front, s.last());
        let d = dedup(front);
        if s.contains(e) {
            let i = choose|i: int| 0 <= i < s.len() && s[i] == e;
            if i < front.len() {
                assert(front[i] == e);
                assert(d.contains(e));
                let k = choose|k: int| 0 <= k < d.len() && d[k] == e;
                assert(dedup(s)[k] == e);
            } else {
                if d.contains(e) {
                } else {
                    assert(dedup(s) == d.push(e));
                    assert(dedup(s)[d.len() as int] == e);
                }
            }
        }
        if dedup(s).contains(e) {
            let k = choose|k: int| 0 <= k < dedup(s).len() && dedup(s)[k] == e;
            if k < d.len() {
                assert(d[k] == e);
                let i = choose|i: int| 0 <= i < front.len() && front[i] == e;
                assert(s[i] == e);
            } else {
                assert(s[s.len() - 1] == e);
            }
        }
    }
}

/// No endpoint occurs twice after deduplication.
pub proof fn lemma_dedup_distinct(s: Seq<NameserverEndpoint>)
    ensures
        distinct(dedup(s)),
    decreases s.len(),
{
    if s.len() > 0 {
        lemma_dedup_distinct(s.drop_last());
    }
}

/// Deduplication keeps the first occurrence of each endpoint, in the order
/// of the input: the result is the input read at its first-occurrence
/// positions, and these are all of them, in increasing order.
pub proof fn lemma_dedup_keeps_first_seen_order(s: Seq<NameserverEndpoint>)
    ensures
        dedup(s).len() == first_positions(s).len(),
        forall|k: int|
            0 <= k < dedup(s).len() ==> is_first_occurrence(s, #[trigger] first_positions(s)[k])
                && dedup(s)[k] == s[first_positions(s)[k]],
        forall|k: int, l: int|
            0 <= k < l < first_positions(s).len() ==> first_positions(s)[k] < first_positions(
                s,
            )[l],
        forall|p: int|
            is_first_occurrence(s, p) ==> exists|k: int|
                0 <= k < first_positions(s).len() && first_positions(s)[k] == p,
    decreases s.len(),
{
    if s.len() > 0 {
        let front = s.drop_last();
        let last = s.last();
        lemma_dedup_keeps_first_seen_order(front);
        lemma_dedup_same_items(front, last);
        let fp = first_positions(s);
        let ffp = first_positions(front);
        assert forall|k: int| 0 <= k < dedup(s).len() implies is_first_occurrence(
            s,
            #[trigger] fp[k],
        ) && dedup(s)[k] == s[fp[k]] by {
            if k < ffp.len() {
                assert(is_first_occurrence(front, ffp[k]));
                assert(fp[k] == ffp[k]);
                let p = fp[k];
                assert forall|m: int| 0 <= m < p implies #[trigger] s[m] != s[p] by {
                    assert(front[m] == s[m]);
                }
            } else {
                assert(fp[k] == s.len() - 1);
                let p = fp[k];
                assert forall|m: int| 0 <= m < p implies #[trigger] s[m] != s[p] by {
                    assert(front[m] == s[m]);
                }
            }
        }
        assert forall|k: int, l: int| 0 <= k < l < fp.len() implies fp[k] < fp[l] by {
            if l < ffp.len() {
            } else {
                assert(is_first_occurrence(front, ffp[k]));
            }
        }
        assert forall|p: int| is_first_occurrence(s, p) implies exists|k: int|
            0 <= k < fp.len() && fp[k] == p by {
            if p < front.len() {
                assert forall|m: int| 0 <= m < p implies #[trigger] front[m] != front[p] by {
                    assert(s[m] != s[p]);
                }
                assert(is_first_occurrence(front, p));
                let k = choose|k: int| 0 <= k < ffp.len() && ffp[k] == p;
                assert(fp[k] == p);
            } else {
                if front.contains(last) {
                    let m = choose|m: int| 0 <= m < front.len() && front[m] == last;
                    assert(s[m] == s[p]);
                }
                assert(fp[fp.len() - 1] == p);
            }
        }
    }
}

/// A list without repetitions is left as it is.
pub proof fn lemma_dedup_of_distinct(s: Seq<NameserverEndpoint>)
    requires
        distinct(s),
    ensures
        dedup(s) == s,
    decreases s.len(),
{
    if s.len() > 0 {
        let front = s.drop_last();
        assert(distinct(front)) by {
            assert forall|i: int, j: int| 0 <= i < j < front.len() implies front[i] != front[j] by {
                assert(s[i] != s[j]);
            }
        }
        lemma_dedup_of_distinct(front);
        if front.contains(s.last()) {
            let m = choose|m: int| 0 <= m < front.len() && front[m] == s.last();
            assert(s[m] != s[s.len() - 1]);
        }
        assert(front.push(s.last()) =~= s);
    }
}

/// Deduplicating twice changes nothing more.
pub proof fn lemma_dedup_idempotent(s: Seq<NameserverEndpoint>)
    ensures
        dedup(dedup(s)) == dedup(s),
{
    lemma_dedup_distinct(s);
    lemma_dedup_of_distinct(dedup(s));
}

/// Deduplicating a concatenation is deduplicating its first part and then
/// adding what is new in the second.
pub proof fn lemma_dedup_concat(a: Seq<NameserverEndpoint>, b: Seq<NameserverEndpoint>)
    ensures
        dedup(a + b) == extend_unique(dedup(a), b),
    decreases b.len(),
{
    if b.len() == 0 {
        assert(a + b =~= a);
    } else {
        lemma_dedup_concat(a, b.drop_last());
        assert((a + b).drop_last() =~= a + b.drop_last());
        assert((a + b).last() == b.last());
    }
}

/// Adding two lists in turn is adding their concatenation.
pub proof fn lemma_extend_unique_concat(
    base: Seq<NameserverEndpoint>,
    b: Seq<NameserverEndpoint>,
    c: Seq<NameserverEndpoint>,
)
    ensures
        extend_unique(extend_unique(base, b), c) == extend_unique(base, b + c),
    decreases c.len(),
{
    if c.len() == 0 {
        assert(b + c =~= b);
    } else {
        lemma_extend_unique_concat(base, b, c.drop_last());
        assert((b + c).drop_last() =~= b + c.drop_last());
        assert((b + c).last() == c.last());
    }
}

/// Adding what is new keeps a list free of repetitions.
pub proof fn lemma_extend_unique_distinct(
    base: Seq<NameserverEndpoint>,
    more: Seq<NameserverEndpoint>,
)
    requires
        distinct(base),
    ensures
        distinct(extend_unique(base, more)),
    decreases more.len(),
{
    if more.len() > 0 {
        lemma_extend_unique_distinct(base, more.drop_last());
    }
}

/// Adds the endpoints of `more` that `list` does not hold yet.
pub fn extend_with_new(list: &mut Vec<NameserverEndpoint>, more: &Vec<NameserverEndpoint>)
    ensures
        final(list)@ == extend_unique(old(list)@, more@),
{
    let mut i: usize = 0;
    while i < more.len()
        invariant
            i <= more.len(),
            list@ == extend_unique(old(list)@, more@.take(i as int)),
        decreases more.len() - i,
    {
        proof {
            assert(more@.take(i + 1).drop_last() =~= more@.take(i as int));
        }
        push_unique(list, more[i]);
        i += 1;
    }
    proof {
        assert(more@.take(more@.len() as int) =~= more@);
    }
}

/// The endpoints of `list` without repetitions, first occurrences first.
pub fn deduplicate(list: &Vec<NameserverEndpoint>) -> (out: Vec<NameserverEndpoint>)
    ensures
        out@ == dedup(list@),
{
    let mut out: Vec<NameserverEndpoint> = Vec::new();
    extend_with_new(&mut out, list);
    proof {
        lemma_dedup_concat(Seq::empty(), list@);
        assert(Seq::<NameserverEndpoint>::empty() + list@ =~= list@);
    }
    out
}

} // verus!
