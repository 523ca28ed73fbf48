//! The address grammar, read as a grammar: which texts are literals, stated
//! over the fields that the separators cut out.
//!
//! An IPv4 literal is exactly a text of four octets separated by dots. An
//! IPv6 literal is exactly a text of one of two forms: fields that write
//! eight groups, joined by colons; or two such lists, of seven groups at
//! most, around one double colon. In both forms the last field may be an IPv4
//! literal, which writes two groups. Each statement is proved in both
//! directions: every text of the form is a literal with the value that the
//! form gives, and every literal has the form.

use crate::address::{
    dotted_octets, gap_at, gap_position, group_list, groups_or_none, hex_group_value, ipv4_value,
    ipv6_groups, is_digit, is_hex_digit, last_groups, octet_value, pack4, prepend, zero_groups,
};
use crate::parse::lemma_gap_position;
use crate::text::{find, lemma_find, lemma_find_misses, lemma_find_stops_at};
use vstd::prelude::*;

verus! {

/// The dot that separates the octets of an IPv4 literal.
pub open spec fn dot() -> Seq<char> {
    seq!['.']
}

/// An octet holds no dot.
pub proof fn lemma_octet_holds_no_dot(a: Seq<char>)
    requires
        octet_value(a) is Some,
    ensures
        find(a, '.') == a.len(),
{
    assert forall|j: int| 0 <= j < a.len() implies a[j] != '.' by {
        assert(is_digit(a[j]));
    }
    lemma_find(a, '.', a.len() as int);
}

/// A list of octets starts with an octet, a dot and a list of octets.
pub proof fn lemma_dotted_cons(a: Seq<char>, rest: Seq<char>)
    requires
        octet_value(a) is Some,
    ensures
        dotted_octets(a + dot() + rest) == prepend(seq![octet_value(a)->0], dotted_octets(rest)),
{
    let whole = a + dot() + rest;
    assert forall|j: int| 0 <= j < a.len() implies whole[j] != '.' by {
        assert(whole[j] == a[j]);
        assert(is_digit(a[j]));
    }
    assert(whole[a.len() as int] == '.');
    lemma_find(whole, '.', a.len() as int);
    assert(whole.take(a.len() as int) =~= a);
    assert(whole.skip(a.len() as int + 1) =~= rest);
}

/// Concatenation may be bracketed either way.
pub proof fn lemma_concat_assoc(x: Seq<char>, y: Seq<char>, z: Seq<char>)
    ensures
        (x + y) + z == x + (y + z),
{
    assert((x + y) + z =~= x + (y + z));
}

/// Four fields separated by dots, bracketed from the right.
pub proof fn lemma_quad_bracketing(a: Seq<char>, b: Seq<char>, c: Seq<char>, d: Seq<char>)
    ensures
        a + dot() + b + dot() + c + dot() + d == a + dot() + (b + dot() + (c + dot() + d)),
{
    let t3 = c + dot() + d;
    let t2 = b + dot() + t3;
    let x = a + dot() + b + dot();
    lemma_concat_assoc(x + c, dot(), d);
    lemma_concat_assoc(x, c, dot() + d);
    lemma_concat_assoc(c, dot(), d);
    assert(x + c + dot() + d == x + t3);
    lemma_concat_assoc(a + dot() + b, dot(), t3);
    lemma_concat_assoc(a + dot(), b, dot() + t3);
    lemma_concat_assoc(b, dot(), t3);
    assert(x + t3 == a + dot() + t2);
}

/// Four octets separated by dots are an IPv4 literal, and write the address
/// with these octets.
pub proof fn lemma_dotted_quad_is_ipv4(a: Seq<char>, b: Seq<char>, c: Seq<char>, d: Seq<char>)
    requires
        octet_value(a) is Some,
        octet_value(b) is Some,
        octet_value(c) is Some,
        octet_value(d) is Some,
    ensures
        ipv4_value(a + dot() + b + dot() + c + dot() + d) == Some(
            pack4(
                seq![
                    octet_value(a)->0,
                    octet_value(b)->0,
                    octet_value(c)->0,
                    octet_value(d)->0,
                ],
            ),
        ),
{
    let oa = octet_value(a)->0;
    let ob = octet_value(b)->0;
    let oc = octet_value(c)->0;
    let od = octet_value(d)->0;
    let t3 = c + dot() + d;
    let t2 = b + dot() + t3;
    let t1 = a + dot() + t2;
    lemma_octet_holds_no_dot(d);
    assert(dotted_octets(d) == Some(seq![od]));
    lemma_dotted_cons(c, d);
    assert(dotted_octets(t3) == Some(seq![oc] + seq![od]));
    lemma_dotted_cons(b, t3);
    assert(dotted_octets(t2) == Some(seq![ob] + (seq![oc] + seq![od])));
    lemma_dotted_cons(a, t2);
    assert(dotted_octets(t1) == Some(seq![oa] + (seq![ob] + (seq![oc] + seq![od]))));
    assert(seq![oa] + (seq![ob] + (seq![oc] + seq![od])) =~= seq![oa, ob, oc, od]);
    lemma_quad_bracketing(a, b, c, d);
}

/// A list of one octet is that octet.
pub proof fn lemma_dotted_single(s: Seq<char>)
    requires
        dotted_octets(s) is Some,
        dotted_octets(s)->0.len() <= 1,
    ensures
        octet_value(s) is Some,
        dotted_octets(s) == Some(seq![octet_value(s)->0]),
{
    let k = find(s, '.') as int;
    lemma_find_stops_at(s, '.');
    if k < s.len() {
        lemma_dotted_not_empty(s.skip(k + 1));
    }
}

/// A list of octets holds at least one octet.
pub proof fn lemma_dotted_not_empty(s: Seq<char>)
    requires
        dotted_octets(s) is Some,
    ensures
        dotted_octets(s)->0.len() >= 1,
    decreases s.len(),
{
    let k = find(s, '.') as int;
    lemma_find_stops_at(s, '.');
    if k < s.len() {
        lemma_dotted_not_empty(s.skip(k + 1));
    }
}

/// A list of more than one octet is its first octet, a dot, and the list of
/// the other octets: these two parts are returned.
pub proof fn lemma_dotted_split(s: Seq<char>) -> (parts: (Seq<char>, Seq<char>))
    requires
        dotted_octets(s) is Some,
        dotted_octets(s)->0.len() > 1,
    ensures
        s == parts.0 + dot() + parts.1,
        octet_value(parts.0) is Some,
        dotted_octets(parts.1) is Some,
        dotted_octets(parts.1)->0.len() == dotted_octets(s)->0.len() - 1,
{
    let k = find(s, '.') as int;
    lemma_find_stops_at(s, '.');
    let first = s.take(k);
    let rest = s.skip(k + 1);
    assert(s =~= first + dot() + rest);
    (first, rest)
}

/// `s` is the four octets `a`, `b`, `c` and `d`, separated by dots.
pub open spec fn is_dotted_quad(
    s: Seq<char>,
    a: Seq<char>,
    b: Seq<char>,
    c: Seq<char>,
    d: Seq<char>,
) -> bool {
    &&& s == a + dot() + b + dot() + c + dot() + d
    &&& octet_value(a) is Some
    &&& octet_value(b) is Some
    &&& octet_value(c) is Some
    &&& octet_value(d) is Some
}

/// Every IPv4 literal is four octets separated by dots.
pub proof fn lemma_ipv4_is_dotted_quad(s: Seq<char>)
    requires
        ipv4_value(s) is Some,
    ensures
        exists|a: Seq<char>, b: Seq<char>, c: Seq<char>, d: Seq<char>|
            is_dotted_quad(s, a, b, c, d),
{
    let (a, s1) = lemma_dotted_split(s);
    let (b, s2) = lemma_dotted_split(s1);
    let (c, d) = lemma_dotted_split(s2);
    lemma_dotted_single(d);
    lemma_quad_bracketing(a, b, c, d);
    assert(is_dotted_quad(s, a, b, c, d));
}

/// The colon that separates the groups of an IPv6 literal.
pub open spec fn colon() -> Seq<char> {
    seq![':']
}

/// The double colon that stands for the groups of zeros left out.
pub open spec fn gap() -> Seq<char> {
    seq![':', ':']
}

/// The fields, joined by colons; the empty text for no field.
pub open spec fn joined(fields: Seq<Seq<char>>) -> Seq<char>
    decreases fields.len(),
{
    if fields.len() == 0 {
        Seq::empty()
    } else if fields.len() == 1 {
        fields[0]
    } else {
        fields[0] + colon() + joined(fields.drop_first())
    }
}

/// Every field is a group of an IPv6 literal.
pub open spec fn all_groups(fields: Seq<Seq<char>>) -> bool {
    forall|i: int| 0 <= i < fields.len() ==> hex_group_value(#[trigger] fields[i]) is Some
}

/// The numbers that the groups write.
pub open spec fn group_values(fields: Seq<Seq<char>>) -> Seq<u16> {
    Seq::new(fields.len(), |i: int| hex_group_value(fields[i])->0)
}

/// A group holds no colon.
pub proof fn lemma_group_holds_no_colon(g: Seq<char>)
    requires
        hex_group_value(g) is Some,
    ensures
        find(g, ':') == g.len(),
        forall|j: int| 0 <= j < g.len() ==> #[trigger] g[j] != ':',
{
    assert forall|j: int| 0 <= j < g.len() implies #[trigger] g[j] != ':' by {
        assert(is_hex_digit(g[j]));
    }
    lemma_find(g, ':', g.len() as int);
}

/// A list of groups starts with a group, a colon and a list of groups.
pub proof fn lemma_group_list_cons(g: Seq<char>, rest: Seq<char>, quad_allowed: bool)
    requires
        hex_group_value(g) is Some,
    ensures
        group_list(g + colon() + rest, quad_allowed) == prepend(
            seq![hex_group_value(g)->0],
            group_list(rest, quad_allowed),
        ),
{
    let whole = g + colon() + rest;
    lemma_group_holds_no_colon(g);
    assert forall|j: int| 0 <= j < g.len() implies whole[j] != ':' by {
        assert(whole[j] == g[j]);
    }
    assert(whole[g.len() as int] == ':');
    lemma_find(whole, ':', g.len() as int);
    assert(whole.take(g.len() as int) =~= g);
    assert(whole.skip(g.len() as int + 1) =~= rest);
}

/// Groups joined by colons are a list of groups, with the numbers they write.
pub proof fn lemma_joined_groups(fields: Seq<Seq<char>>, quad_allowed: bool)
    requires
        fields.len() >= 1,
        all_groups(fields),
    ensures
        group_list(joined(fields), quad_allowed) == Some(group_values(fields)),
    decreases fields.len(),
{
    let first = fields[0];
    assert(hex_group_value(first) is Some);
    if fields.len() == 1 {
        lemma_group_holds_no_colon(first);
        assert(group_values(fields) =~= seq![hex_group_value(first)->0]);
    } else {
        let rest = fields.drop_first();
        assert(all_groups(rest)) by {
            assert forall|i: int| 0 <= i < rest.len() implies hex_group_value(
                #[trigger] rest[i],
            ) is Some by {
                assert(rest[i] == fields[i + 1]);
            }
        }
        lemma_joined_groups(rest, quad_allowed);
        lemma_group_list_cons(first, joined(rest), quad_allowed);
        assert(seq![hex_group_value(first)->0] + group_values(rest) =~= group_values(fields)) by {
            assert forall|i: int| 1 <= i < fields.len() implies group_values(rest)[i - 1]
                == group_values(fields)[i] by {
                assert(rest[i - 1] == fields[i]);
            }
        }
    }
}

/// No field is empty, and no field holds a colon.
pub open spec fn plain_fields(fields: Seq<Seq<char>>) -> bool {
    forall|i: int|
        0 <= i < fields.len() ==> (#[trigger] fields[i]).len() >= 1 && find(fields[i], ':')
            == fields[i].len()
}

/// Groups are plain fields.
pub proof fn lemma_groups_are_plain(fields: Seq<Seq<char>>)
    requires
        all_groups(fields),
    ensures
        plain_fields(fields),
{
    assert forall|i: int| 0 <= i < fields.len() implies (#[trigger] fields[i]).len() >= 1 && find(
        fields[i],
        ':',
    ) == fields[i].len() by {
        lemma_group_holds_no_colon(fields[i]);
    }
}

/// Plain fields joined by colons begin and end with something else than a
/// colon, and hold no double colon.
pub proof fn lemma_joined_shape(fields: Seq<Seq<char>>)
    requires
        fields.len() >= 1,
        plain_fields(fields),
    ensures
        joined(fields).len() >= 1,
        joined(fields)[0] != ':',
        joined(fields).last() != ':',
        forall|j: int| !#[trigger] gap_at(joined(fields), j),
    decreases fields.len(),
{
    let first = fields[0];
    assert(first.len() >= 1 && find(first, ':') == first.len());
    lemma_find_misses(first, ':');
    if fields.len() > 1 {
        let rest = fields.drop_first();
        assert(plain_fields(rest)) by {
            assert forall|i: int| 0 <= i < rest.len() implies (#[trigger] rest[i]).len() >= 1
                && find(rest[i], ':') == rest[i].len() by {
                assert(rest[i] == fields[i + 1]);
            }
        }
        lemma_joined_shape(rest);
        let r = joined(rest);
        let s = joined(fields);
        let n = first.len() as int;
        assert(s == first + colon() + r);
        assert(s[0] == first[0]);
        assert(s.last() == r.last());
        assert forall|j: int| !#[trigger] gap_at(s, j) by {
            if 0 <= j && j + 1 < s.len() {
                if j < n {
                    assert(s[j] == first[j]);
                } else if j == n {
                    assert(s[j + 1] == r[0]);
                } else {
                    assert(s[j] == r[j - n - 1]);
                    assert(s[j + 1] == r[j - n]);
                    assert(!gap_at(r, j - n - 1));
                }
            }
        }
    }
}

/// The two groups that an IPv4 literal stands for at the end of an IPv6
/// literal: its upper and its lower half.
pub open spec fn quad_groups(q: Seq<char>) -> Seq<u16> {
    seq![(ipv4_value(q)->0 / 65536) as u16, (ipv4_value(q)->0 % 65536) as u16]
}

/// A list of octets holds digits and dots only.
pub proof fn lemma_dotted_alphabet(s: Seq<char>)
    requires
        dotted_octets(s) is Some,
    ensures
        forall|j: int| 0 <= j < s.len() ==> is_digit(#[trigger] s[j]) || s[j] == '.',
    decreases s.len(),
{
    let k = find(s, '.') as int;
    lemma_find_stops_at(s, '.');
    if k < s.len() {
        let first = s.take(k);
        let rest = s.skip(k + 1);
        lemma_dotted_alphabet(rest);
        assert forall|j: int| 0 <= j < s.len() implies is_digit(#[trigger] s[j]) || s[j]
            == '.' by {
            if j < k {
                assert(s[j] == first[j]);
                assert(is_digit(first[j]));
            } else if j > k {
                assert(s[j] == rest[j - k - 1]);
            }
        }
    }
}

/// An IPv4 literal is a plain field, and is no group.
pub proof fn lemma_quad_is_plain(q: Seq<char>)
    requires
        ipv4_value(q) is Some,
    ensures
        q.len() >= 1,
        find(q, ':') == q.len(),
        hex_group_value(q) is None,
        last_groups(q, true) == Some(quad_groups(q)),
{
    lemma_dotted_alphabet(q);
    assert forall|j: int| 0 <= j < q.len() implies q[j] != ':' by {
        assert(is_digit(q[j]) || q[j] == '.');
    }
    lemma_find(q, ':', q.len() as int);
    let k = find(q, '.') as int;
    lemma_find_stops_at(q, '.');
    if k >= q.len() {
        assert(dotted_octets(q)->0.len() == 1);
    }
    assert(q[k] == '.');
    assert(!is_hex_digit(q[k]));
}

/// Groups and a closing IPv4 literal, joined by colons, are a list of
/// groups: those of the groups, and the two that the literal stands for.
pub proof fn lemma_joined_groups_and_quad(fields: Seq<Seq<char>>, q: Seq<char>)
    requires
        all_groups(fields),
        ipv4_value(q) is Some,
    ensures
        group_list(joined(fields.push(q)), true) == Some(group_values(fields) + quad_groups(q)),
    decreases fields.len(),
{
    let all = fields.push(q);
    lemma_quad_is_plain(q);
    if fields.len() == 0 {
        assert(joined(all) == q);
        assert(group_values(fields) + quad_groups(q) =~= quad_groups(q));
    } else {
        let first = fields[0];
        let rest = fields.drop_first();
        assert(hex_group_value(first) is Some);
        assert(all_groups(rest)) by {
            assert forall|i: int| 0 <= i < rest.len() implies hex_group_value(
                #[trigger] rest[i],
            ) is Some by {
                assert(rest[i] == fields[i + 1]);
            }
        }
        assert(all.drop_first() =~= rest.push(q));
        assert(all[0] == first);
        lemma_joined_groups_and_quad(rest, q);
        lemma_group_list_cons(first, joined(rest.push(q)), true);
        assert(seq![hex_group_value(first)->0] + (group_values(rest) + quad_groups(q))
            =~= group_values(fields) + quad_groups(q)) by {
            assert forall|i: int| 1 <= i < fields.len() implies group_values(rest)[i - 1]
                == group_values(fields)[i] by {
                assert(rest[i - 1] == fields[i]);
            }
        }
    }
}

/// Groups and a closing IPv4 literal are plain fields.
pub proof fn lemma_groups_and_quad_are_plain(fields: Seq<Seq<char>>, q: Seq<char>)
    requires
        all_groups(fields),
        ipv4_value(q) is Some,
    ensures
        plain_fields(fields.push(q)),
{
    let all = fields.push(q);
    lemma_quad_is_plain(q);
    assert forall|i: int| 0 <= i < all.len() implies (#[trigger] all[i]).len() >= 1 && find(
        all[i],
        ':',
    ) == all[i].len() by {
        if i < fields.len() {
            assert(all[i] == fields[i]);
            lemma_group_holds_no_colon(fields[i]);
        }
    }
}

/// A list of fields as it may stand in an IPv6 literal: every field is a
/// group, but the last may be an IPv4 literal where that is allowed.
pub open spec fn group_fields(fields: Seq<Seq<char>>, quad_allowed: bool) -> bool {
    &&& fields.len() >= 1
    &&& all_groups(fields.drop_last())
    &&& hex_group_value(fields.last()) is Some || (quad_allowed && ipv4_value(fields.last())
        is Some)
}

/// The groups that a list of fields writes; none for no field.
pub open spec fn field_values(fields: Seq<Seq<char>>) -> Seq<u16> {
    if fields.len() == 0 {
        Seq::empty()
    } else if hex_group_value(fields.last()) is Some {
        group_values(fields)
    } else {
        group_values(fields.drop_last()) + quad_groups(fields.last())
    }
}

/// A list of fields that may stand in an IPv6 literal is made of plain fields.
pub proof fn lemma_group_fields_are_plain(fields: Seq<Seq<char>>, quad_allowed: bool)
    requires
        group_fields(fields, quad_allowed),
    ensures
        plain_fields(fields),
        hex_group_value(fields.last()) is Some ==> all_groups(fields),
{
    let front = fields.drop_last();
    let last = fields.last();
    assert(fields =~= front.push(last));
    if hex_group_value(last) is Some {
        assert(all_groups(fields)) by {
            assert forall|i: int| 0 <= i < fields.len() implies hex_group_value(
                #[trigger] fields[i],
            ) is Some by {
                if i < front.len() {
                    assert(fields[i] == front[i]);
                }
            }
        }
        lemma_groups_are_plain(fields);
    } else {
        lemma_groups_and_quad_are_plain(front, last);
    }
}

/// Fields that may stand in an IPv6 literal, joined by colons, are a list of
/// groups that the grammar accepts, with the groups that the fields write.
pub proof fn lemma_fields_are_group_list(fields: Seq<Seq<char>>, quad_allowed: bool)
    requires
        group_fields(fields, quad_allowed),
    ensures
        group_list(joined(fields), quad_allowed) == Some(field_values(fields)),
{
    let front = fields.drop_last();
    let last = fields.last();
    assert(fields =~= front.push(last));
    lemma_group_fields_are_plain(fields, quad_allowed);
    if hex_group_value(last) is Some {
        lemma_joined_groups(fields, quad_allowed);
    } else {
        lemma_joined_groups_and_quad(front, last);
    }
}

/// Fields that write eight groups, joined by colons, are an IPv6 literal,
/// and write the address with these groups: eight groups, or six groups and
/// an IPv4 literal.
pub proof fn lemma_full_form_is_ipv6(fields: Seq<Seq<char>>)
    requires
        group_fields(fields, true),
        field_values(fields).len() == 8,
    ensures
        ipv6_groups(joined(fields)) == Some(field_values(fields)),
{
    let s = joined(fields);
    lemma_group_fields_are_plain(fields, true);
    lemma_joined_shape(fields);
    lemma_gap_position(s, s.len() as int);
    lemma_fields_are_group_list(fields, true);
}

/// What may stand on one side of a double colon: fields joined by colons,
/// or nothing.
pub proof fn lemma_side_of_gap(fields: Seq<Seq<char>>, quad_allowed: bool)
    requires
        fields.len() == 0 || group_fields(fields, quad_allowed),
    ensures
        groups_or_none(joined(fields), quad_allowed) == Some(field_values(fields)),
{
    if fields.len() > 0 {
        lemma_group_fields_are_plain(fields, quad_allowed);
        lemma_joined_shape(fields);
        lemma_fields_are_group_list(fields, quad_allowed);
    }
}

/// Two lists of fields around one double colon are an IPv6 literal if they
/// write seven groups at most and the first ends with no IPv4 literal. The
/// groups of the first list are the first of the address, those of the
/// second the last, and every group between them is zero. Either list may be
/// empty.
pub proof fn lemma_compressed_form_is_ipv6(head: Seq<Seq<char>>, tail: Seq<Seq<char>>)
    requires
        head.len() == 0 || group_fields(head, false),
        tail.len() == 0 || group_fields(tail, true),
        field_values(head).len() + field_values(tail).len() <= 7,
    ensures
        ipv6_groups(joined(head) + gap() + joined(tail)) == Some(
            field_values(head) + zero_groups(8 - field_values(head).len() - field_values(
                tail,
            ).len()) + field_values(tail),
        ),
{
    let h = joined(head);
    let t = joined(tail);
    let s = h + gap() + t;
    let n = h.len() as int;
    assert(s[n] == ':');
    assert(s[n + 1] == ':');
    assert(gap_at(s, n));
    assert forall|j: int| 0 <= j < n implies !#[trigger] gap_at(s, j) by {
        lemma_group_fields_are_plain(head, false);
        lemma_joined_shape(head);
        assert(s[j] == h[j]);
        if j + 1 < n {
            assert(s[j + 1] == h[j + 1]);
            assert(!gap_at(h, j));
        }
    }
    lemma_gap_position(s, n);
    assert(s.take(n) =~= h);
    assert(s.skip(n + 2) =~= t);
    lemma_side_of_gap(head, false);
    lemma_side_of_gap(tail, true);
}

/// Every list of groups that the grammar accepts is a list of fields joined
/// by colons: these fields are returned.
pub proof fn lemma_group_list_fields(s: Seq<char>, quad_allowed: bool) -> (fields: Seq<Seq<char>>)
    requires
        group_list(s, quad_allowed) is Some,
    ensures
        s == joined(fields),
        group_fields(fields, quad_allowed),
        group_list(s, quad_allowed) == Some(field_values(fields)),
    decreases s.len(),
{
    let k = find(s, ':') as int;
    lemma_find_stops_at(s, ':');
    if k >= s.len() {
        let fields = seq![s];
        assert(fields.drop_last() =~= Seq::<Seq<char>>::empty());
        if hex_group_value(s) is Some {
            assert(group_values(fields) =~= seq![hex_group_value(s)->0]);
        } else {
            assert(group_values(fields.drop_last()) + quad_groups(s) =~= quad_groups(s));
        }
        fields
    } else {
        let first = s.take(k);
        let rest = s.skip(k + 1);
        let more = lemma_group_list_fields(rest, quad_allowed);
        let fields = seq![first] + more;
        assert(fields.drop_first() =~= more);
        assert(s =~= first + colon() + rest);
        assert(fields.drop_last() =~= seq![first] + more.drop_last());
        assert(fields.last() == more.last());
        assert(all_groups(fields.drop_last())) by {
            assert forall|i: int| 0 <= i < fields.drop_last().len() implies hex_group_value(
                #[trigger] fields.drop_last()[i],
            ) is Some by {
                if i > 0 {
                    assert(fields.drop_last()[i] == more.drop_last()[i - 1]);
                }
            }
        }
        let v = hex_group_value(first)->0;
        if hex_group_value(more.last()) is Some {
            assert(seq![v] + group_values(more) =~= group_values(fields));
        } else {
            assert(seq![v] + (group_values(more.drop_last()) + quad_groups(more.last()))
                =~= group_values(fields.drop_last()) + quad_groups(fields.last()));
        }
        fields
    }
}

/// What the grammar accepts on one side of a double colon is a list of
/// fields joined by colons, or nothing: the fields are returned.
pub proof fn lemma_side_fields(s: Seq<char>, quad_allowed: bool) -> (fields: Seq<Seq<char>>)
    requires
        groups_or_none(s, quad_allowed) is Some,
    ensures
        s == joined(fields),
        fields.len() == 0 || group_fields(fields, quad_allowed),
        groups_or_none(s, quad_allowed) == Some(field_values(fields)),
{
    if s.len() == 0 {
        assert(s =~= Seq::<char>::empty());
        Seq::empty()
    } else {
        lemma_group_list_fields(s, quad_allowed)
    }
}

/// Every IPv6 literal has one of two forms. In the full form it is a list
/// of fields that write eight groups. In the compressed form it is two such
/// lists, each of which may be empty, around a double colon; they write
/// seven groups at most, and the first of them ends with no IPv4 literal.
/// What is returned are the two lists, and whether the form is the
/// compressed one; in the full form the first list is empty.
pub proof fn lemma_ipv6_fields(s: Seq<char>) -> (form: (Seq<Seq<char>>, Seq<Seq<char>>, bool))
    requires
        ipv6_groups(s) is Some,
    ensures
        !form.2 ==> form.0.len() == 0 && s == joined(form.1) && group_fields(form.1, true)
            && field_values(form.1).len() == 8 && ipv6_groups(s) == Some(field_values(form.1)),
        form.2 ==> s == joined(form.0) + gap() + joined(form.1),
        form.2 ==> form.0.len() == 0 || group_fields(form.0, false),
        form.2 ==> form.1.len() == 0 || group_fields(form.1, true),
        form.2 ==> field_values(form.0).len() + field_values(form.1).len() <= 7,
        form.2 ==> ipv6_groups(s) == Some(
            field_values(form.0) + zero_groups(
                8 - field_values(form.0).len() - field_values(form.1).len(),
            ) + field_values(form.1),
        ),
{
    let g = gap_position(s) as int;
    lemma_gap_stops_at(s);
    if g >= s.len() {
        let fields = lemma_group_list_fields(s, true);
        (Seq::empty(), fields, false)
    } else {
        let head = lemma_side_fields(s.take(g), false);
        let tail = lemma_side_fields(s.skip(g + 2), true);
        assert(s =~= s.take(g) + gap() + s.skip(g + 2));
        (head, tail, true)
    }
}

/// `gap_position` stays inside the text, and stops at a double colon if
/// there is one.
pub proof fn lemma_gap_stops_at(s: Seq<char>)
    ensures
        gap_position(s) <= s.len(),
        gap_position(s) < s.len() ==> gap_at(s, gap_position(s) as int),
    decreases s.len(),
{
    if s.len() >= 2 && !(s[0] == ':' && s[1] == ':') {
        let t = s.drop_first();
        lemma_gap_stops_at(t);
        let g = gap_position(t) as int;
        if g < t.len() {
            assert(s[g + 1] == t[g]);
            assert(s[g + 2] == t[g + 1]);
        }
    }
}

} // verus!
