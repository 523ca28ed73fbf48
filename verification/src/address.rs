//! Address literals: the textual forms of IPv4 and IPv6 addresses that a
//! lease option may carry, and the parsers that accept exactly those forms.
//!
//! An IPv4 literal is four decimal octets separated by dots; an octet has one
//! to three digits, no leading zero, and a value of at most 255.
//!
//! An IPv6 literal is a colon-separated list of groups of one to four
//! hexadecimal digits. It has eight groups, or fewer around a single `::` that
//! stands for the missing groups of zeros. The last two groups may be written
//! as an IPv4 literal.

use crate::text::find;
use vstd::prelude::*;

verus! {

/// An IP address as a number: its octets or groups in network order.
#[derive(Clone, Copy, Debug, PartialEq, Eq, Hash, Structural)]
pub enum IpAddress {
    V4(u32),
    V6(u128),
}

impl IpAddress {
    /// Whether this is an IPv4 address.
    pub open spec fn is_v4(&self) -> bool {
        *self is V4
    }

    /// Whether this is an IPv4 address.
    #[verifier::when_used_as_spec(is_v4)]
    pub fn is_ipv4(&self) -> (b: bool)
        ensures
            b == self.is_v4(),
    {
        match self {
            IpAddress::V4(_) => true,
            IpAddress::V6(_) => false,
        }
    }
}

/// An ASCII decimal digit.
pub open spec fn is_digit(c: char) -> bool {
    '0' <= c && c <= '9'
}

/// The number that a decimal digit writes.
pub open spec fn digit_value(c: char) -> int {
    c as int - '0' as int
}

/// An ASCII hexadecimal digit, in either case.
pub open spec fn is_hex_digit(c: char) -> bool {
    is_digit(c) || ('a' <= c && c <= 'f') || ('A' <= c && c <= 'F')
}

/// The number that a hexadecimal digit writes.
pub open spec fn hex_digit_value(c: char) -> int {
    if is_digit(c) {
        c as int - '0' as int
    } else if 'a' <= c && c <= 'f' {
        c as int - 'a' as int + 10
    } else {
        c as int - 'A' as int + 10
    }
}

/// Every character of `s` is a decimal digit.
pub open spec fn all_digits(s: Seq<char>) -> bool {
    forall|i: int| 0 <= i < s.len() ==> is_digit(#[trigger] s[i])
}

/// Every character of `s` is a hexadecimal digit.
pub open spec fn all_hex_digits(s: Seq<char>) -> bool {
    forall|i: int| 0 <= i < s.len() ==> is_hex_digit(#[trigger] s[i])
}

/// The number that a string of decimal digits writes.
pub open spec fn decimal_value(s: Seq<char>) -> int
    decreases s.len(),
{
    if s.len() == 0 {
        0
    } else {
        decimal_value(s.drop_last()) * 10 + digit_value(s.last())
    }
}

/// The number that a string of hexadecimal digits writes.
pub open spec fn hex_value(s: Seq<char>) -> int
    decreases s.len(),
{
    if s.len() == 0 {
        0
    } else {
        hex_value(s.drop_last()) * 16 + hex_digit_value(s.last())
    }
}

/// One octet of an IPv4 literal.
pub open spec fn octet_value(s: Seq<char>) -> Option<u8> {
    if 1 <= s.len() <= 3 && all_digits(s) && (s.len() > 1 ==> s[0] != '0') && decimal_value(s)
        <= 255 {
        Some(decimal_value(s) as u8)
    } else {
        None
    }
}

/// One group of an IPv6 literal.
pub open spec fn hex_group_value(s: Seq<char>) -> Option<u16> {
    if 1 <= s.len() <= 4 && all_hex_digits(s) {
        Some(hex_value(s) as u16)
    } else {
        None
    }
}

/// Puts `first` in front of a list that may be absent.
pub open spec fn prepend<A>(first: Seq<A>, rest: Option<Seq<A>>) -> Option<Seq<A>> {
    match rest {
        Some(r) => Some(first + r),
        None => None,
    }
}

/// The octets of a dot-separated list, if every field is an octet.
pub open spec fn dotted_octets(s: Seq<char>) -> Option<Seq<u8>>
    decreases s.len(),
{
    let k = find(s, '.') as int;
    if k >= s.len() {
        match octet_value(s) {
            Some(o) => Some(seq![o]),
            None => None,
        }
    } else {
        match octet_value(s.take(k)) {
            Some(o) => prepend(seq![o], dotted_octets(s.skip(k + 1))),
            None => None,
        }
    }
}

/// Four octets as one number, the first octet highest.
pub open spec fn pack4(o: Seq<u8>) -> u32 {
    (((o[0] as int * 256 + o[1] as int) * 256 + o[2] as int) * 256 + o[3] as int) as u32
}

/// The address that an IPv4 literal writes; `None` for any other text.
pub open spec fn ipv4_value(s: Seq<char>) -> Option<u32> {
    match dotted_octets(s) {
        Some(o) => if o.len() == 4 {
            Some(pack4(o))
        } else {
            None
        },
        None => None,
    }
}

/// The last field of a group list: one group, or, where allowed, an IPv4
/// literal that stands for two groups.
pub open spec fn last_groups(s: Seq<char>, quad_allowed: bool) -> Option<Seq<u16>> {
    match hex_group_value(s) {
        Some(g) => Some(seq![g]),
        None => if quad_allowed {
            match ipv4_value(s) {
                Some(v) => Some(seq![(v / 65536) as u16, (v % 65536) as u16]),
                None => None,
            }
        } else {
            None
        },
    }
}

/// The groups of a non-empty colon-separated list, if every field is a group.
pub open spec fn group_list(s: Seq<char>, quad_allowed: bool) -> Option<Seq<u16>>
    decreases s.len(),
{
    let k = find(s, ':') as int;
    if k >= s.len() {
        last_groups(s, quad_allowed)
    } else {
        match hex_group_value(s.take(k)) {
            Some(g) => prepend(seq![g], group_list(s.skip(k + 1), quad_allowed)),
            None => None,
        }
    }
}

/// The groups on one side of a `::`, where nothing at all is allowed.
pub open spec fn groups_or_none(s: Seq<char>, quad_allowed: bool) -> Option<Seq<u16>> {
    if s.len() == 0 {
        Some(Seq::empty())
    } else {
        group_list(s, quad_allowed)
    }
}

/// Whether a `::` starts at position `j` of `s`.
pub open spec fn gap_at(s: Seq<char>, j: int) -> bool {
    0 <= j && j + 1 < s.len() && s[j] == ':' && s[j + 1] == ':'
}

/// Position of the first `::` in `s`, or `s.len()` if there is none.
pub open spec fn gap_position(s: Seq<char>) -> nat
    decreases s.len(),
{
    if s.len() < 2 {
        s.len()
    } else if s[0] == ':' && s[1] == ':' {
        0
    } else {
        1 + gap_position(s.drop_first())
    }
}

/// `n` groups of zeros.
pub open spec fn zero_groups(n: int) -> Seq<u16> {
    Seq::new(n as nat, |i: int| 0u16)
}

/// The eight groups that an IPv6 literal writes; `None` for any other text.
pub open spec fn ipv6_groups(s: Seq<char>) -> Option<Seq<u16>> {
    let g = gap_position(s) as int;
    if g >= s.len() {
        match group_list(s, true) {
            Some(groups) => if groups.len() == 8 {
                Some(groups)
            } else {
                None
            },
            None => None,
        }
    } else {
        match (groups_or_none(s.take(g), false), groups_or_none(s.skip(g + 2), true)) {
            (Some(head), Some(tail)) => if head.len() + tail.len() <= 7 {
                Some(head + zero_groups(8 - head.len() - tail.len()) + tail)
            } else {
                None
            },
            _ => None,
        }
    }
}

/// Eight groups as one number, the first group highest.
pub open spec fn pack8(g: Seq<u16>) -> u128 {
    (((((((g[0] as int * 65536 + g[1] as int) * 65536 + g[2] as int) * 65536 + g[3] as int) * 65536
        + g[4] as int) * 65536 + g[5] as int) * 65536 + g[6] as int) * 65536 + g[7] as int) as u128
}

/// The address that an IPv6 literal writes; `None` for any other text.
pub open spec fn ipv6_value(s: Seq<char>) -> Option<u128> {
    match ipv6_groups(s) {
        Some(g) => Some(pack8(g)),
        None => None,
    }
}

} // verus!
