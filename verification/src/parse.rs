//! Parsers for address literals. Each one returns exactly what the grammar in
//! `address` assigns to the text, and `None` for every other text.

use crate::address::{
    all_digits, all_hex_digits, decimal_value, dotted_octets, gap_at, gap_position, group_list,
    groups_or_none, hex_digit_value, hex_group_value, hex_value, ipv4_value, ipv6_value, is_digit,
    is_hex_digit, last_groups, octet_value, pack8, prepend, zero_groups,
};
use crate::text::{chars_of, find_in};
use vstd::prelude::*;

verus! {

/// Parses `chars[from..to]` as one octet of an IPv4 literal.
pub fn parse_octet(chars: &Vec<char>, from: usize, to: usize) -> (r: Option<u8>)
    requires
        from <= to <= chars.len(),
    ensures
        r == octet_value(chars@.subrange(from as int, to as int)),
{
    let ghost s = chars@.subrange(from as int, to as int);
    let len: usize = to - from;
    if len == 0 || len > 3 {
        return None;
    }
    let mut value: u32 = 0;
    let mut i: usize = from;
    while i < to
        invariant
            from <= i <= to <= chars.len(),
            to - from <= 3,
            s == chars@.subrange(from as int, to as int),
            all_digits(s.take(i - from)),
            value == decimal_value(s.take(i - from)),
            i - from == 0 ==> value == 0,
            i - from == 1 ==> value <= 9,
            i - from == 2 ==> value <= 99,
            i - from == 3 ==> value <= 999,
        decreases to - i,
    {
        let c: char = chars[i];
        if !('0' <= c && c <= '9') {
            proof {
                assert(s[i - from] == c);
                assert(!is_digit(s[i - from]));
            }
            return None;
        }
        proof {
            let before = s.take(i - from);
            let after = s.take(i - from + 1);
            assert(after.drop_last() =~= before);
            assert(after.last() == c);
            assert forall|j: int| 0 <= j < after.len() implies is_digit(#[trigger] after[j]) by {
                if j < before.len() {
                    assert(after[j] == before[j]);
                }
            }
        }
        value = value * 10 + (c as u32 - '0' as u32);
        i += 1;
    }
    proof {
        assert(s.take(to - from) =~= s);
    }
    if len > 1 && chars[from] == '0' {
        return None;
    }
    if value > 255 {
        return None;
    }
    Some(value as u8)
}

/// Parses `chars[from..to]` as one group of an IPv6 literal.
pub fn parse_hex_group(chars: &Vec<char>, from: usize, to: usize) -> (r: Option<u16>)
    requires
        from <= to <= chars.len(),
    ensures
        r == hex_group_value(chars@.subrange(from as int, to as int)),
{
    let ghost s = chars@.subrange(from as int, to as int);
    let len: usize = to - from;
    if len == 0 || len > 4 {
        return None;
    }
    let mut value: u32 = 0;
    let mut i: usize = from;
    while i < to
        invariant
            from <= i <= to <= chars.len(),
            to - from <= 4,
            s == chars@.subrange(from as int, to as int),
            all_hex_digits(s.take(i - from)),
            value == hex_value(s.take(i - from)),
            i - from == 0 ==> value == 0,
            i - from == 1 ==> value <= 0xf,
            i - from == 2 ==> value <= 0xff,
            i - from == 3 ==> value <= 0xfff,
            i - from == 4 ==> value <= 0xffff,
        decreases to - i,
    {
        let c: char = chars[i];
        let digit: u32 = if '0' <= c && c <= '9' {
            c as u32 - '0' as u32
        } else if 'a' <= c && c <= 'f' {
            c as u32 - 'a' as u32 + 10
        } else if 'A' <= c && c <= 'F' {
            c as u32 - 'A' as u32 + 10
        } else {
            proof {
                assert(s[i - from] == c);
                assert(!is_hex_digit(s[i - from]));
            }
            return None;
        };
        proof {
            let before = s.take(i - from);
            let after = s.take(i - from + 1);
            assert(after.drop_last() =~= before);
            assert(after.last() == c);
            assert(digit == hex_digit_value(c));
            assert forall|j: int| 0 <= j < after.len() implies is_hex_digit(
                #[trigger] after[j],
            ) by {
                if j < before.len() {
                    assert(after[j] == before[j]);
                }
            }
        }
        value = value * 16 + digit;
        i += 1;
    }
    proof {
        assert(s.take(to - from) =~= s);
    }
    Some(value as u16)
}

/// Parses `chars[from..to]` as a dot-separated list of octets.
pub fn parse_dotted(chars: &Vec<char>, from: usize, to: usize) -> (r: Option<Vec<u8>>)
    requires
        from <= to <= chars.len(),
    ensures
        r is Some <==> dotted_octets(chars@.subrange(from as int, to as int)) is Some,
        r is Some ==> r->0@ == dotted_octets(chars@.subrange(from as int, to as int))->0,
{
    let ghost whole = chars@.subrange(from as int, to as int);
    let mut out: Vec<u8> = Vec::new();
    let mut pos: usize = from;
    proof {
        assert(prepend(out@, dotted_octets(whole)) == dotted_octets(whole)) by {
            if dotted_octets(whole) is Some {
                assert(out@ + dotted_octets(whole)->0 =~= dotted_octets(whole)->0);
            }
        }
    }
    loop
        invariant
            from <= pos <= to <= chars.len(),
            whole == chars@.subrange(from as int, to as int),
            dotted_octets(whole) == prepend(
                out@,
                dotted_octets(chars@.subrange(pos as int, to as int)),
            ),
        decreases to - pos,
    {
        let ghost rest = chars@.subrange(pos as int, to as int);
        let k: usize = find_in(chars, pos, to, '.');
        let field = parse_octet(chars, pos, k);
        proof {
            assert(rest.take(k - pos) =~= chars@.subrange(pos as int, k as int));
            if k == to {
                assert(rest =~= chars@.subrange(pos as int, k as int));
            } else {
                assert(rest.skip(k - pos + 1) =~= chars@.subrange(k + 1, to as int));
            }
        }
        match field {
            None => {
                return None;
            },
            Some(o) => {
                if k == to {
                    proof {
                        assert(dotted_octets(rest) == Some(seq![o]));
                    }
                    out.push(o);
                    return Some(out);
                }
                proof {
                    let next = dotted_octets(chars@.subrange(k + 1, to as int));
                    assert(dotted_octets(rest) == prepend(seq![o], next));
                    if next is Some {
                        assert(out@ + (seq![o] + next->0) =~= out@.push(o) + next->0);
                    }
                }
                out.push(o);
                pos = k + 1;
            },
        }
    }
}

/// Parses `chars[from..to]` as an IPv4 literal.
pub fn parse_ipv4_in(chars: &Vec<char>, from: usize, to: usize) -> (r: Option<u32>)
    requires
        from <= to <= chars.len(),
    ensures
        r == ipv4_value(chars@.subrange(from as int, to as int)),
{
    match parse_dotted(chars, from, to) {
        None => None,
        Some(o) => {
            if o.len() != 4 {
                None
            } else {
                let a: u32 = o[0] as u32;
                let b: u32 = o[1] as u32;
                let c: u32 = o[2] as u32;
                let d: u32 = o[3] as u32;
                Some(((a * 256 + b) * 256 + c) * 256 + d)
            }
        },
    }
}

/// Parses a text as an IPv4 literal.
pub fn parse_ipv4(text: &str) -> (r: Option<u32>)
    ensures
        r == ipv4_value(text@),
{
    let chars = chars_of(text);
    proof {
        assert(chars@.subrange(0, chars@.len() as int) =~= chars@);
    }
    parse_ipv4_in(&chars, 0, chars.len())
}

/// `gap_position` is characterised by the position it returns.
pub proof fn lemma_gap_position(s: Seq<char>, k: int)
    requires
        0 <= k <= s.len(),
        forall|j: int| 0 <= j < k ==> !#[trigger] gap_at(s, j),
        k < s.len() ==> gap_at(s, k),
    ensures
        gap_position(s) == k,
    decreases s.len(),
{
    if s.len() < 2 {
    } else if s[0] == ':' && s[1] == ':' {
        assert(gap_at(s, 0));
    } else {
        let t = s.drop_first();
        assert(!gap_at(s, 0));
        assert forall|j: int| 0 <= j < k - 1 implies !#[trigger] gap_at(t, j) by {
            assert(!gap_at(s, j + 1));
            if j + 1 < t.len() {
                assert(t[j] == s[j + 1]);
                assert(t[j + 1] == s[j + 1 + 1]);
            }
        }
        if k < s.len() {
            assert(t[k - 1] == s[k]);
            assert(t[k] == s[k + 1]);
        }
        lemma_gap_position(t, k - 1);
    }
}

/// Finds the first `::` in `chars[from..to]`.
pub fn find_gap_in(chars: &Vec<char>, from: usize, to: usize) -> (g: usize)
    requires
        from <= to <= chars.len(),
    ensures
        from <= g <= to,
        g < to ==> g + 2 <= to,
        g - from == gap_position(chars@.subrange(from as int, to as int)),
{
    let ghost s = chars@.subrange(from as int, to as int);
    let mut g: usize = from;
    while g < to
        invariant
            from <= g <= to <= chars.len(),
            s == chars@.subrange(from as int, to as int),
            forall|j: int| 0 <= j < g - from ==> !#[trigger] gap_at(s, j),
        decreases to - g,
    {
        if g + 1 < to && chars[g] == ':' && chars[g + 1] == ':' {
            proof {
                assert(s[g - from] == chars@[g as int]);
                assert(s[g - from + 1] == chars@[g + 1]);
                assert(gap_at(s, g - from));
                lemma_gap_position(s, g - from);
            }
            return g;
        }
        proof {
            if g - from + 1 < s.len() {
                assert(s[g - from] == chars@[g as int]);
                assert(s[g - from + 1] == chars@[g + 1]);
            }
            assert(!gap_at(s, g - from));
        }
        g += 1;
    }
    proof {
        lemma_gap_position(s, s.len() as int);
    }
    g
}

/// Parses `chars[from..to]` as the last field of a group list.
pub fn parse_last_groups(chars: &Vec<char>, from: usize, to: usize, quad_allowed: bool) -> (r:
    Option<Vec<u16>>)
    requires
        from <= to <= chars.len(),
    ensures
        r is Some <==> last_groups(chars@.subrange(from as int, to as int), quad_allowed) is Some,
        r is Some ==> r->0@ == last_groups(
            chars@.subrange(from as int, to as int),
            quad_allowed,
        )->0,
{
    let mut out: Vec<u16> = Vec::new();
    match parse_hex_group(chars, from, to) {
        Some(g) => {
            out.push(g);
            proof {
                assert(out@ =~= seq![g]);
            }
            Some(out)
        },
        None => {
            if !quad_allowed {
                return None;
            }
            match parse_ipv4_in(chars, from, to) {
                Some(v) => {
                    let high: u16 = (v / 65536) as u16;
                    let low: u16 = (v % 65536) as u16;
                    out.push(high);
                    out.push(low);
                    proof {
                        assert(out@ =~= seq![high, low]);
                    }
                    Some(out)
                },
                None => None,
            }
        },
    }
}

/// Parses `chars[from..to]` as a colon-separated list of groups.
pub fn parse_groups(chars: &Vec<char>, from: usize, to: usize, quad_allowed: bool) -> (r: Option<
    Vec<u16>,
>)
    requires
        from <= to <= chars.len(),
    ensures
        r is Some <==> group_list(chars@.subrange(from as int, to as int), quad_allowed) is Some,
        r is Some ==> r->0@ == group_list(
            chars@.subrange(from as int, to as int),
            quad_allowed,
        )->0,
{
    let ghost whole = chars@.subrange(from as int, to as int);
    let mut out: Vec<u16> = Vec::new();
    let mut pos: usize = from;
    proof {
        if group_list(whole, quad_allowed) is Some {
            assert(out@ + group_list(whole, quad_allowed)->0 =~= group_list(
                whole,
                quad_allowed,
            )->0);
        }
    }
    loop
        invariant
            from <= pos <= to <= chars.len(),
            whole == chars@.subrange(from as int, to as int),
            group_list(whole, quad_allowed) == prepend(
                out@,
                group_list(chars@.subrange(pos as int, to as int), quad_allowed),
            ),
        decreases to - pos,
    {
        let ghost rest = chars@.subrange(pos as int, to as int);
        let k: usize = find_in(chars, pos, to, ':');
        proof {
            assert(rest.take(k - pos) =~= chars@.subrange(pos as int, k as int));
            if k == to {
                assert(rest =~= chars@.subrange(pos as int, k as int));
            } else {
                assert(rest.skip(k - pos + 1) =~= chars@.subrange(k + 1, to as int));
            }
        }
        if k == to {
            match parse_last_groups(chars, pos, to, quad_allowed) {
                None => {
                    return None;
                },
                Some(last) => {
                    let ghost before = out@;
                    let mut i: usize = 0;
                    while i < last.len()
                        invariant
                            i <= last.len(),
                            out@ == before + last@.take(i as int),
                        decreases last.len() - i,
                    {
                        out.push(last[i]);
                        proof {
                            assert(last@.take(i + 1) =~= last@.take(i as int).push(last@[i as int]));
                        }
                        i += 1;
                    }
                    proof {
                        assert(last@.take(last@.len() as int) =~= last@);
                    }
                    return Some(out);
                },
            }
        }
        match parse_hex_group(chars, pos, k) {
            None => {
                return None;
            },
            Some(g) => {
                proof {
                    let next = group_list(chars@.subrange(k + 1, to as int), quad_allowed);
                    assert(group_list(rest, quad_allowed) == prepend(seq![g], next));
                    if next is Some {
                        assert(out@ + (seq![g] + next->0) =~= out@.push(g) + next->0);
                    }
                }
                out.push(g);
                pos = k + 1;
            },
        }
    }
}

/// Packs eight groups into one number, the first group highest.
pub fn pack_groups(g: &Vec<u16>) -> (v: u128)
    requires
        g.len() == 8,
    ensures
        v == pack8(g@),
{
    let v0: u128 = g[0] as u128;
    let v1: u128 = v0 * 65536 + g[1] as u128;
    let v2: u128 = v1 * 65536 + g[2] as u128;
    let v3: u128 = v2 * 65536 + g[3] as u128;
    let v4: u128 = v3 * 65536 + g[4] as u128;
    let v5: u128 = v4 * 65536 + g[5] as u128;
    let v6: u128 = v5 * 65536 + g[6] as u128;
    let v7: u128 = v6 * 65536 + g[7] as u128;
    v7
}

/// Parses `chars[from..to]` as an IPv6 literal.
pub fn parse_ipv6_in(chars: &Vec<char>, from: usize, to: usize) -> (r: Option<u128>)
    requires
        from <= to <= chars.len(),
    ensures
        r == ipv6_value(chars@.subrange(from as int, to as int)),
{
    let ghost s = chars@.subrange(from as int, to as int);
    let g: usize = find_gap_in(chars, from, to);
    if g == to {
        return match parse_groups(chars, from, to, true) {
            None => None,
            Some(groups) => {
                if groups.len() == 8 {
                    Some(pack_groups(&groups))
                } else {
                    None
                }
            },
        };
    }
    proof {
        assert(s.take(g - from) =~= chars@.subrange(from as int, g as int));
        assert(s.skip(g - from + 2) =~= chars@.subrange(g + 2, to as int));
    }
    let head: Option<Vec<u16>> = if g == from {
        Some(Vec::new())
    } else {
        parse_groups(chars, from, g, false)
    };
    let tail: Option<Vec<u16>> = if g + 2 == to {
        Some(Vec::new())
    } else {
        parse_groups(chars, g + 2, to, true)
    };
    match (head, tail) {
        (Some(h), Some(t)) => {
            proof {
                assert(groups_or_none(s.take(g - from), false) == Some(h@));
                assert(groups_or_none(s.skip(g - from + 2), true) == Some(t@));
            }
            if h.len() > 7 || t.len() > 7 - h.len() {
                return None;
            }
            let zeros: usize = 8 - h.len() - t.len();
            let mut all: Vec<u16> = Vec::new();
            let mut i: usize = 0;
            while i < h.len()
                invariant
                    i <= h.len(),
                    all@ == h@.take(i as int),
                decreases h.len() - i,
            {
                all.push(h[i]);
                proof {
                    assert(h@.take(i + 1) =~= h@.take(i as int).push(h@[i as int]));
                }
                i += 1;
            }
            let mut z: usize = 0;
            while z < zeros
                invariant
                    z <= zeros,
                    all@ == h@.take(h@.len() as int) + zero_groups(z as int),
                decreases zeros - z,
            {
                all.push(0u16);
                proof {
                    assert(zero_groups(z + 1) =~= zero_groups(z as int).push(0u16));
                }
                z += 1;
            }
            let mut j: usize = 0;
            while j < t.len()
                invariant
                    j <= t.len(),
                    all@ == h@.take(h@.len() as int) + zero_groups(zeros as int) + t@.take(
                        j as int,
                    ),
                decreases t.len() - j,
            {
                all.push(t[j]);
                proof {
                    assert(t@.take(j + 1) =~= t@.take(j as int).push(t@[j as int]));
                }
                j += 1;
            }
            proof {
                assert(h@.take(h@.len() as int) =~= h@);
                assert(t@.take(t@.len() as int) =~= t@);
                assert(all@ == h@ + zero_groups(8 - h@.len() - t@.len()) + t@);
            }
            Some(pack_groups(&all))
        },
        _ => None,
    }
}

/// Parses a text as an IPv6 literal.
pub fn parse_ipv6(text: &str) -> (r: Option<u128>)
    ensures
        r == ipv6_value(text@),
{
    let chars = chars_of(text);
    proof {
        assert(chars@.subrange(0, chars@.len() as int) =~= chars@);
    }
    parse_ipv6_in(&chars, 0, chars.len())
}


} // verus!
