//! Character-level helpers shared by the name matcher and the lease parsers.
//!
//! Text is handled as a sequence of `char`s. Executable code works on a
//! `Vec<char>` and an index range, so that a token or a field can be examined
//! in place.

use vstd::prelude::*;

verus! {

/// The separators of a lease option string: the ASCII whitespace characters.
pub open spec fn is_space(c: char) -> bool {
    c == ' ' || c == '\t' || c == '\n' || c == '\r' || c == '\x0c'
}

/// Whether `c` is a separator.
pub fn char_is_space(c: char) -> (b: bool)
    ensures
        b == is_space(c),
{
    c == ' ' || c == '\t' || c == '\n' || c == '\r' || c == '\x0c'
}

/// ASCII lower-casing of one character; every other character is kept.
pub open spec fn lower_char(c: char) -> char {
    if 'A' <= c && c <= 'Z' {
        ((c as u8) + 32) as char
    } else {
        c
    }
}

/// The ASCII lower case of `c`.
pub fn to_lower(c: char) -> (r: char)
    ensures
        r == lower_char(c),
{
    if 'A' <= c && c <= 'Z' {
        ((c as u8) + 32) as char
    } else {
        c
    }
}

/// ASCII lower-casing of a whole text.
pub open spec fn lower(s: Seq<char>) -> Seq<char> {
    Seq::new(s.len(), |i: int| lower_char(s[i]))
}

/// Lower-casing is idempotent on characters.
pub proof fn lemma_lower_char_idempotent(c: char)
    ensures
        lower_char(lower_char(c)) == lower_char(c),
{
}

/// The characters of a string slice.
pub fn chars_of(s: &str) -> (v: Vec<char>)
    ensures
        v@ == s@,
{
    let mut v: Vec<char> = Vec::new();
    for c in it: s.chars()
        invariant
            v@ == s@.take(it.index() as int),
            it.seq() == s@,
    {
        v.push(c);
    }
    v
}

/// Position of the first occurrence of `c` in `s`, or `s.len()` if there is none.
pub open spec fn find(s: Seq<char>, c: char) -> nat
    decreases s.len(),
{
    if s.len() == 0 || s[0] == c {
        0
    } else {
        1 + find(s.drop_first(), c)
    }
}

/// `find` is characterised by the position it returns.
pub proof fn lemma_find(s: Seq<char>, c: char, k: int)
    requires
        0 <= k <= s.len(),
        forall|j: int| 0 <= j < k ==> s[j] != c,
        k < s.len() ==> s[k] == c,
    ensures
        find(s, c) == k,
    decreases k,
{
    if k > 0 {
        let t = s.drop_first();
        assert forall|j: int| 0 <= j < k - 1 implies t[j] != c by {
            assert(t[j] == s[j + 1]);
        }
        lemma_find(t, c, k - 1);
    }
}

/// `find` stays inside the text, and stops at an occurrence if there is one.
pub proof fn lemma_find_stops_at(s: Seq<char>, c: char)
    ensures
        find(s, c) <= s.len(),
        find(s, c) < s.len() ==> s[find(s, c) as int] == c,
    decreases s.len(),
{
    if !(s.len() == 0 || s[0] == c) {
        let t = s.drop_first();
        lemma_find_stops_at(t, c);
        if find(s, c) < s.len() {
            assert(s[find(s, c) as int] == t[find(t, c) as int]);
        }
    }
}

/// Where `find` runs to the end of the text, the text does not hold `c`.
pub proof fn lemma_find_misses(s: Seq<char>, c: char)
    requires
        find(s, c) == s.len(),
    ensures
        forall|j: int| 0 <= j < s.len() ==> #[trigger] s[j] != c,
    decreases s.len(),
{
    if s.len() > 0 {
        let t = s.drop_first();
        lemma_find_misses(t, c);
        assert forall|j: int| 0 <= j < s.len() implies #[trigger] s[j] != c by {
            if j > 0 {
                assert(s[j] == t[j - 1]);
            }
        }
    }
}

/// Finds the first `c` in `chars[from..to]`.
pub fn find_in(chars: &Vec<char>, from: usize, to: usize, c: char) -> (k: usize)
    requires
        from <= to <= chars.len(),
    ensures
        from <= k <= to,
        k - from == find(chars@.subrange(from as int, to as int), c),
{
    let mut k: usize = from;
    while k < to && chars[k] != c
        invariant
            from <= k <= to <= chars.len(),
            forall|j: int| from <= j < k ==> chars@[j] != c,
        decreases to - k,
    {
        k += 1;
    }
    proof {
        let sub = chars@.subrange(from as int, to as int);
        lemma_find(sub, c, k - from);
    }
    k
}

/// Length of the run of non-space characters at the start of `s`.
pub open spec fn run_length(s: Seq<char>) -> nat
    decreases s.len(),
{
    if s.len() == 0 || is_space(s[0]) {
        0
    } else {
        1 + run_length(s.drop_first())
    }
}

/// A run is no longer than its text.
pub proof fn lemma_run_length_bound(s: Seq<char>)
    ensures
        run_length(s) <= s.len(),
    decreases s.len(),
{
    if s.len() != 0 && !is_space(s[0]) {
        lemma_run_length_bound(s.drop_first());
    }
}

/// `run_length` is characterised by the position at which the run stops.
pub proof fn lemma_run_length(s: Seq<char>, k: int)
    requires
        0 <= k <= s.len(),
        forall|j: int| 0 <= j < k ==> !is_space(s[j]),
        k < s.len() ==> is_space(s[k]),
    ensures
        run_length(s) == k,
    decreases k,
{
    if k > 0 {
        let t = s.drop_first();
        assert forall|j: int| 0 <= j < k - 1 implies !is_space(t[j]) by {
            assert(t[j] == s[j + 1]);
        }
        lemma_run_length(t, k - 1);
    }
}

/// The whitespace-separated tokens of `s`: its maximal runs of non-space
/// characters, from left to right. Runs of separators produce no empty token.
pub open spec fn tokens(s: Seq<char>) -> Seq<Seq<char>>
    decreases s.len(),
    via tokens_decreases
{
    if s.len() == 0 {
        Seq::empty()
    } else if is_space(s[0]) {
        tokens(s.drop_first())
    } else {
        let n = run_length(s) as int;
        seq![s.take(n)] + tokens(s.skip(n))
    }
}

#[via_fn]
proof fn tokens_decreases(s: Seq<char>) {
    lemma_run_length_bound(s);
}

/// The run at the start of a text holds no separator.
pub proof fn lemma_run_holds_no_separator(s: Seq<char>)
    ensures
        forall|j: int| 0 <= j < run_length(s) ==> !is_space(#[trigger] s[j]),
    decreases s.len(),
{
    if s.len() != 0 && !is_space(s[0]) {
        let t = s.drop_first();
        lemma_run_holds_no_separator(t);
        lemma_run_length_bound(s);
        assert forall|j: int| 0 <= j < run_length(s) implies !is_space(#[trigger] s[j]) by {
            if j > 0 {
                assert(s[j] == t[j - 1]);
            }
        }
    }
}

/// No token is empty, and no token holds a separator.
pub proof fn lemma_tokens_hold_no_separator(s: Seq<char>, i: int)
    requires
        0 <= i < tokens(s).len(),
    ensures
        tokens(s)[i].len() > 0,
        forall|j: int| 0 <= j < tokens(s)[i].len() ==> !is_space(#[trigger] tokens(s)[i][j]),
    decreases s.len(),
{
    if s.len() == 0 {
    } else if is_space(s[0]) {
        lemma_tokens_hold_no_separator(s.drop_first(), i);
    } else {
        let n = run_length(s) as int;
        lemma_run_length_bound(s);
        lemma_run_holds_no_separator(s);
        if i == 0 {
            assert(tokens(s)[0] == s.take(n));
        } else {
            assert(tokens(s)[i] == tokens(s.skip(n))[i - 1]);
            lemma_tokens_hold_no_separator(s.skip(n), i - 1);
        }
    }
}

/// A text without a separator is one token, and the empty text has none.
pub proof fn lemma_single_token(s: Seq<char>)
    requires
        forall|j: int| 0 <= j < s.len() ==> !is_space(#[trigger] s[j]),
    ensures
        tokens(s) == if s.len() == 0 {
            Seq::<Seq<char>>::empty()
        } else {
            seq![s]
        },
{
    if s.len() > 0 {
        let n = s.len() as int;
        lemma_run_length(s, n);
        assert(!is_space(s[0]));
        assert(s.take(n) =~= s);
        assert(s.skip(n).len() == 0);
        assert(tokens(s.skip(n)) =~= Seq::<Seq<char>>::empty());
        assert(tokens(s) == seq![s.take(n)] + tokens(s.skip(n)));
        assert(tokens(s) =~= seq![s]);
    }
}

/// A separator splits a text: the tokens of the whole are those of the part
/// before it, followed by those of the part after it.
pub proof fn lemma_tokens_split_at_separator(a: Seq<char>, separator: char, b: Seq<char>)
    requires
        is_space(separator),
    ensures
        tokens(a + seq![separator] + b) == tokens(a) + tokens(b),
    decreases a.len(),
{
    let whole = a + seq![separator] + b;
    if a.len() == 0 {
        assert(whole.drop_first() =~= b);
        assert(tokens(a) + tokens(b) =~= tokens(b));
    } else if is_space(a[0]) {
        assert(whole.drop_first() =~= a.drop_first() + seq![separator] + b);
        lemma_tokens_split_at_separator(a.drop_first(), separator, b);
    } else {
        let n = run_length(a) as int;
        lemma_run_length_bound(a);
        lemma_run_holds_no_separator(a);
        assert(run_length(whole) == n) by {
            assert forall|j: int| 0 <= j < n implies !is_space(#[trigger] whole[j]) by {
                assert(whole[j] == a[j]);
            }
            if n < a.len() {
                lemma_run_stops_at_separator(a);
                assert(whole[n] == a[n]);
            } else {
                assert(whole[n] == separator);
            }
            lemma_run_length(whole, n);
        }
        assert(whole.take(n) =~= a.take(n));
        assert(whole.skip(n) =~= a.skip(n) + seq![separator] + b);
        lemma_tokens_split_at_separator(a.skip(n), separator, b);
        assert(tokens(whole) =~= tokens(a) + tokens(b));
    }
}

/// A run that ends inside a text ends at a separator.
pub proof fn lemma_run_stops_at_separator(s: Seq<char>)
    ensures
        run_length(s) < s.len() ==> is_space(s[run_length(s) as int]),
    decreases s.len(),
{
    if s.len() != 0 && !is_space(s[0]) {
        let t = s.drop_first();
        lemma_run_stops_at_separator(t);
        if run_length(s) < s.len() {
            assert(s[run_length(s) as int] == t[run_length(t) as int]);
        }
    }
}

/// The pieces of `s` that a list of index pairs cuts out.
pub open spec fn slices(s: Seq<char>, bounds: Seq<(usize, usize)>) -> Seq<Seq<char>> {
    Seq::new(bounds.len(), |i: int| s.subrange(bounds[i].0 as int, bounds[i].1 as int))
}

/// Every pair is a non-empty range inside a text of length `len`.
pub open spec fn bounds_within(bounds: Seq<(usize, usize)>, len: nat) -> bool {
    forall|i: int| 0 <= i < bounds.len() ==> (#[trigger] bounds[i]).0 < bounds[i].1 <= len
}

/// Splits a text into its whitespace-separated tokens, returned as index ranges.
pub fn token_bounds(chars: &Vec<char>) -> (bounds: Vec<(usize, usize)>)
    ensures
        bounds_within(bounds@, chars@.len()),
        slices(chars@, bounds@) == tokens(chars@),
{
    let n: usize = chars.len();
    let mut bounds: Vec<(usize, usize)> = Vec::new();
    let mut pos: usize = 0;
    proof {
        assert(chars@.skip(0) =~= chars@);
        assert(slices(chars@, bounds@) =~= Seq::<Seq<char>>::empty());
    }
    while pos < n
        invariant
            n == chars@.len(),
            pos <= n,
            bounds_within(bounds@, chars@.len()),
            tokens(chars@) == slices(chars@, bounds@) + tokens(chars@.skip(pos as int)),
        decreases n - pos,
    {
        let ghost rest = chars@.skip(pos as int);
        if char_is_space(chars[pos]) {
            proof {
                assert(rest.drop_first() =~= chars@.skip(pos + 1));
            }
            pos += 1;
        } else {
            let start: usize = pos;
            let mut end: usize = pos + 1;
            while end < n && !char_is_space(chars[end])
                invariant
                    n == chars@.len(),
                    start < end <= n,
                    forall|j: int| start <= j < end ==> !is_space(chars@[j]),
                decreases n - end,
            {
                end += 1;
            }
            proof {
                lemma_run_length(rest, end - start);
                assert(rest.take(end - start) =~= chars@.subrange(start as int, end as int));
                assert(rest.skip(end - start) =~= chars@.skip(end as int));
                let before = bounds@;
                let after = before.push((start, end));
                assert(slices(chars@, after) =~= slices(chars@, before) + seq![
                    chars@.subrange(start as int, end as int),
                ]);
                assert(tokens(rest) == seq![chars@.subrange(start as int, end as int)] + tokens(
                    chars@.skip(end as int),
                ));
                assert(tokens(chars@) =~= slices(chars@, after) + tokens(chars@.skip(end as int)));
            }
            bounds.push((start, end));
            pos = end;
        }
    }
    proof {
        assert(chars@.skip(pos as int).len() == 0);
        assert(tokens(chars@) =~= slices(chars@, bounds@));
    }
    bounds
}

} // verus!
