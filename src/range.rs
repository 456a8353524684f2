//! Resolution of an HTTP `Range` header against a resource of known size.
use vstd::prelude::*;
use crate::text::{
    contains_char, find_first, first_index, has_char, lemma_first_index_at, same_text,
};

verus! {

pub open spec fn is_digit(c: char) -> bool {
    '0' <= c && c <= '9'
}

pub open spec fn digit_value(c: char) -> nat {
    (c as int - '0' as int) as nat
}

/// The number that a string of decimal digits denotes.
pub open spec fn decimal_value(s: Seq<char>) -> nat
    decreases s.len(),
{
    if s.len() == 0 {
        0
    } else {
        decimal_value(s.drop_last()) * 10 + digit_value(s.last())
    }
}

/// A non-empty string of decimal digits.
pub open spec fn is_decimal(s: Seq<char>) -> bool {
    s.len() > 0 && forall|i: int| 0 <= i < s.len() ==> is_digit(s[i])
}

/// The `u64` that `s` spells in decimal, if it spells one.
pub open spec fn decimal_u64(s: Seq<char>) -> Option<u64> {
    if is_decimal(s) && decimal_value(s) <= u64::MAX {
        Some(decimal_value(s) as u64)
    } else {
        None
    }
}

/// The byte interval that the header `h` asks of a resource of `size`
/// bytes: `bytes=<start>-<end>`, `bytes=<start>-` or `bytes=-<suffix>`,
/// with a single range and a non-empty interval inside the resource.
pub open spec fn range_spec(h: Seq<char>, size: u64) -> Option<(u64, u64)> {
    let eq = first_index(h, '=');
    let rest = h.skip(eq + 1);
    let dash = first_index(rest, '-');
    let lo = rest.take(dash);
    let hi = rest.skip(dash + 1);
    if eq < 0 || h.take(eq) != "bytes"@ || has_char(rest, ',') || dash < 0 {
        None
    } else if lo.len() == 0 {
        match decimal_u64(hi) {
            Some(n) => if 0 < n && n <= size {
                Some(((size - n) as u64, (size - 1) as u64))
            } else {
                None
            },
            None => None,
        }
    } else {
        match decimal_u64(lo) {
            None => None,
            Some(start) => if start >= size {
                None
            } else if hi.len() == 0 {
                Some((start, (size - 1) as u64))
            } else {
                match decimal_u64(hi) {
                    Some(end) => if start <= end && end < size {
                        Some((start, end))
                    } else {
                        None
                    },
                    None => None,
                }
            },
        }
    }
}

/// The header text `bytes=<lo>-<hi>`.
pub open spec fn range_header(lo: Seq<char>, hi: Seq<char>) -> Seq<char> {
    "bytes="@ + lo + "-"@ + hi
}

proof fn lemma_decimal_prefix(s: Seq<char>, k: int)
    requires
        is_decimal(s),
        0 <= k <= s.len(),
    ensures
        decimal_value(s.take(k)) <= decimal_value(s),
    decreases s.len(),
{
    if k < s.len() {
        let t = s.drop_last();
        assert(t.take(k) =~= s.take(k));
        if t.len() > 0 {
            lemma_decimal_prefix(t, k);
        } else {
            assert(s.take(k) =~= Seq::<char>::empty());
        }
    } else {
        assert(s.take(k) =~= s);
    }
}

/// Reads a `u64` written in decimal digits, refusing anything else and any
/// value above `u64::MAX`.
pub fn parse_decimal(s: &str) -> (r: Option<u64>)
    ensures
        r == decimal_u64(s@),
{
    let n = s.unicode_len();
    if n == 0 {
        return None;
    }
    let mut v: u64 = 0;
    let mut i: usize = 0;
    while i < n
        invariant
            n == s@.len(),
            n > 0,
            i <= n,
            forall|j: int| 0 <= j < i ==> is_digit(s@[j]),
            v as nat == decimal_value(s@.take(i as int)),
        decreases n - i,
    {
        let c = s.get_char(i);
        if !('0' <= c && c <= '9') {
            return None;
        }
        let d = (c as u32 - '0' as u32) as u64;
        assert(s@.take(i + 1).drop_last() =~= s@.take(i as int));
        match v.checked_mul(10) {
            Some(t) => match t.checked_add(d) {
                Some(w) => {
                    v = w;
                },
                None => {
                    proof {
                        if is_decimal(s@) {
                            lemma_decimal_prefix(s@, i + 1);
                        }
                    }
                    return None;
                },
            },
            None => {
                proof {
                    if is_decimal(s@) {
                        lemma_decimal_prefix(s@, i + 1);
                    }
                }
                return None;
            },
        }
        i = i + 1;
    }
    assert(s@.take(n as int) =~= s@);
    Some(v)
}

/// Resolves the `Range` header `range` against a resource of `size` bytes,
/// giving the inclusive interval to serve, or `None` for a malformed or
/// unsatisfiable request.
pub fn parse_range(range: &str, size: u64) -> (r: Option<(u64, u64)>)
    ensures
        r == range_spec(range@, size),
        r matches Some((s, e)) ==> s <= e && e < size,
{
    let eq = match find_first(range, '=') {
        Some(i) => i,
        None => return None,
    };
    let n = range.unicode_len();
    let unit = range.substring_char(0, eq);
    let rest = range.substring_char(eq + 1, n);
    assert(unit@ == range@.take(eq as int));
    assert(rest@ == range@.skip(eq + 1));
    if !same_text(unit, "bytes") || contains_char(rest, ',') {
        return None;
    }
    let dash = match find_first(rest, '-') {
        Some(i) => i,
        None => return None,
    };
    let m = rest.unicode_len();
    let lo = rest.substring_char(0, dash);
    let hi = rest.substring_char(dash + 1, m);
    assert(lo@ == rest@.take(dash as int));
    assert(hi@ == rest@.skip(dash + 1));
    if lo.unicode_len() == 0 {
        match parse_decimal(hi) {
            Some(k) => if 0 < k && k <= size {
                Some((size - k, size - 1))
            } else {
                None
            },
            None => None,
        }
    } else {
        match parse_decimal(lo) {
            None => None,
            Some(start) => if start >= size {
                None
            } else if hi.unicode_len() == 0 {
                Some((start, size - 1))
            } else {
                match parse_decimal(hi) {
                    Some(end) => if start <= end && end < size {
                        Some((start, end))
                    } else {
                        None
                    },
                    None => None,
                }
            },
        }
    }
}

/// How `range_spec` splits a header made of digits around `=` and `-`.
proof fn lemma_header_parts(lo: Seq<char>, hi: Seq<char>)
    requires
        forall|i: int| 0 <= i < lo.len() ==> is_digit(lo[i]),
        forall|i: int| 0 <= i < hi.len() ==> is_digit(hi[i]),
    ensures
        ({
            let h = range_header(lo, hi);
            let rest = h.skip(6);
            &&& first_index(h, '=') == 5
            &&& h.take(5) == "bytes"@
            &&& rest == lo + "-"@ + hi
            &&& !has_char(rest, ',')
            &&& first_index(rest, '-') == lo.len()
            &&& rest.take(lo.len() as int) == lo
            &&& rest.skip(lo.len() as int + 1) == hi
        }),
{
    reveal_strlit("bytes=");
    reveal_strlit("bytes");
    reveal_strlit("-");
    let h = range_header(lo, hi);
    let rest = h.skip(6);
    assert(h.take(5) =~= "bytes"@);
    lemma_first_index_at(h, '=', 5);
    assert(rest =~= lo + "-"@ + hi);
    assert forall|j: int| 0 <= j < rest.len() implies rest[j] != ',' by {
        if j < lo.len() {
            assert(rest[j] == lo[j]);
        } else if j > lo.len() {
            assert(rest[j] == hi[j - lo.len() - 1]);
        }
    }
    assert forall|j: int| 0 <= j < lo.len() implies rest[j] != '-' by {
        assert(rest[j] == lo[j]);
    }
    lemma_first_index_at(rest, '-', lo.len() as int);
    assert(rest.take(lo.len() as int) =~= lo);
    assert(rest.skip(lo.len() as int + 1) =~= hi);
}

/// A closed range `bytes=start-end` with `start <= end < size` resolves to
/// exactly `(start, end)`.
pub proof fn law_closed_range_exact(lo: Seq<char>, hi: Seq<char>, size: u64)
    requires
        is_decimal(lo),
        is_decimal(hi),
        decimal_value(lo) <= decimal_value(hi),
        decimal_value(hi) < size,
    ensures
        range_spec(range_header(lo, hi), size) == Some(
            (decimal_value(lo) as u64, decimal_value(hi) as u64),
        ),
{
    lemma_header_parts(lo, hi);
}

/// A suffix range `bytes=-n` with `0 < n <= size` resolves to the last `n`
/// bytes, `(size - n, size - 1)`.
pub proof fn law_suffix_range(hi: Seq<char>, size: u64)
    requires
        is_decimal(hi),
        0 < decimal_value(hi) <= size,
    ensures
        range_spec(range_header(Seq::empty(), hi), size) == Some(
            ((size - decimal_value(hi)) as u64, (size - 1) as u64),
        ),
{
    lemma_header_parts(Seq::empty(), hi);
}

/// A suffix range `bytes=-n` with `n > size` is unsatisfiable: no clamping.
pub proof fn law_suffix_too_long(hi: Seq<char>, size: u64)
    requires
        is_decimal(hi),
        decimal_value(hi) > size,
    ensures
        range_spec(range_header(Seq::empty(), hi), size) is None,
{
    lemma_header_parts(Seq::empty(), hi);
}

/// An open range `bytes=start-` with `start >= size` is unsatisfiable.
pub proof fn law_open_range_past_end(lo: Seq<char>, size: u64)
    requires
        is_decimal(lo),
        decimal_value(lo) >= size,
    ensures
        range_spec(range_header(lo, Seq::empty()), size) is None,
{
    lemma_header_parts(lo, Seq::empty());
}

} // verus!
