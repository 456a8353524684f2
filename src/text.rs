//! Character-level helpers on `&str`, each proved against a spec function
//! over the string's view.
use vstd::prelude::*;

verus! {

/// Index of the first `c` among the first `n` characters of `s`, or -1.
pub open spec fn first_within(s: Seq<char>, c: char, n: int) -> int
    decreases n,
{
    if n <= 0 {
        -1
    } else {
        let k = first_within(s, c, n - 1);
        if k >= 0 {
            k
        } else if s[n - 1] == c {
            n - 1
        } else {
            -1
        }
    }
}

/// Index of the first `c` in `s`, or -1 when `s` holds none.
pub open spec fn first_index(s: Seq<char>, c: char) -> int {
    first_within(s, c, s.len() as int)
}

/// Index of the last `c` among the first `n` characters of `s`, or -1.
pub open spec fn last_within(s: Seq<char>, c: char, n: int) -> int
    decreases n,
{
    if n <= 0 {
        -1
    } else if s[n - 1] == c {
        n - 1
    } else {
        last_within(s, c, n - 1)
    }
}

/// Index of the last `c` in `s`, or -1 when `s` holds none.
pub open spec fn last_index(s: Seq<char>, c: char) -> int {
    last_within(s, c, s.len() as int)
}

pub open spec fn has_char(s: Seq<char>, c: char) -> bool {
    exists|i: int| 0 <= i < s.len() && s[i] == c
}

pub open spec fn starts_with(s: Seq<char>, p: Seq<char>) -> bool {
    p.len() <= s.len() && s.take(p.len() as int) == p
}

/// What `first_within` is, stated without recursion.
pub proof fn lemma_first_within(s: Seq<char>, c: char, n: int)
    requires
        0 <= n <= s.len(),
    ensures
        first_within(s, c, n) == -1 <==> (forall|j: int| 0 <= j < n ==> s[j] != c),
        first_within(s, c, n) >= 0 ==> {
            let k = first_within(s, c, n);
            &&& 0 <= k < n
            &&& s[k] == c
            &&& forall|j: int| 0 <= j < k ==> s[j] != c
        },
        first_within(s, c, n) >= -1,
    decreases n,
{
    if n > 0 {
        lemma_first_within(s, c, n - 1);
    }
}

/// What `last_within` is, stated without recursion.
pub proof fn lemma_last_within(s: Seq<char>, c: char, n: int)
    requires
        0 <= n <= s.len(),
    ensures
        last_within(s, c, n) == -1 <==> (forall|j: int| 0 <= j < n ==> s[j] != c),
        last_within(s, c, n) >= 0 ==> {
            let k = last_within(s, c, n);
            &&& 0 <= k < n
            &&& s[k] == c
            &&& forall|j: int| k < j < n ==> s[j] != c
        },
        last_within(s, c, n) >= -1,
    decreases n,
{
    if n > 0 {
        lemma_last_within(s, c, n - 1);
    }
}

/// The first index of `c` in `s` is `k` when `s[k] == c` and no earlier
/// character is `c`.
pub proof fn lemma_first_index_at(s: Seq<char>, c: char, k: int)
    requires
        0 <= k < s.len(),
        s[k] == c,
        forall|j: int| 0 <= j < k ==> s[j] != c,
    ensures
        first_index(s, c) == k,
{
    lemma_first_within(s, c, s.len() as int);
}

/// A string without `c` has first index -1.
pub proof fn lemma_first_index_none(s: Seq<char>, c: char)
    requires
        forall|j: int| 0 <= j < s.len() ==> s[j] != c,
    ensures
        first_index(s, c) == -1,
{
    lemma_first_within(s, c, s.len() as int);
}

/// A string whose last `c` stands at `k`.
pub proof fn lemma_last_index_at(s: Seq<char>, c: char, k: int)
    requires
        0 <= k < s.len(),
        s[k] == c,
        forall|j: int| k < j < s.len() ==> s[j] != c,
    ensures
        last_index(s, c) == k,
{
    lemma_last_within(s, c, s.len() as int);
}

/// A string without `c` has last index -1.
pub proof fn lemma_last_index_none(s: Seq<char>, c: char)
    requires
        forall|j: int| 0 <= j < s.len() ==> s[j] != c,
    ensures
        last_index(s, c) == -1,
{
    lemma_last_within(s, c, s.len() as int);
}

/// Position of the first `c` in `s`.
pub fn find_first(s: &str, c: char) -> (r: Option<usize>)
    ensures
        match r {
            Some(i) => i as int == first_index(s@, c) && i < s@.len(),
            None => first_index(s@, c) == -1,
        },
{
    let n = s.unicode_len();
    let mut i: usize = 0;
    while i < n
        invariant
            n == s@.len(),
            i <= n,
            forall|j: int| 0 <= j < i ==> s@[j] != c,
        decreases n - i,
    {
        if s.get_char(i) == c {
            proof {
                lemma_first_index_at(s@, c, i as int);
            }
            return Some(i);
        }
        i = i + 1;
    }
    proof {
        lemma_first_index_none(s@, c);
    }
    None
}

/// Position of the last `c` in `s`.
pub fn find_last(s: &str, c: char) -> (r: Option<usize>)
    ensures
        match r {
            Some(i) => i as int == last_index(s@, c) && i < s@.len(),
            None => last_index(s@, c) == -1,
        },
{
    let n = s.unicode_len();
    let mut i: usize = n;
    while i > 0
        invariant
            n == s@.len(),
            i <= n,
            forall|j: int| i <= j < n ==> s@[j] != c,
        decreases i,
    {
        if s.get_char(i - 1) == c {
            proof {
                lemma_last_index_at(s@, c, i - 1);
            }
            return Some(i - 1);
        }
        i = i - 1;
    }
    proof {
        lemma_last_index_none(s@, c);
    }
    None
}

/// Whether `s` holds the character `c`.
pub fn contains_char(s: &str, c: char) -> (r: bool)
    ensures
        r == has_char(s@, c),
{
    let found = find_first(s, c);
    proof {
        lemma_first_within(s@, c, s@.len() as int);
    }
    found.is_some()
}

/// Whether `s` begins with `p`.
pub fn has_prefix(s: &str, p: &str) -> (r: bool)
    ensures
        r == starts_with(s@, p@),
{
    let n = s.unicode_len();
    let m = p.unicode_len();
    if m > n {
        return false;
    }
    let mut i: usize = 0;
    while i < m
        invariant
            n == s@.len(),
            m == p@.len(),
            m <= n,
            i <= m,
            forall|j: int| 0 <= j < i ==> s@[j] == p@[j],
        decreases m - i,
    {
        if s.get_char(i) != p.get_char(i) {
            assert(s@.take(m as int)[i as int] != p@[i as int]);
            return false;
        }
        i = i + 1;
    }
    assert(s@.take(m as int) =~= p@);
    true
}

/// Whether `a` and `b` hold the same characters.
pub fn same_text(a: &str, b: &str) -> (r: bool)
    ensures
        r == (a@ == b@),
{
    if a.unicode_len() != b.unicode_len() {
        return false;
    }
    let r = has_prefix(a, b);
    proof {
        assert(a@.len() == b@.len() ==> a@ =~= a@.take(b@.len() as int));
        if a@ == b@ {
            assert(starts_with(a@, b@));
        }
    }
    r
}

} // verus!
