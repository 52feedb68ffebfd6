//! Searching a line of text for the first position that satisfies a test.
use vstd::prelude::*;

verus! {

/// The first index `k` in `i..n` with `p(k)`, or `n` when there is none.
pub open spec fn first_where(p: spec_fn(int) -> bool, i: int, n: int) -> int
    decreases n - i,
{
    if i >= n {
        n
    } else if p(i) {
        i
    } else {
        first_where(p, i + 1, n)
    }
}

/// `first_where` is the index that has `p` and no index before it from `i` on has it.
pub proof fn lemma_first_where(p: spec_fn(int) -> bool, i: int, n: int)
    requires
        i <= n,
    ensures
        i <= first_where(p, i, n) <= n,
        first_where(p, i, n) < n ==> p(first_where(p, i, n)),
        forall|j: int| i <= j < first_where(p, i, n) ==> !#[trigger] p(j),
    decreases n - i,
{
    if i < n && !p(i) {
        lemma_first_where(p, i + 1, n);
    }
}

/// An index with `p` before which no index from `i` on has it is `first_where`.
pub proof fn lemma_first_where_at(p: spec_fn(int) -> bool, i: int, n: int, k: int)
    requires
        i <= k <= n,
        k < n ==> p(k),
        forall|j: int| i <= j < k ==> !#[trigger] p(j),
    ensures
        first_where(p, i, n) == k,
    decreases k - i,
{
    if i < k {
        lemma_first_where_at(p, i + 1, n, k);
    }
}

/// The test that an index of `s` holds `c`.
pub open spec fn is_char(s: Seq<char>, c: char) -> spec_fn(int) -> bool {
    |k: int| s[k] == c
}

/// The position of `c` at `i` or later in `s`.
pub open spec fn find_char_from(s: Seq<char>, c: char, i: int) -> int {
    first_where(is_char(s, c), i, s.len() as int)
}

/// Whether a line terminator (`"\n"` or `"\r\n"`) starts at `k` in `s`.
pub open spec fn terminator_at(s: Seq<char>, k: int) -> bool {
    s[k] == '\n' || (s[k] == '\r' && k + 1 < s.len() && s[k + 1] == '\n')
}

/// The test that a line terminator starts at an index of `s`.
pub open spec fn is_terminator(s: Seq<char>) -> spec_fn(int) -> bool {
    |k: int| terminator_at(s, k)
}

/// The position where the first line terminator at `i` or later starts in `s`.
pub open spec fn find_terminator_from(s: Seq<char>, i: int) -> int {
    first_where(is_terminator(s), i, s.len() as int)
}

/// Finds `c` in `s` at `start` or later; `n` is the number of characters of `s`.
pub fn find_char(s: &str, n: usize, c: char, start: usize) -> (r: usize)
    requires
        n == s@.len(),
        start <= n,
    ensures
        start <= r <= n,
        r == find_char_from(s@, c, start as int),
{
    let mut k: usize = start;
    while k < n && s.get_char(k) != c
        invariant
            n == s@.len(),
            start <= k <= n,
            forall|j: int| start <= j < k ==> s@[j] != c,
        decreases n - k,
    {
        k = k + 1;
    }
    proof {
        lemma_first_where_at(is_char(s@, c), start as int, n as int, k as int);
    }
    k
}

/// Whether a line terminator starts at `k` in `s`, of `n` characters.
pub fn is_terminator_at(s: &str, n: usize, k: usize) -> (r: bool)
    requires
        n == s@.len(),
        k < n,
    ensures
        r == terminator_at(s@, k as int),
{
    let c = s.get_char(k);
    c == '\n' || (c == '\r' && k + 1 < n && s.get_char(k + 1) == '\n')
}

/// Finds the first line terminator in `s` at `start` or later.
pub fn find_terminator(s: &str, n: usize, start: usize) -> (r: usize)
    requires
        n == s@.len(),
        start <= n,
    ensures
        start <= r <= n,
        r == find_terminator_from(s@, start as int),
{
    let mut k: usize = start;
    while k < n && !is_terminator_at(s, n, k)
        invariant
            n == s@.len(),
            start <= k <= n,
            forall|j: int| start <= j < k ==> !terminator_at(s@, j),
        decreases n - k,
    {
        k = k + 1;
    }
    proof {
        lemma_first_where_at(is_terminator(s@), start as int, n as int, k as int);
    }
    k
}

} // verus!
