use vstd::prelude::*;

verus! {

/// Character-wise equality of two strings.
pub fn str_equal(a: &str, b: &str) -> (eq: bool)
    ensures
        eq == (a@ == b@),
{
    let n = a.unicode_len();
    if n != b.unicode_len() {
        return false;
    }
    let mut i: usize = 0;
    while i < n
        invariant
            n == a@.len(),
            n == b@.len(),
            i <= n,
            forall|j: int| 0 <= j < i ==> a@[j] == b@[j],
        decreases n - i,
    {
        if a.get_char(i) != b.get_char(i) {
            return false;
        }
        i = i + 1;
    }
    assert(a@ =~= b@);
    true
}

/// `pattern` occurs in `s` starting at position `at`.
pub open spec fn occurs_at(s: Seq<char>, pattern: Seq<char>, at: int) -> bool {
    0 <= at && at + pattern.len() <= s.len() && s.subrange(at, at + pattern.len()) == pattern
}

/// `pattern` occurs somewhere in `s`.
pub open spec fn contains_text(s: Seq<char>, pattern: Seq<char>) -> bool {
    exists|at: int| occurs_at(s, pattern, at)
}

/// Whether `pattern` occurs in `s` (as `str::contains` with a string pattern).
pub fn str_contains(s: &str, pattern: &str) -> (found: bool)
    ensures
        found == contains_text(s@, pattern@),
{
    let n = s.unicode_len();
    let m = pattern.unicode_len();
    if m > n {
        return false;
    }
    if m == 0 {
        assert(s@.subrange(0, 0) =~= pattern@);
        assert(occurs_at(s@, pattern@, 0));
        return true;
    }
    let mut at: usize = 0;
    while at <= n - m
        invariant
            n == s@.len(),
            m == pattern@.len(),
            1 <= m <= n,
            at <= n - m + 1,
            forall|k: int| 0 <= k < at ==> !occurs_at(s@, pattern@, k),
        decreases n - m + 1 - at,
    {
        let mut j: usize = 0;
        let mut matched = true;
        while j < m
            invariant
                n == s@.len(),
                m == pattern@.len(),
                at + m <= n,
                j <= m,
                matched ==> forall|q: int| 0 <= q < j ==> s@[at + q] == pattern@[q],
                !matched ==> !occurs_at(s@, pattern@, at as int),
            decreases m - j,
        {
            if matched && s.get_char(at + j) != pattern.get_char(j) {
                matched = false;
                assert(s@.subrange(at as int, at + m)[j as int] == s@[at + j]);
            }
            j = j + 1;
        }
        if matched {
            assert(s@.subrange(at as int, at + m) =~= pattern@);
            assert(occurs_at(s@, pattern@, at as int));
            return true;
        }
        at = at + 1;
    }
    false
}

} // verus!
