//! Searching text for fixed patterns.
use vstd::prelude::*;
use vstd::string::*;

verus! {

pub open spec fn has_prefix(s: Seq<char>, p: Seq<char>) -> bool {
    p.len() <= s.len() && s.subrange(0, p.len() as int) == p
}

pub open spec fn has_infix(s: Seq<char>, p: Seq<char>) -> bool {
    exists|i: int| 0 <= i && i + p.len() <= s.len() && #[trigger] s.subrange(i, i + p.len()) == p
}

/// `p` occurs at `i` in `s`, and nowhere before.
pub open spec fn first_match_at(s: Seq<char>, p: Seq<char>, i: int) -> bool {
    &&& 0 <= i && i + p.len() <= s.len() && s.subrange(i, i + p.len()) == p
    &&& forall|k: int| 0 <= k < i ==> #[trigger] s.subrange(k, k + p.len()) != p
}

pub(crate) fn matches_at(s: &str, p: &str, at: usize) -> (r: bool)
    requires
        at + p@.len() <= s@.len(),
    ensures
        r == (s@.subrange(at as int, at + p@.len()) == p@),
{
    let n = p.unicode_len();
    let sn = s.unicode_len();
    let mut j: usize = 0;
    while j < n
        invariant
            n == p@.len(),
            sn == s@.len(),
            at + n <= s@.len(),
            j <= n,
            forall|k: int| 0 <= k < j ==> s@[at + k] == p@[k],
        decreases n - j,
    {
        if s.get_char(at + j) != p.get_char(j) {
            assert(s@.subrange(at as int, at + p@.len())[j as int] != p@[j as int]);
            return false;
        }
        j = j + 1;
    }
    assert(s@.subrange(at as int, at + p@.len()) =~= p@);
    true
}

pub(crate) fn starts_with(s: &str, p: &str) -> (r: bool)
    ensures
        r == has_prefix(s@, p@),
{
    if p.unicode_len() > s.unicode_len() {
        return false;
    }
    matches_at(s, p, 0)
}

pub(crate) fn contains(s: &str, p: &str) -> (r: bool)
    ensures
        r == has_infix(s@, p@),
{
    let n = s.unicode_len();
    let m = p.unicode_len();
    if m > n {
        return false;
    }
    if m == 0 {
        assert(s@.subrange(0int, 0int + p@.len()) =~= p@);
        return true;
    }
    let mut i: usize = 0;
    while i <= n - m
        invariant
            n == s@.len(),
            m == p@.len(),
            1 <= m <= n,
            i <= n - m + 1,
            forall|k: int| 0 <= k < i ==> #[trigger] s@.subrange(k, k + m) != p@,
        decreases n - m + 1 - i,
    {
        if matches_at(s, p, i) {
            return true;
        }
        i = i + 1;
    }
    false
}

/// Where `p` first occurs in `s`.
pub fn find(s: &str, p: &str) -> (r: Option<usize>)
    ensures
        match r {
            Some(i) => first_match_at(s@, p@, i as int),
            None => !has_infix(s@, p@),
        },
{
    let n = s.unicode_len();
    let m = p.unicode_len();
    if m > n {
        return None;
    }
    let mut i: usize = 0;
    while i <= n - m
        invariant
            n == s@.len(),
            m == p@.len(),
            m <= n,
            i <= n - m + 1,
            forall|k: int| 0 <= k < i ==> #[trigger] s@.subrange(k, k + m) != p@,
        decreases n - m + 1 - i,
    {
        if matches_at(s, p, i) {
            return Some(i);
        }
        if i == n - m {
            return None;
        }
        i = i + 1;
    }
    None
}

} // verus!
