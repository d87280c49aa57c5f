//! Character-level string helpers: substring matching and scanning.
//! These are the primitives behind target-triple detection and the
//! configuration-file codec.

use vstd::prelude::*;

verus! {

/// The pattern `p` occurs in `s` starting at index `i`.
pub open spec fn match_at(s: Seq<char>, p: Seq<char>, i: int) -> bool {
    &&& 0 <= i
    &&& i + p.len() <= s.len()
    &&& forall|j: int| 0 <= j < p.len() ==> s[i + j] == p[j]
}

/// The pattern `p` occurs somewhere in `s`.
pub open spec fn contains_sub(s: Seq<char>, p: Seq<char>) -> bool {
    exists|i: int| match_at(s, p, i)
}

/// Whether `p` occurs in `s` at position `i`.
pub fn match_at_exec(s: &str, p: &str, i: usize) -> (r: bool)
    ensures
        r == match_at(s@, p@, i as int),
{
    let sl = s.unicode_len();
    let pl = p.unicode_len();
    if i > sl || pl > sl - i {
        return false;
    }
    let mut j: usize = 0;
    while j < pl
        invariant
            i + pl <= sl,
            sl == s@.len(),
            pl == p@.len(),
            0 <= j <= pl,
            forall|k: int| 0 <= k < j ==> s@[i + k] == p@[k],
        decreases pl - j,
    {
        if s.get_char(i + j) != p.get_char(j) {
            assert(s@[i as int + j as int] != p@[j as int]);
            return false;
        }
        j += 1;
    }
    true
}

/// A match of a concatenation is a match of each part in turn.
pub proof fn lemma_match_split(s: Seq<char>, a: Seq<char>, b: Seq<char>, p: int)
    ensures
        match_at(s, a + b, p) <==> (match_at(s, a, p) && match_at(s, b, p + a.len())),
{
    if match_at(s, a + b, p) {
        assert forall|j: int| 0 <= j < a.len() implies s[p + j] == a[j] by {
            assert(s[p + j] == (a + b)[j]);
        }
        assert forall|j: int| 0 <= j < b.len() implies s[p + a.len() + j] == b[j] by {
            assert(s[p + a.len() + j] == (a + b)[a.len() + j]);
        }
    }
    if match_at(s, a, p) && match_at(s, b, p + a.len()) {
        assert forall|j: int| 0 <= j < (a + b).len() implies s[p + j] == (a + b)[j] by {
            if j < a.len() {
                assert((a + b)[j] == a[j]);
            } else {
                assert((a + b)[j] == b[j - a.len()]);
                assert(s[p + j] == s[p + a.len() + (j - a.len())]);
            }
        }
    }
}

/// One character of a matched pattern, read back out of the string.
pub proof fn lemma_match_char(s: Seq<char>, p: Seq<char>, i: int, j: int)
    requires
        match_at(s, p, i),
        0 <= j < p.len(),
    ensures
        s[i + j] == p[j],
{
}

/// A matched pattern is the subrange it covers.
pub proof fn lemma_match_subrange(s: Seq<char>, v: Seq<char>, p: int)
    requires
        match_at(s, v, p),
    ensures
        s.subrange(p, p + v.len()) == v,
{
    assert(s.subrange(p, p + v.len()) =~= v);
}

/// Whether `p` occurs anywhere in `s`.
pub fn contains_sub_exec(s: &str, p: &str) -> (r: bool)
    ensures
        r == contains_sub(s@, p@),
{
    let sl = s.unicode_len();
    let pl = p.unicode_len();
    if pl > sl {
        assert(forall|k: int| !match_at(s@, p@, k));
        return false;
    }
    let mut i: usize = 0;
    while i <= sl - pl
        invariant
            pl <= sl,
            sl == s@.len(),
            pl == p@.len(),
            0 <= i,
            i <= sl - pl + 1,
            forall|k: int| 0 <= k < i ==> !match_at(s@, p@, k),
        decreases sl + 1 - i,
    {
        if match_at_exec(s, p, i) {
            return true;
        }
        i += 1;
    }
    assert(forall|k: int| !match_at(s@, p@, k));
    false
}

/// `k` is the last index of `c` in `s`.
pub open spec fn is_last_index(s: Seq<char>, c: char, k: int) -> bool {
    &&& 0 <= k < s.len()
    &&& s[k] == c
    &&& forall|j: int| k < j < s.len() ==> s[j] != c
}

/// The last index of `c` in `s`, if `c` occurs at all.
pub open spec fn spec_find_last(s: Seq<char>, c: char) -> Option<int> {
    if exists|k: int| is_last_index(s, c, k) {
        Some(choose|k: int| is_last_index(s, c, k))
    } else {
        None
    }
}

/// A last index is unique.
pub proof fn lemma_last_index_unique(s: Seq<char>, c: char, k1: int, k2: int)
    requires
        is_last_index(s, c, k1),
        is_last_index(s, c, k2),
    ensures
        k1 == k2,
{
    if k1 < k2 {
        assert(s[k2] != c);
    }
    if k2 < k1 {
        assert(s[k1] != c);
    }
}

/// Find the last occurrence of `c` in `s`.
pub fn find_last(s: &str, c: char) -> (r: Option<usize>)
    ensures
        match r {
            Some(k) => spec_find_last(s@, c) == Some(k as int),
            None => spec_find_last(s@, c) is None,
        },
{
    let n = s.unicode_len();
    let mut i = n;
    while i > 0
        invariant
            i <= n,
            n == s@.len(),
            forall|j: int| i <= j < s@.len() ==> s@[j] != c,
        decreases i,
    {
        i = i - 1;
        if s.get_char(i) == c {
            proof {
                assert(is_last_index(s@, c, i as int));
                let k = choose|k: int| is_last_index(s@, c, k);
                lemma_last_index_unique(s@, c, k, i as int);
            }
            return Some(i);
        }
    }
    proof {
        if exists|k: int| is_last_index(s@, c, k) {
            let k = choose|k: int| is_last_index(s@, c, k);
            assert(s@[k] != c);
        }
    }
    None
}

/// Copy out the characters between `a` and `b`.
pub fn take_sub(s: &str, a: usize, b: usize) -> (r: String)
    requires
        a <= b <= s@.len(),
    ensures
        r@ == s@.subrange(a as int, b as int),
{
    s.substring_char(a, b).to_owned()
}

} // verus!
