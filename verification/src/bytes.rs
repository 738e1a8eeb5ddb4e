//! Searching over byte sequences.
//!
//! The spec functions define the first occurrence of a byte or of a byte
//! pattern in a sequence; the exec functions compute them over slices.

use vstd::prelude::*;

verus! {

/// Index of the first occurrence of `b` in `s`, if any.
pub open spec fn find_byte(s: Seq<u8>, b: u8) -> Option<int>
    decreases s.len(),
{
    if s.len() == 0 {
        None
    } else if s[0] == b {
        Some(0int)
    } else {
        match find_byte(s.skip(1), b) {
            Some(i) => Some(i + 1),
            None => None,
        }
    }
}

/// What `find_byte` returns: the least index holding `b`, or `None` when no
/// index holds `b`.
pub proof fn lemma_find_byte(s: Seq<u8>, b: u8)
    ensures
        match find_byte(s, b) {
            Some(i) => 0 <= i < s.len() && s[i] == b && (forall|j: int|
                0 <= j < i ==> s[j] != b),
            None => forall|j: int| 0 <= j < s.len() ==> s[j] != b,
        },
    decreases s.len(),
{
    if s.len() == 0 {
    } else if s[0] == b {
    } else {
        lemma_find_byte(s.skip(1), b);
        match find_byte(s.skip(1), b) {
            Some(i) => {
                assert(s[i + 1] == s.skip(1)[i]);
                assert forall|j: int| 0 <= j < i + 1 implies s[j] != b by {
                    if j > 0 {
                        assert(s[j] == s.skip(1)[j - 1]);
                    }
                }
            },
            None => {
                assert forall|j: int| 0 <= j < s.len() implies s[j] != b by {
                    if j > 0 {
                        assert(s[j] == s.skip(1)[j - 1]);
                    }
                }
            },
        }
    }
}

/// Finds the first occurrence of `b` in `s`.
pub fn index_of_byte(s: &[u8], b: u8) -> (r: Option<usize>)
    ensures
        match r {
            Some(i) => find_byte(s@, b) == Some(i as int),
            None => find_byte(s@, b) is None,
        },
{
    proof {
        lemma_find_byte(s@, b);
    }
    let n: usize = s.len();
    let mut i: usize = 0;
    while i < n
        invariant
            n == s@.len(),
            0 <= i <= n,
            forall|j: int| 0 <= j < i ==> s@[j] != b,
            match find_byte(s@, b) {
                Some(k) => 0 <= k < s@.len() && s@[k] == b && (forall|j: int|
                    0 <= j < k ==> s@[j] != b),
                None => forall|j: int| 0 <= j < s@.len() ==> s@[j] != b,
            },
        decreases n - i,
    {
        if s[i] == b {
            return Some(i);
        }
        i = i + 1;
    }
    None
}

/// True when `pat` occurs in `s` starting at index `i`.
pub open spec fn is_match_at(s: Seq<u8>, pat: Seq<u8>, i: int) -> bool {
    0 <= i && i + pat.len() <= s.len() && s.subrange(i, i + pat.len() as int) == pat
}

/// Index of the first occurrence of the non-empty pattern `pat` in `s`, if
/// any.
pub open spec fn find_sub(s: Seq<u8>, pat: Seq<u8>) -> Option<int>
    recommends
        pat.len() > 0,
    decreases s.len(),
{
    if s.len() < pat.len() || s.len() == 0 {
        None
    } else if s.take(pat.len() as int) == pat {
        Some(0int)
    } else {
        match find_sub(s.skip(1), pat) {
            Some(i) => Some(i + 1),
            None => None,
        }
    }
}

/// Occurrences of `pat` one position into `s` are occurrences in `s.skip(1)`.
proof fn lemma_match_shift(s: Seq<u8>, pat: Seq<u8>, j: int)
    requires
        s.len() >= 1,
        0 <= j,
    ensures
        is_match_at(s, pat, j + 1) == is_match_at(s.skip(1), pat, j),
{
    if j + 1 + pat.len() <= s.len() {
        assert(s.subrange(j + 1, j + 1 + pat.len() as int) =~= s.skip(1).subrange(
            j,
            j + pat.len() as int,
        ));
    }
}

/// What `find_sub` returns: the least index where the non-empty pattern
/// `pat` occurs, or `None` when it occurs nowhere.
pub proof fn lemma_find_sub(s: Seq<u8>, pat: Seq<u8>)
    requires
        pat.len() > 0,
    ensures
        match find_sub(s, pat) {
            Some(i) => is_match_at(s, pat, i) && (forall|j: int|
                0 <= j < i ==> !is_match_at(s, pat, j)),
            None => forall|j: int| !is_match_at(s, pat, j),
        },
    decreases s.len(),
{
    if s.len() < pat.len() || s.len() == 0 {
    } else if s.take(pat.len() as int) == pat {
        assert(s.subrange(0, pat.len() as int) =~= s.take(pat.len() as int));
        assert(is_match_at(s, pat, 0));
    } else {
        lemma_find_sub(s.skip(1), pat);
        assert(s.subrange(0, pat.len() as int) =~= s.take(pat.len() as int));
        assert(!is_match_at(s, pat, 0));
        match find_sub(s.skip(1), pat) {
            Some(i) => {
                lemma_match_shift(s, pat, i);
                assert(is_match_at(s, pat, i + 1));
                assert forall|j: int| 0 <= j < i + 1 implies !is_match_at(s, pat, j) by {
                    if j > 0 {
                        lemma_match_shift(s, pat, j - 1);
                    }
                }
            },
            None => {
                assert forall|j: int| !(#[trigger] is_match_at(s, pat, j)) by {
                    if j > 0 {
                        lemma_match_shift(s, pat, j - 1);
                    }
                }
            },
        }
    }
}

/// True when the bytes of `pat` appear in `s` starting at `i`.
fn matches_at(s: &[u8], pat: &[u8], i: usize) -> (r: bool)
    requires
        i + pat@.len() <= s@.len(),
    ensures
        r == is_match_at(s@, pat@, i as int),
{
    let n: usize = s.len();
    let m: usize = pat.len();
    let mut k: usize = 0;
    while k < m
        invariant
            n == s@.len(),
            m == pat@.len(),
            i + m <= n,
            0 <= k <= m,
            forall|j: int| 0 <= j < k ==> s@[i + j] == pat@[j],
        decreases m - k,
    {
        if s[i + k] != pat[k] {
            assert(s@.subrange(i as int, i + pat@.len() as int)[k as int] != pat@[k as int]);
            return false;
        }
        k = k + 1;
    }
    assert(s@.subrange(i as int, i + pat@.len() as int) =~= pat@);
    true
}

/// Finds the first occurrence of the non-empty pattern `pat` in `s`.
pub fn find(s: &[u8], pat: &[u8]) -> (r: Option<usize>)
    requires
        pat@.len() > 0,
    ensures
        match r {
            Some(i) => find_sub(s@, pat@) == Some(i as int),
            None => find_sub(s@, pat@) is None,
        },
{
    proof {
        lemma_find_sub(s@, pat@);
    }
    let n: usize = s.len();
    let m: usize = pat.len();
    if m > n {
        return None;
    }
    let mut i: usize = 0;
    while i <= n - m
        invariant
            n == s@.len(),
            m == pat@.len(),
            0 < m <= n,
            0 <= i <= n - m + 1,
            forall|j: int| 0 <= j < i ==> !is_match_at(s@, pat@, j),
            match find_sub(s@, pat@) {
                Some(k) => is_match_at(s@, pat@, k) && (forall|j: int|
                    0 <= j < k ==> !is_match_at(s@, pat@, j)),
                None => forall|j: int| !is_match_at(s@, pat@, j),
            },
        decreases n - m - i + 1,
    {
        if matches_at(s, pat, i) {
            return Some(i);
        }
        i = i + 1;
    }
    assert forall|j: int| !(#[trigger] is_match_at(s@, pat@, j)) by {
        if 0 <= j <= s@.len() - pat@.len() {
            assert(!is_match_at(s@, pat@, j));
        }
    }
    None
}

/// Appends every byte of `s` to `out`, in order.
pub fn push_all(out: &mut Vec<u8>, s: &[u8])
    ensures
        final(out)@ == old(out)@.add(s@),
{
    let n: usize = s.len();
    let mut i: usize = 0;
    while i < n
        invariant
            n == s@.len(),
            0 <= i <= n,
            out@ == old(out)@.add(s@.take(i as int)),
        decreases n - i,
    {
        out.push(s[i]);
        assert(s@.take(i + 1) =~= s@.take(i as int).push(s@[i as int]));
        assert(out@ =~= old(out)@.add(s@.take(i + 1)));
        i = i + 1;
    }
    assert(s@.take(n as int) =~= s@);
}

/// True when the two slices hold the same bytes.
pub fn bytes_eq(a: &[u8], b: &[u8]) -> (r: bool)
    ensures
        r == (a@ == b@),
{
    let n: usize = a.len();
    if n != b.len() {
        return false;
    }
    let mut i: usize = 0;
    while i < n
        invariant
            n == a@.len(),
            a@.len() == b@.len(),
            0 <= i <= n,
            forall|j: int| 0 <= j < i ==> a@[j] == b@[j],
        decreases n - i,
    {
        if a[i] != b[i] {
            return false;
        }
        i = i + 1;
    }
    assert(a@ =~= b@);
    true
}

} // verus!
