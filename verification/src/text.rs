//! Character-level text utilities: whitespace trimming, substring search,
//! and the longest-common-subsequence length that backs the segment
//! similarity measure.

use vstd::prelude::*;

verus! {

/// The whitespace characters recognised by the trimming helpers
/// (the ASCII whitespace set).
pub open spec fn is_ws(c: char) -> bool {
    c == ' ' || c == '\t' || c == '\n' || c == '\r' || c == '\u{b}' || c == '\u{c}'
}

/// Executable mirror of [`is_ws`].
pub fn is_ws_char(c: char) -> (r: bool)
    ensures
        r == is_ws(c),
{
    c == ' ' || c == '\t' || c == '\n' || c == '\r' || c == '\u{b}' || c == '\u{c}'
}

/// Collect the characters of a string slice into a vector.
pub fn chars_of(s: &str) -> (r: Vec<char>)
    ensures
        r@ == s@,
{
    let n: usize = s.unicode_len();
    let mut r: Vec<char> = Vec::new();
    let mut i: usize = 0;
    while i < n
        invariant
            i <= n,
            n == s@.len(),
            r@ == s@.take(i as int),
        decreases n - i,
    {
        r.push(s.get_char(i));
        i = i + 1;
    }
    proof {
        assert(r@ =~= s@);
    }
    r
}

/// Relies on `String`'s `FromIterator<char>` implementation: collecting an
/// iterator of characters yields the string of exactly those characters.
#[verifier::external_body]
pub fn string_from_chars(v: &Vec<char>) -> (r: String)
    ensures
        r@ == v@,
{
    v.iter().collect()
}

/// Copy of the characters in `[from, to)`.
pub fn subvec(s: &Vec<char>, from: usize, to: usize) -> (r: Vec<char>)
    requires
        from <= to <= s@.len(),
    ensures
        r@ == s@.subrange(from as int, to as int),
{
    let mut r: Vec<char> = Vec::new();
    let mut i: usize = from;
    while i < to
        invariant
            from <= i <= to <= s@.len(),
            r@ == s@.subrange(from as int, i as int),
        decreases to - i,
    {
        let c: char = s[i];
        r.push(c);
        proof {
            assert(r@ =~= s@.subrange(from as int, i + 1 as int));
        }
        i = i + 1;
    }
    r
}

/// `s` with leading whitespace removed.
pub open spec fn trim_front(s: Seq<char>) -> Seq<char>
    decreases s.len(),
{
    if s.len() > 0 && is_ws(s[0]) {
        trim_front(s.drop_first())
    } else {
        s
    }
}

/// `s` with trailing whitespace removed.
pub open spec fn trim_back(s: Seq<char>) -> Seq<char>
    decreases s.len(),
{
    if s.len() > 0 && is_ws(s.last()) {
        trim_back(s.drop_last())
    } else {
        s
    }
}

/// `s` with both leading and trailing whitespace removed.
pub open spec fn trimmed(s: Seq<char>) -> Seq<char> {
    trim_back(trim_front(s))
}

/// The bounds `(lo, hi)` such that `s[lo..hi]` is `s` without its
/// surrounding whitespace.
pub fn trim_bounds(s: &Vec<char>) -> (r: (usize, usize))
    ensures
        r.0 <= r.1 <= s@.len(),
        s@.subrange(r.0 as int, r.1 as int) == trimmed(s@),
{
    let n: usize = s.len();
    let mut lo: usize = 0;
    proof {
        assert(s@.skip(0) =~= s@);
    }
    while lo < n && is_ws_char(s[lo])
        invariant
            lo <= n,
            n == s@.len(),
            trim_front(s@.skip(lo as int)) == trim_front(s@),
        decreases n - lo,
    {
        proof {
            assert(s@.skip(lo as int)[0] == s@[lo as int]);
            assert(s@.skip(lo as int).drop_first() =~= s@.skip(lo + 1 as int));
        }
        lo = lo + 1;
    }
    proof {
        // the remaining suffix starts with a non-whitespace character (or is empty)
        assert(trim_front(s@.skip(lo as int)) == s@.skip(lo as int));
    }
    let ghost t: Seq<char> = s@.skip(lo as int);
    let mut hi: usize = n;
    proof {
        assert(t.take(n - lo as int) =~= t);
    }
    while hi > lo && is_ws_char(s[hi - 1])
        invariant
            lo <= hi <= n,
            n == s@.len(),
            t == s@.skip(lo as int),
            trim_front(s@) == t,
            trim_back(t.take(hi - lo as int)) == trim_back(t),
        decreases hi,
    {
        proof {
            let m: int = hi - lo as int;
            assert(t.take(m).last() == s@[hi - 1]);
            assert(t.take(m).drop_last() =~= t.take(m - 1));
        }
        hi = hi - 1;
    }
    proof {
        let m: int = hi - lo as int;
        assert(trim_back(t.take(m)) == t.take(m));
        assert(t.take(m) =~= s@.subrange(lo as int, hi as int));
    }
    (lo, hi)
}

/// `s` without its surrounding whitespace, as a fresh vector.
pub fn trimmed_chars(s: &Vec<char>) -> (r: Vec<char>)
    ensures
        r@ == trimmed(s@),
{
    let b: (usize, usize) = trim_bounds(s);
    subvec(s, b.0, b.1)
}

/// Whether `s` is empty after trimming.
pub fn is_blank(s: &Vec<char>) -> (r: bool)
    ensures
        r == (trimmed(s@).len() == 0),
{
    let b: (usize, usize) = trim_bounds(s);
    b.0 == b.1
}

/// `pat` occurs in `s` at position `i`.
pub open spec fn match_at(s: Seq<char>, pat: Seq<char>, i: int) -> bool {
    0 <= i && i + pat.len() <= s.len() && s.subrange(i, i + pat.len()) == pat
}

/// The first position at which `pat` occurs in `s`, or `-1`.
pub open spec fn find_sub_idx(s: Seq<char>, pat: Seq<char>) -> int
    decreases s.len(),
{
    if match_at(s, pat, 0) {
        0
    } else if s.len() == 0 {
        -1
    } else {
        let r = find_sub_idx(s.drop_first(), pat);
        if r < 0 {
            -1
        } else {
            r + 1
        }
    }
}

/// The last position at which `pat` occurs in `s`, or `-1`.
pub open spec fn rfind_sub_idx(s: Seq<char>, pat: Seq<char>) -> int
    decreases s.len(),
{
    if pat.len() > s.len() {
        -1
    } else if match_at(s, pat, s.len() - pat.len()) {
        s.len() - pat.len()
    } else if s.len() == 0 {
        -1
    } else {
        rfind_sub_idx(s.drop_last(), pat)
    }
}

proof fn lemma_match_shift(s: Seq<char>, pat: Seq<char>, i: int)
    requires
        1 <= i,
        s.len() > 0,
    ensures
        match_at(s, pat, i) == match_at(s.drop_first(), pat, i - 1),
{
    if 0 <= i - 1 && i - 1 + pat.len() <= s.len() - 1 {
        assert(s.subrange(i, i + pat.len() as int) =~= s.drop_first().subrange(
            i - 1,
            i - 1 + pat.len() as int,
        ));
    }
}

/// `find_sub_idx` finds the first match.
pub proof fn lemma_find_sub_idx(s: Seq<char>, pat: Seq<char>)
    ensures
        find_sub_idx(s, pat) < 0 ==> forall|i: int| !match_at(s, pat, i),
        find_sub_idx(s, pat) >= 0 ==> match_at(s, pat, find_sub_idx(s, pat)),
        find_sub_idx(s, pat) >= 0 ==> forall|i: int|
            0 <= i < find_sub_idx(s, pat) ==> !match_at(s, pat, i),
    decreases s.len(),
{
    if match_at(s, pat, 0) {
    } else if s.len() == 0 {
        assert forall|i: int| !match_at(s, pat, i) by {
            if 0 <= i && i + pat.len() <= s.len() {
                assert(i == 0 && pat.len() == 0);
            }
        }
    } else {
        lemma_find_sub_idx(s.drop_first(), pat);
        let r = find_sub_idx(s.drop_first(), pat);
        if r < 0 {
            assert forall|i: int| !match_at(s, pat, i) by {
                if i >= 1 {
                    lemma_match_shift(s, pat, i);
                }
            }
        } else {
            lemma_match_shift(s, pat, r + 1);
            assert forall|i: int| 0 <= i < r + 1 implies !match_at(s, pat, i) by {
                if i >= 1 {
                    lemma_match_shift(s, pat, i);
                }
            }
        }
    }
}

proof fn lemma_match_prefix(s: Seq<char>, pat: Seq<char>, i: int)
    requires
        s.len() > 0,
        i + pat.len() <= s.len() - 1,
    ensures
        match_at(s, pat, i) == match_at(s.drop_last(), pat, i),
{
    if 0 <= i {
        assert(s.subrange(i, i + pat.len() as int) =~= s.drop_last().subrange(
            i,
            i + pat.len() as int,
        ));
    }
}

/// `rfind_sub_idx` finds the last match.
pub proof fn lemma_rfind_sub_idx(s: Seq<char>, pat: Seq<char>)
    ensures
        rfind_sub_idx(s, pat) < 0 ==> forall|i: int| !match_at(s, pat, i),
        rfind_sub_idx(s, pat) >= 0 ==> match_at(s, pat, rfind_sub_idx(s, pat)),
        rfind_sub_idx(s, pat) >= 0 ==> forall|i: int|
            rfind_sub_idx(s, pat) < i ==> !match_at(s, pat, i),
    decreases s.len(),
{
    if pat.len() > s.len() {
    } else if match_at(s, pat, s.len() - pat.len()) {
        assert forall|i: int| s.len() - pat.len() < i implies !match_at(s, pat, i) by {}
    } else if s.len() == 0 {
    } else {
        lemma_rfind_sub_idx(s.drop_last(), pat);
        let r = rfind_sub_idx(s.drop_last(), pat);
        if r < 0 {
            assert forall|i: int| !match_at(s, pat, i) by {
                if 0 <= i && i + pat.len() <= s.len() - 1 {
                    lemma_match_prefix(s, pat, i);
                }
            }
        } else {
            lemma_match_prefix(s, pat, r);
            assert forall|i: int| r < i implies !match_at(s, pat, i) by {
                if 0 <= i && i + pat.len() <= s.len() - 1 {
                    lemma_match_prefix(s, pat, i);
                }
            }
        }
    }
}

/// Whether `pat` occurs in `s` starting exactly at `i`.
pub fn eq_at(s: &Vec<char>, pat: &Vec<char>, i: usize) -> (r: bool)
    requires
        i + pat@.len() <= s@.len(),
    ensures
        r == match_at(s@, pat@, i as int),
{
    let n: usize = s.len();
    let m: usize = pat.len();
    let mut j: usize = 0;
    while j < m
        invariant
            j <= m,
            n == s@.len(),
            m == pat@.len(),
            i + m <= n,
            s@.subrange(i as int, i + j as int) == pat@.take(j as int),
        decreases m - j,
    {
        if s[i + j] != pat[j] {
            proof {
                assert(s@.subrange(i as int, i + m as int)[j as int] == s@[i + j]);
            }
            return false;
        }
        proof {
            assert(s@.subrange(i as int, i + j + 1 as int) =~= pat@.take(j + 1 as int));
        }
        j = j + 1;
    }
    proof {
        assert(s@.subrange(i as int, i + m as int) =~= pat@);
    }
    true
}

/// First occurrence of `pat` in `s`, as an index into the character sequence.
pub fn find_sub(s: &Vec<char>, pat: &Vec<char>) -> (r: Option<usize>)
    ensures
        match r {
            Some(i) => find_sub_idx(s@, pat@) == i as int,
            None => find_sub_idx(s@, pat@) < 0,
        },
{
    proof {
        lemma_find_sub_idx(s@, pat@);
    }
    let n: usize = s.len();
    let m: usize = pat.len();
    if m > n {
        return None;
    }
    if m == 0 {
        proof {
            assert(s@.subrange(0, 0) =~= pat@);
        }
        return Some(0);
    }
    let mut i: usize = 0;
    while i <= n - m
        invariant
            1 <= m <= n,
            n == s@.len(),
            m == pat@.len(),
            i <= n - m + 1,
            forall|k: int| 0 <= k < i ==> !match_at(s@, pat@, k),
        decreases n - i,
    {
        if eq_at(s, pat, i) {
            proof {
                lemma_find_sub_idx(s@, pat@);
            }
            return Some(i);
        }
        i = i + 1;
    }
    proof {
        assert forall|k: int| !match_at(s@, pat@, k) by {
            if 0 <= k && k + pat@.len() <= s@.len() {
                assert(k < i);
            }
        }
        lemma_find_sub_idx(s@, pat@);
    }
    None
}

/// Last occurrence of `pat` in `s`.
pub fn rfind_sub(s: &Vec<char>, pat: &Vec<char>) -> (r: Option<usize>)
    ensures
        match r {
            Some(i) => rfind_sub_idx(s@, pat@) == i as int,
            None => rfind_sub_idx(s@, pat@) < 0,
        },
{
    proof {
        lemma_rfind_sub_idx(s@, pat@);
    }
    let n: usize = s.len();
    let m: usize = pat.len();
    if m > n {
        return None;
    }
    let mut i: usize = n - m;
    loop
        invariant
            m <= n,
            n == s@.len(),
            m == pat@.len(),
            i <= n - m,
            forall|k: int| i < k ==> !match_at(s@, pat@, k),
        decreases i + 1,
    {
        if eq_at(s, pat, i) {
            proof {
                lemma_rfind_sub_idx(s@, pat@);
            }
            return Some(i);
        }
        if i == 0 {
            proof {
                assert forall|k: int| !match_at(s@, pat@, k) by {
                    if 0 <= k && k + pat@.len() <= s@.len() && k != 0 {
                        assert(k > i);
                    }
                }
                lemma_rfind_sub_idx(s@, pat@);
            }
            return None;
        }
        i = i - 1;
    }
}

/// Whether `pat` occurs anywhere in `s`.
pub fn contains_sub(s: &Vec<char>, pat: &Vec<char>) -> (r: bool)
    ensures
        r == (find_sub_idx(s@, pat@) >= 0),
{
    match find_sub(s, pat) {
        Some(_) => true,
        None => false,
    }
}

/// The first position of the character `c` in `s`, or `-1`.
pub open spec fn find_char_idx(s: Seq<char>, c: char) -> int
    decreases s.len(),
{
    if s.len() == 0 {
        -1
    } else if s[0] == c {
        0
    } else {
        let r = find_char_idx(s.drop_first(), c);
        if r < 0 {
            -1
        } else {
            r + 1
        }
    }
}

/// `find_char_idx` finds the first occurrence.
pub proof fn lemma_find_char_idx(s: Seq<char>, c: char)
    ensures
        find_char_idx(s, c) < 0 ==> forall|i: int| 0 <= i < s.len() ==> s[i] != c,
        find_char_idx(s, c) >= 0 ==> 0 <= find_char_idx(s, c) < s.len() && s[find_char_idx(s, c)]
            == c,
        find_char_idx(s, c) >= 0 ==> forall|i: int| 0 <= i < find_char_idx(s, c) ==> s[i] != c,
    decreases s.len(),
{
    if s.len() == 0 {
    } else if s[0] == c {
    } else {
        lemma_find_char_idx(s.drop_first(), c);
        assert forall|i: int| 1 <= i < s.len() implies s[i] == s.drop_first()[i - 1] by {}
    }
}

/// First occurrence of the character `c` in `s`.
pub fn find_char(s: &Vec<char>, c: char) -> (r: Option<usize>)
    ensures
        match r {
            Some(i) => find_char_idx(s@, c) == i as int,
            None => find_char_idx(s@, c) < 0,
        },
{
    proof {
        lemma_find_char_idx(s@, c);
    }
    let n: usize = s.len();
    let mut i: usize = 0;
    while i < n
        invariant
            i <= n,
            n == s@.len(),
            forall|k: int| 0 <= k < i ==> s@[k] != c,
        decreases n - i,
    {
        if s[i] == c {
            proof {
                lemma_find_char_idx(s@, c);
                let p = find_char_idx(s@, c);
                assert(p >= 0);
                assert(!(p < i as int) && !(p > i as int));
            }
            return Some(i);
        }
        i = i + 1;
    }
    None
}

/// Character-for-character equality of two string slices.
pub fn str_eq(a: &str, b: &str) -> (r: bool)
    ensures
        r == (a@ == b@),
{
    let ca: Vec<char> = chars_of(a);
    let cb: Vec<char> = chars_of(b);
    if ca.len() != cb.len() {
        return false;
    }
    let n: usize = ca.len();
    let mut i: usize = 0;
    while i < n
        invariant
            i <= n,
            n == ca@.len() == cb@.len(),
            ca@ == a@,
            cb@ == b@,
            forall|k: int| 0 <= k < i ==> ca@[k] == cb@[k],
        decreases n - i,
    {
        if ca[i] != cb[i] {
            return false;
        }
        i = i + 1;
    }
    proof {
        assert(a@ =~= b@);
    }
    true
}

/// Length of the longest common subsequence of `a` and `b`.
pub open spec fn lcs(a: Seq<char>, b: Seq<char>) -> nat
    decreases a.len() + b.len(),
{
    if a.len() == 0 || b.len() == 0 {
        0
    } else if a.last() == b.last() {
        lcs(a.drop_last(), b.drop_last()) + 1
    } else {
        let l1 = lcs(a.drop_last(), b);
        let l2 = lcs(a, b.drop_last());
        if l1 >= l2 {
            l1
        } else {
            l2
        }
    }
}

/// The LCS length never exceeds either input length.
pub proof fn lemma_lcs_bound(a: Seq<char>, b: Seq<char>)
    ensures
        lcs(a, b) <= a.len(),
        lcs(a, b) <= b.len(),
    decreases a.len() + b.len(),
{
    if a.len() == 0 || b.len() == 0 {
    } else if a.last() == b.last() {
        lemma_lcs_bound(a.drop_last(), b.drop_last());
    } else {
        lemma_lcs_bound(a.drop_last(), b);
        lemma_lcs_bound(a, b.drop_last());
    }
}

/// Dynamic-programming computation of the LCS length.
pub fn lcs_len(a: &Vec<char>, b: &Vec<char>) -> (r: usize)
    ensures
        r == lcs(a@, b@),
{
    let m: usize = a.len();
    let n: usize = b.len();
    let mut prev: Vec<usize> = Vec::new();
    prev.push(0);
    let mut j0: usize = 0;
    while j0 < n
        invariant
            j0 <= n,
            n == b@.len(),
            prev@.len() == j0 + 1,
            forall|k: int| 0 <= k <= j0 ==> prev@[k] == 0,
        decreases n - j0,
    {
        prev.push(0);
        j0 = j0 + 1;
    }
    proof {
        assert forall|k: int| 0 <= k <= n implies prev@[k] == lcs(a@.take(0), b@.take(k)) by {
            assert(a@.take(0).len() == 0);
        }
    }
    let mut i: usize = 0;
    while i < m
        invariant
            i <= m,
            m == a@.len(),
            n == b@.len(),
            prev@.len() == n + 1,
            forall|k: int| 0 <= k <= n ==> prev@[k] == lcs(a@.take(i as int), b@.take(k)),
        decreases m - i,
    {
        let row: usize = i + 1;
        let mut curr: Vec<usize> = Vec::new();
        curr.push(0);
        proof {
            assert(b@.take(0).len() == 0);
            assert(curr@[0] == lcs(a@.take(row as int), b@.take(0)));
        }
        let mut j: usize = 0;
        while j < n
            invariant
                row == i + 1 <= m,
                j <= n,
                m == a@.len(),
                n == b@.len(),
                prev@.len() == n + 1,
                forall|k: int| 0 <= k <= n ==> prev@[k] == lcs(a@.take(i as int), b@.take(k)),
                curr@.len() == j + 1,
                forall|k: int| 0 <= k <= j ==> curr@[k] == lcs(a@.take(row as int), b@.take(k)),
            decreases n - j,
        {
            let col: usize = j + 1;
            proof {
                assert(a@.take(row as int).drop_last() =~= a@.take(i as int));
                assert(b@.take(col as int).drop_last() =~= b@.take(j as int));
                assert(a@.take(row as int).last() == a@[i as int]);
                assert(b@.take(col as int).last() == b@[j as int]);
                lemma_lcs_bound(a@.take(i as int), b@.take(j as int));
            }
            let v: usize = if a[i] == b[j] {
                prev[j] + 1
            } else {
                let x: usize = prev[col];
                let y: usize = curr[j];
                if x >= y {
                    x
                } else {
                    y
                }
            };
            curr.push(v);
            j = col;
        }
        prev = curr;
        i = row;
    }
    proof {
        assert(a@.take(m as int) =~= a@);
        assert(b@.take(n as int) =~= b@);
    }
    prev[n]
}

} // verus!
