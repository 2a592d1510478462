//! The merge engine: time-sorting of the accumulated segments and removal
//! of the near-duplicates that the deliberate temporal overlap between
//! adjacent windows produces.
//!
//! A candidate segment is a duplicate of an already accepted one when the
//! two start within fifteen seconds of each other and either (a) more than
//! 30% of the candidate's duration falls inside the accepted segment and
//! the texts are more than 60% similar, or (b) the starts are within five
//! seconds and the texts are more than 50% similar.  Similarity is the
//! longest-common-subsequence length over the longer of the two trimmed
//! texts.  Earlier-inserted segments always win.

use vstd::prelude::*;

use crate::model::MAX_TIME_MS;
use crate::model::TranscriptionSegment;
use crate::model::TranscriptionSegmentView;
use crate::text::chars_of;
use crate::text::lcs;
use crate::text::lcs_len;
use crate::text::trimmed;
use crate::text::trimmed_chars;

verus! {

/// The views of a segment sequence.
pub open spec fn views_of(s: Seq<TranscriptionSegment>) -> Seq<TranscriptionSegmentView> {
    s.map(|i: int, x: TranscriptionSegment| x@)
}

/// Start time used for ordering and comparison: a missing start counts as
/// zero.
pub open spec fn start_of(s: TranscriptionSegmentView) -> int {
    match s.start_time {
        Some(t) => t as int,
        None => 0,
    }
}

/// End time used for comparison: a missing end counts as the start.
pub open spec fn end_of(s: TranscriptionSegmentView) -> int {
    match s.end_time {
        Some(t) => t as int,
        None => start_of(s),
    }
}

/// Absolute difference of the two start times.
pub open spec fn start_delta_ms(a: TranscriptionSegmentView, b: TranscriptionSegmentView) -> int {
    if start_of(a) >= start_of(b) {
        start_of(a) - start_of(b)
    } else {
        start_of(b) - start_of(a)
    }
}

/// Length of the time range shared by candidate `c` and accepted `e`.
pub open spec fn overlap_ms(c: TranscriptionSegmentView, e: TranscriptionSegmentView) -> int {
    let os = if start_of(c) >= start_of(e) {
        start_of(c)
    } else {
        start_of(e)
    };
    let oe = if end_of(c) <= end_of(e) {
        end_of(c)
    } else {
        end_of(e)
    };
    if oe >= os {
        oe - os
    } else {
        0
    }
}

/// Candidate duration with a 100 ms floor, so that the overlap ratio is
/// well defined even for degenerate timestamps.
pub open spec fn cand_duration_ms(c: TranscriptionSegmentView) -> int {
    if end_of(c) - start_of(c) >= 100 {
        end_of(c) - start_of(c)
    } else {
        100
    }
}

/// Numerator of the similarity ratio of two texts (after trimming):
/// two empty or equal texts are fully similar, one empty text is fully
/// dissimilar, anything else is measured by the LCS length.
pub open spec fn sim_num(a: Seq<char>, b: Seq<char>) -> int {
    let ta = trimmed(a);
    let tb = trimmed(b);
    if ta.len() == 0 && tb.len() == 0 {
        1
    } else if ta.len() == 0 || tb.len() == 0 {
        0
    } else if ta == tb {
        1
    } else {
        lcs(ta, tb) as int
    }
}

/// Denominator of the similarity ratio: the longer trimmed length (or one,
/// in the degenerate cases).
pub open spec fn sim_den(a: Seq<char>, b: Seq<char>) -> int {
    let ta = trimmed(a);
    let tb = trimmed(b);
    if ta.len() == 0 || tb.len() == 0 || ta == tb {
        1
    } else if ta.len() >= tb.len() {
        ta.len() as int
    } else {
        tb.len() as int
    }
}

/// Whether the similarity of `a` and `b` strictly exceeds `num / den`.
pub open spec fn similarity_exceeds(a: Seq<char>, b: Seq<char>, num: int, den: int) -> bool {
    sim_num(a, b) * den > num * sim_den(a, b)
}

/// The duplicate test of the merge engine, candidate against one accepted
/// segment.
pub open spec fn is_duplicate_of(c: TranscriptionSegmentView, e: TranscriptionSegmentView) -> bool {
    start_delta_ms(c, e) <= 15000 && ((10 * overlap_ms(c, e) > 3 * cand_duration_ms(c)
        && similarity_exceeds(c.content, e.content, 3, 5)) || (start_delta_ms(c, e) < 5000
        && similarity_exceeds(c.content, e.content, 1, 2)))
}

/// Whether `c` duplicates any segment of `acc`.
pub open spec fn is_dup_of_any(acc: Seq<TranscriptionSegmentView>, c: TranscriptionSegmentView) -> bool {
    exists|i: int| 0 <= i < acc.len() && is_duplicate_of(c, acc[i])
}

/// The output of the duplicate-removal walk: each segment in turn is kept
/// exactly when it duplicates no earlier-kept segment.
pub open spec fn dedup_spec(s: Seq<TranscriptionSegmentView>) -> Seq<TranscriptionSegmentView>
    decreases s.len(),
{
    if s.len() == 0 {
        Seq::empty()
    } else {
        let prev = dedup_spec(s.drop_last());
        if is_dup_of_any(prev, s.last()) {
            prev
        } else {
            prev.push(s.last())
        }
    }
}

/// Both timestamps stay below the pipeline's time bound.
pub open spec fn times_bounded(v: TranscriptionSegmentView) -> bool {
    &&& match v.start_time {
        Some(t) => t <= MAX_TIME_MS,
        None => true,
    }
    &&& match v.end_time {
        Some(t) => t <= MAX_TIME_MS,
        None => true,
    }
}

/// Character-for-character equality of two character vectors.
fn chars_eq(a: &Vec<char>, b: &Vec<char>) -> (r: bool)
    ensures
        r == (a@ == b@),
{
    if a.len() != b.len() {
        return false;
    }
    let n: usize = a.len();
    let mut i: usize = 0;
    while i < n
        invariant
            i <= n,
            n == a@.len() == b@.len(),
            forall|k: int| 0 <= k < i ==> a@[k] == b@[k],
        decreases n - i,
    {
        if a[i] != b[i] {
            return false;
        }
        i = i + 1;
    }
    proof {
        assert(a@ =~= b@);
    }
    true
}

/// Whether the similarity of `a` and `b` strictly exceeds `num / den`.
pub fn similarity_exceeds_check(a: &str, b: &str, num: u64, den: u64) -> (r: bool)
    requires
        1 <= den,
    ensures
        r == similarity_exceeds(a@, b@, num as int, den as int),
{
    let ca0: Vec<char> = chars_of(a);
    let cb0: Vec<char> = chars_of(b);
    let ca: Vec<char> = trimmed_chars(&ca0);
    let cb: Vec<char> = trimmed_chars(&cb0);
    if ca.len() == 0 && cb.len() == 0 {
        return den > num;
    }
    if ca.len() == 0 || cb.len() == 0 {
        return false;
    }
    if chars_eq(&ca, &cb) {
        return den > num;
    }
    let l: usize = lcs_len(&ca, &cb);
    let mx: usize = if ca.len() >= cb.len() {
        ca.len()
    } else {
        cb.len()
    };
    proof {
        assert((den as int) * (l as int) < 0x100000000000000000000000000000000 && (num as int) * (
        mx as int) < 0x100000000000000000000000000000000) by (nonlinear_arith)
            requires
                den as int <= 0xffffffffffffffff,
                num as int <= 0xffffffffffffffff,
                l as int <= 0xffffffffffffffff,
                mx as int <= 0xffffffffffffffff,
        ;
    }
    let lhs: u128 = (den as u128) * (l as u128);
    let rhs: u128 = (num as u128) * (mx as u128);
    proof {
        assert(lhs as int == (den as int) * (l as int));
        assert(rhs as int == (num as int) * (mx as int));
        assert(sim_num(a@, b@) == l as int);
        assert(sim_den(a@, b@) == mx as int);
    }
    lhs > rhs
}

/// Start time used for ordering: a missing start counts as zero.
pub fn start_key(s: &TranscriptionSegment) -> (r: u64)
    ensures
        r as int == start_of(s@),
{
    match s.start_time {
        Some(t) => t,
        None => 0,
    }
}

/// End time used for comparison: a missing end counts as the start.
fn end_key(s: &TranscriptionSegment) -> (r: u64)
    ensures
        r as int == end_of(s@),
{
    match s.end_time {
        Some(t) => t,
        None => start_key(s),
    }
}

/// The duplicate test, candidate against one accepted segment.
fn is_duplicate_check(c: &TranscriptionSegment, e: &TranscriptionSegment) -> (r: bool)
    requires
        times_bounded(c@),
        times_bounded(e@),
    ensures
        r == is_duplicate_of(c@, e@),
{
    let cs: u64 = start_key(c);
    let es: u64 = start_key(e);
    let delta: u64 = if cs >= es {
        cs - es
    } else {
        es - cs
    };
    if delta > 15000 {
        return false;
    }
    let ce: u64 = end_key(c);
    let ee: u64 = end_key(e);
    let ov_start: u64 = if cs >= es {
        cs
    } else {
        es
    };
    let ov_end: u64 = if ce <= ee {
        ce
    } else {
        ee
    };
    let ov: u64 = if ov_end >= ov_start {
        ov_end - ov_start
    } else {
        0
    };
    let dur: u64 = if ce >= cs && ce - cs >= 100 {
        ce - cs
    } else {
        100
    };
    let cond1: bool = 10 * ov > 3 * dur && similarity_exceeds_check(
        c.content.as_str(),
        e.content.as_str(),
        3,
        5,
    );
    let cond2: bool = delta < 5000 && similarity_exceeds_check(
        c.content.as_str(),
        e.content.as_str(),
        1,
        2,
    );
    cond1 || cond2
}

/// Remove near-duplicates, keeping the earlier-inserted copy.
pub fn deduplicate_segments(segments: Vec<TranscriptionSegment>) -> (r: Vec<TranscriptionSegment>)
    requires
        forall|i: int| 0 <= i < segments@.len() ==> times_bounded(#[trigger] segments@[i]@),
    ensures
        views_of(r@) == dedup_spec(views_of(segments@)),
        forall|i: int| 0 <= i < r@.len() ==> times_bounded(#[trigger] r@[i]@),
{
    let ghost all = views_of(segments@);
    let mut rest: Vec<TranscriptionSegment> = segments;
    let mut out: Vec<TranscriptionSegment> = Vec::new();
    let ghost mut k: int = 0;
    proof {
        assert(views_of(rest@) =~= all.skip(0));
        assert(views_of(out@) =~= dedup_spec(all.take(0)));
    }
    while rest.len() > 0
        invariant
            0 <= k <= all.len(),
            views_of(rest@) == all.skip(k),
            views_of(out@) == dedup_spec(all.take(k)),
            rest@.len() == all.len() - k,
            forall|i: int| 0 <= i < rest@.len() ==> times_bounded(#[trigger] rest@[i]@),
            forall|i: int| 0 <= i < out@.len() ==> times_bounded(#[trigger] out@[i]@),
        decreases rest@.len(),
    {
        let ghost rest0 = rest@;
        let ghost out0 = out@;
        let e = rest.remove(0);
        proof {
            assert(views_of(rest@) =~= views_of(rest0).drop_first());
            assert(views_of(rest@) =~= all.skip(k + 1));
            assert(views_of(rest0)[0] == rest0[0]@);
            assert(all.skip(k)[0] == all[k]);
            assert(e@ == all[k]);
        }
        let m: usize = out.len();
        let mut dup: bool = false;
        let mut j: usize = 0;
        while j < m
            invariant
                j <= m,
                m == out@.len(),
                times_bounded(e@),
                forall|i: int| 0 <= i < out@.len() ==> times_bounded(#[trigger] out@[i]@),
                dup == exists|i: int|
                    0 <= i < j && is_duplicate_of(e@, #[trigger] views_of(out@)[i]),
            decreases m - j,
        {
            if is_duplicate_check(&e, &out[j]) {
                proof {
                    assert(views_of(out@)[j as int] == out@[j as int]@);
                }
                dup = true;
            }
            j = j + 1;
        }
        proof {
            assert(dup == is_dup_of_any(views_of(out@), e@));
            assert(all.take(k + 1).drop_last() =~= all.take(k));
            assert(all.take(k + 1).last() == all[k]);
        }
        if !dup {
            out.push(e);
            proof {
                assert(views_of(out@) =~= views_of(out0).push(all[k]));
            }
        }
        proof {
            k = k + 1;
        }
    }
    proof {
        assert(all.take(all.len() as int) =~= all);
    }
    out
}

/// A segment that carries both timestamps.
pub open spec fn has_times(v: TranscriptionSegmentView) -> bool {
    v.start_time is Some && v.end_time is Some
}

/// The subsequence of segments that carry both timestamps.
pub open spec fn keep_timed(s: Seq<TranscriptionSegmentView>) -> Seq<TranscriptionSegmentView>
    decreases s.len(),
{
    if s.len() == 0 {
        Seq::empty()
    } else {
        let prev = keep_timed(s.drop_last());
        if has_times(s.last()) {
            prev.push(s.last())
        } else {
            prev
        }
    }
}

/// Drop every segment that lacks a timestamp.
pub fn drop_untimed(segments: Vec<TranscriptionSegment>) -> (r: Vec<TranscriptionSegment>)
    ensures
        views_of(r@) == keep_timed(views_of(segments@)),
{
    let ghost all = views_of(segments@);
    let mut rest: Vec<TranscriptionSegment> = segments;
    let mut out: Vec<TranscriptionSegment> = Vec::new();
    let ghost mut k: int = 0;
    proof {
        assert(views_of(rest@) =~= all.skip(0));
        assert(views_of(out@) =~= keep_timed(all.take(0)));
    }
    while rest.len() > 0
        invariant
            0 <= k <= all.len(),
            views_of(rest@) == all.skip(k),
            views_of(out@) == keep_timed(all.take(k)),
            rest@.len() == all.len() - k,
        decreases rest@.len(),
    {
        let ghost rest0 = rest@;
        let ghost out0 = out@;
        let e = rest.remove(0);
        proof {
            assert(views_of(rest@) =~= views_of(rest0).drop_first());
            assert(views_of(rest@) =~= all.skip(k + 1));
            assert(views_of(rest0)[0] == rest0[0]@);
            assert(all.skip(k)[0] == all[k]);
            assert(e@ == all[k]);
            assert(all.take(k + 1).drop_last() =~= all.take(k));
            assert(all.take(k + 1).last() == all[k]);
        }
        let keep: bool = e.start_time.is_some() && e.end_time.is_some();
        if keep {
            out.push(e);
            proof {
                assert(views_of(out@) =~= views_of(out0).push(all[k]));
            }
        }
        proof {
            k = k + 1;
        }
    }
    proof {
        assert(all.take(all.len() as int) =~= all);
    }
    out
}

/// Every kept segment is one of the input segments.
pub proof fn lemma_keep_timed_elements(s: Seq<TranscriptionSegmentView>)
    ensures
        forall|j: int|
            0 <= j < keep_timed(s).len() ==> exists|i: int|
                0 <= i < s.len() && s[i] == #[trigger] keep_timed(s)[j],
        forall|j: int| 0 <= j < keep_timed(s).len() ==> has_times(#[trigger] keep_timed(s)[j]),
    decreases s.len(),
{
    if s.len() > 0 {
        lemma_keep_timed_elements(s.drop_last());
        let prev = keep_timed(s.drop_last());
        assert forall|j: int| 0 <= j < keep_timed(s).len() implies exists|i: int|
            0 <= i < s.len() && s[i] == #[trigger] keep_timed(s)[j] by {
            if j < prev.len() {
                let i = choose|i: int| 0 <= i < s.drop_last().len() && s.drop_last()[i] == prev[j];
                assert(s[i] == keep_timed(s)[j]);
            } else {
                assert(keep_timed(s)[j] == s.last());
                assert(s[s.len() - 1] == keep_timed(s)[j]);
            }
        }
    }
}

/// Insertion position that keeps the list sorted and stable: the first
/// index whose start time exceeds the candidate's.
pub open spec fn ins_pos(s: Seq<TranscriptionSegmentView>, x: TranscriptionSegmentView) -> int
    decreases s.len(),
{
    if s.len() == 0 {
        0
    } else if start_of(s[0]) > start_of(x) {
        0
    } else {
        1 + ins_pos(s.drop_first(), x)
    }
}

/// `ins_pos` splits the list at the first larger start time.
pub proof fn lemma_ins_pos(s: Seq<TranscriptionSegmentView>, x: TranscriptionSegmentView)
    ensures
        0 <= ins_pos(s, x) <= s.len(),
        forall|i: int| 0 <= i < ins_pos(s, x) ==> start_of(s[i]) <= start_of(x),
        ins_pos(s, x) < s.len() ==> start_of(s[ins_pos(s, x)]) > start_of(x),
    decreases s.len(),
{
    if s.len() > 0 && !(start_of(s[0]) > start_of(x)) {
        lemma_ins_pos(s.drop_first(), x);
        assert forall|i: int| 0 <= i < ins_pos(s, x) implies start_of(s[i]) <= start_of(x) by {
            if i >= 1 {
                assert(s[i] == s.drop_first()[i - 1]);
            }
        }
        if ins_pos(s, x) < s.len() {
            assert(s[ins_pos(s, x)] == s.drop_first()[ins_pos(s.drop_first(), x)]);
        }
    }
}

/// `x` inserted at its stable position.
pub open spec fn insert_sorted(
    s: Seq<TranscriptionSegmentView>,
    x: TranscriptionSegmentView,
) -> Seq<TranscriptionSegmentView> {
    let p = ins_pos(s, x);
    s.take(p) + seq![x] + s.skip(p)
}

/// The stable insertion sort of the merge engine, by start time.
pub open spec fn isort(s: Seq<TranscriptionSegmentView>) -> Seq<TranscriptionSegmentView>
    decreases s.len(),
{
    if s.len() == 0 {
        Seq::empty()
    } else {
        insert_sorted(isort(s.drop_last()), s.last())
    }
}

/// Sorted ascending by start time.
pub open spec fn sorted_by_start(s: Seq<TranscriptionSegmentView>) -> bool {
    forall|i: int, j: int| 0 <= i < j < s.len() ==> start_of(s[i]) <= start_of(s[j])
}

/// Stable insertion sort by start time.
pub fn sort_segments_by_start(segments: Vec<TranscriptionSegment>) -> (r: Vec<
    TranscriptionSegment,
>)
    ensures
        views_of(r@) == isort(views_of(segments@)),
{
    let ghost all = views_of(segments@);
    let mut rest: Vec<TranscriptionSegment> = segments;
    let mut out: Vec<TranscriptionSegment> = Vec::new();
    let ghost mut k: int = 0;
    proof {
        assert(views_of(rest@) =~= all.skip(0));
        assert(views_of(out@) =~= isort(all.take(0)));
    }
    while rest.len() > 0
        invariant
            0 <= k <= all.len(),
            views_of(rest@) == all.skip(k),
            views_of(out@) == isort(all.take(k)),
            rest@.len() == all.len() - k,
        decreases rest@.len(),
    {
        let ghost rest0 = rest@;
        let ghost out0 = views_of(out@);
        let e = rest.remove(0);
        proof {
            assert(views_of(rest@) =~= views_of(rest0).drop_first());
            assert(views_of(rest@) =~= all.skip(k + 1));
            assert(views_of(rest0)[0] == rest0[0]@);
            assert(all.skip(k)[0] == all[k]);
            assert(e@ == all[k]);
            lemma_ins_pos(out0, e@);
        }
        let key: u64 = start_key(&e);
        let m: usize = out.len();
        let mut j: usize = 0;
        while j < m && !(start_key(&out[j]) > key)
            invariant
                j <= m,
                m == out@.len(),
                out0 == views_of(out@),
                key as int == start_of(e@),
                forall|i: int| 0 <= i < j ==> start_of(#[trigger] out0[i]) <= start_of(e@),
            decreases m - j,
        {
            proof {
                assert(out0[j as int] == out@[j as int]@);
            }
            j = j + 1;
        }
        proof {
            assert(j < m ==> out@[j as int]@ == out0[j as int]);
            lemma_ins_pos(out0, e@);
            assert(j as int == ins_pos(out0, e@)) by {
                let p = ins_pos(out0, e@);
                if p < j {
                    assert(start_of(out0[p]) <= start_of(e@));
                }
                if j < p {
                    assert(start_of(out0[j as int]) <= start_of(e@));
                }
            }
        }
        out.insert(j, e);
        proof {
            assert(views_of(out@) =~= insert_sorted(out0, all[k]));
            assert(all.take(k + 1).drop_last() =~= all.take(k));
            assert(all.take(k + 1).last() == all[k]);
            k = k + 1;
        }
    }
    proof {
        assert(all.take(all.len() as int) =~= all);
    }
    out
}

/// The merge engine: drop untimed segments, sort by start time, remove
/// near-duplicates.
pub open spec fn merge_spec(s: Seq<TranscriptionSegmentView>) -> Seq<TranscriptionSegmentView> {
    dedup_spec(isort(keep_timed(s)))
}

/// Inserting keeps the list sorted, grows it by one, and adds no segment
/// but `x`.
pub proof fn lemma_insert_sorted_props(s: Seq<TranscriptionSegmentView>, x: TranscriptionSegmentView)
    requires
        sorted_by_start(s),
    ensures
        sorted_by_start(insert_sorted(s, x)),
        insert_sorted(s, x).len() == s.len() + 1,
        forall|j: int|
            0 <= j < insert_sorted(s, x).len() ==> #[trigger] insert_sorted(s, x)[j] == x
                || exists|i: int| 0 <= i < s.len() && s[i] == insert_sorted(s, x)[j],
{
    lemma_ins_pos(s, x);
    let p = ins_pos(s, x);
    let t = insert_sorted(s, x);
    assert forall|i: int, j: int| 0 <= i < j < t.len() implies start_of(t[i]) <= start_of(
        t[j],
    ) by {
        if i < p {
            assert(t[i] == s[i]);
        } else if i == p {
            assert(t[i] == x);
        } else {
            assert(t[i] == s[i - 1]);
        }
        if j < p {
            assert(t[j] == s[j]);
        } else if j == p {
            assert(t[j] == x);
        } else {
            assert(t[j] == s[j - 1]);
        }
    }
    assert forall|j: int| 0 <= j < t.len() implies #[trigger] t[j] == x || exists|i: int|
        0 <= i < s.len() && s[i] == t[j] by {
        if j < p {
            assert(s[j] == t[j]);
        } else if j > p {
            assert(s[j - 1] == t[j]);
        }
    }
}

/// Sorting sorts, keeps the length, and adds no segments.
pub proof fn lemma_isort_props(s: Seq<TranscriptionSegmentView>)
    ensures
        sorted_by_start(isort(s)),
        isort(s).len() == s.len(),
        forall|j: int|
            0 <= j < isort(s).len() ==> exists|i: int|
                0 <= i < s.len() && s[i] == #[trigger] isort(s)[j],
    decreases s.len(),
{
    if s.len() > 0 {
        lemma_isort_props(s.drop_last());
        lemma_insert_sorted_props(isort(s.drop_last()), s.last());
        assert forall|j: int| 0 <= j < isort(s).len() implies exists|i: int|
            0 <= i < s.len() && s[i] == #[trigger] isort(s)[j] by {
            if isort(s)[j] == s.last() {
                assert(s[s.len() - 1] == isort(s)[j]);
            } else {
                let i0 = choose|i0: int|
                    0 <= i0 < isort(s.drop_last()).len() && isort(s.drop_last())[i0] == isort(s)[j];
                let i = choose|i: int|
                    0 <= i < s.drop_last().len() && s.drop_last()[i] == isort(s.drop_last())[i0];
                assert(s[i] == isort(s)[j]);
            }
        }
    }
}

/// The duplicate-removal walk keeps the order, adds no segments, and
/// leaves no pair in which the later segment duplicates the earlier one.
pub proof fn lemma_dedup_props(s: Seq<TranscriptionSegmentView>)
    requires
        sorted_by_start(s),
    ensures
        sorted_by_start(dedup_spec(s)),
        forall|j: int|
            0 <= j < dedup_spec(s).len() ==> exists|i: int|
                0 <= i < s.len() && s[i] == #[trigger] dedup_spec(s)[j],
        forall|i: int, j: int|
            0 <= i < j < dedup_spec(s).len() ==> !is_duplicate_of(
                #[trigger] dedup_spec(s)[j],
                #[trigger] dedup_spec(s)[i],
            ),
    decreases s.len(),
{
    if s.len() > 0 {
        assert(sorted_by_start(s.drop_last()));
        lemma_dedup_props(s.drop_last());
        let prev = dedup_spec(s.drop_last());
        let out = dedup_spec(s);
        assert forall|j: int| 0 <= j < out.len() implies exists|i: int|
            0 <= i < s.len() && s[i] == #[trigger] out[j] by {
            if j < prev.len() {
                let i = choose|i: int|
                    0 <= i < s.drop_last().len() && s.drop_last()[i] == prev[j];
                assert(s[i] == out[j]);
            } else {
                assert(out[j] == s.last());
                assert(s[s.len() - 1] == out[j]);
            }
        }
        if !is_dup_of_any(prev, s.last()) {
            assert forall|i: int, j: int| 0 <= i < j < out.len() implies start_of(out[i])
                <= start_of(out[j]) by {
                if j < prev.len() {
                } else {
                    let i0 = choose|i0: int|
                        0 <= i0 < s.drop_last().len() && s.drop_last()[i0] == prev[i];
                    assert(start_of(s[i0]) <= start_of(s[s.len() - 1]));
                }
            }
            assert forall|i: int, j: int| 0 <= i < j < out.len() implies !is_duplicate_of(
                #[trigger] out[j],
                #[trigger] out[i],
            ) by {
                if j == prev.len() {
                    assert(out[j] == s.last());
                    assert(out[i] == prev[i]);
                    assert(!is_duplicate_of(s.last(), prev[i]));
                }
            }
        }
    }
}

/// A list in which no later segment duplicates an earlier one passes the
/// walk unchanged.
pub proof fn lemma_dedup_of_clean(s: Seq<TranscriptionSegmentView>)
    requires
        forall|i: int, j: int|
            0 <= i < j < s.len() ==> !is_duplicate_of(#[trigger] s[j], #[trigger] s[i]),
    ensures
        dedup_spec(s) == s,
    decreases s.len(),
{
    if s.len() == 0 {
        assert(dedup_spec(s) =~= s);
    } else {
        assert(forall|i: int, j: int|
            0 <= i < j < s.drop_last().len() ==> !is_duplicate_of(
                #[trigger] s.drop_last()[j],
                #[trigger] s.drop_last()[i],
            ));
        lemma_dedup_of_clean(s.drop_last());
        assert(!is_dup_of_any(s.drop_last(), s.last())) by {
            if is_dup_of_any(s.drop_last(), s.last()) {
                let i = choose|i: int|
                    0 <= i < s.drop_last().len() && is_duplicate_of(s.last(), s.drop_last()[i]);
                assert(is_duplicate_of(s[s.len() - 1], s[i]));
            }
        }
        assert(dedup_spec(s) =~= s);
    }
}

/// An already sorted list passes the sort unchanged.
pub proof fn lemma_isort_of_sorted(s: Seq<TranscriptionSegmentView>)
    requires
        sorted_by_start(s),
    ensures
        isort(s) == s,
    decreases s.len(),
{
    if s.len() == 0 {
        assert(isort(s) =~= s);
    } else {
        assert(sorted_by_start(s.drop_last()));
        lemma_isort_of_sorted(s.drop_last());
        lemma_ins_pos(s.drop_last(), s.last());
        let p = ins_pos(s.drop_last(), s.last());
        assert(p == s.drop_last().len()) by {
            if p < s.drop_last().len() {
                assert(start_of(s[p]) <= start_of(s[s.len() - 1]));
            }
        }
        assert(isort(s) =~= s);
    }
}

/// A list of fully timestamped segments passes the filter unchanged.
pub proof fn lemma_keep_timed_of_timed(s: Seq<TranscriptionSegmentView>)
    requires
        forall|i: int| 0 <= i < s.len() ==> has_times(#[trigger] s[i]),
    ensures
        keep_timed(s) == s,
    decreases s.len(),
{
    if s.len() == 0 {
        assert(keep_timed(s) =~= s);
    } else {
        assert(forall|i: int|
            0 <= i < s.drop_last().len() ==> has_times(#[trigger] s.drop_last()[i]));
        lemma_keep_timed_of_timed(s.drop_last());
        assert(keep_timed(s) =~= s);
    }
}

/// The merge engine: drop segments without timestamps, sort the rest by
/// start time, and remove near-duplicates.  The output realises the merge
/// of the accumulated windows: it is time-sorted and every surviving
/// segment carries both timestamps.
pub fn merge_segments(segments: Vec<TranscriptionSegment>) -> (r: Vec<TranscriptionSegment>)
    requires
        forall|i: int| 0 <= i < segments@.len() ==> times_bounded(#[trigger] segments@[i]@),
    ensures
        views_of(r@) == merge_spec(views_of(segments@)),
        sorted_by_start(views_of(r@)),
        forall|j: int| 0 <= j < r@.len() ==> has_times(#[trigger] r@[j]@),
        forall|j: int| 0 <= j < r@.len() ==> times_bounded(#[trigger] r@[j]@),
{
    let ghost all = views_of(segments@);
    let timed: Vec<TranscriptionSegment> = drop_untimed(segments);
    proof {
        lemma_keep_timed_elements(all);
        assert forall|i: int| 0 <= i < timed@.len() implies times_bounded(
            #[trigger] timed@[i]@,
        ) && has_times(timed@[i]@) by {
            assert(views_of(timed@)[i] == timed@[i]@);
            let i0 = choose|i0: int| 0 <= i0 < all.len() && all[i0] == keep_timed(all)[i];
            assert(all[i0] == segments@[i0]@);
        }
    }
    let sorted: Vec<TranscriptionSegment> = sort_segments_by_start(timed);
    proof {
        lemma_isort_props(views_of(timed@));
        assert forall|i: int| 0 <= i < sorted@.len() implies times_bounded(
            #[trigger] sorted@[i]@,
        ) && has_times(sorted@[i]@) by {
            assert(views_of(sorted@)[i] == sorted@[i]@);
            let i0 = choose|i0: int|
                0 <= i0 < views_of(timed@).len() && views_of(timed@)[i0] == views_of(sorted@)[i];
            assert(views_of(timed@)[i0] == timed@[i0]@);
        }
    }
    let r: Vec<TranscriptionSegment> = deduplicate_segments(sorted);
    proof {
        lemma_dedup_props(views_of(sorted@));
        assert forall|j: int| 0 <= j < r@.len() implies has_times(#[trigger] r@[j]@) by {
            assert(views_of(r@)[j] == r@[j]@);
            let i0 = choose|i0: int|
                0 <= i0 < views_of(sorted@).len() && views_of(sorted@)[i0] == views_of(r@)[j];
            assert(views_of(sorted@)[i0] == sorted@[i0]@);
        }
    }
    r
}

} // verus!
