//! Properties of the merge engine that span several of its functions.

use vstd::prelude::*;

use crate::dedup::cand_duration_ms;
use crate::dedup::has_times;
use crate::dedup::is_duplicate_of;
use crate::dedup::isort;
use crate::dedup::keep_timed;
use crate::dedup::lemma_dedup_of_clean;
use crate::dedup::lemma_dedup_props;
use crate::dedup::lemma_isort_of_sorted;
use crate::dedup::lemma_isort_props;
use crate::dedup::lemma_keep_timed_elements;
use crate::dedup::lemma_keep_timed_of_timed;
use crate::dedup::merge_spec;
use crate::dedup::overlap_ms;
use crate::dedup::similarity_exceeds;
use crate::dedup::sorted_by_start;
use crate::dedup::start_delta_ms;
use crate::model::TranscriptionSegmentView;

verus! {

/// No accepted segment duplicates an earlier-accepted one: for any two
/// merge-engine outputs within the fifteen-second comparison window, the
/// later one either overlaps the earlier by at most 30% of its duration or
/// is at most 60% similar to it.  (Pairs further apart are outside the
/// window the engine compares in; the output is time-sorted, so position
/// order is start-time order.)
pub proof fn lemma_accepted_pair_dissimilar(s: Seq<TranscriptionSegmentView>, i: int, j: int)
    requires
        0 <= i < j < merge_spec(s).len(),
        start_delta_ms(merge_spec(s)[j], merge_spec(s)[i]) <= 15000,
    ensures
        10 * overlap_ms(merge_spec(s)[j], merge_spec(s)[i]) <= 3 * cand_duration_ms(
            merge_spec(s)[j],
        ) || !similarity_exceeds(merge_spec(s)[j].content, merge_spec(s)[i].content, 3, 5),
{
    lemma_isort_props(keep_timed(s));
    lemma_dedup_props(isort(keep_timed(s)));
    assert(!is_duplicate_of(merge_spec(s)[j], merge_spec(s)[i]));
}

/// Within the five-second window, an accepted pair is at most 50% similar.
pub proof fn lemma_accepted_close_pair_dissimilar(s: Seq<TranscriptionSegmentView>, i: int, j: int)
    requires
        0 <= i < j < merge_spec(s).len(),
        start_delta_ms(merge_spec(s)[j], merge_spec(s)[i]) < 5000,
    ensures
        !similarity_exceeds(merge_spec(s)[j].content, merge_spec(s)[i].content, 1, 2),
{
    lemma_isort_props(keep_timed(s));
    lemma_dedup_props(isort(keep_timed(s)));
    assert(!is_duplicate_of(merge_spec(s)[j], merge_spec(s)[i]));
}

/// The merge engine's output is time-sorted and fully timestamped.
pub proof fn lemma_merge_output_clean(s: Seq<TranscriptionSegmentView>)
    ensures
        sorted_by_start(merge_spec(s)),
        forall|j: int| 0 <= j < merge_spec(s).len() ==> has_times(#[trigger] merge_spec(s)[j]),
{
    let kt = keep_timed(s);
    let st = isort(kt);
    let out = merge_spec(s);
    lemma_keep_timed_elements(s);
    lemma_isort_props(kt);
    lemma_dedup_props(st);
    assert forall|j: int| 0 <= j < out.len() implies has_times(#[trigger] out[j]) by {
        let i1 = choose|i1: int| 0 <= i1 < st.len() && st[i1] == out[j];
        let i2 = choose|i2: int| 0 <= i2 < kt.len() && kt[i2] == st[i1];
        assert(has_times(kt[i2]));
    }
}

/// The merge engine is idempotent: run on its own output it changes
/// nothing.
pub proof fn lemma_merge_idempotent(s: Seq<TranscriptionSegmentView>)
    ensures
        merge_spec(merge_spec(s)) == merge_spec(s),
{
    let out = merge_spec(s);
    lemma_merge_output_clean(s);
    lemma_isort_props(keep_timed(s));
    lemma_dedup_props(isort(keep_timed(s)));
    lemma_keep_timed_of_timed(out);
    lemma_isort_of_sorted(out);
    lemma_dedup_of_clean(out);
}

} // verus!
