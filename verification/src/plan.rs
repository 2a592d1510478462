//! Mode selection and chunk planning.
//!
//! A recording at most ten minutes long is transcribed in one call; a
//! longer one is cut into ten-minute windows that overlap by thirty
//! seconds, so the planner steps by nine and a half minutes.  A backend
//! flagged as video-capable bypasses audio chunking entirely and analyses
//! the whole (compressed) video in one multimodal call.

use vstd::prelude::*;

use crate::model::MAX_TIME_MS;
use crate::text::chars_of;
use crate::text::contains_sub;
use crate::text::find_sub_idx;
use crate::text::str_eq;

verus! {

/// Media at most this long is transcribed in a single call.
pub const CHUNK_THRESHOLD_MS: u64 = 600_000;

/// Nominal length of one chunk window.
pub const CHUNK_DURATION_MS: u64 = 600_000;

/// Intentional overlap between adjacent windows.
pub const CHUNK_OVERLAP_MS: u64 = 30_000;

/// How the pipeline will process a recording.
#[derive(Clone, Copy, Debug, PartialEq, Eq, Structural)]
pub enum ExtractionMode {
    /// One multimodal call on the whole compressed video.
    WholeVideoMultimodal,
    /// Overlapping audio windows, transcribed pairwise and merged.
    Chunked,
    /// One transcription call on the whole audio track.
    SingleShot,
}

/// The mode owed for a recording: a video-capable backend takes the
/// whole-video path; otherwise the duration decides between chunked and
/// single-shot processing.
pub open spec fn mode_for(video_capable: bool, duration_ms: u64, threshold_ms: u64) -> ExtractionMode {
    if video_capable {
        ExtractionMode::WholeVideoMultimodal
    } else if duration_ms > threshold_ms {
        ExtractionMode::Chunked
    } else {
        ExtractionMode::SingleShot
    }
}

/// Choose the processing mode.
pub fn select_mode(video_capable: bool, duration_ms: u64, threshold_ms: u64) -> (m: ExtractionMode)
    ensures
        m == mode_for(video_capable, duration_ms, threshold_ms),
{
    if video_capable {
        ExtractionMode::WholeVideoMultimodal
    } else if duration_ms > threshold_ms {
        ExtractionMode::Chunked
    } else {
        ExtractionMode::SingleShot
    }
}

/// Whether the selected backend understands whole videos (the one such
/// backend is the `moonshot` provider's `k2.5` model family).
pub fn is_video_capable(provider: &str, model: &str) -> (r: bool)
    ensures
        r == (provider@ == "moonshot"@ && find_sub_idx(model@, "k2.5"@) >= 0),
{
    let p: bool = str_eq(provider, "moonshot");
    let mc: Vec<char> = chars_of(model);
    let pat: Vec<char> = chars_of("k2.5");
    p && contains_sub(&mc, &pat)
}

/// Number of chunk starts: one for every full step within the duration.
pub open spec fn chunk_count(total_ms: int, step_ms: int) -> int {
    if total_ms <= 0 {
        0
    } else {
        (total_ms - 1) / step_ms + 1
    }
}

/// The planned start offsets: `0, step, 2*step, ...` while they fall
/// before the end of the media, where `step = chunk - overlap`.
pub fn plan_chunk_starts(total_duration_ms: u64, chunk_ms: u64, overlap_ms: u64) -> (r: Vec<u64>)
    requires
        overlap_ms < chunk_ms,
        total_duration_ms <= MAX_TIME_MS,
        chunk_ms <= MAX_TIME_MS,
    ensures
        r@.len() == chunk_count(total_duration_ms as int, chunk_ms - overlap_ms as int),
        forall|i: int|
            0 <= i < r@.len() ==> #[trigger] r@[i] as int == i * (chunk_ms - overlap_ms as int),
        forall|i: int| 0 <= i < r@.len() ==> #[trigger] r@[i] < total_duration_ms,
{
    let step: u64 = chunk_ms - overlap_ms;
    let mut r: Vec<u64> = Vec::new();
    let mut pos: u64 = 0;
    proof {
        assert(r@.len() * (step as int) == 0) by (nonlinear_arith)
            requires
                r@.len() == 0,
        ;
    }
    while pos < total_duration_ms
        invariant
            1 <= step <= MAX_TIME_MS,
            total_duration_ms <= MAX_TIME_MS,
            pos as int == r@.len() * (step as int),
            pos <= total_duration_ms + step,
            total_duration_ms == 0 ==> r@.len() == 0,
            forall|i: int| 0 <= i < r@.len() ==> #[trigger] r@[i] as int == i * (step as int),
            forall|i: int| 0 <= i < r@.len() ==> #[trigger] r@[i] < total_duration_ms,
            r@.len() > 0 ==> (r@.len() - 1) * (step as int) < total_duration_ms,
        decreases total_duration_ms + step - pos,
    {
        r.push(pos);
        pos = pos + step;
        proof {
            assert(pos as int == r@.len() * (step as int)) by (nonlinear_arith)
                requires
                    pos as int == (r@.len() - 1) * (step as int) + step,
            ;
        }
    }
    proof {
        let k = r@.len() as int;
        let st = step as int;
        let tot = total_duration_ms as int;
        if tot > 0 {
            assert(k > 0) by (nonlinear_arith)
                requires
                    k * st >= tot,
                    tot > 0,
                    st >= 1,
                    k >= 0,
            ;
            assert((tot - 1) / st == k - 1) by (nonlinear_arith)
                requires
                    st >= 1,
                    k >= 1,
                    (k - 1) * st <= tot - 1,
                    k * st >= tot,
            ;
        }
    }
    r
}

/// The order in which planned windows are processed: two at a time, in
/// index order, with an odd trailing window processed alone.  Each batch
/// holds the indices of the windows it runs concurrently.
pub fn window_batches(window_count: usize) -> (r: Vec<(usize, Option<usize>)>)
    ensures
        r@.len() == (window_count + 1) / 2,
        forall|k: int| 0 <= k < r@.len() ==> (#[trigger] r@[k]).0 == 2 * k,
        forall|k: int|
            0 <= k < r@.len() ==> (#[trigger] r@[k]).1 == (if 2 * k + 1 < window_count {
                Some((2 * k + 1) as usize)
            } else {
                Option::<usize>::None
            }),
{
    let batches: usize = window_count / 2 + window_count % 2;
    let mut r: Vec<(usize, Option<usize>)> = Vec::new();
    let mut k: usize = 0;
    while k < batches
        invariant
            k <= batches,
            batches == window_count / 2 + window_count % 2,
            r@.len() == k,
            forall|j: int| 0 <= j < r@.len() ==> (#[trigger] r@[j]).0 == 2 * j,
            forall|j: int|
                0 <= j < r@.len() ==> (#[trigger] r@[j]).1 == (if 2 * j + 1 < window_count {
                    Some((2 * j + 1) as usize)
                } else {
                    Option::<usize>::None
                }),
        decreases batches - k,
    {
        let first: usize = 2 * k;
        let second: Option<usize> = if first + 1 < window_count {
            Some(first + 1)
        } else {
            None
        };
        r.push((first, second));
        k = k + 1;
    }
    r
}

/// The planned windows: each start paired with its duration, the nominal
/// chunk length capped by the remaining media.
pub fn plan_chunk_windows(total_duration_ms: u64, chunk_ms: u64, overlap_ms: u64) -> (r: Vec<
    (u64, u64),
>)
    requires
        overlap_ms < chunk_ms,
        total_duration_ms <= MAX_TIME_MS,
        chunk_ms <= MAX_TIME_MS,
    ensures
        r@.len() == chunk_count(total_duration_ms as int, chunk_ms - overlap_ms as int),
        forall|i: int|
            0 <= i < r@.len() ==> (#[trigger] r@[i]).0 as int == i * (chunk_ms - overlap_ms as int),
        forall|i: int|
            0 <= i < r@.len() ==> (#[trigger] r@[i]).1 == (if total_duration_ms - r@[i].0 <= chunk_ms {
                (total_duration_ms - r@[i].0) as u64
            } else {
                chunk_ms
            }),
        forall|i: int| 0 <= i < r@.len() ==> (#[trigger] r@[i]).0 < total_duration_ms,
{
    let starts: Vec<u64> = plan_chunk_starts(total_duration_ms, chunk_ms, overlap_ms);
    let n: usize = starts.len();
    let mut r: Vec<(u64, u64)> = Vec::new();
    let mut i: usize = 0;
    while i < n
        invariant
            i <= n,
            n == starts@.len(),
            r@.len() == i,
            forall|j: int| 0 <= j < n ==> #[trigger] starts@[j] < total_duration_ms,
            forall|j: int|
                0 <= j < n ==> #[trigger] starts@[j] as int == j * (chunk_ms - overlap_ms as int),
            forall|j: int| 0 <= j < i ==> (#[trigger] r@[j]).0 == starts@[j],
            forall|j: int|
                0 <= j < i ==> (#[trigger] r@[j]).1 == (if total_duration_ms - starts@[j] <= chunk_ms {
                    (total_duration_ms - starts@[j]) as u64
                } else {
                    chunk_ms
                }),
        decreases n - i,
    {
        let start: u64 = starts[i];
        let remaining: u64 = total_duration_ms - start;
        let dur: u64 = if remaining <= chunk_ms {
            remaining
        } else {
            chunk_ms
        };
        r.push((start, dur));
        i = i + 1;
    }
    r
}

} // verus!
