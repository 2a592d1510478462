//! Correction of window-local timestamps onto the global timeline.
//!
//! The backend reports times relative to the start of the audio window it
//! was given; adding the window's start offset turns them into positions in
//! the source media.

use vstd::prelude::*;

use crate::model::MAX_TIME_MS;
use crate::model::TranscriptionSegment;
use crate::model::TranscriptionSegmentView;

verus! {

/// A window-local segment time moved onto the global timeline.
pub open spec fn shifted_time(t: Option<u64>, offset_ms: u64) -> Option<u64> {
    match t {
        Some(x) => Some((x + offset_ms) as u64),
        None => None,
    }
}

/// A segment with both times moved onto the global timeline; text and
/// speaker are untouched.
pub open spec fn shifted_segment(v: TranscriptionSegmentView, offset_ms: u64) -> TranscriptionSegmentView {
    TranscriptionSegmentView {
        speaker: v.speaker,
        content: v.content,
        start_time: shifted_time(v.start_time, offset_ms),
        end_time: shifted_time(v.end_time, offset_ms),
    }
}

/// A segment whose times stay within the pipeline's bound once `offset_ms`
/// is added.
pub open spec fn shift_fits(v: TranscriptionSegmentView, offset_ms: u64) -> bool {
    &&& match v.start_time {
        Some(t) => t + offset_ms <= MAX_TIME_MS,
        None => true,
    }
    &&& match v.end_time {
        Some(t) => t + offset_ms <= MAX_TIME_MS,
        None => true,
    }
}

/// Add the window's start offset to every timestamp: a segment transcribed
/// at local time `t` within a window starting at `offset_ms` appears in the
/// result at global time `offset_ms + t`.
pub fn apply_time_offset(segments: Vec<TranscriptionSegment>, offset_ms: u64) -> (r: Vec<
    TranscriptionSegment,
>)
    requires
        forall|i: int|
            0 <= i < segments@.len() ==> shift_fits(#[trigger] segments@[i]@, offset_ms),
    ensures
        r@.len() == segments@.len(),
        forall|i: int|
            0 <= i < r@.len() ==> #[trigger] r@[i]@ == shifted_segment(segments@[i]@, offset_ms),
{
    let ghost orig = segments@;
    let mut rest: Vec<TranscriptionSegment> = segments;
    let mut out: Vec<TranscriptionSegment> = Vec::new();
    while rest.len() > 0
        invariant
            out@.len() + rest@.len() == orig.len(),
            forall|i: int|
                0 <= i < rest@.len() ==> #[trigger] rest@[i] == orig[out@.len() + i],
            forall|i: int|
                0 <= i < out@.len() ==> #[trigger] out@[i]@ == shifted_segment(
                    orig[i]@,
                    offset_ms,
                ),
            forall|i: int| 0 <= i < orig.len() ==> shift_fits(#[trigger] orig[i]@, offset_ms),
        decreases rest@.len(),
    {
        let e = rest.remove(0);
        proof {
            assert(e == orig[out@.len() as int]);
            assert(shift_fits(orig[out@.len() as int]@, offset_ms));
        }
        let start_time: Option<u64> = match e.start_time {
            Some(t) => Some(t + offset_ms),
            None => None,
        };
        let end_time: Option<u64> = match e.end_time {
            Some(t) => Some(t + offset_ms),
            None => None,
        };
        out.push(
            TranscriptionSegment { speaker: e.speaker, content: e.content, start_time, end_time },
        );
    }
    out
}

/// What one processed window hands back to the orchestrator: the corrected
/// segments and the corrected boundary times.
pub struct ChunkTranscriptionResult {
    /// The window's segments, on the global timeline.
    pub segments: Vec<TranscriptionSegment>,
    /// Corrected start of the first segment, if any.
    pub first_segment_start: Option<u64>,
    /// Corrected end of the last segment, if any.
    pub last_segment_end: Option<u64>,
    /// The window's start offset.
    pub time_offset: u64,
}

/// Correct one window's segments onto the global timeline and record the
/// boundary times.
pub fn correct_window(segments: Vec<TranscriptionSegment>, window_offset_ms: u64) -> (r:
    ChunkTranscriptionResult)
    requires
        forall|i: int|
            0 <= i < segments@.len() ==> shift_fits(#[trigger] segments@[i]@, window_offset_ms),
    ensures
        r.time_offset == window_offset_ms,
        r.segments@.len() == segments@.len(),
        forall|i: int|
            0 <= i < r.segments@.len() ==> #[trigger] r.segments@[i]@ == shifted_segment(
                segments@[i]@,
                window_offset_ms,
            ),
        r.first_segment_start == (if r.segments@.len() == 0 {
            Option::<u64>::None
        } else {
            r.segments@[0].start_time
        }),
        r.last_segment_end == (if r.segments@.len() == 0 {
            Option::<u64>::None
        } else {
            r.segments@[r.segments@.len() - 1].end_time
        }),
{
    let shifted: Vec<TranscriptionSegment> = apply_time_offset(segments, window_offset_ms);
    let first_segment_start: Option<u64> = if shifted.len() > 0 {
        shifted[0].start_time
    } else {
        None
    };
    let last_segment_end: Option<u64> = if shifted.len() > 0 {
        shifted[shifted.len() - 1].end_time
    } else {
        None
    };
    ChunkTranscriptionResult {
        segments: shifted,
        first_segment_start,
        last_segment_end,
        time_offset: window_offset_ms,
    }
}

} // verus!
