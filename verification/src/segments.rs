//! Flattening a transcription bundle into the output segments handed to
//! the caller.
//!
//! Every segment gets a fresh identifier and a creation timestamp; order
//! is dense and 0-based; each transcription segment opens a new paragraph.

use vstd::prelude::*;

use crate::model::ArticleSegment;
use crate::model::TranscriptionResult;

verus! {

/// Relies on `uuid::Uuid::new_v4` and its hyphenated `Display` form: a
/// fresh random identifier always renders as 36 characters.  Nothing is
/// assumed of which identifier comes back.
#[verifier::external_body]
pub fn new_uuid_string() -> (r: String)
    ensures
        r@.len() == 36,
{
    uuid::Uuid::new_v4().to_string()
}

/// Relies on `chrono::Utc::now` and `DateTime::to_rfc3339` for the
/// creation timestamp.  Nothing is assumed of the clock's value.
#[verifier::external_body]
pub fn now_rfc3339() -> (r: String)
{
    chrono::Utc::now().to_rfc3339()
}

/// Flatten a transcription bundle into output segments for the given
/// article: texts and timestamps are carried over in order, order numbers
/// are dense from zero, and every segment opens a new paragraph.  The
/// identifiers are fresh and the creation timestamps come from the clock,
/// so neither is pinned beyond its shape.
pub fn transcription_to_segments(transcription: &TranscriptionResult, article_id: &str) -> (r: Vec<
    ArticleSegment,
>)
    requires
        transcription.segments@.len() <= 0x7fff_ffff,
    ensures
        r@.len() == transcription.segments@.len(),
        forall|i: int|
            0 <= i < r@.len() ==> {
                &&& (#[trigger] r@[i]).order as int == i
                &&& r@[i].text@ == transcription.segments@[i]@.content
                &&& r@[i].article_id@ == article_id@
                &&& r@[i].start_time == transcription.segments@[i].start_time
                &&& r@[i].end_time == transcription.segments@[i].end_time
                &&& r@[i].is_new_paragraph == true
                &&& r@[i].reading_text is None
                &&& r@[i].translation is None
                &&& r@[i].explanation is None
                &&& r@[i].id@.len() == 36
            },
{
    let n: usize = transcription.segments.len();
    let mut r: Vec<ArticleSegment> = Vec::new();
    let mut i: usize = 0;
    while i < n
        invariant
            i <= n,
            n == transcription.segments@.len() <= 0x7fff_ffff,
            r@.len() == i,
            forall|j: int|
                0 <= j < i ==> {
                    &&& (#[trigger] r@[j]).order as int == j
                    &&& r@[j].text@ == transcription.segments@[j]@.content
                    &&& r@[j].article_id@ == article_id@
                    &&& r@[j].start_time == transcription.segments@[j].start_time
                    &&& r@[j].end_time == transcription.segments@[j].end_time
                    &&& r@[j].is_new_paragraph == true
                    &&& r@[j].reading_text is None
                    &&& r@[j].translation is None
                    &&& r@[j].explanation is None
                    &&& r@[j].id@.len() == 36
                },
        decreases n - i,
    {
        let seg = &transcription.segments[i];
        let text: String = seg.content.clone();
        r.push(
            ArticleSegment {
                id: new_uuid_string(),
                article_id: String::from_str(article_id),
                order: i as i32,
                text,
                reading_text: None,
                translation: None,
                explanation: None,
                start_time: seg.start_time,
                end_time: seg.end_time,
                created_at: now_rfc3339(),
                is_new_paragraph: true,
            },
        );
        i = i + 1;
    }
    r
}

} // verus!
