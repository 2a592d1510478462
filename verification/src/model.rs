//! Data model of the transcription pipeline: raw transcription segments as
//! parsed from a backend response, the bundle of one response, the flattened
//! output segments, and the pipeline's error taxonomy.
//!
//! All timestamps are integer milliseconds from the start of the source
//! media; a segment parsed from one window carries window-local times until
//! the window's offset is added.

use vstd::prelude::*;

verus! {

/// Upper bound assumed of every timestamp handled by the pipeline
/// (about three hundred thousand years of media), far above what the
/// time-string parser can produce.  Keeping every time below this bound
/// makes all the ratio arithmetic in the merge engine free of overflow.
pub const MAX_TIME_MS: u64 = 10_000_000_000_000_000;

/// One spoken sentence as reported by the transcription backend.
#[derive(Debug)]
pub struct TranscriptionSegment {
    /// Optional speaker label.
    pub speaker: Option<String>,
    /// The transcribed sentence.
    pub content: String,
    /// Start of speech, in milliseconds.
    pub start_time: Option<u64>,
    /// End of speech, in milliseconds.
    pub end_time: Option<u64>,
}

/// Mathematical image of a [`TranscriptionSegment`].
pub struct TranscriptionSegmentView {
    pub speaker: Option<Seq<char>>,
    pub content: Seq<char>,
    pub start_time: Option<u64>,
    pub end_time: Option<u64>,
}

impl View for TranscriptionSegment {
    type V = TranscriptionSegmentView;

    open spec fn view(&self) -> TranscriptionSegmentView {
        TranscriptionSegmentView {
            speaker: match self.speaker {
                Some(s) => Some(s@),
                None => None,
            },
            content: self.content@,
            start_time: self.start_time,
            end_time: self.end_time,
        }
    }
}

/// The parse result of one backend call: the segment list plus the free
/// running text the backend may return alongside it.
#[derive(Debug)]
pub struct TranscriptionResult {
    pub segments: Vec<TranscriptionSegment>,
    pub full_text: String,
}

/// Mathematical image of a [`TranscriptionResult`].
pub struct TranscriptionResultView {
    pub segments: Seq<TranscriptionSegmentView>,
    pub full_text: Seq<char>,
}

impl View for TranscriptionResult {
    type V = TranscriptionResultView;

    open spec fn view(&self) -> TranscriptionResultView {
        TranscriptionResultView {
            segments: self.segments@.map(|i: int, s: TranscriptionSegment| s@),
            full_text: self.full_text@,
        }
    }
}

/// Why the pipeline gave up.  A parse failure is only surfaced after the
/// retry controller has exhausted its attempts; the other conditions are
/// immediately fatal.
#[derive(Debug)]
pub enum ExtractionError {
    /// The media duration could not be read from the probe output.
    DurationUnavailable,
    /// The slicing service failed to produce an audio window.
    SliceFailed { detail: String },
    /// The transcription call itself failed (transport or service error).
    TranscriptionNetworkError { detail: String },
    /// No attempt yielded a usable transcription structure.
    TranscriptionParseFailed { last_error: String, raw_content: String },
}

/// Explanation attached to an output segment by downstream analysis.
pub struct SegmentExplanation {
    pub translation: String,
    pub explanation: String,
    pub reading_text: Option<String>,
    pub vocabulary: Vec<VocabularyItem>,
    pub grammar_points: Vec<GrammarPoint>,
    pub cultural_context: Option<String>,
    pub difficulty_level: Option<String>,
    pub learning_tips: Option<String>,
}

/// A vocabulary entry inside a segment explanation.
pub struct VocabularyItem {
    pub word: String,
    pub meaning: String,
    pub usage: String,
    pub example: Option<String>,
    pub reading: Option<String>,
}

/// A grammar note inside a segment explanation.
pub struct GrammarPoint {
    pub point: String,
    pub explanation: String,
    pub example: Option<String>,
}

/// One flattened output segment, owned by the caller after return.
pub struct ArticleSegment {
    pub id: String,
    pub article_id: String,
    /// Dense 0-based position in the article.
    pub order: i32,
    pub text: String,
    pub reading_text: Option<String>,
    pub translation: Option<String>,
    pub explanation: Option<SegmentExplanation>,
    /// Start of speech, in milliseconds.
    pub start_time: Option<u64>,
    /// End of speech, in milliseconds.
    pub end_time: Option<u64>,
    pub created_at: String,
    /// Whether the segment opens a new paragraph when rendered.
    pub is_new_paragraph: bool,
}

} // verus!
