//! Request and response shapes shared with the AI backend: chat messages
//! (used by the whole-video path), translation and analysis exchanges, and
//! the progress events the pipeline reports.

use vstd::prelude::*;

verus! {

/// Message content: plain text, or a list of typed parts.
pub enum ChatContent {
    Text(String),
    Parts(Vec<ContentPart>),
}

/// One typed part of a message: text, an image or an attached file.
pub struct ContentPart {
    /// `"text"`, `"image_url"` or `"file"`.
    pub part_type: String,
    pub text: Option<String>,
    pub image_url: Option<ImageUrl>,
    pub file_data: Option<FileData>,
}

/// A referenced image.
pub struct ImageUrl {
    pub url: String,
}

/// An attached file, carried inline.
pub struct FileData {
    pub mime_type: String,
    /// Base64-encoded contents.
    pub data: String,
}

/// One chat message.
pub struct ChatMessage {
    /// `"user"` or `"assistant"`.
    pub role: String,
    pub content: ChatContent,
}

/// The backend's answer to a chat request.
pub struct ChatResponse {
    pub content: String,
    pub model: String,
    pub tokens_used: Option<u32>,
}

/// A translation request.
pub struct TranslationRequest {
    pub text: String,
    pub target_language: String,
    pub context: Option<String>,
}

/// A finished translation.
pub struct TranslationResponse {
    pub translated_text: String,
    pub original_text: String,
    pub model_used: String,
}

/// A text-analysis request.
pub struct AnalysisRequest {
    pub text: String,
    pub analysis_type: AnalysisType,
}

/// What kind of analysis is asked for.
#[derive(Clone, Copy, Debug, PartialEq, Eq, Structural)]
pub enum AnalysisType {
    Summary,
    KeyPoints,
    Vocabulary,
    Grammar,
    FullAnalysis,
}

/// The phases a pipeline run reports.
#[derive(Clone, Copy, Debug, PartialEq, Eq, Structural)]
pub enum ProgressPhase {
    Start,
    Audio,
    Transcribe,
    Chunk,
    Chunked,
    Merge,
    Compress,
    Encode,
    Analyze,
    Done,
}

/// One progress event, emitted at each phase transition; delivery is
/// best-effort.
pub struct ProgressEvent {
    pub phase: ProgressPhase,
    pub message: String,
    pub current: Option<usize>,
    pub total: Option<usize>,
    pub count: Option<usize>,
}

/// The chunk-progress counter shown after a round of windows: completed
/// windows, never more than the total.
pub fn chunk_progress(completed: usize, total: usize) -> (r: usize)
    ensures
        r == (if completed <= total {
            completed as int
        } else {
            total as int
        }),
{
    if completed <= total {
        completed
    } else {
        total
    }
}

} // verus!
