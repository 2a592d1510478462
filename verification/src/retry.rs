//! The retry controller: decisions for the transcribe-and-parse loop.
//!
//! One unit of work is "send the audio and the instruction, read the
//! response, parse it".  A response whose envelope cannot be read, like a
//! transport failure, is immediately fatal; a parse failure is retried
//! with a fixed delay until the attempt budget is spent, on the chance that
//! the backend's nondeterminism yields a parsable answer.  The shell runs
//! the loop; every decision is taken here.

use vstd::prelude::*;

use crate::backend::google_content_of;
use crate::backend::google_message_content;
use crate::backend::openai_content_of;
use crate::backend::openai_message_content;
use crate::model::ExtractionError;
use crate::model::TranscriptionResult;
use crate::parse::parse_response_spec;
use crate::parse::parse_transcription_response;

verus! {

/// Total attempts allowed for one window's transcription.
pub const MAX_TRANSCRIPTION_ATTEMPTS: u32 = 3;

/// Fixed delay between attempts.
pub const RETRY_DELAY_MS: u64 = 2000;

/// A retry policy: how many attempts in total, and how long to wait
/// between them.
pub struct RetryPolicy {
    pub max_attempts: u32,
    pub delay_ms: u64,
}

impl RetryPolicy {
    /// The policy of the transcription pipeline: three attempts, two
    /// seconds apart.
    pub fn transcription() -> (r: RetryPolicy)
        ensures
            r.max_attempts == MAX_TRANSCRIPTION_ATTEMPTS,
            r.delay_ms == RETRY_DELAY_MS,
    {
        RetryPolicy { max_attempts: MAX_TRANSCRIPTION_ATTEMPTS, delay_ms: RETRY_DELAY_MS }
    }
}

/// How one completed attempt went.
pub enum AttemptOutcome {
    /// The response body carried no readable message content.
    EnvelopeInvalid { detail: String },
    /// The content parsed into a transcription bundle.
    Parsed { result: TranscriptionResult },
    /// The content resisted parsing even after repair.
    ParseFailed { error: ExtractionError },
}

/// What the loop must do next.
pub enum RetryDecision {
    /// Hand the bundle back; the window is done.
    Done { result: TranscriptionResult },
    /// Give up with this error; the whole job aborts.
    Fail { error: ExtractionError },
    /// Sleep this many milliseconds and repeat the same call.
    RetryAfter { delay_ms: u64 },
}

/// The message content owed for a response body, by provider family.
pub open spec fn content_of_body(body: Seq<char>, google: bool) -> Option<Seq<char>> {
    if google {
        google_content_of(body)
    } else {
        openai_content_of(body)
    }
}

/// Evaluate one response body: pull the message content out of the
/// provider's envelope and parse it as a transcription.
pub fn evaluate_attempt(body: &str, google: bool) -> (r: AttemptOutcome)
    ensures
        match r {
            AttemptOutcome::EnvelopeInvalid { .. } => content_of_body(body@, google) is None,
            AttemptOutcome::Parsed { result } => (content_of_body(body@, google) matches Some(c)
                && parse_response_spec(c) == Some(result@)),
            AttemptOutcome::ParseFailed { error } => (content_of_body(body@, google) matches Some(
                c,
            ) && parse_response_spec(c) is None && (error matches
            ExtractionError::TranscriptionParseFailed { raw_content, .. } && raw_content@ == c)),
        },
{
    let content_opt: Option<String> = if google {
        google_message_content(body)
    } else {
        openai_message_content(body)
    };
    match content_opt {
        None => AttemptOutcome::EnvelopeInvalid {
            detail: String::from_str("the response envelope carries no message content"),
        },
        Some(content) => match parse_transcription_response(content.as_str()) {
            Ok(result) => AttemptOutcome::Parsed { result },
            Err(error) => AttemptOutcome::ParseFailed { error },
        },
    }
}

/// Decide what follows one completed attempt.  `attempts_made` counts the
/// attempts finished before this one, so this outcome is attempt number
/// `attempts_made + 1`.
///
/// A parsed bundle ends the window; a broken envelope is fatal at once, as
/// transport failures are; a parse failure is retried with the policy's
/// delay while attempts remain, and surfaces its error once the budget is
/// spent.
pub fn decide_after_attempt(policy: &RetryPolicy, attempts_made: u32, outcome: AttemptOutcome) -> (d:
    RetryDecision)
    requires
        attempts_made < 0xffff_ffff,
    ensures
        match outcome {
            AttemptOutcome::Parsed { result } => (d matches RetryDecision::Done { result: r } && r
                == result),
            AttemptOutcome::EnvelopeInvalid { detail } => (d matches RetryDecision::Fail { error }
                && (error matches ExtractionError::TranscriptionNetworkError { detail: dd } && dd
                == detail)),
            AttemptOutcome::ParseFailed { error } => {
                if attempts_made + 1 < policy.max_attempts {
                    d matches RetryDecision::RetryAfter { delay_ms } && delay_ms == policy.delay_ms
                } else {
                    d matches RetryDecision::Fail { error: e } && e == error
                }
            },
        },
{
    match outcome {
        AttemptOutcome::Parsed { result } => RetryDecision::Done { result },
        AttemptOutcome::EnvelopeInvalid { detail } => RetryDecision::Fail {
            error: ExtractionError::TranscriptionNetworkError { detail },
        },
        AttemptOutcome::ParseFailed { error } => {
            if attempts_made + 1 < policy.max_attempts {
                RetryDecision::RetryAfter { delay_ms: policy.delay_ms }
            } else {
                RetryDecision::Fail { error }
            }
        },
    }
}

} // verus!
