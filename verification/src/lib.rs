//! Verified core of a chunked media-transcription pipeline.
//!
//! A long recording is split into overlapping windows, each window is
//! transcribed by an external backend that answers with loosely structured
//! JSON-ish text, and the per-window results are shifted back onto the global
//! timeline, merged, and de-duplicated.  Everything that decides or computes
//! lives here and is verified; slicing, HTTP and event delivery are driven by
//! a thin unverified shell that only moves plain values in and out.
//!
//! All points in time are integer milliseconds from the start of the source
//! media.

pub mod backend;
pub mod chat;
pub mod config;
pub mod dedup;
pub mod encode;
pub mod extract;
pub mod laws;
pub mod model;
pub mod parse;
pub mod plan;
pub mod probe;
pub mod retry;
pub mod segments;
pub mod text;
pub mod time;
pub mod window;
