//! Parsing of one backend response into a [`TranscriptionResult`].
//!
//! The response text is handed to the JSON extractor, the extracted payload
//! is parsed (with one repair attempt on failure), and the segment entries
//! are mapped onto [`TranscriptionSegment`]s: `start` falls back to the
//! legacy `timestamp` field, a missing `end` reuses the start, and entries
//! without a start or a content string are dropped.  An empty or JSON-free
//! response means "no speech found" and yields an empty bundle rather than
//! an error.

use vstd::prelude::*;

use serde_json::Value;

use crate::extract::extract_json;
use crate::extract::extract_json_spec;
use crate::extract::repair_json;
use crate::extract::repair_json_spec;
use crate::model::ExtractionError;
use crate::model::TranscriptionResult;
use crate::model::TranscriptionResultView;
use crate::model::TranscriptionSegment;
use crate::model::TranscriptionSegmentView;
use crate::text::chars_of;
use crate::text::is_blank;
use crate::text::trimmed;
use crate::time::lemma_time_ms_bound;
use crate::time::parse_time_str;
use crate::time::time_ms_of;

verus! {

/// The string fields of one element of a response's `segments` array.
pub struct RawEntry {
    pub start: Option<String>,
    pub timestamp: Option<String>,
    pub end: Option<String>,
    pub content: Option<String>,
    pub speaker: Option<String>,
}

/// Mathematical image of a [`RawEntry`].
pub struct RawEntryView {
    pub start: Option<Seq<char>>,
    pub timestamp: Option<Seq<char>>,
    pub end: Option<Seq<char>>,
    pub content: Option<Seq<char>>,
    pub speaker: Option<Seq<char>>,
}

impl View for RawEntry {
    type V = RawEntryView;

    open spec fn view(&self) -> RawEntryView {
        RawEntryView {
            start: match self.start {
                Some(s) => Some(s@),
                None => None,
            },
            timestamp: match self.timestamp {
                Some(s) => Some(s@),
                None => None,
            },
            end: match self.end {
                Some(s) => Some(s@),
                None => None,
            },
            content: match self.content {
                Some(s) => Some(s@),
                None => None,
            },
            speaker: match self.speaker {
                Some(s) => Some(s@),
                None => None,
            },
        }
    }
}

/// What probing a text as JSON can reveal.
pub enum JsonProbe {
    /// The text does not parse as JSON.
    NotJson,
    /// The text parses as JSON but has no `segments` array.
    NoSegments,
    /// The text parses and carries a `segments` array.
    Segments { entries: Vec<RawEntry>, full_text: Option<String> },
}

/// Mathematical image of a [`JsonProbe`].
pub enum JsonProbeView {
    NotJson,
    NoSegments,
    Segments { entries: Seq<RawEntryView>, full_text: Option<Seq<char>> },
}

impl View for JsonProbe {
    type V = JsonProbeView;

    open spec fn view(&self) -> JsonProbeView {
        match self {
            JsonProbe::NotJson => JsonProbeView::NotJson,
            JsonProbe::NoSegments => JsonProbeView::NoSegments,
            JsonProbe::Segments { entries, full_text } => JsonProbeView::Segments {
                entries: entries@.map(|i: int, e: RawEntry| e@),
                full_text: match full_text {
                    Some(t) => Some(t@),
                    None => None,
                },
            },
        }
    }
}

/// What probing the given text as JSON reveals.  The probe is a pure
/// function of the text alone.
pub uninterp spec fn json_probe_of(s: Seq<char>) -> JsonProbeView;

/// Relies on `serde_json::from_str::<Value>`, `Value::get`, `Value::as_array`
/// and `Value::as_str`: reports whether the text parses as JSON, whether the
/// parsed value carries a `segments` array, and for each array element its
/// five string fields (a non-string or absent field reads as absent), plus
/// the top-level `full_text` string.
#[verifier::external_body]
fn probe_json(content: &str) -> (r: JsonProbe)
    ensures
        r@ == json_probe_of(content@),
{
    let Ok(v) = serde_json::from_str::<Value>(content) else {
        return JsonProbe::NotJson;
    };
    let Some(arr) = v.get("segments").and_then(Value::as_array) else {
        return JsonProbe::NoSegments;
    };
    let mut entries: Vec<RawEntry> = Vec::new();
    for e in arr {
        let f = |k: &str| e.get(k).and_then(Value::as_str).map(String::from);
        let (start, timestamp, end) = (f("start"), f("timestamp"), f("end"));
        entries.push(RawEntry { start, timestamp, end, content: f("content"), speaker: f("speaker") });
    }
    let full_text = v.get("full_text").and_then(Value::as_str).map(String::from);
    JsonProbe::Segments { entries, full_text }
}

/// The transcription segment an entry denotes: `start` falls back to
/// `timestamp`, a missing `end` reuses the start, and an entry without a
/// start or a content string denotes nothing.
pub open spec fn entry_to_segment(e: RawEntryView) -> Option<TranscriptionSegmentView> {
    let st_opt = if e.start is Some {
        e.start
    } else {
        e.timestamp
    };
    match st_opt {
        None => None,
        Some(st) => match e.content {
            None => None,
            Some(c) => {
                let en = match e.end {
                    Some(x) => x,
                    None => st,
                };
                Some(
                    TranscriptionSegmentView {
                        speaker: e.speaker,
                        content: c,
                        start_time: Some(time_ms_of(st) as u64),
                        end_time: Some(time_ms_of(en) as u64),
                    },
                )
            },
        },
    }
}

/// The segments denoted by a list of entries, in order.
pub open spec fn entries_to_segments(es: Seq<RawEntryView>) -> Seq<TranscriptionSegmentView>
    decreases es.len(),
{
    if es.len() == 0 {
        Seq::empty()
    } else {
        let rest = entries_to_segments(es.drop_first());
        match entry_to_segment(es[0]) {
            None => rest,
            Some(x) => seq![x] + rest,
        }
    }
}

/// The bundle built from a probed `segments` array.
pub open spec fn bundle_of(es: Seq<RawEntryView>, ft: Option<Seq<char>>) -> TranscriptionResultView {
    TranscriptionResultView {
        segments: entries_to_segments(es),
        full_text: match ft {
            Some(t) => t,
            None => Seq::empty(),
        },
    }
}

/// The bundle of a response carrying no speech.
pub open spec fn empty_bundle() -> TranscriptionResultView {
    TranscriptionResultView { segments: Seq::empty(), full_text: Seq::empty() }
}

/// The parse result owed for backend text `s`: `Some` bundle, or `None`
/// where even the repaired payload is unusable and the attempt must count
/// as a parse failure.
pub open spec fn parse_response_spec(s: Seq<char>) -> Option<TranscriptionResultView> {
    if trimmed(s).len() == 0 {
        Some(empty_bundle())
    } else {
        let js = extract_json_spec(s);
        if trimmed(js).len() == 0 {
            match json_probe_of(s) {
                JsonProbeView::Segments { entries, full_text } => Some(
                    bundle_of(entries, full_text),
                ),
                _ => Some(empty_bundle()),
            }
        } else {
            match json_probe_of(js) {
                JsonProbeView::Segments { entries, full_text } => Some(
                    bundle_of(entries, full_text),
                ),
                JsonProbeView::NoSegments => None,
                JsonProbeView::NotJson => match json_probe_of(repair_json_spec(js)) {
                    JsonProbeView::Segments { entries, full_text } => Some(
                        bundle_of(entries, full_text),
                    ),
                    _ => None,
                },
            }
        }
    }
}

/// Map probed entries and full text onto a transcription bundle.
fn build_bundle(entries: Vec<RawEntry>, full_text: Option<String>) -> (t: TranscriptionResult)
    ensures
        t@ == bundle_of(
            entries@.map(|i: int, e: RawEntry| e@),
            match full_text {
                Some(ft) => Some(ft@),
                None => None,
            },
        ),
{
    let ghost ev = entries@.map(|i: int, e: RawEntry| e@);
    let mut rest: Vec<RawEntry> = entries;
    let mut segs: Vec<TranscriptionSegment> = Vec::new();
    while rest.len() > 0
        invariant
            entries_to_segments(ev) == segs@.map(|i: int, s: TranscriptionSegment| s@)
                + entries_to_segments(rest@.map(|i: int, e: RawEntry| e@)),
        decreases rest.len(),
    {
        let ghost rv = rest@.map(|i: int, e: RawEntry| e@);
        let ghost segs0 = segs@;
        let e = rest.remove(0);
        proof {
            assert(rest@.map(|i: int, e: RawEntry| e@) =~= rv.drop_first());
            assert(rv[0] == e@);
        }
        let st_opt: Option<String> = match e.start {
            Some(s) => Some(s),
            None => e.timestamp,
        };
        match st_opt {
            None => {
                proof {
                    assert(entry_to_segment(e@) is None);
                }
            },
            Some(st) => {
                match e.content {
                    None => {
                        proof {
                            assert(entry_to_segment(e@) is None);
                        }
                    },
                    Some(c) => {
                        let end_str: String = match e.end {
                            Some(x) => x,
                            None => st.clone(),
                        };
                        proof {
                            lemma_time_ms_bound(st@);
                            lemma_time_ms_bound(end_str@);
                        }
                        let start_ms: u64 = parse_time_str(st.as_str());
                        let end_ms: u64 = parse_time_str(end_str.as_str());
                        let seg = TranscriptionSegment {
                            speaker: e.speaker,
                            content: c,
                            start_time: Some(start_ms),
                            end_time: Some(end_ms),
                        };
                        proof {
                            assert(entry_to_segment(e@) == Some(seg@));
                        }
                        segs.push(seg);
                        proof {
                            assert(segs@.map(|i: int, s: TranscriptionSegment| s@) =~= segs0.map(
                                |i: int, s: TranscriptionSegment| s@,
                            ) + seq![seg@]);
                        }
                    },
                }
            },
        }
    }
    proof {
        assert(rest@.map(|i: int, e: RawEntry| e@).len() == 0);
        assert(entries_to_segments(rest@.map(|i: int, e: RawEntry| e@)) =~= Seq::<
            TranscriptionSegmentView,
        >::empty());
        assert(entries_to_segments(ev) =~= segs@.map(|i: int, s: TranscriptionSegment| s@));
    }
    let ft: String = match full_text {
        Some(t) => t,
        None => String::new(),
    };
    TranscriptionResult { segments: segs, full_text: ft }
}

/// Parse one backend response.
///
/// An empty response, or one with no recoverable JSON, counts as silence
/// and yields an empty bundle; a payload that parses (possibly after
/// repair) but lacks a `segments` array, or that resists parsing entirely,
/// is a parse failure carrying the raw response text.
pub fn parse_transcription_response(content: &str) -> (r: Result<
    TranscriptionResult,
    ExtractionError,
>)
    ensures
        match r {
            Ok(t) => parse_response_spec(content@) == Some(t@),
            Err(e) => parse_response_spec(content@) is None && (e matches
                ExtractionError::TranscriptionParseFailed {
                    last_error,
                    raw_content,
                } && raw_content@ == content@),
        },
{
    let cs: Vec<char> = chars_of(content);
    if is_blank(&cs) {
        proof {
            assert(Seq::<TranscriptionSegmentView>::empty() =~= empty_bundle().segments);
        }
        return Ok(empty_result());
    }
    let json_str: String = extract_json(content);
    let jcs: Vec<char> = chars_of(json_str.as_str());
    if is_blank(&jcs) {
        match probe_json(content) {
            JsonProbe::Segments { entries, full_text } => Ok(build_bundle(entries, full_text)),
            _ => Ok(empty_result()),
        }
    } else {
        match probe_json(json_str.as_str()) {
            JsonProbe::Segments { entries, full_text } => Ok(build_bundle(entries, full_text)),
            JsonProbe::NoSegments => Err(parse_failure(
                "the response carries no segments array",
                content,
            )),
            JsonProbe::NotJson => {
                let repaired: String = repair_json(json_str.as_str());
                match probe_json(repaired.as_str()) {
                    JsonProbe::Segments { entries, full_text } => Ok(
                        build_bundle(entries, full_text),
                    ),
                    _ => Err(parse_failure(
                        "the extracted payload is not valid JSON, even after repair",
                        content,
                    )),
                }
            },
        }
    }
}

/// An empty transcription bundle.
fn empty_result() -> (t: TranscriptionResult)
    ensures
        t@ == empty_bundle(),
{
    let t = TranscriptionResult { segments: Vec::new(), full_text: String::new() };
    proof {
        assert(t@.segments =~= empty_bundle().segments);
    }
    t
}

/// A parse-failure error carrying the raw response.
fn parse_failure(last_error: &str, content: &str) -> (e: ExtractionError)
    ensures
        e matches ExtractionError::TranscriptionParseFailed { last_error: le, raw_content } && le@
            == last_error@ && raw_content@ == content@,
{
    ExtractionError::TranscriptionParseFailed {
        last_error: String::from_str(last_error),
        raw_content: String::from_str(content),
    }
}

} // verus!
