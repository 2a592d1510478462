//! Tests of the duration prober, chunk planner, mode selection, retry
//! controller, backend addressing and payload encoding.

use textlingo::backend::google_request_url;
use textlingo::backend::is_google_provider;
use textlingo::backend::resolve_transcription_url;
use textlingo::backend::UrlResolution;
use textlingo::encode::encode_payload;
use textlingo::encode::video_data_url;
use textlingo::model::ExtractionError;
use textlingo::plan::is_video_capable;
use textlingo::plan::plan_chunk_starts;
use textlingo::plan::plan_chunk_windows;
use textlingo::plan::select_mode;
use textlingo::plan::window_batches;
use textlingo::plan::ExtractionMode;
use textlingo::plan::CHUNK_DURATION_MS;
use textlingo::plan::CHUNK_OVERLAP_MS;
use textlingo::plan::CHUNK_THRESHOLD_MS;
use textlingo::probe::duration_from_probe_output;
use textlingo::retry::decide_after_attempt;
use textlingo::retry::evaluate_attempt;
use textlingo::retry::AttemptOutcome;
use textlingo::retry::RetryDecision;
use textlingo::retry::RetryPolicy;
use textlingo::time::parse_ffmpeg_duration;

#[test]
fn probe_reads_duration_line() {
    let stderr = "ffmpeg version n6.0\nInput #0, mov\n  Duration: 00:25:30.50, start: 0.000000, bitrate: 1234 kb/s\n";
    let d = duration_from_probe_output(stderr).unwrap();
    assert_eq!(d, 25 * 60_000 + 30_500);
}

#[test]
fn probe_handles_crlf_and_later_lines() {
    let stderr = "line one\r\nline two\r\n  Duration: 00:00:12.34, start\r\n";
    assert_eq!(duration_from_probe_output(stderr).unwrap(), 12_340);
}

#[test]
fn probe_without_duration_line_fails() {
    let err = duration_from_probe_output("nothing useful\nhere either\n").unwrap_err();
    assert!(matches!(err, ExtractionError::DurationUnavailable));
}

#[test]
fn probe_with_garbled_duration_fails() {
    let err = duration_from_probe_output("  Duration: N/A, start: 0\n").unwrap_err();
    assert!(matches!(err, ExtractionError::DurationUnavailable));
}

#[test]
fn ffmpeg_duration_parses_exactly() {
    assert_eq!(parse_ffmpeg_duration("00:25:30.50").unwrap(), 1_530_500);
    assert_eq!(parse_ffmpeg_duration("01:02:03").unwrap(), 3_723_000);
    assert!(matches!(
        parse_ffmpeg_duration("02:03").unwrap_err(),
        ExtractionError::DurationUnavailable
    ));
    assert!(matches!(
        parse_ffmpeg_duration("xx:02:03").unwrap_err(),
        ExtractionError::DurationUnavailable
    ));
}

#[test]
fn chunk_planner_offsets() {
    // 30 minutes with 9.5-minute steps: starts every 570 s while they fall
    // before the end of the media, the last window shorter than nominal.
    let starts = plan_chunk_starts(1_800_000, CHUNK_DURATION_MS, CHUNK_OVERLAP_MS);
    assert_eq!(starts, vec![0, 570_000, 1_140_000, 1_710_000]);

    let windows = plan_chunk_windows(1_800_000, CHUNK_DURATION_MS, CHUNK_OVERLAP_MS);
    assert_eq!(windows[0], (0, 600_000));
    assert_eq!(windows[1], (570_000, 600_000));
    assert_eq!(windows[2], (1_140_000, 600_000));
    assert_eq!(windows[3], (1_710_000, 90_000));
}

#[test]
fn chunk_planner_short_media() {
    assert_eq!(plan_chunk_starts(0, CHUNK_DURATION_MS, CHUNK_OVERLAP_MS).len(), 0);
    assert_eq!(plan_chunk_starts(1, CHUNK_DURATION_MS, CHUNK_OVERLAP_MS), vec![0]);
    assert_eq!(
        plan_chunk_starts(570_000, CHUNK_DURATION_MS, CHUNK_OVERLAP_MS),
        vec![0]
    );
    assert_eq!(
        plan_chunk_starts(570_001, CHUNK_DURATION_MS, CHUNK_OVERLAP_MS),
        vec![0, 570_000]
    );
}

#[test]
fn window_batching_is_pairwise() {
    assert_eq!(window_batches(0), vec![]);
    assert_eq!(window_batches(1), vec![(0, None)]);
    assert_eq!(window_batches(2), vec![(0, Some(1))]);
    assert_eq!(window_batches(5), vec![(0, Some(1)), (2, Some(3)), (4, None)]);
}

#[test]
fn mode_selection() {
    assert_eq!(
        select_mode(false, 1_800_000, CHUNK_THRESHOLD_MS),
        ExtractionMode::Chunked
    );
    assert_eq!(
        select_mode(false, CHUNK_THRESHOLD_MS, CHUNK_THRESHOLD_MS),
        ExtractionMode::SingleShot
    );
    assert_eq!(
        select_mode(true, 1_000, CHUNK_THRESHOLD_MS),
        ExtractionMode::WholeVideoMultimodal
    );
    assert!(is_video_capable("moonshot", "kimi-k2.5-preview"));
    assert!(!is_video_capable("moonshot", "kimi-k1"));
    assert!(!is_video_capable("openai", "k2.5"));
}

#[test]
fn retry_controller_decisions() {
    let policy = RetryPolicy::transcription();
    assert_eq!(policy.max_attempts, 3);
    assert_eq!(policy.delay_ms, 2000);

    let parse_err = ExtractionError::TranscriptionParseFailed {
        last_error: "bad".to_string(),
        raw_content: "raw".to_string(),
    };
    let d = decide_after_attempt(&policy, 0, AttemptOutcome::ParseFailed { error: parse_err });
    assert!(matches!(d, RetryDecision::RetryAfter { delay_ms: 2000 }));

    let parse_err = ExtractionError::TranscriptionParseFailed {
        last_error: "bad".to_string(),
        raw_content: "raw".to_string(),
    };
    let d = decide_after_attempt(&policy, 2, AttemptOutcome::ParseFailed { error: parse_err });
    assert!(matches!(
        d,
        RetryDecision::Fail { error: ExtractionError::TranscriptionParseFailed { .. } }
    ));

    let d = decide_after_attempt(
        &policy,
        0,
        AttemptOutcome::EnvelopeInvalid { detail: "x".to_string() },
    );
    assert!(matches!(
        d,
        RetryDecision::Fail { error: ExtractionError::TranscriptionNetworkError { .. } }
    ));
}

#[test]
fn evaluate_attempt_reads_envelopes() {
    let body = r#"{"choices":[{"message":{"content":"{\"segments\":[{\"start\":\"00:01\",\"end\":\"00:02\",\"content\":\"hi\"}],\"full_text\":\"hi\"}"}}]}"#;
    match evaluate_attempt(body, false) {
        AttemptOutcome::Parsed { result } => {
            assert_eq!(result.segments.len(), 1);
            assert_eq!(result.segments[0].content, "hi");
            assert_eq!(result.segments[0].start_time, Some(1000));
        }
        _ => panic!("openai envelope should parse"),
    }

    let body = r#"{"candidates":[{"content":{"parts":[{"text":"{\"segments\":[],\"full_text\":\"\"}"}]}}]}"#;
    match evaluate_attempt(body, true) {
        AttemptOutcome::Parsed { result } => assert_eq!(result.segments.len(), 0),
        _ => panic!("google envelope should parse"),
    }

    assert!(matches!(
        evaluate_attempt("not json at all", false),
        AttemptOutcome::EnvelopeInvalid { .. }
    ));

    // an envelope whose content lacks a segments array is a parse failure
    let body = r#"{"choices":[{"message":{"content":"{\"foo\": 1}"}}]}"#;
    assert!(matches!(
        evaluate_attempt(body, false),
        AttemptOutcome::ParseFailed { .. }
    ));
}

#[test]
fn url_resolution() {
    match resolve_transcription_url("openrouter", None) {
        UrlResolution::Resolved { url } => {
            assert_eq!(url, "https://openrouter.ai/api/v1/chat/completions")
        }
        _ => panic!("openrouter has a well-known endpoint"),
    }
    match resolve_transcription_url("whatever", Some("https://my.host/v1///")) {
        UrlResolution::Resolved { url } => {
            assert_eq!(url, "https://my.host/v1/chat/completions")
        }
        _ => panic!("a base URL always resolves"),
    }
    match resolve_transcription_url("openai", Some("https://my.host/v1/chat/completions")) {
        UrlResolution::Resolved { url } => {
            assert_eq!(url, "https://my.host/v1/chat/completions")
        }
        _ => panic!("a full base URL is kept"),
    }
    // a blank base URL falls back to the provider table
    match resolve_transcription_url("moonshot", Some("   ")) {
        UrlResolution::Resolved { url } => {
            assert_eq!(url, "https://api.moonshot.cn/v1/chat/completions")
        }
        _ => panic!("blank base URL falls back"),
    }
    assert!(matches!(
        resolve_transcription_url("openai-compatible", None),
        UrlResolution::BaseUrlRequired
    ));
    assert!(matches!(
        resolve_transcription_url("ollama", None),
        UrlResolution::UnsupportedProvider
    ));
}

#[test]
fn google_addressing() {
    assert!(is_google_provider("google"));
    assert!(is_google_provider("google-ai-studio"));
    assert!(!is_google_provider("openai"));
    assert_eq!(
        google_request_url("models/gemini-2.0-flash", "SECRET-REDACTED"),
        "https://generativelanguage.googleapis.com/v1beta/models/gemini-2.0-flash:generateContent?key=SECRET-REDACTED"
    );
    assert_eq!(
        google_request_url("gemini-2.0-flash", "k"),
        "https://generativelanguage.googleapis.com/v1beta/models/gemini-2.0-flash:generateContent?key=k"
    );
}

#[test]
fn payload_encoding() {
    assert_eq!(encode_payload(&b"Man".to_vec()), "TWFu");
    assert_eq!(encode_payload(&b"Ma".to_vec()), "TWE=");
    assert_eq!(encode_payload(&Vec::new()), "");
    assert_eq!(
        video_data_url("mp4", &b"Man".to_vec()),
        "data:video/mp4;base64,TWFu"
    );
}
