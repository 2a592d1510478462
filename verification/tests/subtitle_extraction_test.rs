//! Tests of JSON extraction and transcription-response parsing.

use textlingo::extract::extract_json;
use textlingo::extract::repair_json;
use textlingo::parse::parse_transcription_response;
use textlingo::time::parse_time_str;

#[test]
fn test_extract_json_from_markdown() {
    let content = r#"Here is the transcription:
```json
{"segments": [{"timestamp": "00:00", "content": "Hello"}], "full_text": "Hello"}
```
"#;

    let json_str = extract_json(content);
    assert!(json_str.contains("segments"));
    assert!(json_str.contains("Hello"));
}

#[test]
fn test_extract_json_plain() {
    let content = r#"{"segments": [{"timestamp": "00:00", "content": "Test"}], "full_text": "Test"}"#;
    let json = extract_json(content);
    assert_eq!(json, content);
}

#[test]
fn subtitle_extraction_test_extract_json_from_markdown() {
    let content = r#"Here is the transcription:
```json
{"segments": [{"timestamp": "00:00", "content": "Hello"}], "full_text": "Hello"}
```
"#;
    let json = extract_json(content);
    assert!(json.contains("segments"));
}

#[test]
fn subtitle_extraction_test_extract_json_plain() {
    let content = r#"{"segments": [{"start": "00:00", "content": "Test"}], "full_text": "Test"}"#;
    let json = extract_json(content);
    assert_eq!(json, content);
}

#[test]
fn test_parse_transcription_response() {
    let content = r#"{"segments": [{"start": "00:00", "end": "00:05", "content": "Hello world", "speaker": null}], "full_text": "Hello world"}"#;
    let result = parse_transcription_response(content).unwrap();
    assert_eq!(result.segments.len(), 1);
    assert_eq!(result.segments[0].content, "Hello world");
    assert_eq!(result.segments[0].start_time, Some(0));
    assert_eq!(result.segments[0].end_time, Some(5000));
}

#[test]
fn test_parse_time_str() {
    assert_eq!(parse_time_str("00:00"), 0);
    assert_eq!(parse_time_str("00:05"), 5000);
    assert_eq!(parse_time_str("01:00"), 60000);
    assert_eq!(parse_time_str("01:02:03"), 3723000);
}

#[test]
fn subtitle_extraction_test_test_parse_transcription_response() {
    let content = r#"{"segments": [{"timestamp": "00:00", "content": "Hello world", "speaker": null}], "full_text": "Hello world"}"#;

    let parsed: serde_json::Value = serde_json::from_str(content).unwrap();
    let segments = parsed["segments"].as_array().unwrap();

    assert_eq!(segments.len(), 1);
    assert_eq!(segments[0]["content"].as_str().unwrap(), "Hello world");
    assert_eq!(segments[0]["timestamp"].as_str().unwrap(), "00:00");
}

#[test]
fn test_transcription_to_segments() {
    let transcription_json = r#"{
        "segments": [
            {"timestamp": "00:05", "content": "Welcome to the tutorial", "speaker": "Speaker 1"},
            {"timestamp": "00:10", "content": "Today we'll learn about Rust", "speaker": "Speaker 1"}
        ],
        "full_text": "Welcome to the tutorial. Today we'll learn about Rust."
    }"#;

    let parsed: serde_json::Value = serde_json::from_str(transcription_json).unwrap();
    let segments = parsed["segments"].as_array().unwrap();

    assert_eq!(segments.len(), 2);
    assert!(parsed["full_text"].as_str().unwrap().contains("Rust"));
}

#[test]
fn test_empty_transcription_handling() {
    let content = r#"{"segments": [], "full_text": ""}"#;

    let parsed: serde_json::Value = serde_json::from_str(content).unwrap();
    let segments = parsed["segments"].as_array().unwrap();

    assert_eq!(segments.len(), 0);
    assert_eq!(parsed["full_text"].as_str().unwrap(), "");
}

#[test]
fn test_extract_json_with_nested_braces() {
    let content = r#"Here is the response:
    {
        "segments": [
            {"timestamp": "00:00", "content": "Hello {world}"}
        ],
        "full_text": "Hello {world}"
    }
Some extra text here"#;

    let json = extract_json(content);

    let parsed: Result<serde_json::Value, _> = serde_json::from_str(&json);
    assert!(parsed.is_ok(), "Extracted JSON should be valid: {}", json);
}

#[test]
fn extract_json_fenced_block_exact() {
    let content = "prefix ```json\n{\"segments\":[]}\n``` suffix";
    assert_eq!(extract_json(content), "{\"segments\":[]}");
}

#[test]
fn extract_json_generic_fence() {
    let content = "text ```\n{\"a\": 1}\n``` more";
    assert_eq!(extract_json(content), "{\"a\": 1}");
}

#[test]
fn extract_json_fallback_strips_fences() {
    let content = "```json[1, 2]```";
    assert_eq!(extract_json(content), "[1, 2]");
}

#[test]
fn repair_json_trailing_commas() {
    let repaired = repair_json("{\"segments\": [{\"content\": \"hi\",}], }");
    let parsed: Result<serde_json::Value, _> = serde_json::from_str(&repaired);
    assert!(parsed.is_ok(), "repaired JSON should parse: {}", repaired);
}

#[test]
fn repair_json_smart_quotes() {
    let repaired = repair_json("{\u{201c}a\u{201d}: 1}");
    assert_eq!(repaired, "{\"a\": 1}");
}

#[test]
fn parse_response_empty_string_is_silence() {
    let result = parse_transcription_response("").unwrap();
    assert_eq!(result.segments.len(), 0);
    assert_eq!(result.full_text, "");
}

#[test]
fn parse_response_empty_fenced_block_is_silence() {
    // extraction yields an empty payload, and the raw text is not JSON:
    // that counts as "no speech found", not as a parse bug
    let result = parse_transcription_response("```json\n```").unwrap();
    assert_eq!(result.segments.len(), 0);
    assert_eq!(result.full_text, "");
}

#[test]
fn parse_response_unparsable_payload_fails() {
    let content = "no braces here at all";
    let err = parse_transcription_response(content).unwrap_err();
    assert!(matches!(
        err,
        textlingo::model::ExtractionError::TranscriptionParseFailed { ref raw_content, .. }
            if raw_content == content
    ));
}

#[test]
fn parse_response_json_without_segments_fails() {
    let content = "noise {\"foo\": 1} noise";
    let err = parse_transcription_response(content).unwrap_err();
    assert!(matches!(
        err,
        textlingo::model::ExtractionError::TranscriptionParseFailed { ref raw_content, .. }
            if raw_content == content
    ));
}

#[test]
fn parse_response_repairs_trailing_commas() {
    let content = "{\"segments\": [{\"start\": \"00:01\", \"content\": \"hi\",}], \"full_text\": \"hi\",}";
    let result = parse_transcription_response(content).unwrap();
    assert_eq!(result.segments.len(), 1);
    assert_eq!(result.segments[0].content, "hi");
    assert_eq!(result.segments[0].start_time, Some(1000));
    // the end falls back to the start when absent
    assert_eq!(result.segments[0].end_time, Some(1000));
}

#[test]
fn parse_response_timestamp_fallback_and_skips() {
    let content = r#"{"segments": [
        {"timestamp": "01:00", "content": "legacy"},
        {"content": "no time, dropped"},
        {"start": "00:01", "end": "00:02"},
        {"start": "00:03", "end": "00:04", "content": "kept", "speaker": "S"}
    ], "full_text": "t"}"#;
    let result = parse_transcription_response(content).unwrap();
    assert_eq!(result.segments.len(), 2);
    assert_eq!(result.segments[0].content, "legacy");
    assert_eq!(result.segments[0].start_time, Some(60000));
    assert_eq!(result.segments[0].end_time, Some(60000));
    assert_eq!(result.segments[1].content, "kept");
    assert_eq!(result.segments[1].speaker.as_deref(), Some("S"));
    assert_eq!(result.segments[1].start_time, Some(3000));
    assert_eq!(result.segments[1].end_time, Some(4000));
    assert_eq!(result.full_text, "t");
}

#[test]
fn parse_time_str_fractions_and_garbage() {
    assert_eq!(parse_time_str("00:05.5"), 5500);
    assert_eq!(parse_time_str("00:05.25"), 5250);
    assert_eq!(parse_time_str("00:.5"), 500);
    assert_eq!(parse_time_str("00:5."), 5000);
    assert_eq!(parse_time_str("ab:30"), 30000);
    assert_eq!(parse_time_str("no colon"), 0);
    assert_eq!(parse_time_str("1:2:3:4"), 0);
}

#[test]
fn extract_json_unclosed_fence_falls_through_to_braces() {
    // a lone opening fence has no closing fence; the brace scan applies
    let content = "```json\n{\"a\": {\"b\": 1}} trailing";
    assert_eq!(extract_json(content), "{\"a\": {\"b\": 1}}");
}
