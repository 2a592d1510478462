//! Tests of configuration lookup and output-segment flattening.

use textlingo::config::default_interface_language;
use textlingo::config::AppConfig;
use textlingo::config::ModelConfig;
use textlingo::model::TranscriptionResult;
use textlingo::model::TranscriptionSegment;
use textlingo::segments::transcription_to_segments;

fn config(id: &str, name: &str) -> ModelConfig {
    ModelConfig {
        id: id.to_string(),
        name: name.to_string(),
        api_key: "SECRET-REDACTED".to_string(),
        api_provider: "openai".to_string(),
        model: "gpt".to_string(),
        is_default: false,
        created_at: None,
        base_url: None,
    }
}

#[test]
fn model_config_new_fills_fields() {
    let c = ModelConfig::new(
        "mine".to_string(),
        "SECRET-REDACTED".to_string(),
        "openrouter".to_string(),
        "gemini".to_string(),
    );
    assert_eq!(c.name, "mine");
    assert_eq!(c.api_provider, "openrouter");
    assert_eq!(c.model, "gemini");
    assert!(!c.is_default);
    assert!(c.created_at.is_some());
    assert!(c.base_url.is_none());
    assert_eq!(c.id.chars().count(), 36);
}

#[test]
fn app_config_defaults() {
    let c = AppConfig::default();
    assert!(c.active_model_id.is_none());
    assert!(c.model_configs.is_empty());
    assert_eq!(c.target_language, "zh-CN");
    assert_eq!(c.interface_language, "en");
    assert_eq!(default_interface_language(), "en");
}

#[test]
fn config_lookup_by_id_and_active() {
    let mut c = AppConfig::default();
    c.model_configs.push(config("a", "first"));
    c.model_configs.push(config("b", "second"));

    assert_eq!(c.get_config("b").unwrap().name, "second");
    assert!(c.get_config("zzz").is_none());

    // no active id: the first config stands in
    assert_eq!(c.get_active_config().unwrap().name, "first");

    c.active_model_id = Some("b".to_string());
    assert_eq!(c.get_active_config().unwrap().name, "second");

    c.active_model_id = Some("gone".to_string());
    assert!(c.get_active_config().is_none());

    let empty = AppConfig::default();
    assert!(empty.get_active_config().is_none());
}

#[test]
fn flattening_keeps_order_and_times() {
    let t = TranscriptionResult {
        segments: vec![
            TranscriptionSegment {
                speaker: Some("S".to_string()),
                content: "first sentence".to_string(),
                start_time: Some(0),
                end_time: Some(2_000),
            },
            TranscriptionSegment {
                speaker: None,
                content: "second sentence".to_string(),
                start_time: Some(2_000),
                end_time: Some(4_000),
            },
        ],
        full_text: "both".to_string(),
    };
    let segs = transcription_to_segments(&t, "article-1");
    assert_eq!(segs.len(), 2);
    for (i, s) in segs.iter().enumerate() {
        assert_eq!(s.order, i as i32);
        assert_eq!(s.article_id, "article-1");
        assert!(s.is_new_paragraph);
        assert!(s.reading_text.is_none());
        assert!(s.translation.is_none());
        assert!(s.explanation.is_none());
        assert_eq!(s.id.chars().count(), 36);
    }
    assert_eq!(segs[0].text, "first sentence");
    assert_eq!(segs[0].start_time, Some(0));
    assert_eq!(segs[0].end_time, Some(2_000));
    assert_eq!(segs[1].text, "second sentence");
    assert_ne!(segs[0].id, segs[1].id);
}
