//! Tests of the merge engine: offset correction, sorting, deduplication.

use textlingo::dedup::deduplicate_segments;
use textlingo::dedup::merge_segments;
use textlingo::dedup::similarity_exceeds_check;
use textlingo::model::TranscriptionSegment;
use textlingo::window::apply_time_offset;
use textlingo::window::correct_window;

fn seg(content: &str, start_ms: u64, end_ms: u64) -> TranscriptionSegment {
    TranscriptionSegment {
        speaker: None,
        content: content.to_string(),
        start_time: Some(start_ms),
        end_time: Some(end_ms),
    }
}

#[test]
fn offset_correction_is_additive() {
    let local = vec![seg("Hello there, friend!", 25_000, 29_000)];
    let corrected = apply_time_offset(local, 570_000);
    assert_eq!(corrected[0].start_time, Some(595_000));
    assert_eq!(corrected[0].end_time, Some(599_000));
    assert_eq!(corrected[0].content, "Hello there, friend!");
}

#[test]
fn window_boundaries_are_corrected() {
    let local = vec![seg("a", 1_000, 2_000), seg("b", 3_000, 4_000)];
    let w = correct_window(local, 570_000);
    assert_eq!(w.time_offset, 570_000);
    assert_eq!(w.first_segment_start, Some(571_000));
    assert_eq!(w.last_segment_end, Some(574_000));
}

#[test]
fn overlapping_windows_keep_one_copy() {
    // Window A covers [0, 600)s and hears the sentence at its end; window
    // B covers [570, 1170)s and hears the same sentence at its start.
    let from_a = seg("Hello there friend.", 595_000, 599_000);
    let from_b_local = vec![seg("Hello there, friend!", 25_000, 29_000)];
    let from_b = apply_time_offset(from_b_local, 570_000);

    let mut all = vec![from_a];
    all.extend(from_b);
    let merged = merge_segments(all);
    assert_eq!(merged.len(), 1);
    assert_eq!(merged[0].content, "Hello there friend.");
}

#[test]
fn similarity_of_near_identical_sentences() {
    // LCS("Hello there friend.", "Hello there, friend!") keeps 18 of the
    // longer text's 20 characters: similarity is exactly 0.9.
    let a = "Hello there friend.";
    let b = "Hello there, friend!";
    assert!(similarity_exceeds_check(a, b, 89, 100));
    assert!(!similarity_exceeds_check(a, b, 90, 100));
    assert!(similarity_exceeds_check(a, b, 1, 2));
    assert!(similarity_exceeds_check(a, b, 3, 5));
}

#[test]
fn similarity_degenerate_cases() {
    assert!(similarity_exceeds_check("", "", 99, 100));
    assert!(similarity_exceeds_check("  ", "\t\n", 99, 100));
    assert!(!similarity_exceeds_check("", "", 1, 1));
    assert!(!similarity_exceeds_check("abc", "", 0, 100));
    assert!(similarity_exceeds_check("same text", "same text", 99, 100));
    // LCS("abc", "aXc") = 2 of 3: similarity 2/3.
    assert!(similarity_exceeds_check("abc", "aXc", 1, 2));
    assert!(!similarity_exceeds_check("abc", "aXc", 2, 3));
}

#[test]
fn merge_drops_untimed_and_sorts() {
    let mut s0 = seg("late", 20_000, 21_000);
    s0.speaker = Some("S".to_string());
    let mut s1 = seg("broken", 0, 0);
    s1.end_time = None;
    let s2 = seg("early", 1_000, 2_000);
    let merged = merge_segments(vec![s0, s1, s2]);
    assert_eq!(merged.len(), 2);
    assert_eq!(merged[0].content, "early");
    assert_eq!(merged[1].content, "late");
    // the output is sorted and fully timestamped
    let mut last = 0u64;
    for m in &merged {
        let st = m.start_time.unwrap();
        assert!(st >= last);
        assert!(m.end_time.is_some());
        last = st;
    }
}

#[test]
fn merge_is_idempotent_on_sample() {
    let sample = vec![
        seg("one sentence here", 0, 2_000),
        seg("one sentence here!", 1_000, 3_000),
        seg("a different thing entirely", 2_500, 4_000),
        seg("far away sentence", 60_000, 62_000),
    ];
    let once = merge_segments(sample);
    let pairs: Vec<(Option<u64>, Option<u64>, String)> = once
        .iter()
        .map(|s| (s.start_time, s.end_time, s.content.clone()))
        .collect();
    let twice = merge_segments(once);
    let pairs_twice: Vec<(Option<u64>, Option<u64>, String)> = twice
        .iter()
        .map(|s| (s.start_time, s.end_time, s.content.clone()))
        .collect();
    assert_eq!(pairs, pairs_twice);
}

#[test]
fn dedup_keeps_earlier_copy_and_distant_repeats() {
    // same text repeated 16 s apart: outside the comparison window, both stay
    let far = vec![seg("repeated words", 0, 2_000), seg("repeated words", 16_000, 18_000)];
    assert_eq!(deduplicate_segments(far).len(), 2);

    // same text starting 3 s apart: the earlier one wins
    let near = vec![seg("repeated words", 0, 2_000), seg("repeated words", 3_000, 5_000)];
    let kept = deduplicate_segments(near);
    assert_eq!(kept.len(), 1);
    assert_eq!(kept[0].start_time, Some(0));
}

#[test]
fn dedup_requires_similar_text() {
    // full temporal overlap but dissimilar text: both stay
    let v = vec![
        seg("completely different words", 0, 4_000),
        seg("zzz qqq xxx", 0, 4_000),
    ];
    assert_eq!(deduplicate_segments(v).len(), 2);
}
