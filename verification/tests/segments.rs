use autoasr::detect::{detect_speech_segments, finalize_segment, SpeechTracker};
use autoasr::engine::{segment_timeline, SegmentationError};
use autoasr::gaps::{expand_segments_with_gaps, sort_by_start};
use autoasr::segment::{
    millis_to_chunks, SegmentKind, SegmentState, SpeechSegment, VadConfig,
};
use autoasr::timeline::{
    chunk_count, chunk_to_time, padded_chunk, total_duration, NANOS_PER_CHUNK,
};

const SECOND: u64 = 1_000_000_000;
const MILLI: u64 = 1_000_000;

fn config(min_speech_chunks: usize, padding_chunks: usize) -> VadConfig {
    VadConfig { threshold: 600, min_speech_chunks, padding_chunks }
}

fn stream(parts: &[(usize, u32)]) -> Vec<u32> {
    let mut probabilities = Vec::new();
    for (count, value) in parts {
        for _ in 0..*count {
            probabilities.push(*value);
        }
    }
    probabilities
}

fn speech(start_chunk: u64, end_chunk: u64) -> SpeechSegment {
    SpeechSegment {
        start_ns: start_chunk * NANOS_PER_CHUNK,
        end_ns: end_chunk * NANOS_PER_CHUNK,
        kind: SegmentKind::Speech,
    }
}

#[test]
fn expand_segments_adds_gap_coverage() {
    let speech_segments = vec![
        SpeechSegment::new(0, 2 * SECOND, SegmentKind::Speech),
        SpeechSegment::new(4 * SECOND, 6 * SECOND, SegmentKind::Speech),
    ];
    let expanded = expand_segments_with_gaps(&speech_segments, 8 * SECOND);
    assert_eq!(expanded.len(), 4);
    assert_eq!(expanded[0].kind, SegmentKind::Speech);
    assert_eq!(expanded[1].kind, SegmentKind::Gap);
    assert_eq!(expanded[1].start_ns, 2 * SECOND);
    assert_eq!(expanded[1].end_ns, 4 * SECOND);
    assert_eq!(expanded[2].kind, SegmentKind::Speech);
    assert_eq!(expanded[3].kind, SegmentKind::Gap);
    assert_eq!(expanded[3].start_ns, 6 * SECOND);
    assert_eq!(expanded[3].end_ns, 8 * SECOND);
}

#[test]
fn expand_covers_the_whole_timeline() {
    let speech_segments = vec![
        SpeechSegment::new(3 * SECOND, 5 * SECOND, SegmentKind::Speech),
        SpeechSegment::new(SECOND, 2 * SECOND, SegmentKind::Speech),
        SpeechSegment::new(5 * SECOND, 7 * SECOND, SegmentKind::Speech),
    ];
    let expanded = expand_segments_with_gaps(&speech_segments, 10 * SECOND);
    assert_eq!(expanded.len(), 6);
    assert_eq!(expanded[0].start_ns, 0);
    for pair in expanded.windows(2) {
        assert_eq!(pair[0].end_ns, pair[1].start_ns);
    }
    assert_eq!(expanded[5].end_ns, 10 * SECOND);
    let sum: u64 = expanded.iter().map(|s| s.end_ns - s.start_ns).sum();
    assert_eq!(sum, 10 * SECOND);
    let kinds: Vec<SegmentKind> = expanded.iter().map(|s| s.kind).collect();
    assert_eq!(
        kinds,
        vec![
            SegmentKind::Gap,
            SegmentKind::Speech,
            SegmentKind::Gap,
            SegmentKind::Speech,
            SegmentKind::Speech,
            SegmentKind::Gap,
        ]
    );
}

#[test]
fn expand_of_nothing_is_nothing() {
    assert!(expand_segments_with_gaps(&[], 8 * SECOND).is_empty());
}

#[test]
fn expand_leaves_out_slivers_of_a_millisecond() {
    let speech_segments = vec![SpeechSegment::new(MILLI, 2 * SECOND, SegmentKind::Speech)];
    let expanded = expand_segments_with_gaps(&speech_segments, 2 * SECOND + MILLI);
    assert_eq!(expanded, speech_segments);

    let expanded = expand_segments_with_gaps(&speech_segments, 2 * SECOND + MILLI + 1);
    assert_eq!(expanded.len(), 2);
    assert_eq!(
        expanded[1],
        SpeechSegment::new(2 * SECOND, 2 * SECOND + MILLI + 1, SegmentKind::Gap)
    );
}

#[test]
fn expand_adds_no_tail_when_speech_runs_past_the_end() {
    let speech_segments = vec![SpeechSegment::new(0, 2 * SECOND, SegmentKind::Speech)];
    let expanded = expand_segments_with_gaps(&speech_segments, SECOND);
    assert_eq!(expanded, speech_segments);
}

#[test]
fn sorting_is_stable() {
    let first = SpeechSegment::new(5, 9, SegmentKind::Speech);
    let second = SpeechSegment::new(5, 7, SegmentKind::Gap);
    let third = SpeechSegment::new(1, 2, SegmentKind::Speech);
    let sorted = sort_by_start(&[first, second, third]);
    assert_eq!(sorted, vec![third, first, second]);
}

#[test]
fn try_new_refuses_degenerate_segments() {
    assert_eq!(SpeechSegment::try_new(10, 10, SegmentKind::Gap), None);
    assert_eq!(SpeechSegment::try_new(10, 5, SegmentKind::Gap), None);
    assert_eq!(SpeechSegment::try_new(10, 10 + MILLI, SegmentKind::Gap), None);
    assert_eq!(
        SpeechSegment::try_new(10, 11 + MILLI, SegmentKind::Gap),
        Some(SpeechSegment { start_ns: 10, end_ns: 11 + MILLI, kind: SegmentKind::Gap })
    );
}

#[test]
fn from_chunks_converts_to_time() {
    assert_eq!(SpeechSegment::from_chunks(2, 5), speech(2, 5));
    assert_eq!(SpeechSegment::from_chunks(2, 5).start_ns, 64 * MILLI);
    assert_eq!(SpeechSegment::from_chunks(2, 5).end_ns, 160 * MILLI);
}

#[test]
fn chunk_arithmetic() {
    assert_eq!(chunk_to_time(0), 0);
    assert_eq!(chunk_to_time(1), 32 * MILLI);
    assert_eq!(chunk_to_time(125), 4 * SECOND);
    assert_eq!(chunk_count(0), 0);
    assert_eq!(chunk_count(1), 1);
    assert_eq!(chunk_count(512), 1);
    assert_eq!(chunk_count(513), 2);
    assert_eq!(total_duration(16_000), SECOND);
    assert_eq!(total_duration(1), 62_500);
    assert_eq!(total_duration(0), 0);
}

#[test]
fn last_chunk_is_zero_padded() {
    let samples: Vec<i16> = (0..600).map(|i| (i as i16) + 1).collect();
    let first = padded_chunk(&samples, 0);
    assert_eq!(first.len(), 512);
    assert_eq!(first[0], 1);
    assert_eq!(first[511], 512);
    let second = padded_chunk(&samples, 1);
    assert_eq!(second.len(), 512);
    assert_eq!(second[0], 513);
    assert_eq!(second[87], 600);
    assert!(second[88..].iter().all(|s| *s == 0));
}

#[test]
fn settings_are_kept_within_their_limits() {
    assert_eq!(
        VadConfig::from_user_settings(600, 2_000),
        VadConfig { threshold: 600, min_speech_chunks: 63, padding_chunks: 3 }
    );
    assert_eq!(
        VadConfig::from_user_settings(5, 100),
        VadConfig { threshold: 100, min_speech_chunks: 16, padding_chunks: 3 }
    );
    assert_eq!(
        VadConfig::from_user_settings(2_000, 60_000),
        VadConfig { threshold: 990, min_speech_chunks: 313, padding_chunks: 3 }
    );
    assert_eq!(VadConfig::default(), VadConfig::from_user_settings(600, 2_000));
}

#[test]
fn short_durations_still_need_ten_chunks() {
    assert_eq!(millis_to_chunks(0), 10);
    assert_eq!(millis_to_chunks(320), 10);
    assert_eq!(millis_to_chunks(321), 11);
    assert_eq!(millis_to_chunks(2_000), 63);
    assert_eq!(millis_to_chunks(10_000), 313);
}

#[test]
fn silence_yields_no_segment() {
    let cfg = config(10, 3);
    assert!(detect_speech_segments(&stream(&[(200, 0)]), &cfg).is_empty());
    assert!(detect_speech_segments(&stream(&[(200, 599)]), &cfg).is_empty());
    assert!(detect_speech_segments(&[], &cfg).is_empty());
}

#[test]
fn a_minimal_run_yields_one_segment() {
    let cfg = config(10, 3);
    let segments = detect_speech_segments(&stream(&[(5, 0), (10, 900), (8, 0)]), &cfg);
    assert_eq!(segments, vec![speech(5, 15)]);
    assert_eq!(segments[0].end_ns - segments[0].start_ns, 10 * 512 * SECOND / 16_000);
}

#[test]
fn a_run_one_chunk_short_is_noise() {
    let cfg = config(10, 3);
    assert!(detect_speech_segments(&stream(&[(5, 0), (9, 900), (8, 0)]), &cfg).is_empty());
    assert!(detect_speech_segments(&stream(&[(5, 0), (9, 900)]), &cfg).is_empty());
}

#[test]
fn the_threshold_itself_counts_as_speech() {
    let cfg = config(10, 3);
    let segments = detect_speech_segments(&stream(&[(10, 600)]), &cfg);
    assert_eq!(segments, vec![speech(0, 10)]);
}

#[test]
fn a_single_dip_does_not_split_a_run() {
    let cfg = config(10, 1);
    let with_dip = stream(&[(2, 0), (6, 900), (1, 100), (6, 900), (4, 0)]);
    let without = stream(&[(2, 0), (13, 900), (4, 0)]);
    let segments = detect_speech_segments(&with_dip, &cfg);
    assert_eq!(segments, vec![speech(2, 15)]);
    assert_eq!(segments, detect_speech_segments(&without, &cfg));
}

#[test]
fn without_padding_a_dip_splits_the_run() {
    let cfg = config(5, 0);
    let probabilities = stream(&[(6, 900), (1, 100), (7, 900)]);
    let segments = detect_speech_segments(&probabilities, &cfg);
    assert_eq!(segments, vec![speech(0, 6), speech(7, 14)]);
}

#[test]
fn padding_bridges_up_to_its_length() {
    let cfg = config(10, 3);
    let bridged = stream(&[(6, 900), (3, 0), (6, 900), (10, 0)]);
    assert_eq!(detect_speech_segments(&bridged, &cfg), vec![speech(0, 15)]);
    let split = stream(&[(6, 900), (4, 0), (6, 900), (10, 0)]);
    assert!(detect_speech_segments(&split, &cfg).is_empty());
}

#[test]
fn a_run_that_is_open_at_the_end_is_closed() {
    let cfg = config(10, 3);
    let segments = detect_speech_segments(&stream(&[(3, 0), (12, 900), (2, 0)]), &cfg);
    assert_eq!(segments, vec![speech(3, 15)]);
}

#[test]
fn several_runs_come_out_in_order() {
    let cfg = config(10, 3);
    let probabilities = stream(&[(10, 900), (5, 0), (4, 900), (5, 0), (11, 900), (1, 0)]);
    let segments = detect_speech_segments(&probabilities, &cfg);
    assert_eq!(segments, vec![speech(0, 10), speech(24, 35)]);
}

#[test]
fn the_tracker_agrees_with_the_whole_pass() {
    let cfg = config(10, 3);
    let probabilities = stream(&[(10, 900), (5, 0), (4, 900), (5, 0), (11, 900), (1, 0)]);
    let mut tracker = SpeechTracker::new(cfg);
    for p in &probabilities {
        assert!(tracker.has_room());
        tracker.feed(*p);
    }
    assert_eq!(tracker.chunks_seen(), probabilities.len());
    assert_eq!(tracker.finish(), detect_speech_segments(&probabilities, &cfg));
}

#[test]
fn finalize_keeps_long_runs_only() {
    let cfg = config(10, 3);
    let mut segments = Vec::new();
    finalize_segment(&SegmentState { start_chunk: 4, last_active_chunk: 12 }, &cfg, &mut segments);
    assert!(segments.is_empty());
    finalize_segment(&SegmentState { start_chunk: 4, last_active_chunk: 13 }, &cfg, &mut segments);
    assert_eq!(segments, vec![speech(4, 14)]);
    assert_eq!(SegmentState::new(7), SegmentState { start_chunk: 7, last_active_chunk: 7 });
}

#[test]
fn the_engine_fills_the_gaps() {
    let cfg = config(10, 3);
    let probabilities = stream(&[(5, 0), (10, 900), (35, 0)]);
    let total = total_duration(50 * 512);
    let timeline = segment_timeline(&probabilities, &cfg, total).unwrap();
    assert_eq!(
        timeline,
        vec![
            SpeechSegment::new(0, 160 * MILLI, SegmentKind::Gap),
            speech(5, 15),
            SpeechSegment::new(480 * MILLI, 1_600 * MILLI, SegmentKind::Gap),
        ]
    );
    let sum: u64 = timeline.iter().map(|s| s.end_ns - s.start_ns).sum();
    assert_eq!(sum, total);
}

#[test]
fn the_engine_reports_missing_speech() {
    let cfg = config(10, 3);
    let probabilities = stream(&[(50, 0)]);
    assert_eq!(
        segment_timeline(&probabilities, &cfg, total_duration(50 * 512)),
        Err(SegmentationError::NoSpeech)
    );
    assert_eq!(SegmentationError::NoSpeech.message(), "未检测到有效语音");
}
