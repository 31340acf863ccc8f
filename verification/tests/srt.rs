use autoasr::srt::{
    build_srt_entry, estimate_duration_from_text, format_srt_timestamp, format_timestamp,
    round_millis, sanitize_srt_text,
};
use autoasr::text::{is_blank, trim};
use autoasr::transcoder::{export_duration, format_seconds};
use autoasr::segment::{SegmentKind, SpeechSegment};

const SECOND: u64 = 1_000_000_000;
const MILLI: u64 = 1_000_000;

#[test]
fn srt_timestamps() {
    assert_eq!(format_srt_timestamp(0), "00:00:00,000");
    assert_eq!(format_srt_timestamp(3_723 * SECOND + 4 * MILLI), "01:02:03,004");
    assert_eq!(format_srt_timestamp(59 * SECOND + 999 * MILLI), "00:00:59,999");
    assert_eq!(format_srt_timestamp(360_000 * SECOND), "100:00:00,000");
}

#[test]
fn timestamps_round_to_the_nearest_millisecond() {
    assert_eq!(round_millis(499_999), 0);
    assert_eq!(round_millis(500_000), 1);
    assert_eq!(round_millis(1_499_999), 1);
    assert_eq!(round_millis(u64::MAX), 18_446_744_073_710);
    assert_eq!(format_srt_timestamp(999_500_000), "00:00:01,000");
    assert_eq!(format_srt_timestamp(999_499_999), "00:00:00,999");
}

#[test]
fn log_timestamps_show_hours_only_when_needed() {
    assert_eq!(format_timestamp(0), "00:00.000");
    assert_eq!(format_timestamp(61 * SECOND + 500 * MILLI), "01:01.500");
    assert_eq!(format_timestamp(3_723 * SECOND + 4 * MILLI), "01:02:03.004");
}

#[test]
fn seconds_with_three_decimals() {
    assert_eq!(format_seconds(0), "0.000");
    assert_eq!(format_seconds(1_234_567_890), "1.235");
    assert_eq!(format_seconds(160 * MILLI), "0.160");
    assert_eq!(format_seconds(75 * SECOND), "75.000");
}

#[test]
fn clips_are_never_shorter_than_a_quarter_second() {
    let short = SpeechSegment::new(SECOND, SECOND + 100 * MILLI, SegmentKind::Gap);
    assert_eq!(export_duration(&short), 250 * MILLI);
    let long = SpeechSegment::new(SECOND, 3 * SECOND, SegmentKind::Speech);
    assert_eq!(export_duration(&long), 2 * SECOND);
    let backwards = SpeechSegment::new(3 * SECOND, SECOND, SegmentKind::Speech);
    assert_eq!(export_duration(&backwards), 250 * MILLI);
}

#[test]
fn entries_have_number_span_body_and_blank_line() {
    let entry = build_srt_entry(1, 0, 2 * SECOND + 500 * MILLI, " hi\r\nthere \n");
    assert_eq!(entry, "1\n00:00:00,000 --> 00:00:02,500\nhi\nthere\n\n");
    let entry = build_srt_entry(12, 62 * SECOND, 3_600 * SECOND, "x");
    assert_eq!(entry, "12\n00:01:02,000 --> 01:00:00,000\nx\n\n");
}

#[test]
fn degenerate_spans_become_half_a_second() {
    let zero = build_srt_entry(3, 5 * SECOND, 5 * SECOND, "x");
    assert_eq!(zero, "3\n00:00:05,000 --> 00:00:05,500\nx\n\n");
    let negative = build_srt_entry(3, 5 * SECOND, SECOND, "x");
    assert_eq!(negative, zero);
    let explicit = build_srt_entry(3, 5 * SECOND, 5 * SECOND + 500 * MILLI, "x");
    assert_eq!(explicit, zero);
    let late = build_srt_entry(1, u64::MAX, 0, "x");
    assert_eq!(late, "1\n5124095:34:33,710 --> 5124095:34:34,210\nx\n\n");
}

#[test]
fn sanitizing_unifies_line_ends_and_trims() {
    assert_eq!(sanitize_srt_text("  a\r\nb\r\n"), "a\nb");
    assert_eq!(sanitize_srt_text("a\rb"), "a\rb");
    assert_eq!(sanitize_srt_text("\r\n\r\n"), "");
    assert_eq!(sanitize_srt_text("a\r\r\nb"), "a\r\nb");
    assert_eq!(sanitize_srt_text("\u{3000}你好\u{a0}"), "你好");
}

#[test]
fn trimming_follows_unicode_white_space() {
    assert_eq!(trim(" \t\r\n x y \u{2003}\u{85}"), "x y");
    assert_eq!(trim("\u{200b}x"), "\u{200b}x");
    assert_eq!(trim(""), "");
    assert_eq!(trim(" \n "), "");
    assert!(is_blank(" \u{3000}\t"));
    assert!(is_blank(""));
    assert!(!is_blank(" . "));
    for c in ['\u{9}', '\u{a}', '\u{b}', '\u{c}', '\u{d}', ' ', '\u{85}', '\u{a0}', '\u{1680}',
        '\u{2000}', '\u{200a}', '\u{2028}', '\u{2029}', '\u{202f}', '\u{205f}', '\u{3000}'] {
        assert_eq!(c.is_whitespace(), autoasr::text::is_whitespace(c));
        assert!(autoasr::text::is_whitespace(c));
    }
    for c in ['a', '\u{8}', '\u{e}', '\u{1f}', '\u{200b}', '\u{180e}', '\u{feff}'] {
        assert_eq!(c.is_whitespace(), autoasr::text::is_whitespace(c));
        assert!(!autoasr::text::is_whitespace(c));
    }
}

#[test]
fn white_space_is_what_the_standard_library_takes_for_it() {
    for code in 0..=0x10FFFFu32 {
        if let Some(c) = char::from_u32(code) {
            assert_eq!(c.is_whitespace(), autoasr::text::is_whitespace(c), "U+{:04X}", code);
        }
    }
}

#[test]
fn trimming_agrees_with_the_standard_library() {
    for text in ["", " ", "a", " a", "a ", " a b ", "\r\n a\t\u{3000}", "\u{85}x\u{2028}\u{2029}",
        "   \u{1680}\u{205f}", "x\u{200b} "] {
        assert_eq!(trim(text), text.trim());
        assert_eq!(is_blank(text), text.trim().is_empty());
    }
}

#[test]
fn durations_are_estimated_from_the_length() {
    assert_eq!(estimate_duration_from_text(""), 5 * SECOND);
    assert_eq!(estimate_duration_from_text("0123456789"), 5 * SECOND);
    let text: String = std::iter::repeat('字').take(150).collect();
    assert_eq!(estimate_duration_from_text(&text), 10 * SECOND);
    let text: String = std::iter::repeat('a').take(76).collect();
    assert_eq!(estimate_duration_from_text(&text), 5_066_666_666);
}
