use autoasr::prober::{parse_media_duration, parse_stream_indices};
use autoasr::transcoder::{duration_probe_args, stream_probe_args};

#[test]
fn stream_indices_one_per_line() {
    assert_eq!(parse_stream_indices("1\n2\n"), vec![1, 2]);
    assert_eq!(parse_stream_indices("0"), vec![0]);
    assert_eq!(parse_stream_indices(""), Vec::<u32>::new());
    assert_eq!(parse_stream_indices("1\r\n 2 \r\n\r\n3"), vec![1, 2, 3]);
}

#[test]
fn lines_without_a_number_are_passed_over() {
    let output = "1\nx\n 3 \n+4\n-1\n4294967295\n4294967296\n1 2\n007\n+\n5,a\n";
    assert_eq!(parse_stream_indices(output), vec![1, 3, 4, 4294967295, 7]);
}

#[test]
fn durations_in_seconds() {
    assert_eq!(parse_media_duration("213.426000\n"), Some(213_426_000_000));
    assert_eq!(parse_media_duration("1.5"), Some(1_500_000_000));
    assert_eq!(parse_media_duration("  7  \r\n"), Some(7_000_000_000));
    assert_eq!(parse_media_duration(".5"), Some(500_000_000));
    assert_eq!(parse_media_duration("5."), Some(5_000_000_000));
    assert_eq!(parse_media_duration("+2.25"), Some(2_250_000_000));
    assert_eq!(parse_media_duration("0.1234567899"), Some(123_456_789));
    assert_eq!(parse_media_duration("0.000000001"), Some(1));
}

#[test]
fn the_first_line_with_a_duration_counts() {
    assert_eq!(parse_media_duration("N/A\n12.5\n99\n"), Some(12_500_000_000));
    assert_eq!(parse_media_duration("\n\n3\n"), Some(3_000_000_000));
}

#[test]
fn what_is_no_duration() {
    assert_eq!(parse_media_duration(""), None);
    assert_eq!(parse_media_duration("N/A\n"), None);
    assert_eq!(parse_media_duration("."), None);
    assert_eq!(parse_media_duration("+"), None);
    assert_eq!(parse_media_duration("-1.5"), None);
    assert_eq!(parse_media_duration("1.5.2"), None);
    assert_eq!(parse_media_duration("1e3"), None);
    assert_eq!(parse_media_duration("1.5x"), None);
    assert_eq!(parse_media_duration("1.0000000000x"), None);
}

#[test]
fn durations_past_the_timeline_are_refused() {
    assert_eq!(parse_media_duration("18446744073.709551615"), Some(u64::MAX));
    assert_eq!(parse_media_duration("18446744073.709551616"), None);
    assert_eq!(parse_media_duration("18446744074"), None);
    assert_eq!(parse_media_duration("99999999999999999999999999"), None);
    assert_eq!(parse_media_duration("000000000000000000000000001"), Some(1_000_000_000));
}

#[test]
fn prober_queries() {
    assert_eq!(
        stream_probe_args("/m/a.mkv"),
        vec![
            "-v", "error", "-select_streams", "a", "-show_entries", "stream=index", "-of",
            "csv=p=0", "/m/a.mkv",
        ]
    );
    assert_eq!(
        duration_probe_args("/m/a.mp3"),
        vec![
            "-v", "error", "-show_entries", "format=duration", "-of",
            "default=noprint_wrappers=1:nokey=1", "/m/a.mp3",
        ]
    );
}

#[test]
fn lines_are_split_like_the_standard_library_splits_them() {
    for output in ["1\n2", "1\r\n2\r\n", "1\r2\n3", "\n\n7\n", "8\r", "\r\n9", "1\n\r\n2", ""] {
        let expected: Vec<u32> =
            output.lines().filter_map(|line| line.trim().parse::<u32>().ok()).collect();
        assert_eq!(parse_stream_indices(output), expected, "{:?}", output);
    }
}
