use autoasr::segment::{SegmentKind, SpeechSegment};
use autoasr::source::{track_suffix, AudioSource, MaterializedAudio};
use autoasr::transcoder::track_to_mp3_args;

const SECOND: u64 = 1_000_000_000;

#[test]
fn an_audio_file_is_used_as_it_is() {
    let source = AudioSource::from_audio_file("/m/talk.mp3".to_string());
    assert_eq!(source.original_path(), "/m/talk.mp3");
    assert_eq!(source.input_path(), "/m/talk.mp3");
    assert_eq!(source.track_index(), None);
    assert_eq!(source.map_arg(), None);
    assert_eq!(source.display_name(), "\"/m/talk.mp3\"");
    assert_eq!(
        source.full_audio(),
        MaterializedAudio { path: "/m/talk.mp3".to_string(), cleanup: false }
    );
    assert_eq!(source.full_audio_job(), None);
}

#[test]
fn a_video_track_is_demuxed() {
    let source = AudioSource::from_video_track("/m/show.mkv".to_string(), 2);
    assert_eq!(source.original_path(), "/m/show.mkv");
    assert_eq!(source.input_path(), "/m/show.mkv");
    assert_eq!(source.track_index(), Some(2));
    assert_eq!(source.map_arg(), Some("0:2".to_string()));
    assert_eq!(source.display_name(), "\"/m/show.mkv\"（音轨 2）");
    assert_eq!(
        source.full_audio(),
        MaterializedAudio { path: "/m/show.mkv-track2.mp3".to_string(), cleanup: true }
    );
    let job = source.full_audio_job().unwrap();
    assert_eq!(job.output, "/m/show.mkv-track2.mp3");
    assert_eq!(
        job.args,
        vec![
            "-i", "/m/show.mkv", "-map", "0:2", "-c:a", "libmp3lame", "-y",
            "/m/show.mkv-track2.mp3",
        ]
    );
    assert_eq!(job.args, track_to_mp3_args("/m/show.mkv", 2, "/m/show.mkv-track2.mp3"));
}

#[test]
fn display_names_quote_the_path() {
    let source = AudioSource::from_audio_file("/m/a \"b\".mp3".to_string());
    assert_eq!(source.display_name(), "\"/m/a \\\"b\\\".mp3\"");
}

#[test]
fn suffixes_tell_track_and_segment() {
    assert_eq!(track_suffix(Some(1), Some(7)), "（音轨 1 · 片段 7）");
    assert_eq!(track_suffix(Some(1), None), "（音轨 1）");
    assert_eq!(track_suffix(None, Some(7)), "（片段 7）");
    assert_eq!(track_suffix(None, None), "");
}

#[test]
fn resampling_for_the_detector() {
    let job = AudioSource::from_video_track("/m/show.mkv".to_string(), 1).pcm16_job();
    assert_eq!(job.output, "/m/show.mkv-track1-vad.wav");
    assert_eq!(
        job.args,
        vec![
            "-i", "/m/show.mkv", "-map", "0:1", "-ac", "1", "-ar", "16000", "-sample_fmt", "s16",
            "-y", "/m/show.mkv-track1-vad.wav",
        ]
    );
    let job = AudioSource::from_audio_file("/m/talk.mp3".to_string()).pcm16_job();
    assert_eq!(job.output, "/m/talk.mp3-vad.wav");
    assert_eq!(
        job.args,
        vec![
            "-i", "/m/talk.mp3", "-ac", "1", "-ar", "16000", "-sample_fmt", "s16", "-y",
            "/m/talk.mp3-vad.wav",
        ]
    );
}

#[test]
fn cutting_a_segment_out_of_the_original() {
    let segment = SpeechSegment::new(SECOND + 160_000_000, 4 * SECOND, SegmentKind::Speech);
    let job = AudioSource::from_video_track("/m/show.mkv".to_string(), 1)
        .segment_export_job(3, &segment);
    assert_eq!(job.output, "/m/show.mkv-track1-seg3.mp3");
    assert_eq!(
        job.args,
        vec![
            "-ss", "1.160", "-i", "/m/show.mkv", "-map", "0:1", "-t", "2.840", "-acodec",
            "libmp3lame", "-y", "/m/show.mkv-track1-seg3.mp3",
        ]
    );
    let sliver = SpeechSegment::new(0, 32_000_000, SegmentKind::Gap);
    let job = AudioSource::from_audio_file("/m/talk.mp3".to_string())
        .segment_export_job(1, &sliver);
    assert_eq!(
        job.args,
        vec![
            "-ss", "0.000", "-i", "/m/talk.mp3", "-t", "0.250", "-acodec", "libmp3lame", "-y",
            "/m/talk.mp3-seg1.mp3",
        ]
    );
}
