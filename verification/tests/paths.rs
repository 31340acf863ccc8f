use autoasr::paths::{
    audio_track_path, extension, file_stem, is_media, is_media_extension, is_video,
    is_video_extension, segment_audio_path, track_file_suffix, transcript_result_path,
    vad_audio_path,
};

#[test]
fn media_extension_detection() {
    for ext in ["mp3", "wav", "ogg", "mp4", "mkv"] {
        assert!(is_media_extension(ext));
    }

    for ext in ["txt", "rs", "json", "zip"] {
        assert!(!is_media_extension(ext));
    }
}

#[test]
fn video_detection() {
    assert!(is_video("C:/data/sample.MP4"));
    assert!(!is_video("C:/data/audio.mp3"));
    assert!(!is_video("C:/data/no_ext"));
}

#[test]
fn transcript_path_preserves_original_name() {
    let path = "C:/tmp/input/video.mp4";
    let txt = transcript_result_path(path, None);
    assert_eq!(txt, "C:/tmp/input/video.srt");

    let track_txt = transcript_result_path(path, Some(2));
    assert_eq!(track_txt, "C:/tmp/input/video.轨道2.srt");

    let no_ext = "/tmp/audio";
    let txt2 = transcript_result_path(no_ext, None);
    assert_eq!(txt2, "/tmp/audio.srt");
}

#[test]
fn audio_track_path_includes_track_id() {
    let path = "/media/sample.mkv";
    let mp3 = audio_track_path(path, 1);
    assert_eq!(mp3, "/media/sample.mkv-track1.mp3");
}

#[test]
fn every_listed_extension_is_media() {
    for ext in ["mkv", "mp4", "avi", "mov", "flv", "wmv"] {
        assert!(is_media_extension(ext));
        assert!(is_video_extension(ext));
    }
    for ext in ["wav", "ogg", "opus", "mp3", "m4a"] {
        assert!(is_media_extension(ext));
        assert!(!is_video_extension(ext));
    }
    assert!(!is_media_extension("MP3"));
    assert!(!is_media_extension(""));
}

#[test]
fn media_check_ignores_case() {
    assert!(is_media("/data/Song.Mp3"));
    assert!(is_media("/data/clip.MKV"));
    assert!(!is_media("/data/notes.txt"));
    assert!(!is_media("/data/.mp3"));
    assert!(!is_media("/data/mp3"));
}

#[test]
fn stem_and_extension_follow_the_last_dot() {
    assert_eq!(file_stem("/a/b.tar.gz"), Some("b.tar".to_string()));
    assert_eq!(extension("/a/b.tar.gz"), Some("gz".to_string()));
    assert_eq!(file_stem("/a/.hidden"), Some(".hidden".to_string()));
    assert_eq!(extension("/a/.hidden"), None);
    assert_eq!(file_stem("/a/plain"), Some("plain".to_string()));
    assert_eq!(extension("/a/plain"), None);
    assert_eq!(file_stem("/a/trailing."), Some("trailing".to_string()));
    assert_eq!(extension("/a/trailing."), Some(String::new()));
    assert_eq!(file_stem("/a/.."), None);
    assert_eq!(extension("/"), None);
}

#[test]
fn track_suffix_of_file_names() {
    assert_eq!(track_file_suffix(None), "");
    assert_eq!(track_file_suffix(Some(0)), "-track0");
    assert_eq!(track_file_suffix(Some(4294967295)), "-track4294967295");
}

#[test]
fn artefact_paths_sit_beside_the_media_file() {
    assert_eq!(segment_audio_path("/m/a.mkv", Some(3), 12), "/m/a.mkv-track3-seg12.mp3");
    assert_eq!(segment_audio_path("/m/a.mp3", None, 1), "/m/a.mp3-seg1.mp3");
    assert_eq!(vad_audio_path("/m/a.mkv", Some(3)), "/m/a.mkv-track3-vad.wav");
    assert_eq!(vad_audio_path("/m/a.mp3", None), "/m/a.mp3-vad.wav");
}

#[test]
fn paths_without_a_file_name_get_the_default() {
    assert_eq!(transcript_result_path("/tmp/..", None), "/tmp/../result.srt");
    assert_eq!(audio_track_path("/tmp/..", 2), "/tmp/../audio-track2.mp3");
    assert_eq!(vad_audio_path("/tmp/..", None), "/tmp/../segment-vad.wav");
}

#[test]
fn transcript_paths_of_different_tracks_differ() {
    let path = "/media/show.mkv";
    let plain = transcript_result_path(path, None);
    let first = transcript_result_path(path, Some(1));
    let eleventh = transcript_result_path(path, Some(11));
    assert_ne!(plain, first);
    assert_ne!(first, eleventh);
    assert_eq!(first, transcript_result_path(path, Some(1)));
}

#[test]
fn stems_and_extensions_agree_with_the_standard_library() {
    for name in ["a.b", ".a", "a.", "..a", "a..b", "...", ".a.b", "a", "..", ".", "", "a.b.c",
        "轨道.srt", "x.轨道", " . ", "a/b.c/d", "a/b.c/", "a/.hidden.txt"] {
        let path = format!("/dir/{}", name);
        let std_path = std::path::Path::new(&path);
        let expected_stem = std_path.file_stem().map(|s| s.to_string_lossy().into_owned());
        let expected_ext = std_path.extension().map(|s| s.to_string_lossy().into_owned());
        assert_eq!(file_stem(&path), expected_stem, "{:?}", path);
        assert_eq!(extension(&path), expected_ext, "{:?}", path);
    }
    assert_eq!(autoasr::paths::stem_of(".."), "..");
    assert_eq!(autoasr::paths::extension_of(".."), None);
    assert_eq!(autoasr::paths::stem_of("a.b"), "a");
    assert_eq!(autoasr::paths::extension_of("a.b"), Some("b".to_string()));
}
