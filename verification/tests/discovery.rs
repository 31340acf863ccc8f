use autoasr::discovery::{
    announce, check_request, classify_entry, discover, pending_tracks, plan_audio, plan_entry,
    plan_video, report_probe_failure, transcript_paths, work_items, EntryKind, PendingJob, Probe,
    ScanError, ScannedEntry,
};
use autoasr::log::{ScanLog, ScanLogLevel, ScanLogger};
use autoasr::source::AudioSource;

fn info(message: &str) -> ScanLog {
    ScanLog::new(ScanLogLevel::Info, message.to_string())
}

#[test]
fn a_scan_needs_a_credential_and_a_directory() {
    assert_eq!(check_request("key", true), Ok(()));
    assert_eq!(check_request("", true), Err(ScanError::EmptyApiKey));
    assert_eq!(check_request("  \t", true), Err(ScanError::EmptyApiKey));
    assert_eq!(check_request("key", false), Err(ScanError::MissingDirectory));
    assert_eq!(check_request(" ", false), Err(ScanError::EmptyApiKey));
}

#[test]
fn scan_errors_are_worded() {
    assert_eq!(
        ScanError::EmptyApiKey.message("/m"),
        "API Key 为空，请在设置中填写后再运行。"
    );
    assert_eq!(ScanError::MissingDirectory.message("/m"), "目录不存在：\"/m\"");
}

#[test]
fn entries_are_classified_by_extension() {
    assert_eq!(classify_entry("/m/a.mp3", true), EntryKind::Audio);
    assert_eq!(classify_entry("/m/a.OPUS", true), EntryKind::Audio);
    assert_eq!(classify_entry("/m/a.mkv", true), EntryKind::Video);
    assert_eq!(classify_entry("/m/a.Mp4", true), EntryKind::Video);
    assert_eq!(classify_entry("/m/a.srt", true), EntryKind::Other);
    assert_eq!(classify_entry("/m/a", true), EntryKind::Other);
    assert_eq!(classify_entry("/m/dir.mp3", false), EntryKind::Other);
}

#[test]
fn tracks_without_a_transcript_are_pending() {
    assert_eq!(pending_tracks(&[1, 2, 5], &[false, true, false]), vec![1, 5]);
    assert_eq!(pending_tracks(&[1, 2, 5], &[false, false, false]), vec![1, 2, 5]);
    assert_eq!(pending_tracks(&[], &[]), Vec::<u32>::new());
}

#[test]
fn a_second_scan_finds_nothing_pending() {
    let indices = [1, 2, 5];
    let first = pending_tracks(&indices, &[false, true, false]);
    assert_eq!(first, vec![1, 5]);
    let second = pending_tracks(&indices, &[true, true, true]);
    assert!(second.is_empty());
    let mut logger = ScanLogger::new();
    assert_eq!(plan_video("/m/a.mkv".to_string(), &indices, &[true, true, true], &mut logger), None);
    assert_eq!(plan_audio("/m/a.mp3".to_string(), true), None);
    let sources = work_items(&Vec::new());
    assert!(sources.is_empty());
    assert!(!announce(&sources, &mut logger));
}

#[test]
fn transcript_paths_per_track() {
    assert_eq!(
        transcript_paths("/m/show.mkv", &[0, 3]),
        vec!["/m/show.轨道0.srt", "/m/show.轨道3.srt"]
    );
    assert!(transcript_paths("/m/show.mkv", &[]).is_empty());
}

#[test]
fn audio_files_are_planned_unless_transcribed() {
    assert_eq!(
        plan_audio("/m/a.mp3".to_string(), false),
        Some(PendingJob::Audio("/m/a.mp3".to_string()))
    );
    assert_eq!(plan_audio("/m/a.mp3".to_string(), true), None);
}

#[test]
fn videos_are_planned_for_their_pending_tracks() {
    let mut logger = ScanLogger::new();
    let job = plan_video("/m/a.mkv".to_string(), &[1, 2], &[true, false], &mut logger);
    assert_eq!(job, Some(PendingJob::Video { path: "/m/a.mkv".to_string(), tracks: vec![2] }));
    assert_eq!(logger.len(), 0);
}

#[test]
fn skipped_videos_are_logged() {
    let mut logger = ScanLogger::new();
    assert_eq!(plan_video("/m/a.mkv".to_string(), &[], &[], &mut logger), None);
    assert_eq!(plan_video("/m/b.mkv".to_string(), &[1], &[true], &mut logger), None);
    report_probe_failure("/m/c.mkv", "boom", &mut logger);
    assert_eq!(
        logger.finish(),
        vec![
            info("跳过 \"/m/a.mkv\"：视频中未检测到音轨。"),
            info("跳过 \"/m/b.mkv\"：所有音轨均已转写。"),
            ScanLog::new(ScanLogLevel::Error, "读取 \"/m/c.mkv\" 音轨失败：boom".to_string()),
        ]
    );
}

#[test]
fn jobs_unfold_into_work_items() {
    let jobs = vec![
        PendingJob::Audio("/m/a.mp3".to_string()),
        PendingJob::Video { path: "/m/b.mkv".to_string(), tracks: vec![1, 4] },
        PendingJob::Audio("/m/c.wav".to_string()),
    ];
    let sources = work_items(&jobs);
    assert_eq!(
        sources,
        vec![
            AudioSource::from_audio_file("/m/a.mp3".to_string()),
            AudioSource::from_video_track("/m/b.mkv".to_string(), 1),
            AudioSource::from_video_track("/m/b.mkv".to_string(), 4),
            AudioSource::from_audio_file("/m/c.wav".to_string()),
        ]
    );
    let mut logger = ScanLogger::new();
    assert!(announce(&sources, &mut logger));
    assert_eq!(logger.finish(), vec![info("待处理音轨总数：4。")]);
}

#[test]
fn an_empty_scan_is_announced() {
    let mut logger = ScanLogger::new();
    assert!(!announce(&Vec::new(), &mut logger));
    assert_eq!(logger.finish(), vec![info("没有检测到新的待转写文件。")]);
}

#[test]
fn the_logger_keeps_the_order_of_emission() {
    let mut logger = ScanLogger::new();
    logger.info("a".to_string());
    logger.success("b".to_string());
    logger.error("c".to_string());
    logger.emit(info("d"));
    assert_eq!(logger.len(), 4);
    assert_eq!(logger.get(1), &ScanLog::new(ScanLogLevel::Success, "b".to_string()));
    let logs = logger.finish();
    assert_eq!(logs[0], ScanLog { level: ScanLogLevel::Info, message: "a".to_string() });
    assert_eq!(logs[2].level, ScanLogLevel::Error);
    assert_eq!(logs[3].message, "d");
}

fn scanned(path: &str, is_file: bool, probe: Probe) -> ScannedEntry {
    ScannedEntry { path: path.to_string(), is_file, probe }
}

fn tree(done: bool) -> Vec<ScannedEntry> {
    vec![
        scanned("/m", false, Probe::Nothing),
        scanned("/m/a.mp3", true, Probe::Transcript(done)),
        scanned("/m/a.srt", true, Probe::Nothing),
        scanned(
            "/m/b.mkv",
            true,
            Probe::Tracks { indices: vec![1, 2], transcribed: vec![true, done] },
        ),
        scanned("/m/c.mp4", true, Probe::Tracks { indices: vec![], transcribed: vec![] }),
        scanned("/m/d.avi", true, Probe::Failed("exit status: 1".to_string())),
        scanned("/m/e.wav", true, Probe::Transcript(true)),
    ]
}

#[test]
fn a_walk_yields_the_jobs_in_order() {
    let mut logger = ScanLogger::new();
    let jobs = discover(&tree(false), &mut logger);
    assert_eq!(
        jobs,
        vec![
            PendingJob::Audio("/m/a.mp3".to_string()),
            PendingJob::Video { path: "/m/b.mkv".to_string(), tracks: vec![2] },
        ]
    );
    assert_eq!(
        logger.finish(),
        vec![
            info("跳过 \"/m/c.mp4\"：视频中未检测到音轨。"),
            ScanLog::new(
                ScanLogLevel::Error,
                "读取 \"/m/d.avi\" 音轨失败：exit status: 1".to_string()
            ),
        ]
    );
}

#[test]
fn a_walk_over_a_transcribed_tree_yields_nothing() {
    let mut logger = ScanLogger::new();
    let jobs = discover(&tree(true), &mut logger);
    assert!(jobs.is_empty());
    assert!(work_items(&jobs).is_empty());
    let logs = logger.finish();
    assert_eq!(logs[0], info("跳过 \"/m/b.mkv\"：所有音轨均已转写。"));
    assert_eq!(logs.len(), 3);
}

#[test]
fn entries_probed_as_something_else_are_passed_over() {
    let mut logger = ScanLogger::new();
    let wrong = [
        scanned("/m/a.mp3", true, Probe::Tracks { indices: vec![1], transcribed: vec![false] }),
        scanned("/m/b.mkv", true, Probe::Transcript(false)),
        scanned("/m/b.mkv", true, Probe::Tracks { indices: vec![1, 2], transcribed: vec![false] }),
        scanned("/m/notes.txt", true, Probe::Transcript(false)),
        scanned("/m/dir.mp3", false, Probe::Transcript(false)),
        scanned("/m/c.mp3", true, Probe::Nothing),
    ];
    for entry in &wrong {
        assert_eq!(plan_entry(entry, &mut logger), None);
    }
    assert_eq!(logger.len(), 0);
    assert_eq!(
        plan_entry(&scanned("/m/ok.mp3", true, Probe::Transcript(false)), &mut logger),
        Some(PendingJob::Audio("/m/ok.mp3".to_string()))
    );
}
