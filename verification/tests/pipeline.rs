use autoasr::log::{ScanLog, ScanLogLevel, ScanLogger};
use autoasr::pipeline::{
    assemble, gap_count, needs_whole_file, report_fallback, report_segmentation_start,
    report_timeline, whole_file_document, AssemblyError, ScannerOptions, SegmentOutcome, Stage,
    TranscriptAssembler, WholeFileError,
};
use autoasr::segment::{SegmentKind, SpeechSegment, VadConfig};
use autoasr::source::AudioSource;

const SECOND: u64 = 1_000_000_000;

fn log(level: ScanLogLevel, message: &str) -> ScanLog {
    ScanLog::new(level, message.to_string())
}

fn timeline() -> Vec<SpeechSegment> {
    vec![
        SpeechSegment::new(0, SECOND, SegmentKind::Gap),
        SpeechSegment::new(SECOND, 3 * SECOND, SegmentKind::Speech),
        SpeechSegment::new(3 * SECOND, 4 * SECOND, SegmentKind::Gap),
        SpeechSegment::new(4 * SECOND, 6 * SECOND, SegmentKind::Speech),
    ]
}

fn options(vad: Option<VadConfig>) -> ScannerOptions {
    ScannerOptions {
        api_key: "key".to_string(),
        api_url: "https://example.invalid".to_string(),
        model_name: "model".to_string(),
        vad,
    }
}

#[test]
fn empty_results_do_not_take_a_number() {
    let outcomes = vec![
        SegmentOutcome::Transcript("  ".to_string()),
        SegmentOutcome::Transcript(" first \n".to_string()),
        SegmentOutcome::ServiceFailed("HTTP 500".to_string()),
        SegmentOutcome::Transcript("second".to_string()),
    ];
    let mut logger = ScanLogger::new();
    let document = assemble(&timeline(), &outcomes, &mut logger);
    assert_eq!(
        document,
        Ok("1\n00:00:01,000 --> 00:00:03,000\nfirst\n\n2\n00:00:04,000 --> 00:00:06,000\nsecond\n\n"
            .to_string())
    );
    assert_eq!(
        logger.finish(),
        vec![
            log(ScanLogLevel::Info, "分段 1 结果为空，已跳过。"),
            log(ScanLogLevel::Success, "分段 2 [语音] 完成（00:01.000 - 00:03.000）。"),
            log(ScanLogLevel::Error, "分段 3 调用 API 失败：HTTP 500"),
            log(ScanLogLevel::Success, "分段 4 [语音] 完成（00:04.000 - 00:06.000）。"),
        ]
    );
}

#[test]
fn gaps_are_transcribed_like_speech() {
    let outcomes = vec![
        SegmentOutcome::Transcript("murmur".to_string()),
        SegmentOutcome::ExportFailed("exit status: 1".to_string()),
        SegmentOutcome::Transcript("".to_string()),
        SegmentOutcome::Transcript("".to_string()),
    ];
    let mut logger = ScanLogger::new();
    let document = assemble(&timeline(), &outcomes, &mut logger);
    assert_eq!(document, Ok("1\n00:00:00,000 --> 00:00:01,000\nmurmur\n\n".to_string()));
    let logs = logger.finish();
    assert_eq!(logs[0], log(ScanLogLevel::Success, "分段 1 [补间] 完成（00:00.000 - 00:01.000）。"));
    assert_eq!(logs[1], log(ScanLogLevel::Error, "分段 2 裁剪失败：exit status: 1"));
}

#[test]
fn no_document_when_every_segment_fails() {
    let outcomes = vec![
        SegmentOutcome::Transcript(" ".to_string()),
        SegmentOutcome::ServiceFailed("a".to_string()),
        SegmentOutcome::ExportFailed("b".to_string()),
        SegmentOutcome::Transcript("\r\n".to_string()),
    ];
    let mut logger = ScanLogger::new();
    assert_eq!(assemble(&timeline(), &outcomes, &mut logger), Err(AssemblyError::AllSegmentsFailed));
    assert_eq!(logger.len(), 4);
    assert_eq!(assemble(&[], &[], &mut logger), Err(AssemblyError::AllSegmentsFailed));
    assert_eq!(AssemblyError::AllSegmentsFailed.message(), "所有分段均转写失败");
}

#[test]
fn the_assembler_works_step_by_step() {
    let segments = timeline();
    let mut logger = ScanLogger::new();
    let mut assembler = TranscriptAssembler::new();
    assert_eq!(assembler.entries(), 0);
    assembler.record(1, &segments[0], &SegmentOutcome::Transcript("".to_string()), &mut logger);
    assert_eq!(assembler.entries(), 0);
    assembler.record(2, &segments[1], &SegmentOutcome::Transcript("a".to_string()), &mut logger);
    assert_eq!(assembler.entries(), 1);
    assembler.record(3, &segments[2], &SegmentOutcome::Transcript("b".to_string()), &mut logger);
    assert_eq!(assembler.entries(), 2);
    assert_eq!(
        assembler.finish(),
        Ok("1\n00:00:01,000 --> 00:00:03,000\na\n\n2\n00:00:03,000 --> 00:00:04,000\nb\n\n"
            .to_string())
    );
}

#[test]
fn whole_files_get_a_single_entry() {
    assert_eq!(
        whole_file_document(" all of it \n", Some(90 * SECOND)),
        Ok("1\n00:00:00,000 --> 00:01:30,000\nall of it\n\n".to_string())
    );
    assert_eq!(
        whole_file_document("short", Some(100_000_000)),
        Ok("1\n00:00:00,000 --> 00:00:00,500\nshort\n\n".to_string())
    );
    assert_eq!(
        whole_file_document("short", None),
        Ok("1\n00:00:00,000 --> 00:00:05,000\nshort\n\n".to_string())
    );
    let long: String = std::iter::repeat('a').take(300).collect();
    let expected = format!("1\n00:00:00,000 --> 00:00:20,000\n{}\n\n", long);
    assert_eq!(whole_file_document(&long, None), Ok(expected));
}

#[test]
fn an_empty_whole_file_result_is_a_failure() {
    assert_eq!(whole_file_document("", Some(SECOND)), Err(WholeFileError::EmptyTranscript));
    assert_eq!(whole_file_document(" \n\t", None), Err(WholeFileError::EmptyTranscript));
}

#[test]
fn the_fallback_is_taken_when_segmentation_is_off_or_fails() {
    assert_eq!(options(None).first_stage(), Stage::WholeFile);
    assert_eq!(options(Some(VadConfig::default())).first_stage(), Stage::Segmented);
    assert!(needs_whole_file(Stage::WholeFile, false));
    assert!(needs_whole_file(Stage::WholeFile, true));
    assert!(needs_whole_file(Stage::Segmented, false));
    assert!(!needs_whole_file(Stage::Segmented, true));
}

#[test]
fn the_fallback_is_logged_as_information() {
    let source = AudioSource::from_video_track("/m/a.mkv".to_string(), 1);
    let mut logger = ScanLogger::new();
    report_segmentation_start(&source, &mut logger);
    report_fallback("未检测到有效语音", &source, &mut logger);
    assert_eq!(
        logger.finish(),
        vec![
            log(ScanLogLevel::Info, "\"/m/a.mkv\"（音轨 1） 启用 VAD，准备语音分段。"),
            log(
                ScanLogLevel::Info,
                "VAD 分段失败（未检测到有效语音），回退整段上传：\"/m/a.mkv\"（音轨 1）"
            ),
        ]
    );
}

#[test]
fn the_timeline_is_summed_up() {
    assert_eq!(gap_count(&timeline()), 2);
    assert_eq!(gap_count(&[]), 0);
    let mut logger = ScanLogger::new();
    report_timeline(2, &timeline(), &mut logger);
    let speech_only = vec![SpeechSegment::new(0, SECOND, SegmentKind::Speech)];
    report_timeline(1, &speech_only, &mut logger);
    assert_eq!(
        logger.finish(),
        vec![
            log(ScanLogLevel::Info, "检测到 2 段语音，额外包含 2 个静音覆盖区。"),
            log(ScanLogLevel::Info, "检测到 1 段语音，逐段上传。"),
        ]
    );
}
