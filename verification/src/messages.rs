//! The wording of the progress log and of the errors a scan reports.

use vstd::prelude::*;
use vstd::string::StringExecFns;
use crate::segment::SegmentKind;
use crate::source::{debug_quoted, path_debug};
use crate::srt::{format_timestamp, spec_timestamp};
use crate::text::{decimal, join3, join5, spec_decimal};

verus! {

/// The scan was asked for without a credential.
pub open spec fn spec_empty_api_key() -> Seq<char> {
    "API Key 为空，请在设置中填写后再运行。"@
}

/// The directory to scan is not there.
pub open spec fn spec_missing_directory(dir: Seq<char>) -> Seq<char> {
    "目录不存在："@ + path_debug(dir)
}

/// A video holds no audio stream.
pub open spec fn spec_skip_no_tracks(path: Seq<char>) -> Seq<char> {
    "跳过 "@ + path_debug(path) + "：视频中未检测到音轨。"@
}

/// Every audio stream of a video has its transcript already.
pub open spec fn spec_skip_all_done(path: Seq<char>) -> Seq<char> {
    "跳过 "@ + path_debug(path) + "：所有音轨均已转写。"@
}

/// The audio streams of a video could not be listed.
pub open spec fn spec_probe_failed(path: Seq<char>, error: Seq<char>) -> Seq<char> {
    "读取 "@ + path_debug(path) + " 音轨失败："@ + error
}

/// The scan found nothing to do.
pub open spec fn spec_nothing_to_do() -> Seq<char> {
    "没有检测到新的待转写文件。"@
}

/// The number of tracks the scan is about to transcribe.
pub open spec fn spec_total_targets(total: nat) -> Seq<char> {
    "待处理音轨总数："@ + spec_decimal(total) + "。"@
}

/// Segmentation failed and the whole file is transcribed instead.
pub open spec fn spec_fallback(reason: Seq<char>, name: Seq<char>) -> Seq<char> {
    "VAD 分段失败（"@ + reason + "），回退整段上传："@ + name
}

/// The audio of a source could not be made ready.
pub open spec fn spec_prepare_failed(name: Seq<char>, error: Seq<char>) -> Seq<char> {
    "准备 "@ + name + " 音频失败："@ + error
}

/// The transcription of a whole file starts.
pub open spec fn spec_transcription_started(name: Seq<char>, audio_path: Seq<char>) -> Seq<char> {
    "开始转写 "@ + name + "，音频源 "@ + path_debug(audio_path)
}

/// The service returned an empty transcript.
pub open spec fn spec_empty_result(name: Seq<char>) -> Seq<char> {
    name + " 的识别结果为空，跳过写入。"@
}

/// The duration could not be measured and is estimated.
pub open spec fn spec_duration_unknown(audio_path: Seq<char>, error: Seq<char>) -> Seq<char> {
    "无法获取 "@ + path_debug(audio_path) + " 的时长（"@ + error + "），使用估算值。"@
}

/// A transcript was written.
pub open spec fn spec_finished(name: Seq<char>, transcript_path: Seq<char>) -> Seq<char> {
    "完成 "@ + name + "，结果输出 "@ + path_debug(transcript_path)
}

/// A transcript could not be written.
pub open spec fn spec_write_failed(name: Seq<char>, error: Seq<char>) -> Seq<char> {
    "写入 "@ + name + " 失败："@ + error
}

/// The service failed on a whole file.
pub open spec fn spec_service_failed(name: Seq<char>, error: Seq<char>) -> Seq<char> {
    "调用 API 转写 "@ + name + " 失败："@ + error
}

/// A temporary audio file could not be removed.
pub open spec fn spec_cleanup_failed(error: Seq<char>) -> Seq<char> {
    "清理临时音轨失败："@ + error
}

/// Segmentation of a source starts.
pub open spec fn spec_segmentation_started(name: Seq<char>) -> Seq<char> {
    name + " 启用 VAD，准备语音分段。"@
}

/// Speech was found, and gaps are transcribed with it.
pub open spec fn spec_speech_with_gaps(speech: nat, gaps: nat) -> Seq<char> {
    "检测到 "@ + spec_decimal(speech) + " 段语音，额外包含 "@ + spec_decimal(gaps)
        + " 个静音覆盖区。"@
}

/// Speech was found, and it covers the whole stream.
pub open spec fn spec_speech_only(speech: nat) -> Seq<char> {
    "检测到 "@ + spec_decimal(speech) + " 段语音，逐段上传。"@
}

/// The transcript of a segment was empty.
pub open spec fn spec_segment_empty(position: nat) -> Seq<char> {
    "分段 "@ + spec_decimal(position) + " 结果为空，已跳过。"@
}

/// How a kind of segment is called in messages.
pub open spec fn spec_kind_label(kind: SegmentKind) -> Seq<char> {
    match kind {
        SegmentKind::Speech => "语音"@,
        SegmentKind::Gap => "补间"@,
    }
}

/// A segment was transcribed.
pub open spec fn spec_segment_done(
    position: nat,
    kind: SegmentKind,
    start: nat,
    end: nat,
) -> Seq<char> {
    "分段 "@ + spec_decimal(position) + " ["@ + spec_kind_label(kind) + "] 完成（"@
        + spec_timestamp(start) + " - "@ + spec_timestamp(end) + "）。"@
}

/// The service failed on a segment.
pub open spec fn spec_segment_service_failed(position: nat, error: Seq<char>) -> Seq<char> {
    "分段 "@ + spec_decimal(position) + " 调用 API 失败："@ + error
}

/// The clip of a segment could not be cut out.
pub open spec fn spec_segment_export_failed(position: nat, error: Seq<char>) -> Seq<char> {
    "分段 "@ + spec_decimal(position) + " 裁剪失败："@ + error
}

/// The segmented transcript of a source was written.
pub open spec fn spec_segmented_finished(name: Seq<char>, transcript_path: Seq<char>) -> Seq<
    char,
> {
    name + " VAD 分段完成，结果输出 "@ + path_debug(transcript_path)
}

/// No run of speech was long enough.
pub open spec fn spec_no_speech() -> Seq<char> {
    "未检测到有效语音"@
}

/// No segment yielded any text.
pub open spec fn spec_all_segments_failed() -> Seq<char> {
    "所有分段均转写失败"@
}

/// The resampled audio is not in the detector's format.
pub open spec fn spec_unsuitable_wav() -> Seq<char> {
    "生成的 WAV 格式不符合 VAD 要求"@
}

/// Wording of [`spec_empty_api_key`].
pub fn empty_api_key_text() -> (text: String)
    ensures
        text@ == spec_empty_api_key(),
{
    String::from_str("API Key 为空，请在设置中填写后再运行。")
}

/// Wording of [`spec_nothing_to_do`].
pub fn nothing_to_do_text() -> (text: String)
    ensures
        text@ == spec_nothing_to_do(),
{
    String::from_str("没有检测到新的待转写文件。")
}

/// Wording of [`spec_no_speech`].
pub fn no_speech_text() -> (text: String)
    ensures
        text@ == spec_no_speech(),
{
    String::from_str("未检测到有效语音")
}

/// Wording of [`spec_all_segments_failed`].
pub fn all_segments_failed_text() -> (text: String)
    ensures
        text@ == spec_all_segments_failed(),
{
    String::from_str("所有分段均转写失败")
}

/// Wording of [`spec_unsuitable_wav`].
pub fn unsuitable_wav_text() -> (text: String)
    ensures
        text@ == spec_unsuitable_wav(),
{
    String::from_str("生成的 WAV 格式不符合 VAD 要求")
}

/// Wording of [`spec_missing_directory`].
pub fn missing_directory(dir: &str) -> (text: String)
    ensures
        text@ == spec_missing_directory(dir@),
{
    let mut text = String::from_str("目录不存在：");
    text.append(debug_quoted(dir).as_str());
    text
}

/// Wording of [`spec_skip_no_tracks`].
pub fn skip_no_tracks(path: &str) -> (text: String)
    ensures
        text@ == spec_skip_no_tracks(path@),
{
    join3("跳过 ", debug_quoted(path).as_str(), "：视频中未检测到音轨。")
}

/// Wording of [`spec_skip_all_done`].
pub fn skip_all_done(path: &str) -> (text: String)
    ensures
        text@ == spec_skip_all_done(path@),
{
    join3("跳过 ", debug_quoted(path).as_str(), "：所有音轨均已转写。")
}

/// Wording of [`spec_probe_failed`].
pub fn probe_failed(path: &str, error: &str) -> (text: String)
    ensures
        text@ == spec_probe_failed(path@, error@),
{
    let mut text = join3("读取 ", debug_quoted(path).as_str(), " 音轨失败：");
    text.append(error);
    text
}

/// Wording of [`spec_total_targets`].
pub fn total_targets(total: usize) -> (text: String)
    ensures
        text@ == spec_total_targets(total as nat),
{
    join3("待处理音轨总数：", decimal(total).as_str(), "。")
}

/// Wording of [`spec_fallback`].
pub fn fallback(reason: &str, name: &str) -> (text: String)
    ensures
        text@ == spec_fallback(reason@, name@),
{
    let mut text = join3("VAD 分段失败（", reason, "），回退整段上传：");
    text.append(name);
    text
}

/// Wording of [`spec_prepare_failed`].
pub fn prepare_failed(name: &str, error: &str) -> (text: String)
    ensures
        text@ == spec_prepare_failed(name@, error@),
{
    let mut text = join3("准备 ", name, " 音频失败：");
    text.append(error);
    text
}

/// Wording of [`spec_transcription_started`].
pub fn transcription_started(name: &str, audio_path: &str) -> (text: String)
    ensures
        text@ == spec_transcription_started(name@, audio_path@),
{
    let mut text = join3("开始转写 ", name, "，音频源 ");
    text.append(debug_quoted(audio_path).as_str());
    text
}

/// Wording of [`spec_empty_result`].
pub fn empty_result(name: &str) -> (text: String)
    ensures
        text@ == spec_empty_result(name@),
{
    let mut text = String::from_str(name);
    text.append(" 的识别结果为空，跳过写入。");
    text
}

/// Wording of [`spec_duration_unknown`].
pub fn duration_unknown(audio_path: &str, error: &str) -> (text: String)
    ensures
        text@ == spec_duration_unknown(audio_path@, error@),
{
    join5("无法获取 ", debug_quoted(audio_path).as_str(), " 的时长（", error, "），使用估算值。")
}

/// Wording of [`spec_finished`].
pub fn finished(name: &str, transcript_path: &str) -> (text: String)
    ensures
        text@ == spec_finished(name@, transcript_path@),
{
    let mut text = join3("完成 ", name, "，结果输出 ");
    text.append(debug_quoted(transcript_path).as_str());
    text
}

/// Wording of [`spec_write_failed`].
pub fn write_failed(name: &str, error: &str) -> (text: String)
    ensures
        text@ == spec_write_failed(name@, error@),
{
    let mut text = join3("写入 ", name, " 失败：");
    text.append(error);
    text
}

/// Wording of [`spec_service_failed`].
pub fn service_failed(name: &str, error: &str) -> (text: String)
    ensures
        text@ == spec_service_failed(name@, error@),
{
    let mut text = join3("调用 API 转写 ", name, " 失败：");
    text.append(error);
    text
}

/// Wording of [`spec_cleanup_failed`].
pub fn cleanup_failed(error: &str) -> (text: String)
    ensures
        text@ == spec_cleanup_failed(error@),
{
    let mut text = String::from_str("清理临时音轨失败：");
    text.append(error);
    text
}

/// Wording of [`spec_segmentation_started`].
pub fn segmentation_started(name: &str) -> (text: String)
    ensures
        text@ == spec_segmentation_started(name@),
{
    let mut text = String::from_str(name);
    text.append(" 启用 VAD，准备语音分段。");
    text
}

/// Wording of [`spec_speech_with_gaps`].
pub fn speech_with_gaps(speech: usize, gaps: usize) -> (text: String)
    ensures
        text@ == spec_speech_with_gaps(speech as nat, gaps as nat),
{
    join5(
        "检测到 ",
        decimal(speech).as_str(),
        " 段语音，额外包含 ",
        decimal(gaps).as_str(),
        " 个静音覆盖区。",
    )
}

/// Wording of [`spec_speech_only`].
pub fn speech_only(speech: usize) -> (text: String)
    ensures
        text@ == spec_speech_only(speech as nat),
{
    join3("检测到 ", decimal(speech).as_str(), " 段语音，逐段上传。")
}

/// Wording of [`spec_segment_empty`].
pub fn segment_empty(position: usize) -> (text: String)
    ensures
        text@ == spec_segment_empty(position as nat),
{
    join3("分段 ", decimal(position).as_str(), " 结果为空，已跳过。")
}

/// How a kind of segment is called in messages.
pub fn kind_label(kind: SegmentKind) -> (label: &'static str)
    ensures
        label@ == spec_kind_label(kind),
{
    match kind {
        SegmentKind::Speech => "语音",
        SegmentKind::Gap => "补间",
    }
}

/// Wording of [`spec_segment_done`].
pub fn segment_done(position: usize, kind: SegmentKind, start_ns: u64, end_ns: u64) -> (text:
    String)
    ensures
        text@ == spec_segment_done(position as nat, kind, start_ns as nat, end_ns as nat),
{
    let mut text = join5("分段 ", decimal(position).as_str(), " [", kind_label(kind), "] 完成（");
    text.append(format_timestamp(start_ns).as_str());
    text.append(" - ");
    text.append(format_timestamp(end_ns).as_str());
    text.append("）。");
    text
}

/// Wording of [`spec_segment_service_failed`].
pub fn segment_service_failed(position: usize, error: &str) -> (text: String)
    ensures
        text@ == spec_segment_service_failed(position as nat, error@),
{
    let mut text = join3("分段 ", decimal(position).as_str(), " 调用 API 失败：");
    text.append(error);
    text
}

/// Wording of [`spec_segment_export_failed`].
pub fn segment_export_failed(position: usize, error: &str) -> (text: String)
    ensures
        text@ == spec_segment_export_failed(position as nat, error@),
{
    let mut text = join3("分段 ", decimal(position).as_str(), " 裁剪失败：");
    text.append(error);
    text
}

/// Wording of [`spec_segmented_finished`].
pub fn segmented_finished(name: &str, transcript_path: &str) -> (text: String)
    ensures
        text@ == spec_segmented_finished(name@, transcript_path@),
{
    let mut text = String::from_str(name);
    text.append(" VAD 分段完成，结果输出 ");
    text.append(debug_quoted(transcript_path).as_str());
    text
}

} // verus!
