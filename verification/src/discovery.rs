//! Work discovery: which files of a directory tree still need a
//! transcript, and for which of their tracks.
//!
//! The walk over the tree, the prober and the look-ups in the file system
//! are the caller's; what is decided about each file is decided here.

use vstd::prelude::*;
use crate::log::{LogEntry, ScanLogLevel, ScanLogger};
use crate::messages::{
    empty_api_key_text, missing_directory, nothing_to_do_text, probe_failed, skip_all_done, skip_no_tracks,
    spec_empty_api_key, spec_missing_directory, spec_nothing_to_do, spec_probe_failed,
    spec_skip_all_done, spec_skip_no_tracks, spec_total_targets, total_targets,
};
use crate::paths::{
    is_media, is_video, spec_is_media, spec_is_video, spec_transcript_result_path,
    transcript_result_path,
};
use crate::source::{AudioSource, WorkItemKey};
use crate::text::{is_blank, spec_is_blank};

verus! {

/// Why a scan is refused before it begins.
#[derive(Clone, Copy, Debug, PartialEq, Eq, Structural)]
pub enum ScanError {
    /// The credential is empty or blank.
    EmptyApiKey,
    /// The directory to scan does not exist.
    MissingDirectory,
}

/// Whether a scan with this credential may begin: not with a blank
/// credential, and not on a directory that does not exist. The
/// credential is looked at first.
pub open spec fn spec_check_request(api_key: Seq<char>, directory_exists: bool) -> Result<
    (),
    ScanError,
> {
    if spec_is_blank(api_key) {
        Err(ScanError::EmptyApiKey)
    } else if !directory_exists {
        Err(ScanError::MissingDirectory)
    } else {
        Ok(())
    }
}

/// Decides whether a scan may begin.
pub fn check_request(api_key: &str, directory_exists: bool) -> (outcome: Result<(), ScanError>)
    ensures
        outcome == spec_check_request(api_key@, directory_exists),
{
    if is_blank(api_key) {
        Err(ScanError::EmptyApiKey)
    } else if !directory_exists {
        Err(ScanError::MissingDirectory)
    } else {
        Ok(())
    }
}

impl ScanError {
    /// What the error says about a scan of `directory`.
    pub open spec fn spec_message(self, directory: Seq<char>) -> Seq<char> {
        match self {
            ScanError::EmptyApiKey => spec_empty_api_key(),
            ScanError::MissingDirectory => spec_missing_directory(directory),
        }
    }

    /// What the error says about a scan of `directory`.
    pub fn message(&self, directory: &str) -> (text: String)
        ensures
            text@ == self.spec_message(directory@),
    {
        match self {
            ScanError::EmptyApiKey => empty_api_key_text(),
            ScanError::MissingDirectory => missing_directory(directory),
        }
    }
}

/// What an entry of the directory tree is to the scan.
#[derive(Clone, Copy, Debug, PartialEq, Eq, Structural)]
pub enum EntryKind {
    /// Not a file, or not a media file.
    Other,
    /// A plain audio file.
    Audio,
    /// A video container.
    Video,
}

/// What the entry at `path` is to the scan: a file counts when its
/// extension, in any case, is on the list of media extensions.
pub open spec fn spec_classify_entry(path: Seq<char>, is_file: bool) -> EntryKind {
    if !is_file || !spec_is_media(path) {
        EntryKind::Other
    } else if spec_is_video(path) {
        EntryKind::Video
    } else {
        EntryKind::Audio
    }
}

/// Classifies an entry of the directory tree.
pub fn classify_entry(path: &str, is_file: bool) -> (kind: EntryKind)
    ensures
        kind == spec_classify_entry(path@, is_file),
{
    if !is_file || !is_media(path) {
        EntryKind::Other
    } else if is_video(path) {
        EntryKind::Video
    } else {
        EntryKind::Audio
    }
}

/// A media file that still needs transcripts.
#[derive(Clone, Debug, PartialEq, Eq)]
pub enum PendingJob {
    /// A plain audio file without a transcript.
    Audio(String),
    /// A video and those of its audio streams that have no transcript.
    Video {
        /// The container.
        path: String,
        /// Indices of the streams to transcribe, in the prober's order.
        tracks: Vec<u32>,
    },
}

/// What a pending job says.
pub enum JobView {
    /// A plain audio file.
    Audio(Seq<char>),
    /// A video and the streams to transcribe.
    Video {
        /// The container.
        path: Seq<char>,
        /// Indices of the streams to transcribe.
        tracks: Seq<u32>,
    },
}

impl View for PendingJob {
    type V = JobView;

    open spec fn view(&self) -> JobView {
        match self {
            PendingJob::Audio(path) => JobView::Audio(path@),
            PendingJob::Video { path, tracks } => JobView::Video { path: path@, tracks: tracks@ },
        }
    }
}

/// What the jobs `jobs` say, in order.
pub open spec fn jobs_of(jobs: Seq<PendingJob>) -> Seq<JobView> {
    Seq::new(jobs.len(), |i: int| jobs[i]@)
}

/// The keys of the sources `sources`, in order.
pub open spec fn keys_of(sources: Seq<AudioSource>) -> Seq<WorkItemKey> {
    Seq::new(sources.len(), |i: int| sources[i]@)
}

/// Those of `indices` whose transcript is not there yet, in order:
/// `transcribed[i]` tells whether the transcript of `indices[i]` exists.
pub open spec fn spec_pending_tracks(indices: Seq<u32>, transcribed: Seq<bool>) -> Seq<u32>
    decreases indices.len(),
{
    if indices.len() == 0 || transcribed.len() == 0 {
        Seq::empty()
    } else if transcribed.last() {
        spec_pending_tracks(indices.drop_last(), transcribed.drop_last())
    } else {
        spec_pending_tracks(indices.drop_last(), transcribed.drop_last()).push(indices.last())
    }
}

/// Picks the tracks that still need a transcript.
pub fn pending_tracks(indices: &[u32], transcribed: &[bool]) -> (pending: Vec<u32>)
    requires
        indices@.len() == transcribed@.len(),
    ensures
        pending@ == spec_pending_tracks(indices@, transcribed@),
{
    let len: usize = indices.len();
    let mut pending: Vec<u32> = Vec::new();
    let mut i: usize = 0;
    while i < len
        invariant
            i <= len,
            len == indices@.len(),
            len == transcribed@.len(),
            pending@ == spec_pending_tracks(indices@.take(i as int), transcribed@.take(i as int)),
        decreases len - i,
    {
        proof {
            assert(indices@.take(i + 1).drop_last() =~= indices@.take(i as int));
            assert(transcribed@.take(i + 1).drop_last() =~= transcribed@.take(i as int));
        }
        if !transcribed[i] {
            pending.push(indices[i]);
        }
        i += 1;
    }
    proof {
        assert(indices@.take(len as int) =~= indices@);
        assert(transcribed@.take(len as int) =~= transcribed@);
    }
    pending
}

/// Once every track has its transcript, none is pending: a second scan
/// of an unchanged tree finds nothing to do for the video.
pub proof fn lemma_all_transcribed_none_pending(indices: Seq<u32>, transcribed: Seq<bool>)
    requires
        indices.len() == transcribed.len(),
        forall|i: int| 0 <= i < transcribed.len() ==> transcribed[i],
    ensures
        spec_pending_tracks(indices, transcribed) == Seq::<u32>::empty(),
    decreases indices.len(),
{
    if indices.len() > 0 {
        lemma_all_transcribed_none_pending(indices.drop_last(), transcribed.drop_last());
    }
}

/// The pending tracks are among the probed ones, and exactly those
/// without a transcript.
pub proof fn lemma_pending_tracks_are_untranscribed(indices: Seq<u32>, transcribed: Seq<bool>)
    requires
        indices.len() == transcribed.len(),
    ensures
        forall|track: u32|
            spec_pending_tracks(indices, transcribed).contains(track) <==> exists|i: int|
                0 <= i < indices.len() && indices[i] == track && !transcribed[i],
    decreases indices.len(),
{
    let pending = spec_pending_tracks(indices, transcribed);
    if indices.len() > 0 {
        let rest_i = indices.drop_last();
        let rest_t = transcribed.drop_last();
        let rest = spec_pending_tracks(rest_i, rest_t);
        let last = indices.len() - 1;
        lemma_pending_tracks_are_untranscribed(rest_i, rest_t);
        assert forall|track: u32| pending.contains(track) <==> exists|i: int|
            0 <= i < indices.len() && indices[i] == track && !transcribed[i] by {
            if pending.contains(track) {
                let k = choose|k: int| 0 <= k < pending.len() && pending[k] == track;
                if !transcribed.last() && k == pending.len() - 1 {
                    assert(indices[last] == track && !transcribed[last]);
                } else {
                    assert(rest[k] == track);
                    assert(rest.contains(track));
                    let i = choose|i: int| 0 <= i < rest_i.len() && rest_i[i] == track && !rest_t[i];
                    assert(indices[i] == track && !transcribed[i]);
                }
            }
            if exists|i: int| 0 <= i < indices.len() && indices[i] == track && !transcribed[i] {
                let i = choose|i: int| 0 <= i < indices.len() && indices[i] == track
                    && !transcribed[i];
                if i == last {
                    assert(pending[pending.len() - 1] == track);
                } else {
                    assert(rest_i[i] == track && !rest_t[i]);
                    assert(rest.contains(track));
                    let k = choose|k: int| 0 <= k < rest.len() && rest[k] == track;
                    assert(pending[k] == track);
                }
            }
        }
    }
}

/// The transcript paths of the tracks `tracks` of the video `path`.
pub open spec fn spec_transcript_paths(path: Seq<char>, tracks: Seq<u32>) -> Seq<Seq<char>> {
    Seq::new(tracks.len(), |i: int| spec_transcript_result_path(path, Some(tracks[i])))
}

/// The texts of `paths`, in order.
pub open spec fn path_texts(paths: Seq<String>) -> Seq<Seq<char>> {
    Seq::new(paths.len(), |i: int| paths[i]@)
}

/// Where the transcript of each of the tracks `indices` of the video
/// `path` is kept: the files whose existence decides what is pending.
pub fn transcript_paths(path: &str, indices: &[u32]) -> (paths: Vec<String>)
    ensures
        path_texts(paths@) == spec_transcript_paths(path@, indices@),
{
    let len: usize = indices.len();
    let mut paths: Vec<String> = Vec::new();
    let mut i: usize = 0;
    while i < len
        invariant
            i <= len,
            len == indices@.len(),
            paths@.len() == i,
            forall|k: int|
                0 <= k < i ==> (#[trigger] paths@[k])@ == spec_transcript_result_path(
                    path@,
                    Some(indices@[k]),
                ),
        decreases len - i,
    {
        paths.push(transcript_result_path(path, Some(indices[i])));
        i += 1;
    }
    proof {
        assert(path_texts(paths@) =~= spec_transcript_paths(path@, indices@));
    }
    paths
}

/// The job for the plain audio file `path`: one unless its transcript
/// exists.
pub open spec fn spec_plan_audio(path: Seq<char>, transcript_exists: bool) -> Option<JobView> {
    if transcript_exists {
        None
    } else {
        Some(JobView::Audio(path))
    }
}

/// The job of a job option.
pub open spec fn job_of(job: Option<PendingJob>) -> Option<JobView> {
    match job {
        Some(j) => Some(j@),
        None => None,
    }
}

/// Decides whether the plain audio file `path` needs a transcript.
pub fn plan_audio(path: String, transcript_exists: bool) -> (job: Option<PendingJob>)
    ensures
        job_of(job) == spec_plan_audio(path@, transcript_exists),
{
    if transcript_exists {
        None
    } else {
        Some(PendingJob::Audio(path))
    }
}

/// The job for the video `path` with the audio streams `indices`: none
/// when it has no audio or every stream has its transcript, else one
/// with the pending streams.
pub open spec fn spec_plan_video(
    path: Seq<char>,
    indices: Seq<u32>,
    transcribed: Seq<bool>,
) -> Option<JobView> {
    if spec_pending_tracks(indices, transcribed).len() == 0 {
        None
    } else {
        Some(JobView::Video { path, tracks: spec_pending_tracks(indices, transcribed) })
    }
}

/// What is logged when the video `path` is planned: why it is skipped,
/// if it is.
pub open spec fn spec_plan_video_log(
    path: Seq<char>,
    indices: Seq<u32>,
    transcribed: Seq<bool>,
) -> Seq<LogEntry> {
    if indices.len() == 0 {
        seq![LogEntry { level: ScanLogLevel::Info, message: spec_skip_no_tracks(path) }]
    } else if spec_pending_tracks(indices, transcribed).len() == 0 {
        seq![LogEntry { level: ScanLogLevel::Info, message: spec_skip_all_done(path) }]
    } else {
        Seq::empty()
    }
}

/// A second scan of an unchanged tree plans nothing: a file whose
/// transcript exists, and a video whose every track has its transcript,
/// yields no job.
pub proof fn lemma_second_scan_plans_nothing(
    path: Seq<char>,
    indices: Seq<u32>,
    transcribed: Seq<bool>,
)
    requires
        indices.len() == transcribed.len(),
        forall|i: int| 0 <= i < transcribed.len() ==> transcribed[i],
    ensures
        spec_plan_audio(path, true) is None,
        spec_plan_video(path, indices, transcribed) is None,
{
    lemma_all_transcribed_none_pending(indices, transcribed);
}

/// Decides which streams of the video `path` need a transcript and logs
/// why the video is skipped when none does.
pub fn plan_video(
    path: String,
    indices: &[u32],
    transcribed: &[bool],
    logger: &mut ScanLogger,
) -> (job: Option<PendingJob>)
    requires
        indices@.len() == transcribed@.len(),
    ensures
        job_of(job) == spec_plan_video(path@, indices@, transcribed@),
        final(logger)@ == old(logger)@ + spec_plan_video_log(path@, indices@, transcribed@),
{
    if indices.len() == 0 {
        logger.info(skip_no_tracks(path.as_str()));
        proof {
            assert(final(logger)@ =~= old(logger)@ + spec_plan_video_log(
                path@,
                indices@,
                transcribed@,
            ));
        }
        return None;
    }
    let tracks = pending_tracks(indices, transcribed);
    if tracks.len() == 0 {
        logger.info(skip_all_done(path.as_str()));
        proof {
            assert(final(logger)@ =~= old(logger)@ + spec_plan_video_log(
                path@,
                indices@,
                transcribed@,
            ));
        }
        return None;
    }
    proof {
        assert(final(logger)@ =~= old(logger)@ + spec_plan_video_log(
            path@,
            indices@,
            transcribed@,
        ));
    }
    Some(PendingJob::Video { path, tracks })
}

/// Logs that the audio streams of the video `path` could not be listed.
/// The video is passed over and the scan goes on.
pub fn report_probe_failure(path: &str, error: &str, logger: &mut ScanLogger)
    ensures
        final(logger)@ == old(logger)@.push(
            LogEntry { level: ScanLogLevel::Error, message: spec_probe_failed(path@, error@) },
        ),
{
    logger.error(probe_failed(path, error));
}

/// What was found out about an entry of the directory tree before it
/// is planned.
#[derive(Clone, Debug, PartialEq, Eq)]
pub enum Probe {
    /// Nothing: the entry is no media file.
    Nothing,
    /// For a plain audio file: whether its transcript exists.
    Transcript(bool),
    /// For a video: the indices of its audio streams and, for each of
    /// them, whether its transcript exists.
    Tracks {
        /// Indices of the audio streams, in the prober's order.
        indices: Vec<u32>,
        /// Whether the transcript of the stream at the same position
        /// exists.
        transcribed: Vec<bool>,
    },
    /// For a video: why its audio streams could not be listed.
    Failed(String),
}

/// An entry of the directory tree with what was found out about it.
#[derive(Clone, Debug, PartialEq, Eq)]
pub struct ScannedEntry {
    /// Path of the entry.
    pub path: String,
    /// Whether the entry is a file.
    pub is_file: bool,
    /// What was found out about it.
    pub probe: Probe,
}

/// What a probe says.
pub enum ProbeView {
    /// Nothing.
    Nothing,
    /// Whether the transcript of an audio file exists.
    Transcript(bool),
    /// The audio streams of a video and which are transcribed.
    Tracks {
        /// Indices of the audio streams.
        indices: Seq<u32>,
        /// Whether each stream's transcript exists.
        transcribed: Seq<bool>,
    },
    /// Why the audio streams could not be listed.
    Failed(Seq<char>),
}

/// What a scanned entry says.
pub struct EntryView {
    /// Path of the entry.
    pub path: Seq<char>,
    /// Whether the entry is a file.
    pub is_file: bool,
    /// What was found out about it.
    pub probe: ProbeView,
}

impl View for Probe {
    type V = ProbeView;

    open spec fn view(&self) -> ProbeView {
        match self {
            Probe::Nothing => ProbeView::Nothing,
            Probe::Transcript(exists) => ProbeView::Transcript(*exists),
            Probe::Tracks { indices, transcribed } => ProbeView::Tracks {
                indices: indices@,
                transcribed: transcribed@,
            },
            Probe::Failed(error) => ProbeView::Failed(error@),
        }
    }
}

impl View for ScannedEntry {
    type V = EntryView;

    open spec fn view(&self) -> EntryView {
        EntryView { path: self.path@, is_file: self.is_file, probe: self.probe@ }
    }
}

/// What the entries `entries` say, in order.
pub open spec fn entries_view(entries: Seq<ScannedEntry>) -> Seq<EntryView> {
    Seq::new(entries.len(), |i: int| entries[i]@)
}

/// The job that the entry `entry` yields, if any. An audio file yields
/// one unless its transcript exists, a video one for its pending
/// streams. An entry that is no media file, a video whose streams could
/// not be listed, and an entry that was probed as something it is not,
/// yield none.
pub open spec fn spec_plan_entry(entry: EntryView) -> Option<JobView> {
    match (spec_classify_entry(entry.path, entry.is_file), entry.probe) {
        (EntryKind::Audio, ProbeView::Transcript(exists)) => spec_plan_audio(entry.path, exists),
        (EntryKind::Video, ProbeView::Tracks { indices, transcribed }) => if indices.len()
            == transcribed.len() {
            spec_plan_video(entry.path, indices, transcribed)
        } else {
            None
        },
        _ => None,
    }
}

/// What is logged when the entry `entry` is planned: why a video is
/// skipped, or that its streams could not be listed.
pub open spec fn spec_plan_entry_log(entry: EntryView) -> Seq<LogEntry> {
    match (spec_classify_entry(entry.path, entry.is_file), entry.probe) {
        (EntryKind::Video, ProbeView::Tracks { indices, transcribed }) => if indices.len()
            == transcribed.len() {
            spec_plan_video_log(entry.path, indices, transcribed)
        } else {
            Seq::empty()
        },
        (EntryKind::Video, ProbeView::Failed(error)) => seq![
            LogEntry { level: ScanLogLevel::Error, message: spec_probe_failed(entry.path, error) },
        ],
        _ => Seq::empty(),
    }
}

/// Plans one entry of the directory tree and logs what there is to say
/// about it.
pub fn plan_entry(entry: &ScannedEntry, logger: &mut ScanLogger) -> (job: Option<PendingJob>)
    ensures
        job_of(job) == spec_plan_entry(entry@),
        final(logger)@ == old(logger)@ + spec_plan_entry_log(entry@),
{
    let kind = classify_entry(entry.path.as_str(), entry.is_file);
    proof {
        assert(old(logger)@ + Seq::<LogEntry>::empty() =~= old(logger)@);
    }
    match (kind, &entry.probe) {
        (EntryKind::Audio, Probe::Transcript(exists)) => plan_audio(entry.path.clone(), *exists),
        (EntryKind::Video, Probe::Tracks { indices, transcribed }) => {
            if indices.len() == transcribed.len() {
                plan_video(entry.path.clone(), indices.as_slice(), transcribed.as_slice(), logger)
            } else {
                None
            }
        },
        (EntryKind::Video, Probe::Failed(error)) => {
            report_probe_failure(entry.path.as_str(), error.as_str(), logger);
            proof {
                assert(final(logger)@ =~= old(logger)@ + spec_plan_entry_log(entry@));
            }
            None
        },
        _ => None,
    }
}

/// The jobs that the entries `entries` yield, in the order of the walk.
pub open spec fn spec_discover(entries: Seq<EntryView>) -> Seq<JobView>
    decreases entries.len(),
{
    if entries.len() == 0 {
        Seq::empty()
    } else {
        match spec_plan_entry(entries.last()) {
            Some(job) => spec_discover(entries.drop_last()).push(job),
            None => spec_discover(entries.drop_last()),
        }
    }
}

/// What is logged while the entries `entries` are planned.
pub open spec fn spec_discover_log(entries: Seq<EntryView>) -> Seq<LogEntry>
    decreases entries.len(),
{
    if entries.len() == 0 {
        Seq::empty()
    } else {
        spec_discover_log(entries.drop_last()) + spec_plan_entry_log(entries.last())
    }
}

/// Plans every entry of a walk over the directory tree: the jobs for the
/// media files that still need transcripts, in the order of the walk.
pub fn discover(entries: &[ScannedEntry], logger: &mut ScanLogger) -> (jobs: Vec<PendingJob>)
    ensures
        jobs_of(jobs@) == spec_discover(entries_view(entries@)),
        final(logger)@ == old(logger)@ + spec_discover_log(entries_view(entries@)),
{
    let len: usize = entries.len();
    let mut jobs: Vec<PendingJob> = Vec::new();
    let mut i: usize = 0;
    proof {
        assert(entries_view(entries@).take(0) =~= Seq::<EntryView>::empty());
        assert(jobs_of(jobs@) =~= Seq::<JobView>::empty());
        assert(logger@ =~= old(logger)@ + Seq::<LogEntry>::empty());
    }
    while i < len
        invariant
            i <= len,
            len == entries@.len(),
            jobs_of(jobs@) == spec_discover(entries_view(entries@).take(i as int)),
            logger@ == old(logger)@ + spec_discover_log(entries_view(entries@).take(i as int)),
        decreases len - i,
    {
        let ghost seen = entries_view(entries@).take(i as int);
        let ghost longer = entries_view(entries@).take(i + 1);
        let ghost planned = jobs_of(jobs@);
        proof {
            assert(longer.drop_last() =~= seen);
            assert(longer.last() == entries@[i as int]@);
        }
        match plan_entry(&entries[i], logger) {
            Some(job) => {
                jobs.push(job);
                proof {
                    assert(jobs_of(jobs@) =~= planned.push(job@));
                }
            },
            None => {},
        }
        proof {
            assert(logger@ =~= old(logger)@ + spec_discover_log(longer));
        }
        i += 1;
    }
    proof {
        assert(entries_view(entries@).take(len as int) =~= entries_view(entries@));
    }
    jobs
}

/// Whether the entry needs nothing more: its transcript exists, or all
/// of its streams have theirs.
pub open spec fn is_settled(entry: EntryView) -> bool {
    match entry.probe {
        ProbeView::Transcript(exists) => exists,
        ProbeView::Tracks { indices, transcribed } => forall|i: int|
            0 <= i < transcribed.len() ==> transcribed[i],
        _ => true,
    }
}

/// Discovery is idempotent: once the transcript of every audio file and
/// of every stream of every video exists, a walk over the same tree
/// yields no job, and so no work item.
pub proof fn lemma_settled_tree_yields_nothing(entries: Seq<EntryView>)
    requires
        forall|i: int| 0 <= i < entries.len() ==> is_settled(#[trigger] entries[i]),
    ensures
        spec_discover(entries) == Seq::<JobView>::empty(),
        spec_work_items(spec_discover(entries)) == Seq::<WorkItemKey>::empty(),
    decreases entries.len(),
{
    if entries.len() > 0 {
        let rest = entries.drop_last();
        assert forall|i: int| 0 <= i < rest.len() implies is_settled(#[trigger] rest[i]) by {
            assert(rest[i] == entries[i]);
        }
        lemma_settled_tree_yields_nothing(rest);
        let last = entries.last();
        assert(is_settled(entries[entries.len() - 1]));
        match last.probe {
            ProbeView::Tracks { indices, transcribed } => {
                if indices.len() == transcribed.len() {
                    lemma_all_transcribed_none_pending(indices, transcribed);
                }
            },
            _ => {},
        }
    }
}

/// The work items of one job, in order.
pub open spec fn spec_items_of(job: JobView) -> Seq<WorkItemKey> {
    match job {
        JobView::Audio(path) => seq![WorkItemKey { original_path: path, track_index: None }],
        JobView::Video { path, tracks } => Seq::new(
            tracks.len(),
            |i: int| WorkItemKey { original_path: path, track_index: Some(tracks[i]) },
        ),
    }
}

/// The work items of `jobs`: one for each audio file and one for each
/// pending track of each video, in the order of the jobs.
pub open spec fn spec_work_items(jobs: Seq<JobView>) -> Seq<WorkItemKey>
    decreases jobs.len(),
{
    if jobs.len() == 0 {
        Seq::empty()
    } else {
        spec_work_items(jobs.drop_last()) + spec_items_of(jobs.last())
    }
}

/// Lists the work items of `jobs` as audio sources, in the order in which
/// they are to be processed.
pub fn work_items(jobs: &Vec<PendingJob>) -> (sources: Vec<AudioSource>)
    ensures
        keys_of(sources@) == spec_work_items(jobs_of(jobs@)),
{
    let mut sources: Vec<AudioSource> = Vec::new();
    let len: usize = jobs.len();
    let mut i: usize = 0;
    proof {
        assert(jobs_of(jobs@).take(0) =~= Seq::<JobView>::empty());
        assert(keys_of(sources@) =~= Seq::<WorkItemKey>::empty());
    }
    while i < len
        invariant
            i <= len,
            len == jobs@.len(),
            keys_of(sources@) == spec_work_items(jobs_of(jobs@).take(i as int)),
        decreases len - i,
    {
        let ghost before = keys_of(sources@);
        proof {
            assert(jobs_of(jobs@).take(i + 1).drop_last() =~= jobs_of(jobs@).take(i as int));
            assert(jobs_of(jobs@).take(i + 1).last() == jobs@[i as int]@);
        }
        match &jobs[i] {
            PendingJob::Audio(path) => {
                sources.push(AudioSource::from_audio_file(path.clone()));
                proof {
                    assert(keys_of(sources@) =~= before + spec_items_of(jobs@[i as int]@));
                }
            },
            PendingJob::Video { path, tracks } => {
                let count: usize = tracks.len();
                let mut t: usize = 0;
                while t < count
                    invariant
                        t <= count,
                        count == tracks@.len(),
                        keys_of(sources@) == before + spec_items_of(
                            JobView::Video { path: path@, tracks: tracks@ },
                        ).take(t as int),
                    decreases count - t,
                {
                    let ghost placed = sources@;
                    let source = AudioSource::from_video_track(path.clone(), tracks[t]);
                    sources.push(source);
                    proof {
                        let all = spec_items_of(JobView::Video { path: path@, tracks: tracks@ });
                        assert(all[t as int] == source@);
                        assert(all.take(t + 1) =~= all.take(t as int).push(all[t as int]));
                        assert(keys_of(sources@) =~= keys_of(placed).push(source@));
                        assert(keys_of(sources@) =~= before + all.take(t + 1));
                    }
                    t += 1;
                }
                proof {
                    let all = spec_items_of(JobView::Video { path: path@, tracks: tracks@ });
                    assert(all.take(count as int) =~= all);
                }
            },
        }
        i += 1;
    }
    proof {
        assert(jobs_of(jobs@).take(len as int) =~= jobs_of(jobs@));
    }
    sources
}

/// What is logged once the tree was walked: that nothing is to be done,
/// or how many tracks are.
pub open spec fn spec_announcement(total: nat) -> LogEntry {
    if total == 0 {
        LogEntry { level: ScanLogLevel::Info, message: spec_nothing_to_do() }
    } else {
        LogEntry { level: ScanLogLevel::Info, message: spec_total_targets(total) }
    }
}

/// Logs how many work items the scan found and says whether there is
/// anything to do.
pub fn announce(sources: &Vec<AudioSource>, logger: &mut ScanLogger) -> (work: bool)
    ensures
        work == (sources@.len() > 0),
        final(logger)@ == old(logger)@.push(spec_announcement(sources@.len())),
{
    let total: usize = sources.len();
    if total == 0 {
        logger.info(nothing_to_do_text());
        false
    } else {
        logger.info(total_targets(total));
        true
    }
}

} // verus!
