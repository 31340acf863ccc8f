//! What is decided while one work item is processed: how the transcripts
//! of its segments are assembled into a document, what the whole-file
//! fallback writes, and when the fallback is taken.

use vstd::prelude::*;
use vstd::string::StringExecFns;
use crate::engine::SegmentationError;
use crate::log::{LogEntry, ScanLogLevel, ScanLogger};
use crate::messages::{
    all_segments_failed_text, fallback, no_speech_text, segment_done, segment_empty,
    segment_export_failed, segment_service_failed, segmentation_started, spec_all_segments_failed,
    spec_fallback, spec_no_speech, spec_segment_done, spec_segment_empty,
    spec_segment_export_failed, spec_segment_service_failed, spec_segmentation_started,
    spec_speech_only, spec_speech_with_gaps, speech_only, speech_with_gaps,
};
use crate::segment::{SegmentKind, SpeechSegment, VadConfig};
use crate::source::AudioSource;
use crate::srt::{build_srt_entry, spec_estimate_duration, spec_srt_entry, MIN_ENTRY_SPAN};
use crate::text::{spec_is_blank, spec_trim, trim};

verus! {

/// What a scan is run with.
#[derive(Clone, Debug, PartialEq, Eq)]
pub struct ScannerOptions {
    /// Credential for the transcription service.
    pub api_key: String,
    /// Address of the transcription service.
    pub api_url: String,
    /// Name of the model that transcribes.
    pub model_name: String,
    /// Settings of the speech detector; `None` turns segmentation off.
    pub vad: Option<VadConfig>,
}

/// How one work item is transcribed.
#[derive(Clone, Copy, Debug, PartialEq, Eq, Structural)]
pub enum Stage {
    /// Segment by segment, along the timeline of the engine.
    Segmented,
    /// In one piece.
    WholeFile,
}

impl ScannerOptions {
    /// The stage a work item starts in: segmented when the detector is
    /// configured, whole otherwise.
    pub fn first_stage(&self) -> (stage: Stage)
        ensures
            stage == (if self.vad is Some {
                Stage::Segmented
            } else {
                Stage::WholeFile
            }),
    {
        match self.vad {
            Some(_) => Stage::Segmented,
            None => Stage::WholeFile,
        }
    }
}

/// Whether the whole file has to be transcribed in one piece: always
/// when the item did not start segmented, and when segmentation failed.
pub fn needs_whole_file(first: Stage, segmented_succeeded: bool) -> (needed: bool)
    ensures
        needed == (first == Stage::WholeFile || !segmented_succeeded),
{
    match first {
        Stage::WholeFile => true,
        Stage::Segmented => !segmented_succeeded,
    }
}

/// Logs that segmentation of `source` begins.
pub fn report_segmentation_start(source: &AudioSource, logger: &mut ScanLogger)
    ensures
        final(logger)@ == old(logger)@.push(
            LogEntry {
                level: ScanLogLevel::Info,
                message: spec_segmentation_started(AudioSource::spec_display_name(source@)),
            },
        ),
{
    let name = source.display_name();
    logger.info(segmentation_started(name.as_str()));
}

/// Logs that segmentation of `source` failed for `reason` and that the
/// whole file is transcribed instead. The failure is no error to the
/// user: the message is informational.
pub fn report_fallback(reason: &str, source: &AudioSource, logger: &mut ScanLogger)
    ensures
        final(logger)@ == old(logger)@.push(
            LogEntry {
                level: ScanLogLevel::Info,
                message: spec_fallback(reason@, AudioSource::spec_display_name(source@)),
            },
        ),
{
    let name = source.display_name();
    logger.info(fallback(reason, name.as_str()));
}

impl SegmentationError {
    /// What the error says.
    pub fn message(&self) -> (text: String)
        ensures
            text@ == spec_no_speech(),
    {
        match self {
            SegmentationError::NoSpeech => no_speech_text(),
        }
    }
}

/// Number of gap segments in `timeline`.
pub open spec fn spec_gap_count(timeline: Seq<SpeechSegment>) -> nat
    decreases timeline.len(),
{
    if timeline.len() == 0 {
        0
    } else if timeline.last().kind == SegmentKind::Gap {
        spec_gap_count(timeline.drop_last()) + 1
    } else {
        spec_gap_count(timeline.drop_last())
    }
}

/// Counts the gap segments in `timeline`.
pub fn gap_count(timeline: &[SpeechSegment]) -> (gaps: usize)
    ensures
        gaps == spec_gap_count(timeline@),
{
    let len: usize = timeline.len();
    let mut gaps: usize = 0;
    let mut i: usize = 0;
    while i < len
        invariant
            i <= len,
            len == timeline@.len(),
            gaps <= i,
            gaps == spec_gap_count(timeline@.take(i as int)),
        decreases len - i,
    {
        proof {
            assert(timeline@.take(i + 1).drop_last() =~= timeline@.take(i as int));
        }
        if timeline[i].kind == SegmentKind::Gap {
            gaps += 1;
        }
        i += 1;
    }
    proof {
        assert(timeline@.take(len as int) =~= timeline@);
    }
    gaps
}

/// What is logged about a timeline with `speech` speech segments and
/// `gaps` gap segments.
pub open spec fn spec_timeline_summary(speech: nat, gaps: nat) -> LogEntry {
    if gaps > 0 {
        LogEntry { level: ScanLogLevel::Info, message: spec_speech_with_gaps(speech, gaps) }
    } else {
        LogEntry { level: ScanLogLevel::Info, message: spec_speech_only(speech) }
    }
}

/// Logs how many speech segments were found and how many gaps are
/// transcribed with them.
pub fn report_timeline(speech_count: usize, timeline: &[SpeechSegment], logger: &mut ScanLogger)
    ensures
        final(logger)@ == old(logger)@.push(
            spec_timeline_summary(speech_count as nat, spec_gap_count(timeline@)),
        ),
{
    let gaps = gap_count(timeline);
    if gaps > 0 {
        logger.info(speech_with_gaps(speech_count, gaps));
    } else {
        logger.info(speech_only(speech_count));
    }
}

/// How the transcription of one segment ended.
#[derive(Clone, Debug, PartialEq, Eq)]
pub enum SegmentOutcome {
    /// The service answered with this text.
    Transcript(String),
    /// The clip could not be cut out; the text says why.
    ExportFailed(String),
    /// The service failed; the text says why.
    ServiceFailed(String),
}

/// What the outcome of a segment says.
pub enum OutcomeView {
    /// The service answered with this text.
    Transcript(Seq<char>),
    /// The clip could not be cut out.
    ExportFailed(Seq<char>),
    /// The service failed.
    ServiceFailed(Seq<char>),
}

impl View for SegmentOutcome {
    type V = OutcomeView;

    open spec fn view(&self) -> OutcomeView {
        match self {
            SegmentOutcome::Transcript(text) => OutcomeView::Transcript(text@),
            SegmentOutcome::ExportFailed(error) => OutcomeView::ExportFailed(error@),
            SegmentOutcome::ServiceFailed(error) => OutcomeView::ServiceFailed(error@),
        }
    }
}

/// What the outcomes `outcomes` say, in order.
pub open spec fn outcomes_of(outcomes: Seq<SegmentOutcome>) -> Seq<OutcomeView> {
    Seq::new(outcomes.len(), |i: int| outcomes[i]@)
}

/// A document under assembly: the entries written so far and their
/// number.
pub struct Assembly {
    /// The entries, one after the other.
    pub document: Seq<char>,
    /// Number of entries in the document.
    pub entries: nat,
}

/// Why no document came of the segments.
#[derive(Clone, Copy, Debug, PartialEq, Eq, Structural)]
pub enum AssemblyError {
    /// Every segment failed or came back empty.
    AllSegmentsFailed,
}

impl AssemblyError {
    /// What the error says.
    pub fn message(&self) -> (text: String)
        ensures
            text@ == spec_all_segments_failed(),
    {
        match self {
            AssemblyError::AllSegmentsFailed => all_segments_failed_text(),
        }
    }
}

impl Assembly {
    /// The document before any segment was recorded.
    pub open spec fn initial() -> Assembly {
        Assembly { document: Seq::empty(), entries: 0 }
    }

    /// The document after the outcome of `segment` was recorded. A
    /// transcript that is not blank becomes the next entry, numbered one
    /// above the entries so far and stamped with the segment's span;
    /// anything else leaves the document as it is.
    pub open spec fn record(self, segment: SpeechSegment, outcome: OutcomeView) -> Assembly {
        match outcome {
            OutcomeView::Transcript(text) => if spec_is_blank(text) {
                self
            } else {
                Assembly {
                    document: self.document + spec_srt_entry(
                        self.entries + 1,
                        segment.start_ns as nat,
                        segment.end_ns as nat,
                        spec_trim(text),
                    ),
                    entries: self.entries + 1,
                }
            },
            OutcomeView::ExportFailed(_) => self,
            OutcomeView::ServiceFailed(_) => self,
        }
    }

    /// What is logged when the outcome of the segment at `position` is
    /// recorded.
    pub open spec fn record_log(position: nat, segment: SpeechSegment, outcome: OutcomeView) -> LogEntry {
        match outcome {
            OutcomeView::Transcript(text) => if spec_is_blank(text) {
                LogEntry { level: ScanLogLevel::Info, message: spec_segment_empty(position) }
            } else {
                LogEntry {
                    level: ScanLogLevel::Success,
                    message: spec_segment_done(
                        position,
                        segment.kind,
                        segment.start_ns as nat,
                        segment.end_ns as nat,
                    ),
                }
            },
            OutcomeView::ExportFailed(error) => LogEntry {
                level: ScanLogLevel::Error,
                message: spec_segment_export_failed(position, error),
            },
            OutcomeView::ServiceFailed(error) => LogEntry {
                level: ScanLogLevel::Error,
                message: spec_segment_service_failed(position, error),
            },
        }
    }

    /// What comes of the assembly: the document, unless it is empty.
    pub open spec fn outcome(self) -> Result<Seq<char>, AssemblyError> {
        if self.entries == 0 {
            Err(AssemblyError::AllSegmentsFailed)
        } else {
            Ok(self.document)
        }
    }
}

/// The document after the outcomes of all of `segments` were recorded,
/// in order.
pub open spec fn spec_assemble(segments: Seq<SpeechSegment>, outcomes: Seq<OutcomeView>) -> Assembly
    decreases segments.len(),
{
    if segments.len() == 0 || outcomes.len() == 0 {
        Assembly::initial()
    } else {
        spec_assemble(segments.drop_last(), outcomes.drop_last()).record(
            segments.last(),
            outcomes.last(),
        )
    }
}

/// What is logged while the outcomes of all of `segments` are recorded:
/// one message per segment, telling its position from one on.
pub open spec fn spec_assemble_log(segments: Seq<SpeechSegment>, outcomes: Seq<OutcomeView>) -> Seq<
    LogEntry,
>
    decreases segments.len(),
{
    if segments.len() == 0 || outcomes.len() == 0 {
        Seq::empty()
    } else {
        spec_assemble_log(segments.drop_last(), outcomes.drop_last()).push(
            Assembly::record_log(segments.len(), segments.last(), outcomes.last()),
        )
    }
}

/// No more entries are written than segments were recorded.
pub proof fn lemma_assemble_entries_bounded(segments: Seq<SpeechSegment>, outcomes: Seq<OutcomeView>)
    ensures
        spec_assemble(segments, outcomes).entries <= segments.len(),
    decreases segments.len(),
{
    if segments.len() > 0 && outcomes.len() > 0 {
        lemma_assemble_entries_bounded(segments.drop_last(), outcomes.drop_last());
    }
}

/// Builds the transcript document of one work item from the outcomes of
/// its segments.
pub struct TranscriptAssembler {
    document: String,
    entries: usize,
}

impl View for TranscriptAssembler {
    type V = Assembly;

    closed spec fn view(&self) -> Assembly {
        Assembly { document: self.document@, entries: self.entries as nat }
    }
}

impl TranscriptAssembler {
    /// An assembler that has recorded nothing yet.
    pub fn new() -> (assembler: Self)
        ensures
            assembler@ == Assembly::initial(),
    {
        TranscriptAssembler { document: String::new(), entries: 0 }
    }

    /// Number of entries written so far.
    pub fn entries(&self) -> (count: usize)
        ensures
            count == self@.entries,
    {
        self.entries
    }

    /// Records how the transcription of the segment at `position`,
    /// counted from one, ended, and logs it. Positions are recorded in
    /// order, so fewer entries than `position` exist.
    pub fn record(
        &mut self,
        position: usize,
        segment: &SpeechSegment,
        outcome: &SegmentOutcome,
        logger: &mut ScanLogger,
    )
        requires
            old(self)@.entries < position,
        ensures
            final(self)@ == old(self)@.record(*segment, outcome@),
            final(self)@.entries <= position,
            final(logger)@ == old(logger)@.push(
                Assembly::record_log(position as nat, *segment, outcome@),
            ),
    {
        match outcome {
            SegmentOutcome::Transcript(text) => {
                let trimmed = trim(text.as_str());
                if trimmed.as_str().is_empty() {
                    logger.info(segment_empty(position));
                } else {
                    logger.success(
                        segment_done(position, segment.kind, segment.start_ns, segment.end_ns),
                    );
                    let entry = build_srt_entry(
                        self.entries + 1,
                        segment.start_ns,
                        segment.end_ns,
                        trimmed.as_str(),
                    );
                    self.document.append(entry.as_str());
                    self.entries = self.entries + 1;
                }
            },
            SegmentOutcome::ExportFailed(error) => {
                logger.error(segment_export_failed(position, error.as_str()));
            },
            SegmentOutcome::ServiceFailed(error) => {
                logger.error(segment_service_failed(position, error.as_str()));
            },
        }
    }

    /// Ends the assembly: the document, or the failure of the whole item
    /// when no segment yielded an entry.
    pub fn finish(self) -> (outcome: Result<String, AssemblyError>)
        ensures
            doc_of(outcome) == self@.outcome(),
    {
        if self.entries == 0 {
            Err(AssemblyError::AllSegmentsFailed)
        } else {
            Ok(self.document)
        }
    }
}

/// The text of an assembled document, or the error.
pub open spec fn doc_of<E>(outcome: Result<String, E>) -> Result<Seq<char>, E> {
    match outcome {
        Ok(document) => Ok(document@),
        Err(error) => Err(error),
    }
}

/// Assembles the document of a work item whose segments ended as
/// `outcomes` tell, one outcome per segment, and logs each of them.
pub fn assemble(segments: &[SpeechSegment], outcomes: &[SegmentOutcome], logger: &mut ScanLogger) -> (document:
    Result<String, AssemblyError>)
    requires
        segments@.len() == outcomes@.len(),
    ensures
        doc_of(document) == spec_assemble(segments@, outcomes_of(outcomes@)).outcome(),
        final(logger)@ == old(logger)@ + spec_assemble_log(segments@, outcomes_of(outcomes@)),
{
    let len: usize = segments.len();
    let mut assembler = TranscriptAssembler::new();
    let mut i: usize = 0;
    proof {
        assert(logger@ =~= old(logger)@ + Seq::<LogEntry>::empty());
    }
    while i < len
        invariant
            i <= len,
            len == segments@.len(),
            len == outcomes@.len(),
            assembler@ == spec_assemble(
                segments@.take(i as int),
                outcomes_of(outcomes@).take(i as int),
            ),
            assembler@.entries <= i,
            logger@ == old(logger)@ + spec_assemble_log(
                segments@.take(i as int),
                outcomes_of(outcomes@).take(i as int),
            ),
        decreases len - i,
    {
        proof {
            assert(segments@.take(i + 1).drop_last() =~= segments@.take(i as int));
            assert(outcomes_of(outcomes@).take(i + 1).drop_last() =~= outcomes_of(outcomes@).take(
                i as int,
            ));
            assert(outcomes_of(outcomes@).take(i + 1).last() == outcomes@[i as int]@);
        }
        let ghost logged = logger@;
        assembler.record(i + 1, &segments[i], &outcomes[i], logger);
        proof {
            assert(logger@ =~= old(logger)@ + spec_assemble_log(
                segments@.take(i + 1),
                outcomes_of(outcomes@).take(i + 1),
            ));
        }
        i += 1;
    }
    proof {
        assert(segments@.take(len as int) =~= segments@);
        assert(outcomes_of(outcomes@).take(len as int) =~= outcomes_of(outcomes@));
    }
    assembler.finish()
}

/// Why no document came of a whole-file transcription.
#[derive(Clone, Copy, Debug, PartialEq, Eq, Structural)]
pub enum WholeFileError {
    /// The service returned nothing but white space.
    EmptyTranscript,
}

/// The span that the single entry of a whole-file transcript is given:
/// the measured duration, but no less than half a second, or an estimate
/// from the length of the transcript where none could be measured.
pub open spec fn spec_whole_file_duration(probed: Option<u64>, transcript: Seq<char>) -> nat {
    match probed {
        Some(duration) => if duration < 500_000_000 {
            500_000_000
        } else {
            duration as nat
        },
        None => spec_estimate_duration(transcript.len()),
    }
}

/// The document of a whole-file transcription: a single entry that
/// spans the whole duration, unless the transcript is blank.
pub open spec fn spec_whole_file_document(text: Seq<char>, probed: Option<u64>) -> Result<
    Seq<char>,
    WholeFileError,
> {
    if spec_is_blank(text) {
        Err(WholeFileError::EmptyTranscript)
    } else {
        Ok(
            spec_srt_entry(
                1,
                0,
                spec_whole_file_duration(probed, spec_trim(text)),
                spec_trim(text),
            ),
        )
    }
}

/// Builds the document of a whole-file transcription from the text the
/// service returned and the duration the prober measured, if it did.
pub fn whole_file_document(text: &str, probed: Option<u64>) -> (document: Result<
    String,
    WholeFileError,
>)
    ensures
        doc_of(document) == spec_whole_file_document(text@, probed),
{
    let trimmed = trim(text);
    if trimmed.as_str().is_empty() {
        return Err(WholeFileError::EmptyTranscript);
    }
    let duration: u64 = match probed {
        Some(measured) => if measured < MIN_ENTRY_SPAN {
            MIN_ENTRY_SPAN
        } else {
            measured
        },
        None => crate::srt::estimate_duration_from_text(trimmed.as_str()),
    };
    Ok(build_srt_entry(1, 0, duration, trimmed.as_str()))
}

} // verus!
