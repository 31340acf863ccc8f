//! Detector settings and the labelled time intervals the engine produces.

use vstd::prelude::*;
use crate::timeline::{chunk_to_time, spec_chunk_to_time, MAX_CHUNKS, MIN_SEGMENT_EPS};

verus! {

/// Fewest chunks a run of speech must span to be kept (about 320 ms).
pub const VAD_MIN_SPEECH_CHUNKS: usize = 10;

/// Sub-threshold chunks tolerated inside a run before it is closed.
pub const VAD_PADDING_CHUNKS: usize = 3;

/// Default speech threshold, in thousandths.
pub const VAD_DEFAULT_THRESHOLD: u32 = 600;

/// Default shortest kept run, in milliseconds.
pub const VAD_DEFAULT_MIN_SEGMENT_MILLIS: u32 = 2_000;

/// Lowest threshold a user may choose, in thousandths.
pub const VAD_MIN_THRESHOLD: u32 = 100;

/// Highest threshold a user may choose, in thousandths.
pub const VAD_MAX_THRESHOLD: u32 = 990;

/// Shortest minimum-run setting a user may choose, in milliseconds.
pub const VAD_MIN_SEGMENT_MILLIS: u32 = 500;

/// Longest minimum-run setting a user may choose, in milliseconds.
pub const VAD_MAX_SEGMENT_MILLIS: u32 = 10_000;

/// Settings of the speech detector.
///
/// Probabilities and the threshold are expressed in thousandths: a chunk
/// counts as speech when its probability is at least `threshold`.
#[derive(Clone, Copy, Debug, PartialEq, Eq, Structural)]
pub struct VadConfig {
    /// Speech threshold in thousandths.
    pub threshold: u32,
    /// Fewest chunks a run must span to be reported.
    pub min_speech_chunks: usize,
    /// Consecutive sub-threshold chunks bridged inside a run.
    pub padding_chunks: usize,
}

/// `value` limited to the range `low..=high`.
pub open spec fn spec_clamp(value: nat, low: nat, high: nat) -> nat {
    if value < low {
        low
    } else if value > high {
        high
    } else {
        value
    }
}

/// Chunks needed to cover `millis` milliseconds, never fewer than ten: the
/// duration times 16000 samples per second, divided by 512 samples per
/// chunk and rounded up.
pub open spec fn spec_millis_to_chunks(millis: nat) -> nat {
    let raw = (millis * 16 + 511) / 512;
    if raw < 10 {
        10
    } else {
        raw
    }
}

/// Chunks needed to cover `millis` milliseconds, never fewer than
/// [`VAD_MIN_SPEECH_CHUNKS`].
pub fn millis_to_chunks(millis: u32) -> (chunks: usize)
    ensures
        chunks == spec_millis_to_chunks(millis as nat),
        chunks >= 10,
{
    let raw: u64 = ((millis as u64) * 16 + 511) / 512;
    if raw < 10 {
        VAD_MIN_SPEECH_CHUNKS
    } else {
        raw as usize
    }
}

fn clamp_u32(value: u32, low: u32, high: u32) -> (out: u32)
    requires
        low <= high,
    ensures
        out == spec_clamp(value as nat, low as nat, high as nat),
{
    if value < low {
        low
    } else if value > high {
        high
    } else {
        value
    }
}

impl VadConfig {
    /// The settings every constructor yields: a threshold between 0.10 and
    /// 0.99 and a minimum run of at least ten chunks.
    pub open spec fn wf(&self) -> bool {
        &&& 100 <= self.threshold <= 990
        &&& self.min_speech_chunks >= 10
    }

    /// The settings derived from what a user chose.
    pub open spec fn spec_from_user_settings(
        threshold_permille: u32,
        min_segment_millis: u32,
    ) -> VadConfig {
        VadConfig {
            threshold: spec_clamp(threshold_permille as nat, 100, 990) as u32,
            min_speech_chunks: spec_millis_to_chunks(
                spec_clamp(min_segment_millis as nat, 500, 10_000),
            ) as usize,
            padding_chunks: 3,
        }
    }

    /// Builds the settings from a threshold in thousandths and a shortest
    /// run in milliseconds. The threshold is limited to 0.10 ..= 0.99 and
    /// the run to 0.5 s ..= 10 s before it is converted to chunks.
    pub fn from_user_settings(threshold_permille: u32, min_segment_millis: u32) -> (cfg: Self)
        ensures
            cfg == Self::spec_from_user_settings(threshold_permille, min_segment_millis),
            cfg.wf(),
    {
        let threshold = clamp_u32(threshold_permille, VAD_MIN_THRESHOLD, VAD_MAX_THRESHOLD);
        let min_millis = clamp_u32(
            min_segment_millis,
            VAD_MIN_SEGMENT_MILLIS,
            VAD_MAX_SEGMENT_MILLIS,
        );
        VadConfig {
            threshold,
            min_speech_chunks: millis_to_chunks(min_millis),
            padding_chunks: VAD_PADDING_CHUNKS,
        }
    }
}

impl Default for VadConfig {
    /// Threshold 0.6, runs of at least two seconds (63 chunks), three
    /// chunks of padding.
    fn default() -> (cfg: Self)
        ensures
            cfg == (VadConfig { threshold: 600, min_speech_chunks: 63, padding_chunks: 3 }),
            cfg.wf(),
    {
        VadConfig {
            threshold: VAD_DEFAULT_THRESHOLD,
            min_speech_chunks: millis_to_chunks(VAD_DEFAULT_MIN_SEGMENT_MILLIS),
            padding_chunks: VAD_PADDING_CHUNKS,
        }
    }
}

/// What an interval of the timeline holds.
#[derive(Clone, Copy, Debug, PartialEq, Eq, Structural)]
pub enum SegmentKind {
    /// A run the detector accepted as speech.
    Speech,
    /// The stretch between two runs, or before the first or after the last.
    Gap,
}

/// The run of speech that is currently open, in chunk numbers.
#[derive(Clone, Copy, Debug, PartialEq, Eq, Structural)]
pub struct SegmentState {
    /// First chunk of the run.
    pub start_chunk: usize,
    /// Latest chunk of the run that was at or above the threshold.
    pub last_active_chunk: usize,
}

impl SegmentState {
    /// A run that starts, and so far ends, at `start_chunk`.
    pub fn new(start_chunk: usize) -> (state: Self)
        ensures
            state == (SegmentState { start_chunk, last_active_chunk: start_chunk }),
    {
        SegmentState { start_chunk, last_active_chunk: start_chunk }
    }
}

/// A labelled interval of the timeline, in nanoseconds.
#[derive(Clone, Copy, Debug, PartialEq, Eq, Structural)]
pub struct SpeechSegment {
    /// Where the interval starts.
    pub start_ns: u64,
    /// Where the interval ends.
    pub end_ns: u64,
    /// Whether it is speech or a gap.
    pub kind: SegmentKind,
}

/// The speech segment that spans the chunks `start_chunk .. end_chunk`.
pub open spec fn spec_from_chunks(start_chunk: nat, end_chunk: nat) -> SpeechSegment {
    SpeechSegment {
        start_ns: spec_chunk_to_time(start_chunk) as u64,
        end_ns: spec_chunk_to_time(end_chunk) as u64,
        kind: SegmentKind::Speech,
    }
}

/// The segment `start .. end`, unless it is no longer than
/// [`MIN_SEGMENT_EPS`].
pub open spec fn spec_try_new(start: u64, end: u64, kind: SegmentKind) -> Option<SpeechSegment> {
    if end - start <= 1_000_000 {
        None
    } else {
        Some(SpeechSegment { start_ns: start, end_ns: end, kind })
    }
}

impl SpeechSegment {
    /// A segment is well formed when it is longer than
    /// [`MIN_SEGMENT_EPS`].
    pub open spec fn wf(&self) -> bool {
        self.end_ns > self.start_ns + 1_000_000
    }

    /// Length of the segment; negative when it ends before it starts.
    pub open spec fn duration(&self) -> int {
        self.end_ns - self.start_ns
    }

    /// The segment `start_ns .. end_ns` of the given kind, as it is.
    pub fn new(start_ns: u64, end_ns: u64, kind: SegmentKind) -> (segment: Self)
        ensures
            segment == (SpeechSegment { start_ns, end_ns, kind }),
    {
        SpeechSegment { start_ns, end_ns, kind }
    }

    /// The speech segment from the start of chunk `start_chunk` to the
    /// start of chunk `end_chunk`.
    pub fn from_chunks(start_chunk: usize, end_chunk: usize) -> (segment: Self)
        requires
            start_chunk <= MAX_CHUNKS,
            end_chunk <= MAX_CHUNKS,
        ensures
            segment == spec_from_chunks(start_chunk as nat, end_chunk as nat),
            start_chunk < end_chunk ==> segment.wf(),
    {
        SpeechSegment::new(
            chunk_to_time(start_chunk),
            chunk_to_time(end_chunk),
            SegmentKind::Speech,
        )
    }

    /// The segment `start_ns .. end_ns`, or nothing when it would be no
    /// longer than one millisecond.
    pub fn try_new(start_ns: u64, end_ns: u64, kind: SegmentKind) -> (segment: Option<Self>)
        ensures
            segment == spec_try_new(start_ns, end_ns, kind),
            segment matches Some(s) ==> s.wf(),
    {
        if end_ns <= start_ns || end_ns - start_ns <= MIN_SEGMENT_EPS {
            None
        } else {
            Some(SpeechSegment::new(start_ns, end_ns, kind))
        }
    }
}

} // verus!
