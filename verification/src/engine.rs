//! The segmentation engine: detection followed by gap filling.
//!
//! Given the per-chunk speech probabilities of a stream and its length,
//! the engine yields the ordered, seamless timeline of speech and gap
//! segments, or reports that the stream holds no usable speech.

use vstd::prelude::*;
use crate::detect::{
    detect_speech_segments, lemma_track_wf, spec_detect, spec_finalize, track, TrackerModel,
};
use crate::gaps::{
    cursor_after, expand_segments_with_gaps, gap_filled, is_chain, is_contiguous,
    is_sorted_by_start, lead_gap, lemma_expand_covers_timeline, lemma_expand_is_contiguous,
    lemma_sorted_is_fixed, spec_expand, total_span,
};
use crate::segment::{SegmentKind, SpeechSegment, VadConfig};
use crate::timeline::MAX_CHUNKS;

verus! {

/// Why a stream could not be segmented.
#[derive(Clone, Copy, Debug, PartialEq, Eq, Structural)]
pub enum SegmentationError {
    /// No run of speech was long enough to be kept.
    NoSpeech,
}

/// The timeline of a stream: its speech segments with the gaps filled.
pub open spec fn spec_timeline(
    probabilities: Seq<u32>,
    cfg: VadConfig,
    total_duration: u64,
) -> Seq<SpeechSegment> {
    spec_expand(spec_detect(probabilities, cfg), total_duration)
}

/// Segments a stream of length `total_duration` whose chunk `i` has the
/// speech probability `probabilities[i]`, in thousandths. Fails exactly
/// when the detection pass finds no speech segment.
pub fn segment_timeline(probabilities: &[u32], cfg: &VadConfig, total_duration: u64) -> (outcome:
    Result<Vec<SpeechSegment>, SegmentationError>)
    requires
        probabilities@.len() <= MAX_CHUNKS,
    ensures
        outcome is Err <==> spec_detect(probabilities@, *cfg).len() == 0,
        outcome matches Ok(timeline) ==> timeline@ == spec_timeline(
            probabilities@,
            *cfg,
            total_duration,
        ),
        outcome matches Err(error) ==> error == SegmentationError::NoSpeech,
{
    let speech = detect_speech_segments(probabilities, cfg);
    if speech.len() == 0 {
        return Err(SegmentationError::NoSpeech);
    }
    Ok(expand_segments_with_gaps(speech.as_slice(), total_duration))
}

/// The segments are speech, each at least one chunk long, and between
/// two of them, as before the first unless it starts at zero, lies at
/// least one chunk.
pub open spec fn is_spaced(segments: Seq<SpeechSegment>) -> bool
    decreases segments.len(),
{
    segments.len() == 0 || {
        let rest = segments.drop_last();
        let last = segments.last();
        &&& is_spaced(rest)
        &&& last.kind == SegmentKind::Speech
        &&& last.start_ns + 32_000_000 <= last.end_ns
        &&& if rest.len() == 0 {
            last.start_ns == 0 || last.start_ns >= 32_000_000
        } else {
            rest.last().end_ns + 32_000_000 <= last.start_ns
        }
    }
}

/// The chunk from which on a new run could still be reported.
pub open spec fn frontier(state: TrackerModel) -> nat {
    match state.current {
        Some(run) => run.start_chunk,
        None => state.chunk_index,
    }
}

/// What the detection pass keeps true of the segments it has reported.
pub open spec fn is_orderly(state: TrackerModel) -> bool {
    &&& state.wf()
    &&& state.chunk_index <= MAX_CHUNKS
    &&& is_spaced(state.segments)
    &&& state.segments.len() > 0 ==> state.segments.last().end_ns + 32_000_000 <= frontier(state)
        * 32_000_000
}

proof fn lemma_finalize_spaced(state: TrackerModel, cfg: VadConfig)
    requires
        is_orderly(state),
        state.current is Some,
    ensures
        is_spaced(spec_finalize(state.segments, state.current->0, cfg)),
        spec_finalize(state.segments, state.current->0, cfg).len() > 0 ==> spec_finalize(
            state.segments,
            state.current->0,
            cfg,
        ).last().end_ns <= (state.current->0.last_active_chunk + 1) * 32_000_000,
{
    let run = state.current->0;
    let out = spec_finalize(state.segments, run, cfg);
    if out != state.segments {
        let added = crate::segment::spec_from_chunks(run.start_chunk, run.last_active_chunk + 1);
        assert(out == state.segments.push(added));
        assert(out.drop_last() =~= state.segments);
        assert(added.start_ns == run.start_chunk * 32_000_000);
        assert(added.end_ns == (run.last_active_chunk + 1) * 32_000_000);
    }
}

proof fn lemma_track_orderly(probabilities: Seq<u32>, cfg: VadConfig)
    requires
        probabilities.len() <= MAX_CHUNKS,
    ensures
        is_orderly(track(probabilities, cfg)),
    decreases probabilities.len(),
{
    if probabilities.len() > 0 {
        let rest = probabilities.drop_last();
        lemma_track_orderly(rest, cfg);
        lemma_track_wf(rest, cfg);
        lemma_track_wf(probabilities, cfg);
        let before = track(rest, cfg);
        if before.current is Some {
            lemma_finalize_spaced(before, cfg);
        }
    }
}

/// The detection pass reports speech segments in stream order, none
/// shorter than a chunk, no two closer than a chunk, and none that
/// reaches past the last chunk.
pub proof fn lemma_detect_is_spaced(probabilities: Seq<u32>, cfg: VadConfig)
    requires
        probabilities.len() <= MAX_CHUNKS,
    ensures
        is_spaced(spec_detect(probabilities, cfg)),
        cursor_after(spec_detect(probabilities, cfg)) <= probabilities.len() * 32_000_000,
{
    lemma_track_orderly(probabilities, cfg);
    lemma_track_wf(probabilities, cfg);
    let state = track(probabilities, cfg);
    if state.current is Some {
        lemma_finalize_spaced(state, cfg);
    }
}

/// Spaced segments are in order of their start and can be joined without
/// a seam.
pub proof fn lemma_spaced_is_chain(segments: Seq<SpeechSegment>)
    requires
        is_spaced(segments),
    ensures
        is_chain(segments),
        is_sorted_by_start(segments),
        forall|i: int| 0 <= i < segments.len() ==> (#[trigger] segments[i]).end_ns <= cursor_after(segments),
    decreases segments.len(),
{
    if segments.len() > 0 {
        let rest = segments.drop_last();
        lemma_spaced_is_chain(rest);
        assert forall|i: int, j: int| 0 <= i < j < segments.len() implies segments[i].start_ns
            <= segments[j].start_ns by {
            if j < rest.len() {
                assert(rest[i] == segments[i]);
                assert(rest[j] == segments[j]);
            } else {
                assert(rest[i] == segments[i]);
                assert(rest[i].end_ns <= cursor_after(rest));
                lemma_spaced_starts_before_end(rest, i);
            }
        }
        assert forall|i: int| 0 <= i < segments.len() implies (#[trigger] segments[i]).end_ns
            <= cursor_after(segments) by {
            if i < rest.len() {
                assert(rest[i] == segments[i]);
            }
        }
    }
}

proof fn lemma_spaced_starts_before_end(segments: Seq<SpeechSegment>, i: int)
    requires
        is_spaced(segments),
        0 <= i < segments.len(),
    ensures
        segments[i].start_ns + 32_000_000 <= segments[i].end_ns,
    decreases segments.len(),
{
    if i < segments.len() - 1 {
        lemma_spaced_starts_before_end(segments.drop_last(), i);
    }
}

/// The engine's timeline is seamless: it starts at zero, each segment
/// begins exactly where the one before it ends, and it ends at the
/// stream's end whenever that lies more than a millisecond past the last
/// speech segment.
pub proof fn lemma_timeline_is_contiguous(
    probabilities: Seq<u32>,
    cfg: VadConfig,
    total_duration: u64,
)
    requires
        probabilities.len() <= MAX_CHUNKS,
        spec_detect(probabilities, cfg).len() > 0,
    ensures
        spec_timeline(probabilities, cfg, total_duration).len() > 0,
        spec_timeline(probabilities, cfg, total_duration)[0].start_ns == 0,
        is_contiguous(spec_timeline(probabilities, cfg, total_duration)),
        total_duration > cursor_after(spec_detect(probabilities, cfg)) + 1_000_000
            ==> spec_timeline(probabilities, cfg, total_duration).last().end_ns == total_duration,
{
    let speech = spec_detect(probabilities, cfg);
    lemma_detect_is_spaced(probabilities, cfg);
    lemma_spaced_is_chain(speech);
    lemma_sorted_is_fixed(speech);
    lemma_expand_is_contiguous(speech, total_duration);
}

/// The engine's timeline covers the stream: when the last speech segment
/// ends no later than a millisecond after the stream does, the durations
/// of the timeline add up to the stream's length, give or take a
/// millisecond.
pub proof fn lemma_timeline_covers_stream(
    probabilities: Seq<u32>,
    cfg: VadConfig,
    total_duration: u64,
)
    requires
        probabilities.len() <= MAX_CHUNKS,
        spec_detect(probabilities, cfg).len() > 0,
        cursor_after(spec_detect(probabilities, cfg)) <= total_duration + 1_000_000,
    ensures
        -1_000_000 <= total_duration - total_span(
            spec_timeline(probabilities, cfg, total_duration),
        ) <= 1_000_000,
{
    let speech = spec_detect(probabilities, cfg);
    lemma_detect_is_spaced(probabilities, cfg);
    lemma_spaced_is_chain(speech);
    lemma_sorted_is_fixed(speech);
    lemma_expand_covers_timeline(speech, total_duration);
}

/// No two neighbours in `segments` are of the same kind.
pub open spec fn is_alternating(segments: Seq<SpeechSegment>) -> bool {
    forall|i: int, j: int|
        0 <= i && j == i + 1 && j < segments.len() ==> (#[trigger] segments[i]).kind != (
        #[trigger] segments[j]).kind
}

/// Every segment is longer than a millisecond.
pub open spec fn all_well_formed(segments: Seq<SpeechSegment>) -> bool {
    forall|i: int| 0 <= i < segments.len() ==> (#[trigger] segments[i]).wf()
}

proof fn lemma_alternating_push(segments: Seq<SpeechSegment>, segment: SpeechSegment)
    requires
        is_alternating(segments),
        all_well_formed(segments),
        segment.wf(),
        segments.len() > 0 ==> segments.last().kind != segment.kind,
    ensures
        is_alternating(segments.push(segment)),
        all_well_formed(segments.push(segment)),
{
    let out = segments.push(segment);
    assert forall|i: int, j: int| 0 <= i && j == i + 1 && j < out.len() implies (#[trigger] out[i]).kind
        != (#[trigger] out[j]).kind by {
        if j < segments.len() {
            assert(out[i] == segments[i]);
            assert(out[j] == segments[j]);
        } else {
            assert(out[i] == segments.last());
        }
    }
    assert forall|i: int| 0 <= i < out.len() implies (#[trigger] out[i]).wf() by {
        if i < segments.len() {
            assert(out[i] == segments[i]);
        }
    }
}

proof fn lemma_gap_filled_alternates(sorted: Seq<SpeechSegment>)
    requires
        sorted.len() > 0,
        is_spaced(sorted),
    ensures
        gap_filled(sorted).len() > 0,
        gap_filled(sorted).last() == sorted.last(),
        is_alternating(gap_filled(sorted)),
        all_well_formed(gap_filled(sorted)),
    decreases sorted.len(),
{
    let rest = sorted.drop_last();
    let last = sorted.last();
    let cursor = cursor_after(rest);
    let placed = gap_filled(rest);
    if rest.len() > 0 {
        lemma_gap_filled_alternates(rest);
    } else {
        assert(placed =~= Seq::<SpeechSegment>::empty());
    }
    if last.start_ns > cursor + 1_000_000 {
        let gap = SpeechSegment { start_ns: cursor, end_ns: last.start_ns, kind: SegmentKind::Gap };
        assert(lead_gap(cursor, last.start_ns) =~= seq![gap]);
        assert(gap_filled(sorted) =~= placed.push(gap).push(last));
        lemma_alternating_push(placed, gap);
        lemma_alternating_push(placed.push(gap), last);
    } else {
        assert(rest.len() == 0);
        assert(lead_gap(cursor, last.start_ns) =~= Seq::<SpeechSegment>::empty());
        assert(gap_filled(sorted) =~= placed.push(last));
        lemma_alternating_push(placed, last);
    }
}

/// The engine's timeline alternates between speech and gaps, and none
/// of its segments is degenerate: each is longer than a millisecond.
pub proof fn lemma_timeline_alternates(probabilities: Seq<u32>, cfg: VadConfig, total_duration: u64)
    requires
        probabilities.len() <= MAX_CHUNKS,
        spec_detect(probabilities, cfg).len() > 0,
    ensures
        is_alternating(spec_timeline(probabilities, cfg, total_duration)),
        all_well_formed(spec_timeline(probabilities, cfg, total_duration)),
{
    let speech = spec_detect(probabilities, cfg);
    lemma_detect_is_spaced(probabilities, cfg);
    lemma_spaced_is_chain(speech);
    lemma_sorted_is_fixed(speech);
    lemma_gap_filled_alternates(speech);
    let placed = gap_filled(speech);
    let cursor = cursor_after(speech);
    if total_duration > cursor + 1_000_000 {
        let tail = SpeechSegment { start_ns: cursor, end_ns: total_duration, kind: SegmentKind::Gap };
        assert(lead_gap(cursor, total_duration) =~= seq![tail]);
        assert(spec_timeline(probabilities, cfg, total_duration) =~= placed.push(tail));
        lemma_spaced_last_is_speech(speech);
        lemma_alternating_push(placed, tail);
    } else {
        assert(lead_gap(cursor, total_duration) =~= Seq::<SpeechSegment>::empty());
        assert(spec_timeline(probabilities, cfg, total_duration) =~= placed);
    }
}

proof fn lemma_spaced_last_is_speech(segments: Seq<SpeechSegment>)
    requires
        segments.len() > 0,
        is_spaced(segments),
    ensures
        segments.last().kind == SegmentKind::Speech,
{
}

/// In a seamless sequence of segments that do not end before they
/// start, every segment ends before any later one starts: the segments
/// are in order and do not overlap.
pub proof fn lemma_contiguous_is_ordered(segments: Seq<SpeechSegment>, first: int, second: int)
    requires
        is_contiguous(segments),
        forall|i: int| 0 <= i < segments.len() ==> (#[trigger] segments[i]).start_ns <= segments[i].end_ns,
        0 <= first < second < segments.len(),
    ensures
        segments[first].end_ns <= segments[second].start_ns,
    decreases second - first,
{
    if second == first + 1 {
        assert(segments[first].end_ns == segments[second].start_ns);
    } else {
        lemma_contiguous_is_ordered(segments, first, second - 1);
        assert(segments[second - 1].end_ns == segments[second].start_ns);
        assert(segments[second - 1].start_ns <= segments[second - 1].end_ns);
    }
}

} // verus!
