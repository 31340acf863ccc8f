//! The speech detection pass: a fold over per-chunk speech probabilities.
//!
//! A run of speech opens at the first chunk at or above the threshold and
//! stays open while no more than `padding_chunks` consecutive chunks fall
//! below it. When a run closes it is reported if it spans at least
//! `min_speech_chunks` chunks and is dropped as noise otherwise.

use vstd::prelude::*;
use crate::segment::{spec_from_chunks, SegmentState, SpeechSegment, VadConfig};
use crate::timeline::MAX_CHUNKS;

verus! {

/// An open run of speech, in chunk numbers.
pub struct OpenRun {
    /// First chunk of the run.
    pub start_chunk: nat,
    /// Latest chunk of the run at or above the threshold.
    pub last_active_chunk: nat,
}

impl View for SegmentState {
    type V = OpenRun;

    open spec fn view(&self) -> OpenRun {
        OpenRun {
            start_chunk: self.start_chunk as nat,
            last_active_chunk: self.last_active_chunk as nat,
        }
    }
}

/// Everything the detection pass remembers between two chunks.
pub struct TrackerModel {
    /// Runs reported so far, oldest first.
    pub segments: Seq<SpeechSegment>,
    /// The run that is open, if any.
    pub current: Option<OpenRun>,
    /// Sub-threshold chunks seen since the open run was last active.
    pub trailing_silence: nat,
    /// Number of chunks seen so far.
    pub chunk_index: nat,
}

/// Number of chunks that `run` spans.
pub open spec fn run_length(run: OpenRun) -> nat {
    if run.last_active_chunk >= run.start_chunk {
        (run.last_active_chunk - run.start_chunk + 1) as nat
    } else {
        1
    }
}

/// Closes `run`: it is appended to `segments` when it is long enough and
/// dropped otherwise.
pub open spec fn spec_finalize(
    segments: Seq<SpeechSegment>,
    run: OpenRun,
    cfg: VadConfig,
) -> Seq<SpeechSegment> {
    if run_length(run) >= cfg.min_speech_chunks {
        segments.push(spec_from_chunks(run.start_chunk, run.last_active_chunk + 1))
    } else {
        segments
    }
}

impl TrackerModel {
    /// The state before any chunk was seen.
    pub open spec fn initial() -> TrackerModel {
        TrackerModel { segments: Seq::empty(), current: None, trailing_silence: 0, chunk_index: 0 }
    }

    /// What holds of every state the pass can reach: an open run starts no
    /// later than it was last active, and the silence counter is the
    /// number of chunks seen since then.
    pub open spec fn wf(&self) -> bool {
        match self.current {
            Some(run) => {
                &&& run.start_chunk <= run.last_active_chunk
                &&& run.last_active_chunk + self.trailing_silence + 1 == self.chunk_index
            },
            None => self.trailing_silence == 0,
        }
    }

    /// The state after one more chunk with the given speech probability.
    pub open spec fn observe(self, cfg: VadConfig, probability: u32) -> TrackerModel {
        if probability >= cfg.threshold {
            let run = match self.current {
                Some(run) => OpenRun {
                    start_chunk: run.start_chunk,
                    last_active_chunk: self.chunk_index,
                },
                None => OpenRun {
                    start_chunk: self.chunk_index,
                    last_active_chunk: self.chunk_index,
                },
            };
            TrackerModel {
                segments: self.segments,
                current: Some(run),
                trailing_silence: 0,
                chunk_index: self.chunk_index + 1,
            }
        } else {
            match self.current {
                Some(run) => {
                    if self.trailing_silence + 1 > cfg.padding_chunks {
                        TrackerModel {
                            segments: spec_finalize(self.segments, run, cfg),
                            current: None,
                            trailing_silence: 0,
                            chunk_index: self.chunk_index + 1,
                        }
                    } else {
                        TrackerModel {
                            segments: self.segments,
                            current: self.current,
                            trailing_silence: self.trailing_silence + 1,
                            chunk_index: self.chunk_index + 1,
                        }
                    }
                },
                None => TrackerModel {
                    segments: self.segments,
                    current: None,
                    trailing_silence: self.trailing_silence,
                    chunk_index: self.chunk_index + 1,
                },
            }
        }
    }

    /// The runs reported once the stream has ended: a run that is still
    /// open is closed by the same rule as any other.
    pub open spec fn completed(self, cfg: VadConfig) -> Seq<SpeechSegment> {
        match self.current {
            Some(run) => spec_finalize(self.segments, run, cfg),
            None => self.segments,
        }
    }
}

/// The state after all of `probabilities` were seen, one per chunk.
pub open spec fn track(probabilities: Seq<u32>, cfg: VadConfig) -> TrackerModel
    decreases probabilities.len(),
{
    if probabilities.len() == 0 {
        TrackerModel::initial()
    } else {
        track(probabilities.drop_last(), cfg).observe(cfg, probabilities.last())
    }
}

/// The speech segments of a stream with the given per-chunk probabilities.
pub open spec fn spec_detect(probabilities: Seq<u32>, cfg: VadConfig) -> Seq<SpeechSegment> {
    track(probabilities, cfg).completed(cfg)
}

/// Every prefix of a stream leaves the pass in a well-formed state that
/// has counted exactly the chunks of the prefix.
pub proof fn lemma_track_wf(probabilities: Seq<u32>, cfg: VadConfig)
    ensures
        track(probabilities, cfg).wf(),
        track(probabilities, cfg).chunk_index == probabilities.len(),
    decreases probabilities.len(),
{
    if probabilities.len() > 0 {
        lemma_track_wf(probabilities.drop_last(), cfg);
    }
}

/// Closes the run `state`: appends it to `segments` as a speech segment
/// when it spans at least `cfg.min_speech_chunks` chunks.
pub fn finalize_segment(state: &SegmentState, cfg: &VadConfig, segments: &mut Vec<SpeechSegment>)
    requires
        state.start_chunk <= MAX_CHUNKS,
        state.last_active_chunk < MAX_CHUNKS,
        state.last_active_chunk < usize::MAX,
    ensures
        final(segments)@ == spec_finalize(old(segments)@, state@, *cfg),
{
    let duration_chunks: usize = state.last_active_chunk.saturating_sub(state.start_chunk) + 1;
    if duration_chunks >= cfg.min_speech_chunks {
        segments.push(SpeechSegment::from_chunks(state.start_chunk, state.last_active_chunk + 1));
    }
}

/// The detection pass as a value: feed it one probability per chunk, in
/// order, and ask for the segments at the end of the stream.
pub struct SpeechTracker {
    cfg: VadConfig,
    segments: Vec<SpeechSegment>,
    current: Option<SegmentState>,
    trailing_silence: usize,
    chunk_index: usize,
}

impl View for SpeechTracker {
    type V = TrackerModel;

    closed spec fn view(&self) -> TrackerModel {
        TrackerModel {
            segments: self.segments@,
            current: match self.current {
                Some(state) => Some(state@),
                None => None,
            },
            trailing_silence: self.trailing_silence as nat,
            chunk_index: self.chunk_index as nat,
        }
    }
}

impl SpeechTracker {
    /// The settings the tracker was made with.
    pub closed spec fn config(&self) -> VadConfig {
        self.cfg
    }

    /// The tracker is in a reachable state and has seen no more chunks
    /// than the timeline can hold.
    pub open spec fn wf(&self) -> bool {
        &&& self@.wf()
        &&& self@.chunk_index <= MAX_CHUNKS
    }

    /// A tracker that has seen nothing yet.
    pub fn new(cfg: VadConfig) -> (tracker: Self)
        ensures
            tracker@ == TrackerModel::initial(),
            tracker.config() == cfg,
            tracker.wf(),
    {
        SpeechTracker {
            cfg,
            segments: Vec::new(),
            current: None,
            trailing_silence: 0,
            chunk_index: 0,
        }
    }

    /// Whether one more chunk still fits the timeline.
    pub open spec fn can_feed(&self) -> bool {
        &&& self@.chunk_index < MAX_CHUNKS
        &&& self@.chunk_index < usize::MAX
    }

    /// Whether one more chunk still fits the timeline.
    pub fn has_room(&self) -> (room: bool)
        ensures
            room == self.can_feed(),
    {
        (self.chunk_index as u64) < MAX_CHUNKS && self.chunk_index < usize::MAX
    }

    /// Number of chunks fed so far.
    pub fn chunks_seen(&self) -> (count: usize)
        ensures
            count == self@.chunk_index,
    {
        self.chunk_index
    }

    /// Takes the speech probability of the next chunk, in thousandths.
    pub fn feed(&mut self, probability: u32)
        requires
            old(self).wf(),
            old(self).can_feed(),
        ensures
            final(self)@ == old(self)@.observe(old(self).config(), probability),
            final(self).config() == old(self).config(),
            final(self).wf(),
    {
        if probability >= self.cfg.threshold {
            match self.current {
                Some(state) => {
                    self.current = Some(
                        SegmentState {
                            start_chunk: state.start_chunk,
                            last_active_chunk: self.chunk_index,
                        },
                    );
                },
                None => {
                    self.current = Some(SegmentState::new(self.chunk_index));
                },
            }
            self.trailing_silence = 0;
        } else {
            match self.current {
                Some(state) => {
                    self.trailing_silence = self.trailing_silence + 1;
                    if self.trailing_silence > self.cfg.padding_chunks {
                        finalize_segment(&state, &self.cfg, &mut self.segments);
                        self.current = None;
                        self.trailing_silence = 0;
                    }
                },
                None => {},
            }
        }
        self.chunk_index = self.chunk_index + 1;
    }

    /// Ends the stream and hands out the speech segments, oldest first.
    pub fn finish(self) -> (segments: Vec<SpeechSegment>)
        requires
            self.wf(),
        ensures
            segments@ == self@.completed(self.config()),
    {
        let mut segments = self.segments;
        match self.current {
            Some(state) => {
                finalize_segment(&state, &self.cfg, &mut segments);
            },
            None => {},
        }
        segments
    }
}

/// Runs the detection pass over a whole stream: `probabilities[i]` is the
/// speech probability of chunk `i` in thousandths. The result lists the
/// accepted runs in stream order and is empty when no run is long enough.
pub fn detect_speech_segments(probabilities: &[u32], cfg: &VadConfig) -> (segments: Vec<
    SpeechSegment,
>)
    requires
        probabilities@.len() <= MAX_CHUNKS,
    ensures
        segments@ == spec_detect(probabilities@, *cfg),
{
    let mut tracker = SpeechTracker::new(*cfg);
    let len: usize = probabilities.len();
    let mut i: usize = 0;
    while i < len
        invariant
            i <= len,
            len == probabilities@.len(),
            len <= MAX_CHUNKS,
            tracker.wf(),
            tracker.config() == *cfg,
            tracker@ == track(probabilities@.take(i as int), *cfg),
            tracker@.chunk_index == i,
        decreases len - i,
    {
        tracker.feed(probabilities[i]);
        proof {
            assert(probabilities@.take(i + 1).drop_last() =~= probabilities@.take(i as int));
        }
        i += 1;
    }
    proof {
        assert(probabilities@.take(len as int) =~= probabilities@);
    }
    tracker.finish()
}

/// A stream in which no chunk reaches the threshold holds no speech: the
/// detection pass reports nothing.
pub proof fn lemma_silence_yields_nothing(probabilities: Seq<u32>, cfg: VadConfig)
    requires
        forall|i: int| 0 <= i < probabilities.len() ==> probabilities[i] < cfg.threshold,
    ensures
        spec_detect(probabilities, cfg) == Seq::<SpeechSegment>::empty(),
{
    lemma_silent_track(probabilities, cfg);
}

proof fn lemma_silent_track(probabilities: Seq<u32>, cfg: VadConfig)
    requires
        forall|i: int| 0 <= i < probabilities.len() ==> probabilities[i] < cfg.threshold,
    ensures
        track(probabilities, cfg) == (TrackerModel {
            segments: Seq::empty(),
            current: None,
            trailing_silence: 0,
            chunk_index: probabilities.len(),
        }),
    decreases probabilities.len(),
{
    if probabilities.len() > 0 {
        lemma_silent_track(probabilities.drop_last(), cfg);
    }
}

/// The state of the pass after `seen` chunks of a stream whose only
/// chunks at or above the threshold are the `length` chunks from `start`
/// on.
pub open spec fn single_run_state(seen: nat, start: nat, length: nat, cfg: VadConfig) -> TrackerModel {
    let run = OpenRun { start_chunk: start, last_active_chunk: (start + length - 1) as nat };
    if seen <= start {
        TrackerModel { segments: Seq::empty(), current: None, trailing_silence: 0, chunk_index: seen }
    } else if seen <= start + length {
        TrackerModel {
            segments: Seq::empty(),
            current: Some(OpenRun { start_chunk: start, last_active_chunk: (seen - 1) as nat }),
            trailing_silence: 0,
            chunk_index: seen,
        }
    } else if seen - (start + length) <= cfg.padding_chunks {
        TrackerModel {
            segments: Seq::empty(),
            current: Some(run),
            trailing_silence: (seen - (start + length)) as nat,
            chunk_index: seen,
        }
    } else {
        TrackerModel {
            segments: spec_finalize(Seq::empty(), run, cfg),
            current: None,
            trailing_silence: 0,
            chunk_index: seen,
        }
    }
}

proof fn lemma_single_run_track(
    probabilities: Seq<u32>,
    cfg: VadConfig,
    start: nat,
    length: nat,
    seen: nat,
)
    requires
        length >= 1,
        start + length <= probabilities.len(),
        seen <= probabilities.len(),
        forall|i: int|
            0 <= i < probabilities.len() ==> (probabilities[i] >= cfg.threshold <==> start <= i
                < start + length),
    ensures
        track(probabilities.take(seen as int), cfg) == single_run_state(seen, start, length, cfg),
    decreases seen,
{
    if seen > 0 {
        lemma_single_run_track(probabilities, cfg, start, length, (seen - 1) as nat);
        assert(probabilities.take(seen as int).drop_last() =~= probabilities.take(seen - 1));
        assert(probabilities.take(seen as int).last() == probabilities[seen - 1]);
    }
}

/// A stream with a single run of chunks at or above the threshold yields
/// that run as its only segment when the run spans at least
/// `min_speech_chunks` chunks, and nothing otherwise.
pub proof fn lemma_single_run(probabilities: Seq<u32>, cfg: VadConfig, start: nat, length: nat)
    requires
        length >= 1,
        start + length <= probabilities.len(),
        forall|i: int|
            0 <= i < probabilities.len() ==> (probabilities[i] >= cfg.threshold <==> start <= i
                < start + length),
    ensures
        length >= cfg.min_speech_chunks ==> spec_detect(probabilities, cfg) == seq![
            spec_from_chunks(start, start + length),
        ],
        length < cfg.min_speech_chunks ==> spec_detect(probabilities, cfg) == Seq::<
            SpeechSegment,
        >::empty(),
{
    lemma_single_run_track(probabilities, cfg, start, length, probabilities.len());
    assert(probabilities.take(probabilities.len() as int) =~= probabilities);
    let run = OpenRun { start_chunk: start, last_active_chunk: (start + length - 1) as nat };
    assert(run_length(run) == length);
    assert(spec_detect(probabilities, cfg) == spec_finalize(Seq::empty(), run, cfg));
    if length >= cfg.min_speech_chunks {
        assert(spec_detect(probabilities, cfg) =~= seq![spec_from_chunks(start, start + length)]);
    }
}

/// A run of exactly `min_speech_chunks` chunks at or above the threshold,
/// in an otherwise silent stream that fits the timeline, yields exactly
/// one speech segment, and it lasts `min_speech_chunks` chunk durations.
pub proof fn lemma_minimal_run_yields_one_segment(
    probabilities: Seq<u32>,
    cfg: VadConfig,
    start: nat,
)
    requires
        cfg.min_speech_chunks >= 1,
        probabilities.len() <= MAX_CHUNKS,
        start + cfg.min_speech_chunks <= probabilities.len(),
        forall|i: int|
            0 <= i < probabilities.len() ==> (probabilities[i] >= cfg.threshold <==> start <= i
                < start + cfg.min_speech_chunks),
    ensures
        spec_detect(probabilities, cfg).len() == 1,
        spec_detect(probabilities, cfg)[0] == spec_from_chunks(
            start,
            (start + cfg.min_speech_chunks) as nat,
        ),
        spec_detect(probabilities, cfg)[0].kind == crate::segment::SegmentKind::Speech,
        spec_detect(probabilities, cfg)[0].duration() == cfg.min_speech_chunks * 32_000_000,
{
    lemma_single_run(probabilities, cfg, start, cfg.min_speech_chunks as nat);
}

proof fn lemma_track_agrees_from(a: Seq<u32>, b: Seq<u32>, cfg: VadConfig, from: nat, seen: nat)
    requires
        a.len() == b.len(),
        from <= seen <= a.len(),
        track(a.take(from as int), cfg) == track(b.take(from as int), cfg),
        forall|i: int| from <= i < a.len() ==> a[i] == b[i],
    ensures
        track(a.take(seen as int), cfg) == track(b.take(seen as int), cfg),
    decreases seen,
{
    if seen > from {
        lemma_track_agrees_from(a, b, cfg, from, (seen - 1) as nat);
        assert(a.take(seen as int).drop_last() =~= a.take(seen - 1));
        assert(b.take(seen as int).drop_last() =~= b.take(seen - 1));
    }
}

/// Hysteresis: with at least one chunk of padding, a single chunk below
/// the threshold between two chunks at or above it does not split the
/// run. The pass reports exactly what it would report had that chunk
/// reached the threshold.
pub proof fn lemma_single_dip_is_bridged(probabilities: Seq<u32>, cfg: VadConfig, dip: int)
    requires
        cfg.padding_chunks >= 1,
        0 < dip < probabilities.len() - 1,
        probabilities[dip - 1] >= cfg.threshold,
        probabilities[dip] < cfg.threshold,
        probabilities[dip + 1] >= cfg.threshold,
    ensures
        spec_detect(probabilities, cfg) == spec_detect(
            probabilities.update(dip, cfg.threshold),
            cfg,
        ),
{
    lemma_dip_head_is_bridged(probabilities, cfg, dip, dip + 1);
}

proof fn lemma_silent_stretch(probabilities: Seq<u32>, cfg: VadConfig, from: int, count: int)
    requires
        0 <= from,
        0 <= count,
        from + count <= probabilities.len(),
        forall|j: int| from <= j < from + count ==> probabilities[j] < cfg.threshold,
        track(probabilities.take(from), cfg).current is Some,
        track(probabilities.take(from), cfg).trailing_silence + count <= cfg.padding_chunks,
    ensures
        track(probabilities.take(from + count), cfg) == (TrackerModel {
            segments: track(probabilities.take(from), cfg).segments,
            current: track(probabilities.take(from), cfg).current,
            trailing_silence: (track(probabilities.take(from), cfg).trailing_silence
                + count) as nat,
            chunk_index: (track(probabilities.take(from), cfg).chunk_index + count) as nat,
        }),
    decreases count,
{
    if count > 0 {
        lemma_silent_stretch(probabilities, cfg, from, count - 1);
        assert(probabilities.take(from + count).drop_last() =~= probabilities.take(
            from + count - 1,
        ));
        assert(probabilities.take(from + count).last() == probabilities[from + count - 1]);
    }
}

proof fn lemma_dip_head_is_bridged(probabilities: Seq<u32>, cfg: VadConfig, from: int, to: int)
    requires
        0 < from < to < probabilities.len(),
        to - from <= cfg.padding_chunks,
        probabilities[from - 1] >= cfg.threshold,
        probabilities[to] >= cfg.threshold,
        forall|j: int| from <= j < to ==> probabilities[j] < cfg.threshold,
    ensures
        spec_detect(probabilities, cfg) == spec_detect(
            probabilities.update(from, cfg.threshold),
            cfg,
        ),
{
    let a = probabilities;
    let b = probabilities.update(from, cfg.threshold);
    assert(a.take(from - 1) =~= b.take(from - 1));
    assert(a.take(from).drop_last() =~= a.take(from - 1));
    assert(b.take(from).drop_last() =~= b.take(from - 1));
    lemma_track_wf(a.take(from - 1), cfg);
    let opened = track(a.take(from - 1), cfg).observe(cfg, a[from - 1]);
    assert(track(a.take(from), cfg) == opened);
    assert(track(b.take(from), cfg) == opened);
    assert(opened.current is Some && opened.trailing_silence == 0);
    lemma_silent_stretch(a, cfg, from, to - from);
    assert(a.take(to + 1).drop_last() =~= a.take(to));
    assert(a.take(to + 1).last() == a[to]);
    assert(b.take(from + 1).drop_last() =~= b.take(from));
    assert(b.take(from + 1).last() == b[from]);
    let stepped = opened.observe(cfg, cfg.threshold);
    assert(track(b.take(from + 1), cfg) == stepped);
    assert(stepped.current is Some && stepped.trailing_silence == 0);
    lemma_silent_stretch(b, cfg, from + 1, to - from - 1);
    assert(b.take(to + 1).drop_last() =~= b.take(to));
    assert(b.take(to + 1).last() == b[to]);
    assert(track(a.take(to + 1), cfg) == track(b.take(to + 1), cfg));
    lemma_track_agrees_from(a, b, cfg, (to + 1) as nat, a.len());
    assert(a.take(a.len() as int) =~= a);
    assert(b.take(b.len() as int) =~= b);
}

/// `probabilities` with the chunks `from .. to` raised to the
/// threshold.
pub open spec fn with_speech(probabilities: Seq<u32>, cfg: VadConfig, from: int, to: int) -> Seq<
    u32,
> {
    Seq::new(
        probabilities.len(),
        |j: int|
            if from <= j < to {
                cfg.threshold
            } else {
                probabilities[j]
            },
    )
}

/// Hysteresis in full: a stretch of no more than `padding_chunks`
/// chunks below the threshold, between two chunks that reach it, does
/// not split the run. The pass reports exactly what it would report had
/// the whole stretch reached the threshold.
pub proof fn lemma_short_dip_is_bridged(probabilities: Seq<u32>, cfg: VadConfig, from: int, to: int)
    requires
        0 < from < to < probabilities.len(),
        to - from <= cfg.padding_chunks,
        probabilities[from - 1] >= cfg.threshold,
        probabilities[to] >= cfg.threshold,
        forall|j: int| from <= j < to ==> probabilities[j] < cfg.threshold,
    ensures
        spec_detect(probabilities, cfg) == spec_detect(
            with_speech(probabilities, cfg, from, to),
            cfg,
        ),
    decreases to - from,
{
    let raised = probabilities.update(from, cfg.threshold);
    lemma_dip_head_is_bridged(probabilities, cfg, from, to);
    if to - from == 1 {
        assert(raised =~= with_speech(probabilities, cfg, from, to));
    } else {
        lemma_short_dip_is_bridged(raised, cfg, from + 1, to);
        assert(with_speech(raised, cfg, from + 1, to) =~= with_speech(probabilities, cfg, from, to));
    }
}

/// `segment` spans the chunks `start ..= last` of the stream, both of
/// which reach the threshold, and these are at least
/// `min_speech_chunks` chunks.
pub open spec fn spans_speech(
    probabilities: Seq<u32>,
    cfg: VadConfig,
    start: int,
    last: int,
    segment: SpeechSegment,
) -> bool {
    &&& 0 <= start <= last < probabilities.len()
    &&& probabilities[start] >= cfg.threshold
    &&& probabilities[last] >= cfg.threshold
    &&& last - start + 1 >= cfg.min_speech_chunks
    &&& segment == spec_from_chunks(start as nat, (last + 1) as nat)
}

/// `segment` begins and ends on chunks of the stream that reach the
/// threshold and is long enough to be kept.
pub open spec fn is_speech_span(
    probabilities: Seq<u32>,
    cfg: VadConfig,
    segment: SpeechSegment,
) -> bool {
    exists|start: int, last: int| spans_speech(probabilities, cfg, start, last, segment)
}

spec fn is_grounded(probabilities: Seq<u32>, cfg: VadConfig, state: TrackerModel) -> bool {
    &&& state.current matches Some(run) ==> {
        &&& run.start_chunk <= run.last_active_chunk < probabilities.len()
        &&& probabilities[run.start_chunk as int] >= cfg.threshold
        &&& probabilities[run.last_active_chunk as int] >= cfg.threshold
    }
    &&& forall|k: int|
        0 <= k < state.segments.len() ==> is_speech_span(
            probabilities,
            cfg,
            #[trigger] state.segments[k],
        )
}

proof fn lemma_finalize_grounded(probabilities: Seq<u32>, cfg: VadConfig, state: TrackerModel)
    requires
        is_grounded(probabilities, cfg, state),
        state.current is Some,
    ensures
        forall|k: int|
            0 <= k < spec_finalize(state.segments, state.current->0, cfg).len()
                ==> is_speech_span(
                probabilities,
                cfg,
                #[trigger] spec_finalize(state.segments, state.current->0, cfg)[k],
            ),
{
    let run = state.current->0;
    let out = spec_finalize(state.segments, run, cfg);
    assert forall|k: int| 0 <= k < out.len() implies is_speech_span(
        probabilities,
        cfg,
        #[trigger] out[k],
    ) by {
        if k < state.segments.len() {
            assert(out[k] == state.segments[k]);
        } else {
            assert(spans_speech(
                probabilities,
                cfg,
                run.start_chunk as int,
                run.last_active_chunk as int,
                out[k],
            ));
        }
    }
}

proof fn lemma_track_grounded(probabilities: Seq<u32>, cfg: VadConfig)
    ensures
        is_grounded(probabilities, cfg, track(probabilities, cfg)),
    decreases probabilities.len(),
{
    if probabilities.len() > 0 {
        let rest = probabilities.drop_last();
        lemma_track_grounded(rest, cfg);
        lemma_track_wf(rest, cfg);
        let before = track(rest, cfg);
        assert forall|k: int| 0 <= k < before.segments.len() implies is_speech_span(
            probabilities,
            cfg,
            #[trigger] before.segments[k],
        ) by {
            let segment = before.segments[k];
            assert(is_speech_span(rest, cfg, segment));
            let (start, last) = choose|start: int, last: int|
                spans_speech(rest, cfg, start, last, segment);
            assert(rest[start] == probabilities[start]);
            assert(rest[last] == probabilities[last]);
            assert(spans_speech(probabilities, cfg, start, last, segment));
        }
        if before.current is Some {
            let run = before.current->0;
            assert(rest[run.start_chunk as int] == probabilities[run.start_chunk as int]);
            assert(rest[run.last_active_chunk as int] == probabilities[run.last_active_chunk
                as int]);
            assert(is_grounded(probabilities, cfg, before));
            lemma_finalize_grounded(probabilities, cfg, before);
        }
    }
}

/// Every segment that the detection pass reports begins and ends on a
/// chunk that reaches the threshold and spans at least
/// `min_speech_chunks` chunks.
pub proof fn lemma_segments_begin_and_end_in_speech(probabilities: Seq<u32>, cfg: VadConfig)
    ensures
        forall|k: int|
            0 <= k < spec_detect(probabilities, cfg).len() ==> is_speech_span(
                probabilities,
                cfg,
                #[trigger] spec_detect(probabilities, cfg)[k],
            ),
{
    lemma_track_grounded(probabilities, cfg);
    let state = track(probabilities, cfg);
    if state.current is Some {
        lemma_finalize_grounded(probabilities, cfg, state);
    }
}

} // verus!
