//! The gap-filling pass: speech segments are put in order of their start
//! and the stretches between them are filled with gap segments, so that
//! the whole timeline is handed on for transcription.

use vstd::prelude::*;
use crate::segment::{spec_try_new, SegmentKind, SpeechSegment};

verus! {

/// `segment` put into `sorted` behind every element that starts no later
/// than it does.
pub open spec fn insert_by_start(sorted: Seq<SpeechSegment>, segment: SpeechSegment) -> Seq<
    SpeechSegment,
>
    decreases sorted.len(),
{
    if sorted.len() == 0 {
        seq![segment]
    } else if sorted.last().start_ns <= segment.start_ns {
        sorted.push(segment)
    } else {
        insert_by_start(sorted.drop_last(), segment).push(sorted.last())
    }
}

/// `segments` in order of their start; segments that start together keep
/// the order they came in.
pub open spec fn sorted_by_start(segments: Seq<SpeechSegment>) -> Seq<SpeechSegment>
    decreases segments.len(),
{
    if segments.len() == 0 {
        Seq::empty()
    } else {
        insert_by_start(sorted_by_start(segments.drop_last()), segments.last())
    }
}

/// No segment starts before one that stands in front of it.
pub open spec fn is_sorted_by_start(segments: Seq<SpeechSegment>) -> bool {
    forall|i: int, j: int|
        0 <= i < j < segments.len() ==> segments[i].start_ns <= segments[j].start_ns
}

/// Inserting into an ordered sequence gives an ordered sequence with one
/// more element: the old ones and the new one.
pub proof fn lemma_insert_by_start(sorted: Seq<SpeechSegment>, segment: SpeechSegment)
    requires
        is_sorted_by_start(sorted),
    ensures
        is_sorted_by_start(insert_by_start(sorted, segment)),
        insert_by_start(sorted, segment).len() == sorted.len() + 1,
        insert_by_start(sorted, segment).to_multiset() == sorted.to_multiset().insert(segment),
        forall|i: int|
            0 <= i < sorted.len() + 1 ==> #[trigger] insert_by_start(sorted, segment)[i] == segment
                || sorted.contains(insert_by_start(sorted, segment)[i]),
    decreases sorted.len(),
{
    broadcast use vstd::seq_lib::group_to_multiset_ensures;

    if sorted.len() == 0 {
        assert(seq![segment] =~= Seq::<SpeechSegment>::empty().push(segment));
    } else if sorted.last().start_ns <= segment.start_ns {
        let out = sorted.push(segment);
        assert forall|i: int| 0 <= i < sorted.len() + 1 implies #[trigger] out[i] == segment
            || sorted.contains(out[i]) by {
            if i < sorted.len() {
                assert(sorted[i] == out[i]);
            }
        }
    } else {
        let rest = sorted.drop_last();
        lemma_insert_by_start(rest, segment);
        let inner = insert_by_start(rest, segment);
        let out = inner.push(sorted.last());
        assert(rest.push(sorted.last()) =~= sorted);
        assert(out.to_multiset() =~= sorted.to_multiset().insert(segment));
        assert forall|i: int, j: int| 0 <= i < j < out.len() implies out[i].start_ns
            <= out[j].start_ns by {
            if j == out.len() - 1 {
                if inner[i] != segment {
                    assert(rest.contains(inner[i]));
                    let k = choose|k: int| 0 <= k < rest.len() && rest[k] == inner[i];
                    assert(sorted[k] == inner[i]);
                }
            }
        }
        assert forall|i: int| 0 <= i < sorted.len() + 1 implies #[trigger] out[i] == segment
            || sorted.contains(out[i]) by {
            if i < inner.len() {
                if inner[i] != segment {
                    assert(rest.contains(inner[i]));
                    let k = choose|k: int| 0 <= k < rest.len() && rest[k] == inner[i];
                    assert(sorted[k] == inner[i]);
                }
            } else {
                assert(sorted[sorted.len() - 1] == out[i]);
            }
        }
    }
}

/// Sorting keeps every segment, as often as it occurs, and puts them in
/// order of their start.
pub proof fn lemma_sorted_by_start(segments: Seq<SpeechSegment>)
    ensures
        is_sorted_by_start(sorted_by_start(segments)),
        sorted_by_start(segments).len() == segments.len(),
        sorted_by_start(segments).to_multiset() == segments.to_multiset(),
    decreases segments.len(),
{
    broadcast use vstd::seq_lib::group_to_multiset_ensures;

    if segments.len() == 0 {
        assert(segments =~= Seq::<SpeechSegment>::empty());
    } else {
        lemma_sorted_by_start(segments.drop_last());
        lemma_insert_by_start(sorted_by_start(segments.drop_last()), segments.last());
        assert(segments.drop_last().push(segments.last()) =~= segments);
    }
}

/// A sequence that is in order already is left as it is.
pub proof fn lemma_sorted_is_fixed(segments: Seq<SpeechSegment>)
    requires
        is_sorted_by_start(segments),
    ensures
        sorted_by_start(segments) == segments,
    decreases segments.len(),
{
    if segments.len() == 0 {
        assert(segments =~= Seq::<SpeechSegment>::empty());
    } else {
        let rest = segments.drop_last();
        lemma_sorted_is_fixed(rest);
        assert(rest.push(segments.last()) =~= segments);
        if rest.len() > 0 {
            assert(rest.last() == segments[segments.len() - 2]);
        }
    }
}

fn insert_sorted(sorted: &mut Vec<SpeechSegment>, segment: SpeechSegment)
    ensures
        final(sorted)@ == insert_by_start(old(sorted)@, segment),
{
    let ghost before = sorted@;
    let mut pos: usize = sorted.len();
    proof {
        assert(before.take(pos as int) =~= before);
        assert(insert_by_start(before, segment) + before.skip(pos as int) =~= insert_by_start(
            before,
            segment,
        ));
    }
    while pos > 0 && sorted[pos - 1].start_ns > segment.start_ns
        invariant
            pos <= sorted.len(),
            sorted@ == before,
            insert_by_start(before, segment) == insert_by_start(
                before.take(pos as int),
                segment,
            ) + before.skip(pos as int),
        decreases pos,
    {
        proof {
            let head = before.take(pos as int);
            assert(head.drop_last() =~= before.take(pos - 1));
            assert(head.last() == before[pos - 1]);
            assert(insert_by_start(head.drop_last(), segment).push(head.last()) + before.skip(
                pos as int,
            ) =~= insert_by_start(before.take(pos - 1), segment) + before.skip(pos - 1));
        }
        pos -= 1;
    }
    proof {
        let head = before.take(pos as int);
        if pos > 0 {
            assert(head.last() == before[pos - 1]);
        }
        assert(insert_by_start(head, segment) =~= head.push(segment));
        assert(head.push(segment) + before.skip(pos as int) =~= before.insert(pos as int, segment));
    }
    sorted.insert(pos, segment);
}

/// The segments in order of their start, by a stable sort.
pub fn sort_by_start(segments: &[SpeechSegment]) -> (sorted: Vec<SpeechSegment>)
    ensures
        sorted@ == sorted_by_start(segments@),
        is_sorted_by_start(sorted@),
        sorted@.to_multiset() == segments@.to_multiset(),
{
    let mut sorted: Vec<SpeechSegment> = Vec::new();
    let len: usize = segments.len();
    let mut i: usize = 0;
    while i < len
        invariant
            i <= len,
            len == segments@.len(),
            sorted@ == sorted_by_start(segments@.take(i as int)),
        decreases len - i,
    {
        insert_sorted(&mut sorted, segments[i]);
        proof {
            assert(segments@.take(i + 1).drop_last() =~= segments@.take(i as int));
        }
        i += 1;
    }
    proof {
        assert(segments@.take(len as int) =~= segments@);
        lemma_sorted_by_start(segments@);
    }
    sorted
}

/// Where the next interval has to begin: at the end of the last one
/// placed, or at zero when none was placed yet.
pub open spec fn cursor_after(placed: Seq<SpeechSegment>) -> u64 {
    if placed.len() == 0 {
        0
    } else {
        placed.last().end_ns
    }
}

/// The gap from `cursor` to `until`, if it is longer than a millisecond.
pub open spec fn lead_gap(cursor: u64, until: u64) -> Seq<SpeechSegment> {
    match spec_try_new(cursor, until, SegmentKind::Gap) {
        Some(gap) => seq![gap],
        None => Seq::empty(),
    }
}

/// The ordered segments `sorted`, each preceded by the gap that leads up
/// to it.
pub open spec fn gap_filled(sorted: Seq<SpeechSegment>) -> Seq<SpeechSegment>
    decreases sorted.len(),
{
    if sorted.len() == 0 {
        Seq::empty()
    } else {
        gap_filled(sorted.drop_last()) + lead_gap(
            cursor_after(sorted.drop_last()),
            sorted.last().start_ns,
        ) + seq![sorted.last()]
    }
}

/// The timeline of a stream of length `total_duration` whose speech is
/// `speech_segments`: the segments in order of their start, a gap in
/// front of each one that starts more than a millisecond after its
/// predecessor ended (or after zero), and a closing gap up to
/// `total_duration`. Without speech there is no timeline.
pub open spec fn spec_expand(speech_segments: Seq<SpeechSegment>, total_duration: u64) -> Seq<
    SpeechSegment,
> {
    if speech_segments.len() == 0 {
        Seq::empty()
    } else {
        let sorted = sorted_by_start(speech_segments);
        gap_filled(sorted) + lead_gap(cursor_after(sorted), total_duration)
    }
}

/// Fills the timeline around the given speech segments with gap segments.
/// See [`spec_expand`].
pub fn expand_segments_with_gaps(speech_segments: &[SpeechSegment], total_duration: u64) -> (expanded:
    Vec<SpeechSegment>)
    ensures
        expanded@ == spec_expand(speech_segments@, total_duration),
{
    let mut expanded: Vec<SpeechSegment> = Vec::new();
    if speech_segments.len() == 0 {
        return expanded;
    }
    let sorted = sort_by_start(speech_segments);
    let mut cursor: u64 = 0;
    let len: usize = sorted.len();
    proof {
        lemma_sorted_by_start(speech_segments@);
    }
    let mut i: usize = 0;
    while i < len
        invariant
            i <= len,
            len == sorted@.len(),
            expanded@ == gap_filled(sorted@.take(i as int)),
            cursor == cursor_after(sorted@.take(i as int)),
        decreases len - i,
    {
        let segment = sorted[i];
        proof {
            assert(sorted@.take(i + 1).drop_last() =~= sorted@.take(i as int));
            assert(sorted@.take(i + 1).last() == segment);
        }
        let ghost before = expanded@;
        match SpeechSegment::try_new(cursor, segment.start_ns, SegmentKind::Gap) {
            Some(gap) => {
                expanded.push(gap);
                proof {
                    assert(expanded@ =~= before + seq![gap]);
                }
            },
            None => {
                proof {
                    assert(expanded@ =~= before + Seq::<SpeechSegment>::empty());
                }
            },
        }
        let ghost with_gap = expanded@;
        expanded.push(segment);
        proof {
            assert(expanded@ =~= with_gap + seq![segment]);
        }
        cursor = segment.end_ns;
        i += 1;
    }
    proof {
        assert(sorted@.take(len as int) =~= sorted@);
    }
    let ghost filled = expanded@;
    match SpeechSegment::try_new(cursor, total_duration, SegmentKind::Gap) {
        Some(tail) => {
            expanded.push(tail);
            proof {
                assert(expanded@ =~= filled + seq![tail]);
            }
        },
        None => {
            proof {
                assert(expanded@ =~= filled + Seq::<SpeechSegment>::empty());
            }
        },
    }
    expanded
}

/// Sum of the durations of `segments`.
pub open spec fn total_span(segments: Seq<SpeechSegment>) -> int
    decreases segments.len(),
{
    if segments.len() == 0 {
        0
    } else {
        total_span(segments.drop_last()) + segments.last().duration()
    }
}

/// Every segment begins exactly where the one in front of it ends.
pub open spec fn is_contiguous(segments: Seq<SpeechSegment>) -> bool {
    forall|i: int, j: int|
        0 <= i && j == i + 1 && j < segments.len() ==> (#[trigger] segments[i]).end_ns == (
        #[trigger] segments[j]).start_ns
}

/// A segment that starts at `start` either begins right at `cursor` or
/// leaves a stretch of more than a millisecond that a gap will fill.
pub open spec fn abuts_or_clears(cursor: u64, start: u64) -> bool {
    start == cursor || start > cursor + 1_000_000
}

/// The ordered segments `sorted` can be joined without a seam: none ends
/// before it starts, and each one either begins where its predecessor
/// ended (the first one at zero) or more than a millisecond later.
pub open spec fn is_chain(sorted: Seq<SpeechSegment>) -> bool
    decreases sorted.len(),
{
    sorted.len() == 0 || {
        &&& is_chain(sorted.drop_last())
        &&& sorted.last().start_ns <= sorted.last().end_ns
        &&& abuts_or_clears(cursor_after(sorted.drop_last()), sorted.last().start_ns)
    }
}

proof fn lemma_total_span_push(segments: Seq<SpeechSegment>, segment: SpeechSegment)
    ensures
        total_span(segments.push(segment)) == total_span(segments) + segment.duration(),
{
    assert(segments.push(segment).drop_last() =~= segments);
}

proof fn lemma_gap_filled_chain(sorted: Seq<SpeechSegment>)
    requires
        sorted.len() > 0,
        is_chain(sorted),
    ensures
        gap_filled(sorted).len() > 0,
        gap_filled(sorted)[0].start_ns == 0,
        gap_filled(sorted).last() == sorted.last(),
        is_contiguous(gap_filled(sorted)),
        total_span(gap_filled(sorted)) == sorted.last().end_ns,
    decreases sorted.len(),
{
    let rest = sorted.drop_last();
    let last = sorted.last();
    let cursor = cursor_after(rest);
    let placed = gap_filled(rest);
    if rest.len() > 0 {
        lemma_gap_filled_chain(rest);
    } else {
        assert(placed =~= Seq::<SpeechSegment>::empty());
    }
    if last.start_ns > cursor + 1_000_000 {
        let gap = SpeechSegment { start_ns: cursor, end_ns: last.start_ns, kind: SegmentKind::Gap };
        assert(lead_gap(cursor, last.start_ns) =~= seq![gap]);
        assert(gap_filled(sorted) =~= placed.push(gap).push(last));
        lemma_total_span_push(placed, gap);
        lemma_total_span_push(placed.push(gap), last);
        lemma_contiguous_push(placed, gap);
        lemma_contiguous_push(placed.push(gap), last);
    } else {
        assert(lead_gap(cursor, last.start_ns) =~= Seq::<SpeechSegment>::empty());
        assert(gap_filled(sorted) =~= placed.push(last));
        lemma_total_span_push(placed, last);
        lemma_contiguous_push(placed, last);
    }
}

proof fn lemma_contiguous_push(segments: Seq<SpeechSegment>, segment: SpeechSegment)
    requires
        is_contiguous(segments),
        segments.len() > 0 ==> segments.last().end_ns == segment.start_ns,
    ensures
        is_contiguous(segments.push(segment)),
{
    let out = segments.push(segment);
    assert forall|i: int, j: int| 0 <= i && j == i + 1 && j < out.len() implies (#[trigger] out[i]).end_ns
        == (#[trigger] out[j]).start_ns by {
        if j < segments.len() {
            assert(out[i] == segments[i]);
            assert(out[j] == segments[j]);
        } else {
            assert(out[i] == segments.last());
        }
    }
}

/// Contiguity: when the ordered speech segments can be joined without a
/// seam, the expanded timeline starts at zero and each of its segments
/// begins exactly where the one before it ends.
pub proof fn lemma_expand_is_contiguous(speech_segments: Seq<SpeechSegment>, total_duration: u64)
    requires
        speech_segments.len() > 0,
        is_chain(sorted_by_start(speech_segments)),
    ensures
        spec_expand(speech_segments, total_duration).len() > 0,
        spec_expand(speech_segments, total_duration)[0].start_ns == 0,
        is_contiguous(spec_expand(speech_segments, total_duration)),
        total_duration > cursor_after(sorted_by_start(speech_segments)) + 1_000_000 ==> spec_expand(
            speech_segments,
            total_duration,
        ).last().end_ns == total_duration,
{
    let sorted = sorted_by_start(speech_segments);
    lemma_sorted_by_start(speech_segments);
    lemma_gap_filled_chain(sorted);
    let placed = gap_filled(sorted);
    let cursor = cursor_after(sorted);
    if total_duration > cursor + 1_000_000 {
        let tail = SpeechSegment { start_ns: cursor, end_ns: total_duration, kind: SegmentKind::Gap };
        assert(spec_expand(speech_segments, total_duration) =~= placed.push(tail));
        lemma_contiguous_push(placed, tail);
    } else {
        assert(spec_expand(speech_segments, total_duration) =~= placed);
    }
}

/// Coverage: when the ordered speech segments can be joined without a
/// seam and the last of them ends no later than a millisecond after
/// `total_duration`, the durations of the expanded timeline add up to
/// `total_duration`, give or take a millisecond, and exactly so when a
/// closing gap is added.
pub proof fn lemma_expand_covers_timeline(speech_segments: Seq<SpeechSegment>, total_duration: u64)
    requires
        speech_segments.len() > 0,
        is_chain(sorted_by_start(speech_segments)),
        cursor_after(sorted_by_start(speech_segments)) <= total_duration + 1_000_000,
    ensures
        -1_000_000 <= total_duration - total_span(spec_expand(speech_segments, total_duration))
            <= 1_000_000,
        total_duration > cursor_after(sorted_by_start(speech_segments)) + 1_000_000 ==> total_span(
            spec_expand(speech_segments, total_duration),
        ) == total_duration,
        is_contiguous(spec_expand(speech_segments, total_duration)),
{
    let sorted = sorted_by_start(speech_segments);
    lemma_sorted_by_start(speech_segments);
    lemma_gap_filled_chain(sorted);
    lemma_expand_is_contiguous(speech_segments, total_duration);
    let placed = gap_filled(sorted);
    let cursor = cursor_after(sorted);
    if total_duration > cursor + 1_000_000 {
        let tail = SpeechSegment { start_ns: cursor, end_ns: total_duration, kind: SegmentKind::Gap };
        assert(spec_expand(speech_segments, total_duration) =~= placed.push(tail));
        lemma_total_span_push(placed, tail);
    } else {
        assert(spec_expand(speech_segments, total_duration) =~= placed);
    }
}

} // verus!
