//! Units of the audio timeline.
//!
//! Every instant and duration in this crate is a whole number of
//! nanoseconds. One sample of the canonical 16 kHz signal lasts 62 500 ns and
//! one 512-sample chunk lasts 32 ms, so chunk boundaries, buffer lengths and
//! millisecond timestamps are all represented exactly.

use vstd::prelude::*;

verus! {

/// Nanoseconds in one second.
pub const NANOS_PER_SECOND: u64 = 1_000_000_000;

/// Nanoseconds in one millisecond.
pub const NANOS_PER_MILLI: u64 = 1_000_000;

/// Sample rate of the canonical analysis signal, in hertz.
pub const VAD_SAMPLE_RATE: u32 = 16_000;

/// Samples in one analysis chunk.
pub const VAD_CHUNK_SIZE: usize = 512;

/// Duration of one sample at the canonical rate.
pub const NANOS_PER_SAMPLE: u64 = 62_500;

/// Duration of one analysis chunk: 512 samples at 16 kHz.
pub const NANOS_PER_CHUNK: u64 = 32_000_000;

/// Largest chunk index whose start time still fits the timeline.
pub const MAX_CHUNKS: u64 = 576_460_752_303;

/// Largest buffer length, in samples, whose chunks all fit the timeline.
pub const MAX_SAMPLES: u64 = 295_147_905_179_136;

/// Spans no longer than this are treated as empty: one millisecond.
pub const MIN_SEGMENT_EPS: u64 = 1_000_000;

/// Shortest clip that is ever cut out for transcription: a quarter second.
pub const MIN_EXPORT_DURATION: u64 = 250_000_000;

/// Start time of chunk number `chunk`.
pub open spec fn spec_chunk_to_time(chunk: nat) -> nat {
    chunk * 32_000_000
}

/// Number of chunks that cover `sample_count` samples, the last one
/// possibly partial.
pub open spec fn spec_chunk_count(sample_count: nat) -> nat {
    (sample_count + 511) / 512
}

/// Duration of a buffer of `sample_count` samples.
pub open spec fn spec_total_duration(sample_count: nat) -> nat {
    sample_count * 62_500
}

/// Start time of chunk number `chunk`: `chunk * 512 / 16000` seconds.
pub fn chunk_to_time(chunk: usize) -> (time: u64)
    requires
        chunk <= MAX_CHUNKS,
    ensures
        time == spec_chunk_to_time(chunk as nat),
{
    (chunk as u64) * NANOS_PER_CHUNK
}

/// Number of chunks that cover `sample_count` samples.
pub fn chunk_count(sample_count: usize) -> (count: usize)
    ensures
        count == spec_chunk_count(sample_count as nat),
        sample_count <= MAX_SAMPLES ==> count <= MAX_CHUNKS,
{
    if sample_count % VAD_CHUNK_SIZE == 0 {
        sample_count / VAD_CHUNK_SIZE
    } else {
        sample_count / VAD_CHUNK_SIZE + 1
    }
}

/// Duration of a buffer of `sample_count` samples at the canonical rate.
pub fn total_duration(sample_count: usize) -> (duration: u64)
    requires
        sample_count <= MAX_SAMPLES,
    ensures
        duration == spec_total_duration(sample_count as nat),
{
    (sample_count as u64) * NANOS_PER_SAMPLE
}

/// The samples of chunk number `chunk`, zero-padded to a full chunk.
pub open spec fn spec_padded_chunk(samples: Seq<i16>, chunk: nat) -> Seq<i16> {
    Seq::new(
        512,
        |k: int|
            if chunk * 512 + k < samples.len() {
                samples[chunk * 512 + k]
            } else {
                0i16
            },
    )
}

/// Cuts chunk number `chunk` out of `samples`. The result always holds
/// exactly 512 samples; positions past the end of the buffer are zero.
pub fn padded_chunk(samples: &[i16], chunk: usize) -> (out: Vec<i16>)
    requires
        chunk < spec_chunk_count(samples@.len()),
    ensures
        out@ == spec_padded_chunk(samples@, chunk as nat),
        out@.len() == 512,
{
    let len: usize = samples.len();
    assert(chunk * 512 < len);
    let base: usize = chunk * VAD_CHUNK_SIZE;
    let mut out: Vec<i16> = Vec::new();
    let mut k: usize = 0;
    while k < VAD_CHUNK_SIZE
        invariant
            k <= 512,
            base == chunk * 512,
            base < len,
            len == samples@.len(),
            out@.len() == k,
            forall|j: int|
                0 <= j < k ==> out@[j] == spec_padded_chunk(samples@, chunk as nat)[j],
        decreases 512 - k,
    {
        let value: i16 = if k < len - base {
            samples[base + k]
        } else {
            0i16
        };
        out.push(value);
        k += 1;
    }
    out
}

} // verus!
