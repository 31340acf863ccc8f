//! What the external transcoder and prober are asked to do: the argument
//! lists of their invocations and the files they write.

use vstd::prelude::*;
use vstd::string::StringExecFns;
use crate::paths::{
    segment_audio_path, spec_audio_track_path, spec_segment_audio_path, spec_vad_audio_path,
    vad_audio_path,
};
use crate::segment::SpeechSegment;
use crate::source::{spec_stream_selector, stream_selector, AudioSource, WorkItemKey};
use crate::srt::{round_millis, spec_round_millis};
use crate::text::{push_decimal, push_padded, spec_decimal, spec_padded};
use crate::timeline::{MIN_EXPORT_DURATION, VAD_SAMPLE_RATE};

verus! {

/// The texts of the arguments `args`, in order.
pub open spec fn texts_of(args: Seq<String>) -> Seq<Seq<char>> {
    Seq::new(args.len(), |i: int| args[i]@)
}

fn push_arg(args: &mut Vec<String>, text: &str)
    ensures
        texts_of(final(args)@) == texts_of(old(args)@).push(text@),
{
    args.push(String::from_str(text));
    proof {
        assert(texts_of(final(args)@) =~= texts_of(old(args)@).push(text@));
    }
}

fn push_owned(args: &mut Vec<String>, text: String)
    ensures
        texts_of(final(args)@) == texts_of(old(args)@).push(text@),
{
    args.push(text);
    proof {
        assert(texts_of(final(args)@) =~= texts_of(old(args)@).push(text@));
    }
}

/// One invocation of the transcoder: its arguments and the file it
/// writes.
#[derive(Clone, Debug, PartialEq, Eq)]
pub struct TranscodeJob {
    /// The arguments, in order.
    pub args: Vec<String>,
    /// The file the transcoder writes, replacing what is there.
    pub output: String,
}

/// `nanos` in seconds with three decimals, rounded to the nearest
/// millisecond.
pub open spec fn spec_seconds_text(nanos: nat) -> Seq<char> {
    spec_decimal(spec_round_millis(nanos) / 1000) + "."@ + spec_padded(
        spec_round_millis(nanos) % 1000,
        3,
    )
}

/// Formats `nanos` in seconds with three decimals.
pub fn format_seconds(nanos: u64) -> (text: String)
    ensures
        text@ == spec_seconds_text(nanos as nat),
{
    let millis = round_millis(nanos);
    let mut text = String::new();
    push_decimal(&mut text, millis / 1000);
    text.append(".");
    push_padded(&mut text, millis % 1000, 3);
    proof {
        assert(text@ =~= spec_seconds_text(nanos as nat));
    }
    text
}

/// Length of the clip cut out for `segment`: the segment's own length,
/// but no less than a quarter second.
pub open spec fn spec_export_duration(segment: SpeechSegment) -> nat {
    if segment.end_ns - segment.start_ns > 250_000_000 {
        (segment.end_ns - segment.start_ns) as nat
    } else {
        250_000_000
    }
}

/// Length of the clip cut out for `segment`.
pub fn export_duration(segment: &SpeechSegment) -> (duration: u64)
    ensures
        duration == spec_export_duration(*segment),
{
    if segment.end_ns > segment.start_ns && segment.end_ns - segment.start_ns
        > MIN_EXPORT_DURATION {
        segment.end_ns - segment.start_ns
    } else {
        MIN_EXPORT_DURATION
    }
}

/// The selection of one stream, for a track of a video: `-map` and the
/// selector.
pub open spec fn spec_map_args(track_index: Option<u32>) -> Seq<Seq<char>> {
    match track_index {
        Some(track) => seq!["-map"@, spec_stream_selector(track)],
        None => Seq::empty(),
    }
}

fn push_map_args(args: &mut Vec<String>, track_index: Option<u32>)
    ensures
        texts_of(final(args)@) == texts_of(old(args)@) + spec_map_args(track_index),
{
    match track_index {
        Some(track) => {
            push_arg(args, "-map");
            push_owned(args, stream_selector(track));
            proof {
                assert(texts_of(final(args)@) =~= texts_of(old(args)@) + spec_map_args(
                    track_index,
                ));
            }
        },
        None => {
            proof {
                assert(texts_of(final(args)@) =~= texts_of(old(args)@) + spec_map_args(
                    track_index,
                ));
            }
        },
    }
}

/// Arguments that demux stream `stream_index` of `input` into the
/// compressed audio file `output`.
pub open spec fn spec_track_to_mp3_args(
    input: Seq<char>,
    stream_index: u32,
    output: Seq<char>,
) -> Seq<Seq<char>> {
    seq![
        "-i"@,
        input,
        "-map"@,
        spec_stream_selector(stream_index),
        "-c:a"@,
        "libmp3lame"@,
        "-y"@,
        output,
    ]
}

/// Builds the arguments that demux one audio stream of a video.
pub fn track_to_mp3_args(input: &str, stream_index: u32, output: &str) -> (args: Vec<String>)
    ensures
        texts_of(args@) == spec_track_to_mp3_args(input@, stream_index, output@),
{
    let mut args: Vec<String> = Vec::new();
    proof {
        assert(texts_of(args@) =~= Seq::<Seq<char>>::empty());
    }
    push_arg(&mut args, "-i");
    push_arg(&mut args, input);
    push_arg(&mut args, "-map");
    push_owned(&mut args, stream_selector(stream_index));
    push_arg(&mut args, "-c:a");
    push_arg(&mut args, "libmp3lame");
    push_arg(&mut args, "-y");
    push_arg(&mut args, output);
    proof {
        assert(texts_of(args@) =~= spec_track_to_mp3_args(input@, stream_index, output@));
    }
    args
}

/// Arguments that resample the source to the detector's format: one
/// channel, 16 kHz, 16-bit samples.
pub open spec fn spec_pcm16_args(key: WorkItemKey) -> Seq<Seq<char>> {
    seq!["-i"@, key.original_path] + spec_map_args(key.track_index) + seq![
        "-ac"@,
        "1"@,
        "-ar"@,
        spec_decimal(16_000),
        "-sample_fmt"@,
        "s16"@,
        "-y"@,
        spec_vad_audio_path(key.original_path, key.track_index),
    ]
}

/// Arguments that cut the clip of `segment`, numbered `segment_idx`, out
/// of the source and encode it anew.
pub open spec fn spec_segment_export_args(
    key: WorkItemKey,
    segment_idx: nat,
    segment: SpeechSegment,
) -> Seq<Seq<char>> {
    seq!["-ss"@, spec_seconds_text(segment.start_ns as nat), "-i"@, key.original_path]
        + spec_map_args(key.track_index) + seq![
        "-t"@,
        spec_seconds_text(spec_export_duration(segment)),
        "-acodec"@,
        "libmp3lame"@,
        "-y"@,
        spec_segment_audio_path(key.original_path, key.track_index, segment_idx),
    ]
}

/// Arguments that ask the prober for the indices of the audio streams
/// of `path`, one per line.
pub open spec fn spec_stream_probe_args(path: Seq<char>) -> Seq<Seq<char>> {
    seq![
        "-v"@,
        "error"@,
        "-select_streams"@,
        "a"@,
        "-show_entries"@,
        "stream=index"@,
        "-of"@,
        "csv=p=0"@,
        path,
    ]
}

/// Arguments that ask the prober for the duration of `path` in seconds.
pub open spec fn spec_duration_probe_args(path: Seq<char>) -> Seq<Seq<char>> {
    seq![
        "-v"@,
        "error"@,
        "-show_entries"@,
        "format=duration"@,
        "-of"@,
        "default=noprint_wrappers=1:nokey=1"@,
        path,
    ]
}

/// Builds the arguments of the prober's stream query for `path`.
pub fn stream_probe_args(path: &str) -> (args: Vec<String>)
    ensures
        texts_of(args@) == spec_stream_probe_args(path@),
{
    let mut args: Vec<String> = Vec::new();
    proof {
        assert(texts_of(args@) =~= Seq::<Seq<char>>::empty());
    }
    push_arg(&mut args, "-v");
    push_arg(&mut args, "error");
    push_arg(&mut args, "-select_streams");
    push_arg(&mut args, "a");
    push_arg(&mut args, "-show_entries");
    push_arg(&mut args, "stream=index");
    push_arg(&mut args, "-of");
    push_arg(&mut args, "csv=p=0");
    push_arg(&mut args, path);
    proof {
        assert(texts_of(args@) =~= spec_stream_probe_args(path@));
    }
    args
}

/// Builds the arguments of the prober's duration query for `path`.
pub fn duration_probe_args(path: &str) -> (args: Vec<String>)
    ensures
        texts_of(args@) == spec_duration_probe_args(path@),
{
    let mut args: Vec<String> = Vec::new();
    proof {
        assert(texts_of(args@) =~= Seq::<Seq<char>>::empty());
    }
    push_arg(&mut args, "-v");
    push_arg(&mut args, "error");
    push_arg(&mut args, "-show_entries");
    push_arg(&mut args, "format=duration");
    push_arg(&mut args, "-of");
    push_arg(&mut args, "default=noprint_wrappers=1:nokey=1");
    push_arg(&mut args, path);
    proof {
        assert(texts_of(args@) =~= spec_duration_probe_args(path@));
    }
    args
}

impl AudioSource {
    /// The invocation that demuxes the full audio of the source, where
    /// one is needed: none for plain audio, one for a track of a video.
    pub fn full_audio_job(&self) -> (job: Option<TranscodeJob>)
        ensures
            job is Some <==> self@.track_index is Some,
            job matches Some(j) ==> {
                &&& j.output@ == spec_audio_track_path(
                    self@.original_path,
                    self@.track_index->0,
                )
                &&& texts_of(j.args@) == spec_track_to_mp3_args(
                    self@.original_path,
                    self@.track_index->0,
                    j.output@,
                )
            },
    {
        match self.track_index() {
            Some(track) => {
                let audio = self.full_audio();
                let args = track_to_mp3_args(self.input_path(), track, audio.path.as_str());
                Some(TranscodeJob { args, output: audio.path })
            },
            None => None,
        }
    }

    /// The invocation that resamples the source for the detector.
    pub fn pcm16_job(&self) -> (job: TranscodeJob)
        ensures
            job.output@ == spec_vad_audio_path(self@.original_path, self@.track_index),
            texts_of(job.args@) == spec_pcm16_args(self@),
    {
        let output = vad_audio_path(self.original_path(), self.track_index());
        let mut args: Vec<String> = Vec::new();
        proof {
            assert(texts_of(args@) =~= Seq::<Seq<char>>::empty());
        }
        push_arg(&mut args, "-i");
        push_arg(&mut args, self.input_path());
        push_map_args(&mut args, self.track_index());
        push_arg(&mut args, "-ac");
        push_arg(&mut args, "1");
        push_arg(&mut args, "-ar");
        let mut rate = String::new();
        push_decimal(&mut rate, VAD_SAMPLE_RATE as u64);
        proof {
            assert(rate@ =~= spec_decimal(16_000));
        }
        push_owned(&mut args, rate);
        push_arg(&mut args, "-sample_fmt");
        push_arg(&mut args, "s16");
        push_arg(&mut args, "-y");
        push_arg(&mut args, output.as_str());
        proof {
            assert(texts_of(args@) =~= spec_pcm16_args(self@));
        }
        TranscodeJob { args, output }
    }

    /// The invocation that cuts the clip of `segment` out of the source.
    /// The clip is taken from the original input, on the original track,
    /// and is never shorter than a quarter second.
    pub fn segment_export_job(&self, segment_idx: usize, segment: &SpeechSegment) -> (job:
        TranscodeJob)
        ensures
            job.output@ == spec_segment_audio_path(
                self@.original_path,
                self@.track_index,
                segment_idx as nat,
            ),
            texts_of(job.args@) == spec_segment_export_args(self@, segment_idx as nat, *segment),
    {
        let output = segment_audio_path(self.original_path(), self.track_index(), segment_idx);
        let mut args: Vec<String> = Vec::new();
        proof {
            assert(texts_of(args@) =~= Seq::<Seq<char>>::empty());
        }
        push_arg(&mut args, "-ss");
        push_owned(&mut args, format_seconds(segment.start_ns));
        push_arg(&mut args, "-i");
        push_arg(&mut args, self.input_path());
        push_map_args(&mut args, self.track_index());
        push_arg(&mut args, "-t");
        push_owned(&mut args, format_seconds(export_duration(segment)));
        push_arg(&mut args, "-acodec");
        push_arg(&mut args, "libmp3lame");
        push_arg(&mut args, "-y");
        push_arg(&mut args, output.as_str());
        proof {
            assert(texts_of(args@) =~= spec_segment_export_args(
                self@,
                segment_idx as nat,
                *segment,
            ));
        }
        TranscodeJob { args, output }
    }
}

} // verus!
