//! File names: which files are media, and where the artefacts of a work
//! item are written.
//!
//! Paths are handled as text. Taking a path apart and putting a new file
//! name into it is left to `std::path`; everything that is decided about
//! the names themselves is decided here.

use vstd::prelude::*;
use vstd::string::StringExecFns;
use crate::text::{
    chars_of, lemma_decimal_reads_back, push_chars, push_decimal, spec_decimal, text_of,
};

verus! {

/// The final component of `path` as `std::path::Path::file_name` yields
/// it, if the path has one. Paths are read by the rules of the platform
/// the crate is built for.
pub uninterp spec fn path_file_name(path: Seq<char>) -> Option<Seq<char>>;

/// The path that `std::path::Path::with_file_name` makes of `path` and
/// the file name `name`, by the rules of the platform the crate is built
/// for.
pub uninterp spec fn path_with_file_name(path: Seq<char>, name: Seq<char>) -> Seq<char>;

/// `text` in lower case as `str::to_lowercase` yields it.
pub uninterp spec fn str_lowercase(text: Seq<char>) -> Seq<char>;

/// Calls `std::path::Path::file_name` on `path` and hands back the final
/// component as text; the contract only names what the call returns.
#[verifier::external_body]
pub(crate) fn file_name_of(path: &str) -> (name: Option<String>)
    ensures
        text_of(name) == path_file_name(path@),
{
    std::path::Path::new(path).file_name().map(|name| name.to_string_lossy().into_owned())
}

/// Calls `std::path::Path::with_file_name` on `path` and hands back the
/// new path as text; the contract only names what the call returns.
#[verifier::external_body]
fn with_file_name(path: &str, name: &str) -> (replaced: String)
    ensures
        replaced@ == path_with_file_name(path@, name@),
{
    std::path::Path::new(path).with_file_name(name).to_string_lossy().into_owned()
}

/// Calls `str::to_lowercase`; the contract only names what the call
/// returns.
#[verifier::external_body]
pub(crate) fn to_lowercase(text: &str) -> (lower: String)
    ensures
        lower@ == str_lowercase(text@),
{
    text.to_lowercase()
}

/// Position of the last `.` in `name`, or -1 when it holds none.
pub open spec fn spec_last_dot(name: Seq<char>) -> int
    decreases name.len(),
{
    if name.len() == 0 {
        -1
    } else if name.last() == '.' {
        name.len() - 1
    } else {
        spec_last_dot(name.drop_last())
    }
}

/// Whether the file name `name` splits into a stem and an extension: it
/// does when it holds a `.` that is not its first character, and is not
/// the name `..`.
pub open spec fn spec_has_extension(name: Seq<char>) -> bool {
    spec_last_dot(name) > 0 && name != ".."@
}

/// The stem of the file name `name`: the part in front of its last `.`,
/// or all of it when it has no extension.
pub open spec fn spec_stem_of(name: Seq<char>) -> Seq<char> {
    if spec_has_extension(name) {
        name.take(spec_last_dot(name))
    } else {
        name
    }
}

/// The extension of the file name `name`: the part behind its last `.`,
/// if it has one.
pub open spec fn spec_extension_of(name: Seq<char>) -> Option<Seq<char>> {
    if spec_has_extension(name) {
        Some(name.skip(spec_last_dot(name) + 1))
    } else {
        None
    }
}

/// The stem of the final component of `path`.
pub open spec fn spec_file_stem(path: Seq<char>) -> Option<Seq<char>> {
    match path_file_name(path) {
        Some(name) => Some(spec_stem_of(name)),
        None => None,
    }
}

/// The extension of the final component of `path`.
pub open spec fn spec_extension(path: Seq<char>) -> Option<Seq<char>> {
    match path_file_name(path) {
        Some(name) => spec_extension_of(name),
        None => None,
    }
}

/// Where the file name `chars` splits: the position of its last `.` when
/// it has an extension.
fn split_point(chars: &Vec<char>) -> (dot: Option<usize>)
    ensures
        dot is Some <==> spec_has_extension(chars@),
        dot matches Some(d) ==> d == spec_last_dot(chars@) && 0 < d < chars@.len(),
{
    let len: usize = chars.len();
    let mut i: usize = len;
    proof {
        assert(chars@.take(len as int) =~= chars@);
    }
    while i > 0 && chars[i - 1] != '.'
        invariant
            i <= len,
            len == chars@.len(),
            spec_last_dot(chars@) == spec_last_dot(chars@.take(i as int)),
        decreases i,
    {
        proof {
            assert(chars@.take(i as int).last() == chars@[i - 1]);
            assert(chars@.take(i as int).drop_last() =~= chars@.take(i - 1));
        }
        i -= 1;
    }
    proof {
        if i > 0 {
            assert(chars@.take(i as int).last() == chars@[i - 1]);
        }
        reveal_strlit("..");
    }
    if i <= 1 {
        return None;
    }
    if len == 2 && chars[0] == '.' && chars[1] == '.' {
        proof {
            assert(chars@ =~= ".."@);
        }
        return None;
    }
    proof {
        if chars@ == ".."@ {
            assert(chars@.len() == 2);
            assert(chars@[0] == '.');
            assert(chars@[1] == '.');
        }
    }
    Some(i - 1)
}

/// The stem of the file name `name`.
pub fn stem_of(name: &str) -> (stem: String)
    ensures
        stem@ == spec_stem_of(name@),
{
    let chars = chars_of(name);
    let mut stem = String::new();
    match split_point(&chars) {
        Some(dot) => {
            push_chars(&mut stem, &chars, 0, dot);
            proof {
                assert(stem@ =~= chars@.take(dot as int));
            }
        },
        None => {
            push_chars(&mut stem, &chars, 0, chars.len());
            proof {
                assert(stem@ =~= chars@);
            }
        },
    }
    stem
}

/// The extension of the file name `name`, if it has one.
pub fn extension_of(name: &str) -> (ext: Option<String>)
    ensures
        text_of(ext) == spec_extension_of(name@),
{
    let chars = chars_of(name);
    let len: usize = chars.len();
    match split_point(&chars) {
        Some(dot) => {
            let mut ext = String::new();
            push_chars(&mut ext, &chars, dot + 1, len);
            proof {
                assert(ext@ =~= chars@.skip(dot + 1));
            }
            Some(ext)
        },
        None => None,
    }
}

/// The stem of the final component of `path`.
pub fn file_stem(path: &str) -> (stem: Option<String>)
    ensures
        text_of(stem) == spec_file_stem(path@),
{
    match file_name_of(path) {
        Some(name) => Some(stem_of(name.as_str())),
        None => None,
    }
}

/// The extension of the final component of `path`.
pub fn extension(path: &str) -> (ext: Option<String>)
    ensures
        text_of(ext) == spec_extension(path@),
{
    match file_name_of(path) {
        Some(name) => extension_of(name.as_str()),
        None => None,
    }
}

/// Whether `ext`, in lower case, is the extension of a video container.
pub open spec fn spec_is_video_extension(ext: Seq<char>) -> bool {
    ||| ext == "mkv"@
    ||| ext == "mp4"@
    ||| ext == "avi"@
    ||| ext == "mov"@
    ||| ext == "flv"@
    ||| ext == "wmv"@
}

/// Whether `ext`, in lower case, is the extension of a plain audio file.
pub open spec fn spec_is_audio_extension(ext: Seq<char>) -> bool {
    ||| ext == "wav"@
    ||| ext == "ogg"@
    ||| ext == "opus"@
    ||| ext == "mp3"@
    ||| ext == "m4a"@
}

/// Whether `ext`, in lower case, is on the list of media extensions.
pub open spec fn spec_is_media_extension(ext: Seq<char>) -> bool {
    spec_is_video_extension(ext) || spec_is_audio_extension(ext)
}

/// Whether `ext` is the extension of a video container. The comparison
/// is exact: callers pass the extension in lower case.
pub fn is_video_extension(ext: &str) -> (video: bool)
    ensures
        video == spec_is_video_extension(ext@),
{
    ext.eq("mkv") || ext.eq("mp4") || ext.eq("avi") || ext.eq("mov") || ext.eq("flv") || ext.eq(
        "wmv",
    )
}

/// Whether `ext` is on the list of media extensions. The comparison is
/// exact: callers pass the extension in lower case.
pub fn is_media_extension(ext: &str) -> (media: bool)
    ensures
        media == spec_is_media_extension(ext@),
{
    is_video_extension(ext) || ext.eq("wav") || ext.eq("ogg") || ext.eq("opus") || ext.eq("mp3")
        || ext.eq("m4a")
}

/// Whether the file at `path` is a video: it has an extension that, in
/// lower case, names a video container.
pub open spec fn spec_is_video(path: Seq<char>) -> bool {
    match spec_extension(path) {
        Some(ext) => spec_is_video_extension(str_lowercase(ext)),
        None => false,
    }
}

/// Whether the file at `path` is a media file: it has an extension that,
/// in lower case, is on the list of media extensions.
pub open spec fn spec_is_media(path: Seq<char>) -> bool {
    match spec_extension(path) {
        Some(ext) => spec_is_media_extension(str_lowercase(ext)),
        None => false,
    }
}

/// Whether the file at `path` has to be demuxed before it is transcribed.
pub fn is_video(path: &str) -> (video: bool)
    ensures
        video == spec_is_video(path@),
{
    match extension(path) {
        Some(ext) => {
            let lower = to_lowercase(ext.as_str());
            is_video_extension(lower.as_str())
        },
        None => false,
    }
}

/// Whether the file at `path` is one the scan looks at.
pub fn is_media(path: &str) -> (media: bool)
    ensures
        media == spec_is_media(path@),
{
    match extension(path) {
        Some(ext) => {
            let lower = to_lowercase(ext.as_str());
            is_media_extension(lower.as_str())
        },
        None => false,
    }
}

/// `-track` and the track number, or nothing for a file without tracks.
pub open spec fn spec_track_file_suffix(track_index: Option<u32>) -> Seq<char> {
    match track_index {
        Some(idx) => "-track"@ + spec_decimal(idx as nat),
        None => Seq::empty(),
    }
}

/// The part of an artefact's file name that tells the track.
pub fn track_file_suffix(track_index: Option<u32>) -> (suffix: String)
    ensures
        suffix@ == spec_track_file_suffix(track_index),
{
    let mut suffix = String::new();
    match track_index {
        Some(idx) => {
            suffix.append("-track");
            push_decimal(&mut suffix, idx as u64);
            proof {
                assert(suffix@ =~= "-track"@ + spec_decimal(idx as nat));
            }
        },
        None => {},
    }
    suffix
}

/// `value`, or `fallback` when there is none.
pub open spec fn or_default(value: Option<Seq<char>>, fallback: Seq<char>) -> Seq<char> {
    match value {
        Some(text) => text,
        None => fallback,
    }
}

/// File name of the transcript of a work item: the stem of the media
/// file (`result` when it has none), the track marker for a track of a
/// video, and `.srt`.
pub open spec fn spec_transcript_file_name(
    stem: Option<Seq<char>>,
    track_index: Option<u32>,
) -> Seq<char> {
    or_default(stem, "result"@) + match track_index {
        Some(idx) => ".轨道"@ + spec_decimal(idx as nat) + ".srt"@,
        None => ".srt"@,
    }
}

/// File name of the audio demuxed from track `track_index` of a video.
pub open spec fn spec_audio_track_file_name(name: Option<Seq<char>>, track_index: u32) -> Seq<
    char,
> {
    or_default(name, "audio"@) + "-track"@ + spec_decimal(track_index as nat) + ".mp3"@
}

/// File name of the clip cut out for segment number `segment_idx`.
pub open spec fn spec_segment_audio_file_name(
    name: Option<Seq<char>>,
    track_index: Option<u32>,
    segment_idx: nat,
) -> Seq<char> {
    or_default(name, "segment"@) + spec_track_file_suffix(track_index) + "-seg"@ + spec_decimal(
        segment_idx,
    ) + ".mp3"@
}

/// File name of the resampled copy that the detector reads.
pub open spec fn spec_vad_audio_file_name(
    name: Option<Seq<char>>,
    track_index: Option<u32>,
) -> Seq<char> {
    or_default(name, "segment"@) + spec_track_file_suffix(track_index) + "-vad.wav"@
}

fn push_or_default(out: &mut String, value: &Option<String>, fallback: &str)
    ensures
        final(out)@ == old(out)@ + or_default(text_of(*value), fallback@),
{
    match value {
        Some(text) => out.append(text.as_str()),
        None => out.append(fallback),
    }
}

/// Builds the file name of a transcript from the stem of the media file.
pub fn transcript_file_name(stem: &Option<String>, track_index: Option<u32>) -> (name: String)
    ensures
        name@ == spec_transcript_file_name(text_of(*stem), track_index),
{
    let mut name = String::new();
    push_or_default(&mut name, stem, "result");
    match track_index {
        Some(idx) => {
            name.append(".轨道");
            push_decimal(&mut name, idx as u64);
            name.append(".srt");
        },
        None => {
            name.append(".srt");
        },
    }
    proof {
        assert(name@ =~= spec_transcript_file_name(text_of(*stem), track_index));
    }
    name
}

/// Builds the file name of a demuxed track from the video's file name.
pub fn audio_track_file_name(file_name: &Option<String>, track_index: u32) -> (name: String)
    ensures
        name@ == spec_audio_track_file_name(text_of(*file_name), track_index),
{
    let mut name = String::new();
    push_or_default(&mut name, file_name, "audio");
    name.append("-track");
    push_decimal(&mut name, track_index as u64);
    name.append(".mp3");
    proof {
        assert(name@ =~= spec_audio_track_file_name(text_of(*file_name), track_index));
    }
    name
}

/// Builds the file name of a segment's clip from the media file's name.
pub fn segment_audio_file_name(
    file_name: &Option<String>,
    track_index: Option<u32>,
    segment_idx: usize,
) -> (name: String)
    ensures
        name@ == spec_segment_audio_file_name(text_of(*file_name), track_index, segment_idx as nat),
{
    let mut name = String::new();
    push_or_default(&mut name, file_name, "segment");
    let suffix = track_file_suffix(track_index);
    name.append(suffix.as_str());
    name.append("-seg");
    push_decimal(&mut name, segment_idx as u64);
    name.append(".mp3");
    proof {
        assert(name@ =~= spec_segment_audio_file_name(
            text_of(*file_name),
            track_index,
            segment_idx as nat,
        ));
    }
    name
}

/// Builds the file name of the detector's copy from the media file's
/// name.
pub fn vad_audio_file_name(file_name: &Option<String>, track_index: Option<u32>) -> (name: String)
    ensures
        name@ == spec_vad_audio_file_name(text_of(*file_name), track_index),
{
    let mut name = String::new();
    push_or_default(&mut name, file_name, "segment");
    let suffix = track_file_suffix(track_index);
    name.append(suffix.as_str());
    name.append("-vad.wav");
    proof {
        assert(name@ =~= spec_vad_audio_file_name(text_of(*file_name), track_index));
    }
    name
}

/// Where the transcript of the work item `(original, track_index)` is
/// written: beside the media file, under its transcript file name.
pub open spec fn spec_transcript_result_path(original: Seq<char>, track_index: Option<u32>) -> Seq<
    char,
> {
    path_with_file_name(
        original,
        spec_transcript_file_name(spec_file_stem(original), track_index),
    )
}

/// Where the audio demuxed from a track of the video `original` is kept.
pub open spec fn spec_audio_track_path(original: Seq<char>, track_index: u32) -> Seq<char> {
    path_with_file_name(
        original,
        spec_audio_track_file_name(path_file_name(original), track_index),
    )
}

/// Where the clip of segment number `segment_idx` is kept.
pub open spec fn spec_segment_audio_path(
    original: Seq<char>,
    track_index: Option<u32>,
    segment_idx: nat,
) -> Seq<char> {
    path_with_file_name(
        original,
        spec_segment_audio_file_name(path_file_name(original), track_index, segment_idx),
    )
}

/// Where the detector's resampled copy is kept.
pub open spec fn spec_vad_audio_path(original: Seq<char>, track_index: Option<u32>) -> Seq<char> {
    path_with_file_name(original, spec_vad_audio_file_name(path_file_name(original), track_index))
}

/// The path of the transcript of the work item `(original,
/// track_index)`.
pub fn transcript_result_path(original: &str, track_index: Option<u32>) -> (path: String)
    ensures
        path@ == spec_transcript_result_path(original@, track_index),
{
    let stem = file_stem(original);
    let name = transcript_file_name(&stem, track_index);
    with_file_name(original, name.as_str())
}

/// The path of the audio demuxed from track `track_index` of the video
/// `original`.
pub fn audio_track_path(original: &str, track_index: u32) -> (path: String)
    ensures
        path@ == spec_audio_track_path(original@, track_index),
{
    let file_name = file_name_of(original);
    let name = audio_track_file_name(&file_name, track_index);
    with_file_name(original, name.as_str())
}

/// The path of the clip cut out for segment number `segment_idx`.
pub fn segment_audio_path(original: &str, track_index: Option<u32>, segment_idx: usize) -> (path:
    String)
    ensures
        path@ == spec_segment_audio_path(original@, track_index, segment_idx as nat),
{
    let file_name = file_name_of(original);
    let name = segment_audio_file_name(&file_name, track_index, segment_idx);
    with_file_name(original, name.as_str())
}

/// The path of the resampled copy that the detector reads.
pub fn vad_audio_path(original: &str, track_index: Option<u32>) -> (path: String)
    ensures
        path@ == spec_vad_audio_path(original@, track_index),
{
    let file_name = file_name_of(original);
    let name = vad_audio_file_name(&file_name, track_index);
    with_file_name(original, name.as_str())
}

/// The file names of the transcripts of different tracks of one media
/// file differ, and each differs from that of the file without a track.
pub proof fn lemma_transcript_names_distinct(
    stem: Option<Seq<char>>,
    first: Option<u32>,
    second: Option<u32>,
)
    requires
        first != second,
    ensures
        spec_transcript_file_name(stem, first) != spec_transcript_file_name(stem, second),
{
    reveal_strlit(".srt");
    reveal_strlit(".轨道");
    let base = or_default(stem, "result"@);
    let a = spec_transcript_file_name(stem, first);
    let b = spec_transcript_file_name(stem, second);
    match (first, second) {
        (Some(x), Some(y)) => {
            lemma_decimal_reads_back(x as nat);
            lemma_decimal_reads_back(y as nat);
            let dx = spec_decimal(x as nat);
            let dy = spec_decimal(y as nat);
            if a == b {
                assert(a.len() == base.len() + 3 + dx.len() + 4);
                assert(b.len() == base.len() + 3 + dy.len() + 4);
                let from = base.len() as int + 3;
                assert(a.subrange(from, from + dx.len()) =~= dx);
                assert(b.subrange(from, from + dy.len()) =~= dy);
                assert(dx == dy);
                crate::text::lemma_decimal_injective(x as nat, y as nat);
            }
        },
        (Some(x), None) => {
            lemma_decimal_reads_back(x as nat);
            assert(a.len() == base.len() + 3 + spec_decimal(x as nat).len() + 4);
            assert(b.len() == base.len() + 4);
        },
        (None, Some(y)) => {
            lemma_decimal_reads_back(y as nat);
            assert(b.len() == base.len() + 3 + spec_decimal(y as nat).len() + 4);
            assert(a.len() == base.len() + 4);
        },
        (None, None) => {},
    }
}

/// The transcript path is a function of the work item's key: the same
/// media file and track always give the same path.
pub proof fn lemma_transcript_path_is_determined(
    original: Seq<char>,
    track_index: Option<u32>,
    other_original: Seq<char>,
    other_track_index: Option<u32>,
)
    requires
        original == other_original,
        track_index == other_track_index,
    ensures
        spec_transcript_result_path(original, track_index) == spec_transcript_result_path(
            other_original,
            other_track_index,
        ),
{
}

/// The transcripts of different tracks of one media file never share a
/// path, provided the path that `std::path` builds from a file name has
/// that name as its own file name.
pub proof fn lemma_transcript_paths_distinct(
    original: Seq<char>,
    first: Option<u32>,
    second: Option<u32>,
)
    requires
        first != second,
        path_file_name(spec_transcript_result_path(original, first)) == Some(
            spec_transcript_file_name(spec_file_stem(original), first),
        ),
        path_file_name(spec_transcript_result_path(original, second)) == Some(
            spec_transcript_file_name(spec_file_stem(original), second),
        ),
    ensures
        spec_transcript_result_path(original, first) != spec_transcript_result_path(
            original,
            second,
        ),
{
    lemma_transcript_names_distinct(spec_file_stem(original), first, second);
}

} // verus!
