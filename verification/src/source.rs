//! Audio sources: how playable audio is obtained for a work item, and
//! what the transcoder and the prober are asked to do for it.

use vstd::prelude::*;
use vstd::string::StringExecFns;
use crate::paths::{audio_track_path, spec_audio_track_path};
use crate::text::{push_decimal, spec_decimal, text_of};

verus! {

/// `path` as `std::path::Path` prints itself for debugging: in double
/// quotes, with what needs it escaped.
pub uninterp spec fn path_debug(path: Seq<char>) -> Seq<char>;

/// Formats `path` with the `Debug` implementation of `std::path::Path`;
/// the contract only names what that yields.
#[verifier::external_body]
pub(crate) fn debug_quoted(path: &str) -> (quoted: String)
    ensures
        quoted@ == path_debug(path@),
{
    format!("{:?}", std::path::Path::new(path))
}

/// The note that tells a track and a segment apart in messages.
pub open spec fn spec_track_suffix(track_index: Option<u32>, segment_index: Option<nat>) -> Seq<
    char,
> {
    match (track_index, segment_index) {
        (Some(track), Some(segment)) => "（音轨 "@ + spec_decimal(track as nat) + " · 片段 "@
            + spec_decimal(segment) + "）"@,
        (Some(track), None) => "（音轨 "@ + spec_decimal(track as nat) + "）"@,
        (None, Some(segment)) => "（片段 "@ + spec_decimal(segment) + "）"@,
        (None, None) => Seq::empty(),
    }
}

/// The segment number as a specification value.
pub open spec fn segment_number(segment_index: Option<usize>) -> Option<nat> {
    match segment_index {
        Some(segment) => Some(segment as nat),
        None => None,
    }
}

/// Builds the note that tells a track and a segment apart in messages.
pub fn track_suffix(track_index: Option<u32>, segment_index: Option<usize>) -> (suffix: String)
    ensures
        suffix@ == spec_track_suffix(track_index, segment_number(segment_index)),
{
    let mut suffix = String::new();
    match (track_index, segment_index) {
        (Some(track), Some(segment)) => {
            suffix.append("（音轨 ");
            push_decimal(&mut suffix, track as u64);
            suffix.append(" · 片段 ");
            push_decimal(&mut suffix, segment as u64);
            suffix.append("）");
        },
        (Some(track), None) => {
            suffix.append("（音轨 ");
            push_decimal(&mut suffix, track as u64);
            suffix.append("）");
        },
        (None, Some(segment)) => {
            suffix.append("（片段 ");
            push_decimal(&mut suffix, segment as u64);
            suffix.append("）");
        },
        (None, None) => {},
    }
    proof {
        assert(suffix@ =~= spec_track_suffix(track_index, segment_number(segment_index)));
    }
    suffix
}

/// How the audio of a source is stored.
#[derive(Clone, Debug, PartialEq, Eq)]
pub enum AudioSourceKind {
    /// The file is audio and is used as it is.
    DirectAudio {
        /// The audio file.
        audio_path: String,
    },
    /// The audio is one stream of a video container.
    VideoTrack {
        /// The container.
        video_path: String,
        /// The stream's index in the container.
        track_index: u32,
    },
}

/// A work item seen as a source of audio.
#[derive(Debug, PartialEq, Eq)]
pub struct AudioSource {
    original_path: String,
    track_index: Option<u32>,
    kind: AudioSourceKind,
}

/// The key of a work item: the media file and, for a video, the track.
pub struct WorkItemKey {
    /// Path of the media file.
    pub original_path: Seq<char>,
    /// Index of the audio stream, for a video.
    pub track_index: Option<u32>,
}

impl View for AudioSource {
    type V = WorkItemKey;

    closed spec fn view(&self) -> WorkItemKey {
        WorkItemKey { original_path: self.original_path@, track_index: self.track_index }
    }
}

impl Clone for AudioSource {
    /// A source for the same work item.
    fn clone(&self) -> (copy: Self)
        ensures
            copy@ == self@,
    {
        proof {
            use_type_invariant(self);
        }
        match &self.kind {
            AudioSourceKind::DirectAudio { audio_path } => AudioSource {
                original_path: self.original_path.clone(),
                track_index: self.track_index,
                kind: AudioSourceKind::DirectAudio { audio_path: audio_path.clone() },
            },
            AudioSourceKind::VideoTrack { video_path, track_index } => AudioSource {
                original_path: self.original_path.clone(),
                track_index: self.track_index,
                kind: AudioSourceKind::VideoTrack {
                    video_path: video_path.clone(),
                    track_index: *track_index,
                },
            },
        }
    }
}

/// A concrete, decodable audio file, and whether whoever obtained it has
/// to delete it after use.
#[derive(Clone, Debug, PartialEq, Eq)]
pub struct MaterializedAudio {
    /// Where the audio is.
    pub path: String,
    /// Whether the file was made for this run and is to be removed.
    pub cleanup: bool,
}

/// The stream selector handed to the transcoder for track `track`.
pub open spec fn spec_stream_selector(track: u32) -> Seq<char> {
    "0:"@ + spec_decimal(track as nat)
}

/// Builds the stream selector for track `track`.
pub fn stream_selector(track: u32) -> (selector: String)
    ensures
        selector@ == spec_stream_selector(track),
{
    let mut selector = String::from_str("0:");
    push_decimal(&mut selector, track as u64);
    selector
}

impl AudioSource {
    /// The source is consistent: a plain audio file has no track, a
    /// track of a video names it, and either way the file that is read
    /// is the media file itself.
    #[verifier::type_invariant]
    spec fn wf(&self) -> bool {
        match self.kind {
            AudioSourceKind::DirectAudio { audio_path } => {
                &&& self.track_index is None
                &&& audio_path@ == self.original_path@
            },
            AudioSourceKind::VideoTrack { video_path, track_index } => {
                &&& self.track_index == Some(track_index)
                &&& video_path@ == self.original_path@
            },
        }
    }

    /// The source for a plain audio file.
    pub fn from_audio_file(path: String) -> (source: Self)
        ensures
            source@ == (WorkItemKey { original_path: path@, track_index: None }),
    {
        AudioSource {
            original_path: path.clone(),
            track_index: None,
            kind: AudioSourceKind::DirectAudio { audio_path: path },
        }
    }

    /// The source for the audio stream `track_index` of a video.
    pub fn from_video_track(path: String, track_index: u32) -> (source: Self)
        ensures
            source@ == (WorkItemKey { original_path: path@, track_index: Some(track_index) }),
    {
        AudioSource {
            original_path: path.clone(),
            track_index: Some(track_index),
            kind: AudioSourceKind::VideoTrack { video_path: path, track_index },
        }
    }

    /// Path of the media file the work item is about.
    pub fn original_path(&self) -> (path: &str)
        ensures
            path@ == self@.original_path,
    {
        self.original_path.as_str()
    }

    /// Index of the audio stream, for a track of a video.
    pub fn track_index(&self) -> (track: Option<u32>)
        ensures
            track == self@.track_index,
    {
        self.track_index
    }

    /// How the source is called in messages.
    pub open spec fn spec_display_name(key: WorkItemKey) -> Seq<char> {
        path_debug(key.original_path) + spec_track_suffix(key.track_index, None)
    }

    /// How the source is called in messages: the media file in quotes
    /// and, for a track of a video, the track.
    pub fn display_name(&self) -> (name: String)
        ensures
            name@ == Self::spec_display_name(self@),
    {
        let mut name = debug_quoted(self.original_path.as_str());
        let suffix = track_suffix(self.track_index, None);
        name.append(suffix.as_str());
        name
    }

    /// The file the transcoder reads.
    pub fn input_path(&self) -> (path: &str)
        ensures
            path@ == self@.original_path,
    {
        proof {
            use_type_invariant(self);
        }
        match &self.kind {
            AudioSourceKind::DirectAudio { audio_path } => audio_path.as_str(),
            AudioSourceKind::VideoTrack { video_path, .. } => video_path.as_str(),
        }
    }

    /// The stream selector of the source, if it is a track of a video.
    pub open spec fn spec_map_arg(key: WorkItemKey) -> Option<Seq<char>> {
        match key.track_index {
            Some(track) => Some(spec_stream_selector(track)),
            None => None,
        }
    }

    /// The stream selector handed to the transcoder, for a track of a
    /// video.
    pub fn map_arg(&self) -> (selector: Option<String>)
        ensures
            text_of(selector) == Self::spec_map_arg(self@),
    {
        proof {
            use_type_invariant(self);
        }
        match (&self.kind, self.track_index) {
            (AudioSourceKind::VideoTrack { .. }, Some(track)) => Some(stream_selector(track)),
            _ => None,
        }
    }

    /// Where the full-length audio of the source is found: the file
    /// itself for plain audio, the demuxed track for a video.
    pub open spec fn spec_full_audio_path(key: WorkItemKey) -> Seq<char> {
        match key.track_index {
            Some(track) => spec_audio_track_path(key.original_path, track),
            None => key.original_path,
        }
    }

    /// Says where the full-length audio of the source is to be found and
    /// whether it has to be made first: a plain audio file is used as it
    /// is and never cleaned up, a track of a video is demuxed to a file
    /// of its own that is removed after use.
    pub fn full_audio(&self) -> (audio: MaterializedAudio)
        ensures
            audio.path@ == Self::spec_full_audio_path(self@),
            audio.cleanup == (self@.track_index is Some),
    {
        proof {
            use_type_invariant(self);
        }
        match &self.kind {
            AudioSourceKind::DirectAudio { audio_path } => MaterializedAudio {
                path: audio_path.clone(),
                cleanup: false,
            },
            AudioSourceKind::VideoTrack { video_path, track_index } => MaterializedAudio {
                path: audio_track_path(video_path.as_str(), *track_index),
                cleanup: true,
            },
        }
    }
}

} // verus!
