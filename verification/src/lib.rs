//! Voice-activity segmentation, timeline assembly and scan planning for
//! batch transcription of media files.
//!
//! The crate holds what is decided when a directory of media files is
//! transcribed: which files still need a transcript, how a stream is cut
//! into speech and gap segments, what the external tools are asked to
//! do, and how the transcripts of the segments become one time-coded
//! document. Running the tools, the classifier and the transcription
//! service, and reading and writing files, is left to the caller.
//!
//! Times are whole nanoseconds and speech probabilities are thousandths;
//! see [`timeline`] and [`segment`].

pub mod api;
pub mod config;
pub mod detect;
pub mod discovery;
pub mod engine;
pub mod gaps;
pub mod log;
pub mod messages;
pub mod paths;
pub mod pipeline;
pub mod prober;
pub mod segment;
pub mod source;
pub mod srt;
pub mod text;
pub mod timeline;
pub mod transcoder;
pub mod wav;
