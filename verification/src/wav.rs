//! Reading the resampled audio that the detector works on.
//!
//! The bytes of the file are decoded by the `hound` crate; which format
//! is accepted, and what is reported otherwise, is decided here.

use vstd::prelude::*;
use crate::messages::{spec_unsuitable_wav, unsuitable_wav_text};
use crate::timeline::VAD_SAMPLE_RATE;

verus! {

/// The error type of the `hound` crate.
#[verifier::external_type_specification]
#[verifier::external_body]
pub struct ExHoundError(hound::Error);

/// The properties of the audio in a WAVE file that the detector cares
/// about.
#[derive(Clone, Copy, Debug, PartialEq, Eq, Structural)]
pub struct WavFormat {
    /// Samples per second.
    pub sample_rate: u32,
    /// Number of channels.
    pub channels: u16,
    /// Bits per sample.
    pub bits_per_sample: u16,
}

/// The format that `hound::WavReader` finds in the header of the WAVE
/// file `bytes`, if it accepts the header.
pub uninterp spec fn wav_format_of(bytes: Seq<u8>) -> Option<WavFormat>;

/// The samples that `hound::WavReader` decodes from the WAVE file
/// `bytes` as 16-bit integers, if it decodes all of them.
pub uninterp spec fn wav_samples_of(bytes: Seq<u8>) -> Option<Seq<i16>>;

/// Opens `bytes` with `hound::WavReader::new` and hands back the
/// channels, sample rate and bits per sample of `WavReader::spec`; the
/// contract only names what the reader finds.
#[verifier::external_body]
fn wav_header(bytes: &[u8]) -> (header: Result<WavFormat, hound::Error>)
    ensures
        match header {
            Ok(format) => wav_format_of(bytes@) == Some(format),
            Err(_) => wav_format_of(bytes@) is None,
        },
{
    let spec = hound::WavReader::new(bytes)?.spec();
    Ok(
        WavFormat {
            sample_rate: spec.sample_rate,
            channels: spec.channels,
            bits_per_sample: spec.bits_per_sample,
        },
    )
}

/// Opens `bytes` with `hound::WavReader::new` and collects what
/// `WavReader::into_samples::<i16>` yields, up to its first error; the
/// contract only names what the reader decodes.
#[verifier::external_body]
fn wav_samples(bytes: &[u8]) -> (samples: Result<Vec<i16>, hound::Error>)
    ensures
        match samples {
            Ok(decoded) => wav_samples_of(bytes@) == Some(decoded@),
            Err(_) => wav_samples_of(bytes@) is None,
        },
{
    hound::WavReader::new(bytes)?.into_samples::<i16>().collect()
}

/// The text of a `hound::Error`, as its `Display` implementation gives
/// it. Nothing is claimed of the text.
#[verifier::external_body]
fn decode_error_text(error: &hound::Error) -> (text: String) {
    error.to_string()
}

/// Why the audio for the detector could not be read.
#[derive(Clone, Debug, PartialEq, Eq)]
pub enum WavError {
    /// The bytes are no WAVE file that can be decoded; the text says
    /// what the decoder found.
    Decode(String),
    /// The audio is not mono, 16 kHz, 16 bits per sample.
    UnsuitableFormat,
}

impl WavError {
    /// What the error says.
    pub fn message(&self) -> (text: String)
        ensures
            match self {
                WavError::Decode(reason) => text@ == reason@,
                WavError::UnsuitableFormat => text@ == spec_unsuitable_wav(),
            },
    {
        match self {
            WavError::Decode(reason) => reason.clone(),
            WavError::UnsuitableFormat => unsuitable_wav_text(),
        }
    }
}

/// Whether `format` is what the detector reads: one channel, 16 kHz,
/// 16 bits per sample.
pub open spec fn spec_accepts_format(format: WavFormat) -> bool {
    format.sample_rate == 16_000 && format.channels == 1 && format.bits_per_sample == 16
}

/// Whether `format` is what the detector reads.
pub fn accepts_format(format: &WavFormat) -> (accepted: bool)
    ensures
        accepted == spec_accepts_format(*format),
{
    format.sample_rate == VAD_SAMPLE_RATE && format.channels == 1 && format.bits_per_sample == 16
}

/// What reading a WAVE file comes to, given what the decoder makes of
/// its header and of its samples: the samples when the header is
/// accepted, the format suits the detector and every sample decodes.
pub open spec fn spec_read_outcome(format: Option<WavFormat>, samples: Option<Seq<i16>>) -> Option<
    Seq<i16>,
> {
    match format {
        Some(found) => if spec_accepts_format(found) {
            samples
        } else {
            None
        },
        None => None,
    }
}

/// Decodes the WAVE file `bytes` into the samples the detector reads. A
/// file that cannot be decoded, and one in another format than mono,
/// 16 kHz, 16 bits, is refused; the format is looked at before any
/// sample is decoded.
pub fn read_wav_samples(bytes: &[u8]) -> (outcome: Result<Vec<i16>, WavError>)
    ensures
        match outcome {
            Ok(samples) => spec_read_outcome(wav_format_of(bytes@), wav_samples_of(bytes@))
                == Some(samples@),
            Err(_) => spec_read_outcome(wav_format_of(bytes@), wav_samples_of(bytes@)) is None,
        },
        outcome matches Err(error) ==> (error == WavError::UnsuitableFormat <==> (
        wav_format_of(bytes@) matches Some(found) && !spec_accepts_format(found))),
{
    let format = match wav_header(bytes) {
        Ok(format) => format,
        Err(error) => {
            return Err(WavError::Decode(decode_error_text(&error)));
        },
    };
    if !accepts_format(&format) {
        return Err(WavError::UnsuitableFormat);
    }
    match wav_samples(bytes) {
        Ok(samples) => Ok(samples),
        Err(error) => Err(WavError::Decode(decode_error_text(&error))),
    }
}

} // verus!
