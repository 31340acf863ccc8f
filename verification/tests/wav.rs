use autoasr::wav::{accepts_format, read_wav_samples, WavError, WavFormat};

fn wav_bytes(sample_rate: u32, channels: u16, bits_per_sample: u16, samples: &[i16]) -> Vec<u8> {
    let spec = hound::WavSpec {
        channels,
        sample_rate,
        bits_per_sample,
        sample_format: hound::SampleFormat::Int,
    };
    let mut cursor = std::io::Cursor::new(Vec::new());
    {
        let mut writer = hound::WavWriter::new(&mut cursor, spec).unwrap();
        for sample in samples {
            if bits_per_sample == 8 {
                writer.write_sample((*sample / 256) as i8).unwrap();
            } else {
                writer.write_sample(*sample).unwrap();
            }
        }
        writer.finalize().unwrap();
    }
    cursor.into_inner()
}

#[test]
fn suitable_audio_is_decoded() {
    let samples = [0, 1, -1, 32767, -32768, 1234];
    let bytes = wav_bytes(16_000, 1, 16, &samples);
    assert_eq!(read_wav_samples(&bytes), Ok(samples.to_vec()));
    let bytes = wav_bytes(16_000, 1, 16, &[]);
    assert_eq!(read_wav_samples(&bytes), Ok(Vec::new()));
}

#[test]
fn other_formats_are_refused() {
    let samples = [0, 1, -1, 300];
    assert_eq!(
        read_wav_samples(&wav_bytes(44_100, 1, 16, &samples)),
        Err(WavError::UnsuitableFormat)
    );
    assert_eq!(
        read_wav_samples(&wav_bytes(16_000, 2, 16, &samples)),
        Err(WavError::UnsuitableFormat)
    );
    assert_eq!(
        read_wav_samples(&wav_bytes(16_000, 1, 8, &samples)),
        Err(WavError::UnsuitableFormat)
    );
    assert_eq!(WavError::UnsuitableFormat.message(), "生成的 WAV 格式不符合 VAD 要求");
}

#[test]
fn what_is_no_wave_file_is_refused() {
    assert!(matches!(read_wav_samples(b"not a wave file at all"), Err(WavError::Decode(_))));
    assert!(matches!(read_wav_samples(&[]), Err(WavError::Decode(_))));
    let mut bytes = wav_bytes(16_000, 1, 16, &[1, 2, 3, 4]);
    bytes.truncate(bytes.len() - 3);
    let outcome = read_wav_samples(&bytes);
    assert!(matches!(outcome, Err(WavError::Decode(_))));
    if let Err(error) = outcome {
        assert!(!error.message().is_empty());
    }
}

#[test]
fn the_detector_reads_mono_16_khz_16_bit() {
    assert!(accepts_format(&WavFormat { sample_rate: 16_000, channels: 1, bits_per_sample: 16 }));
    assert!(!accepts_format(&WavFormat { sample_rate: 8_000, channels: 1, bits_per_sample: 16 }));
    assert!(!accepts_format(&WavFormat { sample_rate: 16_000, channels: 2, bits_per_sample: 16 }));
    assert!(!accepts_format(&WavFormat { sample_rate: 16_000, channels: 1, bits_per_sample: 24 }));
}
