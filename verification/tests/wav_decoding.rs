use std::io::Cursor;

use convolution_plug::wav::{
    checked_full_scale, decode_samples, deinterleave, max_value_from_bits, read_wav, DecodeError,
    SampleData, SampleEncoding,
};

fn wav_bytes_int(channels: u16, bits_per_sample: u16, samples: &[i32]) -> Vec<u8> {
    let spec = hound::WavSpec {
        channels,
        sample_rate: 44100,
        bits_per_sample,
        sample_format: hound::SampleFormat::Int,
    };
    let mut buf = Vec::new();
    {
        let mut writer = hound::WavWriter::new(Cursor::new(&mut buf), spec).unwrap();
        for s in samples {
            writer.write_sample(*s).unwrap();
        }
        writer.finalize().unwrap();
    }
    buf
}

fn wav_bytes_float(channels: u16, samples: &[f32]) -> Vec<u8> {
    let spec = hound::WavSpec {
        channels,
        sample_rate: 48000,
        bits_per_sample: 32,
        sample_format: hound::SampleFormat::Float,
    };
    let mut buf = Vec::new();
    {
        let mut writer = hound::WavWriter::new(Cursor::new(&mut buf), spec).unwrap();
        for s in samples {
            writer.write_sample(*s).unwrap();
        }
        writer.finalize().unwrap();
    }
    buf
}

fn sine(len: usize, bit_depth: u16) -> Vec<i32> {
    let scale = max_value_from_bits(bit_depth) as f32;
    (0..len)
        .map(|x| x as f32 / len as f32)
        .map(|t| ((t * 440.0 * 2.0 * std::f32::consts::PI).sin() * scale) as i32)
        .collect()
}

#[test]
fn sanity() {
    assert_eq!((max_value_from_bits(8) - 1) as i8, i8::MAX);
    assert_eq!((max_value_from_bits(16) - 1) as i16, i16::MAX);
    assert_eq!((max_value_from_bits(32) - 1) as i32, i32::MAX);
}

#[test]
fn max_value_from_bits_extremes() {
    assert_eq!(max_value_from_bits(1), 1);
    assert_eq!(max_value_from_bits(24), 8_388_608);
    assert_eq!(max_value_from_bits(63), 1i64 << 62);
}

#[test]
fn checked_full_scale_bounds() {
    assert_eq!(checked_full_scale(0), None);
    assert_eq!(checked_full_scale(1), Some(1));
    assert_eq!(checked_full_scale(16), Some(32768));
    assert_eq!(checked_full_scale(63), Some(1i64 << 62));
    assert_eq!(checked_full_scale(64), None);
    assert_eq!(checked_full_scale(u16::MAX), None);
}

fn approx_eq(a: f32, b: f32, epsilon: f32) -> bool {
    (a - b).abs() <= epsilon
}

fn sine_f32(len: usize) -> Vec<f32> {
    (0..len)
        .map(|x| x as f32 / len as f32)
        .map(|t| (t * 440.0 * 2.0 * std::f32::consts::PI).sin())
        .collect()
}

fn write_then_decode_with_bits(bit_depth: u16) {
    let cmp_samples = sine_f32(100);
    let written = sine(100, bit_depth);
    let bytes = wav_bytes_int(1, bit_depth, &written);
    let decoded = decode_samples(&bytes).unwrap();
    assert_eq!(decoded.sample_rate, 44100);
    assert_eq!(decoded.num_channels, 1);
    match decoded.data {
        SampleData::Int { samples, full_scale } => {
            assert!(samples.len() == 1);
            assert_eq!(samples[0], written);
            assert_eq!(full_scale, max_value_from_bits(bit_depth));
            let epsilon = (max_value_from_bits(bit_depth) as f32).recip();
            for (original_sample, res_sample) in cmp_samples.iter().zip(&samples[0]) {
                let res_sample = *res_sample as f32 / full_scale as f32;
                assert!(approx_eq(*original_sample, res_sample, epsilon));
            }
        }
        SampleData::Float => panic!("integer data decoded as float"),
    }
}

#[test]
fn samples_16_bit() {
    write_then_decode_with_bits(16);
}

#[test]
fn samples_24_bit() {
    write_then_decode_with_bits(24);
}

#[test]
fn samples_32_bit() {
    write_then_decode_with_bits(32);
}

#[test]
fn decode_multi_channel() {
    let cmp_samples = sine_f32(100);
    let left = sine(100, 16);
    let mut samples_to_write = Vec::new();
    for s in &left {
        samples_to_write.push(*s);
        samples_to_write.push(0);
    }
    let bytes = wav_bytes_int(2, 16, &samples_to_write);
    let decoded = decode_samples(&bytes).unwrap();
    assert_eq!(decoded.num_channels, 2);
    match decoded.data {
        SampleData::Int { samples, full_scale } => {
            assert_eq!(samples.len(), 2);
            assert_eq!(samples[0], left);
            assert_eq!(full_scale, 32768);
            let epsilon = (max_value_from_bits(16) as f32).recip();
            for (original_sample, res_sample) in cmp_samples.iter().zip(&samples[0]) {
                assert!(approx_eq(
                    *original_sample,
                    *res_sample as f32 / full_scale as f32,
                    epsilon
                ));
            }
            assert_eq!(samples[1], vec![0; samples[0].len()]);
        }
        SampleData::Float => panic!("integer data decoded as float"),
    }
}

#[test]
fn decode_decode_samples_f32() {
    let samples = sine_f32(100);
    let bytes = wav_bytes_float(1, &samples);
    let decoded = decode_samples(&bytes).unwrap();
    assert_eq!(decoded.num_channels, 1);
    assert_eq!(decoded.data, SampleData::Float);
    let interleaved = hound::WavReader::new(bytes.as_slice())
        .unwrap()
        .samples::<f32>()
        .collect::<Result<Vec<f32>, _>>()
        .unwrap();
    let result_samples = deinterleave(&interleaved, decoded.num_channels as usize);
    assert_eq!(samples, result_samples[0]);
}

#[test]
fn read_wav_keeps_interleaved_order() {
    let interleaved = vec![1, -1, 2, -2, 3, -3];
    let bytes = wav_bytes_int(2, 16, &interleaved);
    let contents = read_wav(&bytes).unwrap();
    assert_eq!(contents.format.channels, 2);
    assert_eq!(contents.format.bits_per_sample, 16);
    assert_eq!(contents.format.encoding, SampleEncoding::Int);
    match contents.data {
        SampleData::Int { samples, full_scale } => {
            assert_eq!(samples, interleaved);
            assert_eq!(full_scale, 32768);
        }
        SampleData::Float => panic!("integer data read as float"),
    }
}

#[test]
fn float_data_reports_format_only() {
    let bytes = wav_bytes_float(2, &[0.5, -0.5, 0.25, -0.25]);
    let decoded = decode_samples(&bytes).unwrap();
    assert_eq!(decoded.sample_rate, 48000);
    assert_eq!(decoded.num_channels, 2);
    assert_eq!(decoded.data, SampleData::Float);
    let contents = read_wav(&bytes).unwrap();
    assert_eq!(contents.format.encoding, SampleEncoding::Float);
    assert_eq!(contents.format.bits_per_sample, 32);
}

#[test]
fn invalid_wav_is_rejected() {
    let result = decode_samples(b"not a wav file at all");
    assert!(matches!(result, Err(DecodeError::InvalidWav(_))));
    let result = read_wav(&[]);
    assert!(matches!(result, Err(DecodeError::InvalidWav(_))));
}

#[test]
fn truncated_data_is_rejected() {
    let mut bytes = wav_bytes_int(1, 16, &[1, 2, 3, 4]);
    bytes.truncate(bytes.len() - 3);
    assert!(matches!(decode_samples(&bytes), Err(DecodeError::InvalidWav(_))));
}

/// A WAVE_FORMAT_EXTENSIBLE header announcing 64 valid bits per integer
/// sample, with an empty data chunk.
fn extensible_header_64_bit() -> Vec<u8> {
    let mut b = Vec::new();
    b.extend_from_slice(b"RIFF");
    b.extend_from_slice(&(4u32 + 8 + 40 + 8).to_le_bytes());
    b.extend_from_slice(b"WAVE");
    b.extend_from_slice(b"fmt ");
    b.extend_from_slice(&40u32.to_le_bytes());
    b.extend_from_slice(&0xfffeu16.to_le_bytes());
    b.extend_from_slice(&1u16.to_le_bytes());
    b.extend_from_slice(&44100u32.to_le_bytes());
    b.extend_from_slice(&(44100u32 * 8).to_le_bytes());
    b.extend_from_slice(&8u16.to_le_bytes());
    b.extend_from_slice(&64u16.to_le_bytes());
    b.extend_from_slice(&22u16.to_le_bytes());
    b.extend_from_slice(&64u16.to_le_bytes());
    b.extend_from_slice(&0u32.to_le_bytes());
    b.extend_from_slice(&[
        0x01, 0x00, 0x00, 0x00, 0x00, 0x00, 0x10, 0x00, 0x80, 0x00, 0x00, 0xaa, 0x00, 0x38, 0x9b,
        0x71,
    ]);
    b.extend_from_slice(b"data");
    b.extend_from_slice(&0u32.to_le_bytes());
    b
}

#[test]
fn oversized_bit_depth_is_rejected() {
    let bytes = extensible_header_64_bit();
    assert!(matches!(
        decode_samples(&bytes),
        Err(DecodeError::UnsupportedBitDepth(64))
    ));
    assert!(matches!(
        read_wav(&bytes),
        Err(DecodeError::UnsupportedBitDepth(64))
    ));
}

#[test]
fn deinterleave_splits_frames_into_channels() {
    let frames = vec![1.0f32, 2.0, 3.0, 4.0, 5.0, 6.0];
    let channels = deinterleave(&frames, 3);
    assert_eq!(channels, vec![vec![1.0, 4.0], vec![2.0, 5.0], vec![3.0, 6.0]]);
    let mono = deinterleave(&frames, 1);
    assert_eq!(mono, vec![frames.clone()]);
    let empty: Vec<Vec<i32>> = deinterleave(&Vec::<i32>::new(), 2);
    assert_eq!(empty, vec![Vec::<i32>::new(), Vec::new()]);
}

#[test]
fn deinterleave_then_interleave_round_trips() {
    let frames: Vec<i32> = (0..40).collect();
    let channels = deinterleave(&frames, 4);
    let mut back = Vec::new();
    for k in 0..10 {
        for c in 0..4 {
            back.push(channels[c][k]);
        }
    }
    assert_eq!(back, frames);
}
