use std::io::Cursor;

use convolution_plug::wav::{read_wav, SampleData};

fn sine(len: usize) -> Vec<f32> {
    (0..len)
        .map(|x| x as f32 / len as f32)
        .map(|t| (t * 440.0 * 2.0 * std::f32::consts::PI).sin())
        .collect()
}

fn write_test_file(num_samples: usize) -> (Vec<u8>, Vec<f32>) {
    let spec = hound::WavSpec {
        channels: 1,
        sample_rate: 44100,
        bits_per_sample: 32,
        sample_format: hound::SampleFormat::Int,
    };
    let samples = sine(num_samples);
    let mut buf = Vec::new();
    {
        let mut writer = hound::WavWriter::new(Cursor::new(&mut buf), spec).unwrap();
        for sample in &samples {
            let amplitude = i32::MAX as f32;
            writer.write_sample((sample * amplitude) as i32).unwrap();
        }
        writer.finalize().unwrap();
    }
    (buf, samples)
}

fn write_test_file_f32(len: usize) -> (Vec<u8>, Vec<f32>) {
    let spec = hound::WavSpec {
        channels: 1,
        sample_rate: 44100,
        bits_per_sample: 32,
        sample_format: hound::SampleFormat::Float,
    };
    let samples = sine(len);
    let mut buf = Vec::new();
    {
        let mut writer = hound::WavWriter::new(Cursor::new(&mut buf), spec).unwrap();
        for sample in &samples {
            writer.write_sample(*sample).unwrap();
        }
        writer.finalize().unwrap();
    }
    (buf, samples)
}

#[test]
fn decode_samples() {
    let (buf, samples) = write_test_file(100);
    let contents = read_wav(&buf).unwrap();
    assert_eq!(contents.format.sample_rate, 44100);
    let other: Vec<f32> = match contents.data {
        SampleData::Int { samples, full_scale } => samples
            .into_iter()
            .map(|s| s as f32 / full_scale as f32)
            .collect(),
        SampleData::Float => panic!("integer data read as float"),
    };
    assert_eq!(other.len(), samples.len());
    for (l, r) in samples.iter().zip(other) {
        assert!((*l - r).abs() <= 0.0000001);
    }
}

#[test]
fn util_decode_samples_f32() {
    let (buf, original_samples) = write_test_file_f32(100);
    let contents = read_wav(&buf).unwrap();
    assert_eq!(contents.data, SampleData::Float);
    let result_samples = hound::WavReader::new(buf.as_slice())
        .unwrap()
        .samples::<f32>()
        .collect::<Result<Vec<f32>, _>>()
        .unwrap();
    assert_eq!(original_samples, result_samples);
}
