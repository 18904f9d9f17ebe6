use std::io::Cursor;
use whisper_server_http::audio::{
    neighbours, parse_raw_pcm, parse_wav, resample_plan, sample_encoding, ResamplePlan,
    SampleEncoding, WavAudio, WavError, WavHeader,
};

fn spec(channels: u16, sample_rate: u32, bits_per_sample: u16, float: bool) -> hound::WavSpec {
    hound::WavSpec {
        channels,
        sample_rate,
        bits_per_sample,
        sample_format: if float {
            hound::SampleFormat::Float
        } else {
            hound::SampleFormat::Int
        },
    }
}

fn int_file(spec: hound::WavSpec, samples: &[i32]) -> Vec<u8> {
    let mut cursor = Cursor::new(Vec::new());
    let mut writer = hound::WavWriter::new(&mut cursor, spec).unwrap();
    for &sample in samples {
        writer.write_sample(sample).unwrap();
    }
    writer.finalize().unwrap();
    cursor.into_inner()
}

fn pcm(data: &[u8]) -> (Vec<i32>, i64, u32) {
    match parse_wav(data) {
        Ok(WavAudio::Pcm { audio, sample_rate }) => (audio.samples, audio.full_scale, sample_rate),
        other => panic!("{:?}", other),
    }
}

#[test]
fn raw_samples_are_little_endian() {
    let audio = parse_raw_pcm(&[0x01, 0x00, 0xff, 0xff, 0x00, 0x80, 0xff, 0x7f]);
    assert_eq!(audio.samples, vec![1, -1, -32768, 32767]);
    assert_eq!(audio.full_scale, 32768);
}

#[test]
fn raw_samples_ignore_an_odd_byte() {
    assert_eq!(parse_raw_pcm(&[0x34, 0x12, 0x56]).samples, vec![0x1234]);
    assert_eq!(parse_raw_pcm(&[0x34]).samples, Vec::<i32>::new());
    assert_eq!(parse_raw_pcm(&[]).samples, Vec::<i32>::new());
}

#[test]
fn raw_samples_read_back() {
    let samples: Vec<i16> = vec![0, 1, -1, 255, 256, -256, i16::MIN, i16::MAX];
    let bytes: Vec<u8> = samples.iter().flat_map(|sample| sample.to_le_bytes()).collect();
    let read: Vec<i32> = samples.iter().map(|&sample| sample as i32).collect();
    assert_eq!(parse_raw_pcm(&bytes).samples, read);
}

#[test]
fn plain_mono_file_reads_back() {
    let file: Vec<u8> = vec![
        0x52, 0x49, 0x46, 0x46, 0x2a, 0x00, 0x00, 0x00, 0x57, 0x41, 0x56, 0x45, 0x66, 0x6d, 0x74,
        0x20, 0x10, 0x00, 0x00, 0x00, 0x01, 0x00, 0x01, 0x00, 0x80, 0x3e, 0x00, 0x00, 0x00, 0x7d,
        0x00, 0x00, 0x02, 0x00, 0x10, 0x00, 0x64, 0x61, 0x74, 0x61, 0x06, 0x00, 0x00, 0x00, 0x01,
        0x00, 0xfe, 0xff, 0x00, 0x80,
    ];
    assert_eq!(pcm(&file), (vec![1, -2, -32768], 32768, 16000));
    assert_eq!(int_file(spec(1, 16000, 16, false), &[1, -2, -32768]), file);
}

#[test]
fn depths_have_their_full_scale() {
    let file = int_file(spec(1, 8000, 8, false), &[-128, 0, 127]);
    assert_eq!(pcm(&file), (vec![-128, 0, 127], 128, 8000));
    let file = int_file(spec(1, 48000, 24, false), &[-8388608, 8388607]);
    assert_eq!(pcm(&file), (vec![-8388608, 8388607], 8388608, 48000));
}

#[test]
fn channels_stay_interleaved() {
    let file = int_file(spec(2, 44100, 16, false), &[1, 2, 3, 4]);
    assert_eq!(pcm(&file), (vec![1, 2, 3, 4], 32768, 44100));
}

#[test]
fn unreadable_samples_are_left_out() {
    let mut file = int_file(spec(1, 16000, 16, false), &[5, 6, 7]);
    file.truncate(file.len() - 3);
    assert_eq!(pcm(&file).0, vec![5]);
}

#[test]
fn float_files_are_recognized() {
    let mut cursor = Cursor::new(Vec::new());
    let mut writer = hound::WavWriter::new(&mut cursor, spec(1, 22050, 32, true)).unwrap();
    writer.write_sample(0.5f32).unwrap();
    writer.finalize().unwrap();
    let file = cursor.into_inner();
    assert!(matches!(parse_wav(&file), Ok(WavAudio::Float { sample_rate: 22050 })));
}

#[test]
fn deep_files_are_read() {
    let file = int_file(spec(1, 16000, 32, false), &[1073741824, -2147483648]);
    let (samples, full_scale, sample_rate) = pcm(&file);
    assert_eq!((full_scale, sample_rate), (2147483648, 16000));
    let amplitudes: Vec<f32> = samples.iter().map(|&s| s as f32 / full_scale as f32).collect();
    assert_eq!(amplitudes, vec![0.5, -1.0]);
}

#[test]
fn plain_deep_files_are_read() {
    for (bits, samples) in [(24u16, vec![-8388608, 1, 8388607]), (32, vec![i32::MIN, 7, i32::MAX])] {
        let width = bits as u32 / 8;
        let len = width * samples.len() as u32;
        let mut file = b"RIFF".to_vec();
        file.extend((36 + len).to_le_bytes());
        file.extend(b"WAVEfmt \x10\x00\x00\x00\x01\x00\x01\x00");
        file.extend(44100u32.to_le_bytes());
        file.extend((width * 44100).to_le_bytes());
        file.extend((width as u16).to_le_bytes());
        file.extend(bits.to_le_bytes());
        file.extend(b"data");
        file.extend(len.to_le_bytes());
        for sample in &samples {
            file.extend(&sample.to_le_bytes()[..width as usize]);
        }
        assert_eq!(pcm(&file), (samples, 1i64 << (bits - 1), 44100));
    }
}

#[test]
fn files_that_are_too_deep_have_no_samples() {
    let mut file = int_file(spec(1, 16000, 32, false), &[1, 2]);
    assert_eq!(&file[36..40], &[22, 0, 32, 0]);
    file[38] = 40;
    assert_eq!(pcm(&file), (vec![], 2147483648, 16000));
}

#[test]
fn other_bytes_are_no_wav_file() {
    assert!(matches!(parse_wav(&[]), Err(WavError::Malformed)));
    assert!(matches!(parse_wav(&[1, 2, 3, 4]), Err(WavError::Malformed)));
    assert!(matches!(parse_wav(b"RIFF\x04\x00\x00\x00WAVE"), Err(WavError::Malformed)));
}

#[test]
fn encodings_follow_the_header() {
    let header = |bits_per_sample, float| WavHeader {
        channels: 1,
        sample_rate: 16000,
        bits_per_sample,
        float,
    };
    assert_eq!(sample_encoding(header(1, false)), SampleEncoding::Int { full_scale: 1 });
    assert_eq!(sample_encoding(header(16, false)), SampleEncoding::Int { full_scale: 32768 });
    assert_eq!(sample_encoding(header(31, false)), SampleEncoding::Int { full_scale: 1 << 30 });
    assert_eq!(sample_encoding(header(32, false)), SampleEncoding::Int { full_scale: 1 << 31 });
    assert_eq!(sample_encoding(header(40, false)), SampleEncoding::Int { full_scale: 1 << 31 });
    assert_eq!(sample_encoding(header(32, true)), SampleEncoding::Float);
}

#[test]
fn resampling_is_planned() {
    assert_eq!(resample_plan(0, 8000, 16000), ResamplePlan::Keep);
    assert_eq!(resample_plan(10, 16000, 16000), ResamplePlan::Keep);
    assert_eq!(resample_plan(10, 0, 0), ResamplePlan::Keep);
    assert_eq!(resample_plan(10, 0, 16000), ResamplePlan::Drop);
    assert_eq!(resample_plan(10, 16000, 0), ResamplePlan::Drop);
    assert_eq!(resample_plan(10, 8000, 16000), ResamplePlan::Interpolate);
}

#[test]
fn neighbours_end_with_the_last_sample() {
    assert_eq!(neighbours(0, 3), Some((0, 1)));
    assert_eq!(neighbours(1, 3), Some((1, 2)));
    assert_eq!(neighbours(2, 3), Some((2, 2)));
    assert_eq!(neighbours(3, 3), None);
    assert_eq!(neighbours(0, 0), None);
    assert_eq!(neighbours(usize::MAX, 3), None);
}
