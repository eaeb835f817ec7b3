use s_rack::synth::sample::WaveBox;
use s_rack::synth::wave::{decode_floats, decode_ints, take_first_channel, DecodeError, WavHeader};
use std::io::Cursor;

fn scale(x: i32, bits: u16) -> u32 {
    (x as f32 / 2.0_f32.powi(i32::from(bits) - 1)).to_bits()
}

fn wav_ints(channels: u16, bits: u16, samples: &[i32]) -> Vec<u8> {
    let spec = hound::WavSpec {
        channels,
        sample_rate: 22050,
        bits_per_sample: bits,
        sample_format: hound::SampleFormat::Int,
    };
    let mut data = Cursor::new(Vec::new());
    {
        let mut writer = hound::WavWriter::new(&mut data, spec).unwrap();
        for s in samples {
            writer.write_sample(*s).unwrap();
        }
        writer.finalize().unwrap();
    }
    data.into_inner()
}

fn wav_floats(channels: u16, samples: &[f32]) -> Vec<u8> {
    let spec = hound::WavSpec {
        channels,
        sample_rate: 44100,
        bits_per_sample: 32,
        sample_format: hound::SampleFormat::Float,
    };
    let mut data = Cursor::new(Vec::new());
    {
        let mut writer = hound::WavWriter::new(&mut data, spec).unwrap();
        for s in samples {
            writer.write_sample(*s).unwrap();
        }
        writer.finalize().unwrap();
    }
    data.into_inner()
}

/// The samples of WAV data read as floating-point numbers, by their bit
/// patterns, where the data can be read so.
fn floats(data: &Vec<u8>) -> Option<Vec<u32>> {
    hound::WavReader::new(Cursor::new(data.as_slice()))
        .ok()?
        .into_samples::<f32>()
        .map(|sample| sample.map(f32::to_bits))
        .collect::<Result<Vec<u32>, hound::Error>>()
        .ok()
}

fn load(wave: &mut WaveBox, data: &Vec<u8>, scale: fn(i32, u16) -> u32) -> Result<(), DecodeError> {
    let read = floats(data);
    wave.load(data, read.as_ref(), scale)
}

fn heard(wave: &WaveBox) -> Vec<f32> {
    wave.samples.iter().map(|x| f32::from_bits(*x)).collect()
}

#[test]
fn integer_samples_are_read_and_scaled() {
    let mut wave = WaveBox::new();
    let data = wav_ints(1, 16, &[0, 16384, -32768, 32767]);
    assert_eq!(load(&mut wave, &data, scale), Ok(()));
    assert_eq!(heard(&wave), vec![0.0, 0.5, -1.0, 32767.0 / 32768.0]);
    assert_eq!(wave.sample_rate, 22050);
    assert!(wave.fresh);
    assert_eq!(load(&mut wave, &wav_ints(1, 8, &[64, -128]), scale), Ok(()));
    assert_eq!(heard(&wave), vec![0.5, -1.0]);
    assert_eq!(load(&mut wave, &wav_ints(1, 24, &[4194304, -8388608]), scale), Ok(()));
    assert_eq!(heard(&wave), vec![0.5, -1.0]);
    assert_eq!(load(&mut wave, &wav_ints(1, 32, &[1073741824, i32::MIN]), scale), Ok(()));
    assert_eq!(heard(&wave), vec![0.5, -1.0]);
}

#[test]
fn only_the_first_channel_is_kept() {
    let mut wave = WaveBox::new();
    let data = wav_ints(2, 16, &[16384, 1, -16384, 2, 8192, 3]);
    assert_eq!(load(&mut wave, &data, scale), Ok(()));
    assert_eq!(heard(&wave), vec![0.5, -0.5, 0.25]);
    let data = wav_floats(3, &[0.5, 9.0, 9.0, -0.25, 9.0, 9.0]);
    assert_eq!(load(&mut wave, &data, scale), Ok(()));
    assert_eq!(heard(&wave), vec![0.5, -0.25]);
    assert_eq!(take_first_channel(&vec![1, 2, 3, 4, 5], 2), vec![1, 3, 5]);
    assert_eq!(take_first_channel(&vec![1, 2, 3, 4, 5], 1), vec![1, 2, 3, 4, 5]);
    assert_eq!(take_first_channel(&vec![1, 2, 3, 4, 5], 7), vec![1]);
    assert_eq!(take_first_channel(&Vec::<u8>::new(), 2), vec![]);
}

#[test]
fn floating_point_samples_are_taken_as_they_are() {
    let mut wave = WaveBox::new();
    let samples = [0.0, 1.0, -1.0, 0.1, f32::MIN_POSITIVE, 1.0e-45, 3.5];
    let data = wav_floats(1, &samples);
    assert_eq!(load(&mut wave, &data, |_, _| panic!("no integer to scale")), Ok(()));
    // without the numbers read there is no recording
    assert_eq!(wave.load(&data, None, scale), Err(DecodeError::Wav));
    assert_eq!(wave.samples.len(), 0);
    assert_eq!(load(&mut wave, &data, scale), Ok(()));
    assert_eq!(heard(&wave), samples.to_vec());
    assert_eq!(wave.sample_rate, 44100);
    assert!(wave.fresh);
}

#[test]
fn what_is_no_wav_data_is_refused() {
    let mut wave = WaveBox::new();
    load(&mut wave, &wav_ints(1, 16, &[16384]), scale).unwrap();
    wave.fresh = false;
    assert_eq!(load(&mut wave, &vec![], scale), Err(DecodeError::Wav));
    assert_eq!(load(&mut wave, &b"RIFF0000WAVE".to_vec(), scale), Err(DecodeError::Wav));
    assert_eq!(load(&mut wave, &vec![0; 100], scale), Err(DecodeError::Wav));
    // such data leaves the recording as it was
    assert_eq!(heard(&wave), vec![0.5]);
    assert_eq!(wave.sample_rate, 22050);
    assert!(!wave.fresh);
    // data that ends early has a header, so the recording is emptied
    let mut data = wav_ints(1, 16, &[1, 2, 3, 4]);
    data.truncate(data.len() - 3);
    assert_eq!(load(&mut wave, &data, scale), Err(DecodeError::Wav));
    assert_eq!(wave.samples.len(), 0);
    assert!(!wave.fresh);
    let mut data = wav_floats(1, &[1.0, 2.0]);
    data.truncate(data.len() - 1);
    assert_eq!(load(&mut wave, &data, scale), Err(DecodeError::Wav));
    assert_eq!(DecodeError::Wav.message(), "Error reading wav file");
    assert_eq!(DecodeError::BitDepth.message(), "Error decoding wav file");
}

fn header(channels: u16, bits: u16, float: bool) -> WavHeader {
    WavHeader { channels, sample_rate: 8000, bits_per_sample: bits, float }
}

#[test]
fn samples_of_an_unknown_width_are_refused() {
    let ints = vec![1, 2, 3];
    let words = vec![7, 8, 9];
    for bits in [0, 1, 12, 20, 31, 33, 64] {
        assert_eq!(decode_ints(&header(1, bits, false), &ints, scale), Err(DecodeError::BitDepth));
        assert_eq!(
            WaveBox::decode(Some(header(1, bits, false)), Some(&ints), None, scale),
            Err(DecodeError::BitDepth)
        );
        assert_eq!(
            WaveBox::decode(Some(header(1, bits, false)), None, None, scale),
            Err(DecodeError::BitDepth)
        );
    }
    for bits in [8, 16, 24, 64] {
        assert_eq!(decode_floats(&header(1, bits, true), &words), Err(DecodeError::BitDepth));
        assert_eq!(
            WaveBox::decode(Some(header(1, bits, true)), None, None, scale),
            Err(DecodeError::BitDepth)
        );
    }
    assert_eq!(decode_ints(&header(0, 16, false), &ints, scale), Err(DecodeError::Wav));
    assert_eq!(decode_floats(&header(0, 32, true), &words), Err(DecodeError::Wav));
    assert_eq!(WaveBox::decode(None, Some(&ints), Some(&words), scale), Err(DecodeError::Wav));
    assert_eq!(
        WaveBox::decode(Some(header(1, 16, false)), None, Some(&words), scale),
        Err(DecodeError::Wav)
    );
    assert_eq!(
        WaveBox::decode(Some(header(1, 32, true)), Some(&ints), None, scale),
        Err(DecodeError::Wav)
    );
}

#[test]
fn floating_point_samples_are_kept_by_their_bits() {
    let words = vec![0x3f80_0000, 0x0403_0201, 0xffff_ffff];
    assert_eq!(decode_floats(&header(1, 32, true), &words), Ok(words.clone()));
    assert_eq!(decode_floats(&header(2, 32, true), &words), Ok(vec![0x3f80_0000, 0xffff_ffff]));
    assert_eq!(decode_floats(&header(1, 32, true), &vec![]), Ok(vec![]));
    assert_eq!(
        WaveBox::decode(Some(header(3, 32, true)), None, Some(&words), scale),
        Ok(vec![0x3f80_0000])
    );
    // integer data is read as integers, whatever else was read
    assert_eq!(
        WaveBox::decode(Some(header(1, 16, false)), Some(&vec![16384]), Some(&words), scale),
        Ok(vec![0.5_f32.to_bits()])
    );
}
