//! Reading recordings from WAV data.

use vstd::prelude::*;

use crate::synth::sample::WaveBox;
use crate::synth::ControlVoltage;

verus! {

/// What the header of WAV data says.
#[derive(Clone, Copy, Debug, PartialEq, Eq, Structural)]
pub struct WavHeader {
    /// The number of channels.
    pub channels: u16,
    /// The number of frames in a second.
    pub sample_rate: u32,
    /// The number of bits in a sample.
    pub bits_per_sample: u16,
    /// Whether the samples are floating-point numbers rather than integers.
    pub float: bool,
}

/// Why WAV data could not be read.
#[derive(Clone, Copy, Debug, PartialEq, Eq, Structural)]
pub enum DecodeError {
    /// The data is no WAV data that can be read.
    Wav,
    /// The samples have a number of bits that is not known.
    BitDepth,
}

impl DecodeError {
    /// The error in words.
    pub fn message(&self) -> (text: String)
        ensures
            text@ == match self {
                DecodeError::Wav => "Error reading wav file"@,
                DecodeError::BitDepth => "Error decoding wav file"@,
            },
    {
        match self {
            DecodeError::Wav => "Error reading wav file".to_owned(),
            DecodeError::BitDepth => "Error decoding wav file".to_owned(),
        }
    }
}

#[verifier::external_type_specification]
#[verifier::external_body]
pub struct ExHoundError(hound::Error);

/// The header that `hound` reads from WAV data, if it accepts the data.
pub uninterp spec fn wav_header_of(data: Seq<u8>) -> Option<WavHeader>;

/// The samples that `hound` reads from WAV data as integers, all channels
/// together, if it accepts the data and can read every sample so.
pub uninterp spec fn wav_ints_of(data: Seq<u8>) -> Option<Seq<i32>>;

/// Reads the header of WAV data with `hound::WavReader::new`, and takes
/// from the reader what `spec` says. The contract claims only that the
/// outcome depends on the data alone.
#[verifier::external_body]
fn wav_header(data: &Vec<u8>) -> (header: Result<WavHeader, hound::Error>)
    ensures
        match header {
            Ok(h) => wav_header_of(data@) == Some(h),
            Err(_) => wav_header_of(data@) is None,
        },
{
    let spec = hound::WavReader::new(std::io::Cursor::new(data.as_slice()))?.spec();
    let float = match spec.sample_format {
        hound::SampleFormat::Float => true,
        hound::SampleFormat::Int => false,
    };
    let (channels, sample_rate, bits_per_sample) = (spec.channels, spec.sample_rate, spec.bits_per_sample);
    Ok(WavHeader { channels, sample_rate, bits_per_sample, float })
}

/// Reads all samples of WAV data as integers with
/// `hound::WavReader::into_samples`; an error if `hound` refuses the data
/// or one of the samples. The contract claims only that the outcome
/// depends on the data alone.
#[verifier::external_body]
fn wav_samples(data: &Vec<u8>) -> (samples: Result<Vec<i32>, hound::Error>)
    ensures
        match samples {
            Ok(v) => wav_ints_of(data@) == Some(v@),
            Err(_) => wav_ints_of(data@) is None,
        },
{
    hound::WavReader::new(std::io::Cursor::new(data.as_slice()))?.into_samples::<i32>().collect()
}

/// The samples of the first of `channels` channels: those at the places
/// that are multiples of `channels`.
pub open spec fn first_channel<T>(samples: Seq<T>, channels: int) -> Seq<T>
    decreases samples.len(),
{
    if samples.len() == 0 {
        Seq::empty()
    } else {
        let rest = first_channel(samples.drop_last(), channels);
        if (samples.len() - 1) % channels == 0 {
            rest.push(samples.last())
        } else {
            rest
        }
    }
}

/// The bit depths of integer samples that can be read.
pub open spec fn known_depth(bits: u16) -> bool {
    bits == 8 || bits == 16 || bits == 24 || bits == 32
}

/// The samples of the first of `channels` channels.
pub fn take_first_channel<T: Copy>(samples: &Vec<T>, channels: u16) -> (kept: Vec<T>)
    requires
        channels >= 1,
    ensures
        kept@ == first_channel(samples@, channels as int),
{
    let mut kept: Vec<T> = Vec::new();
    let mut i: usize = 0;
    while i < samples.len()
        invariant
            i <= samples.len(),
            channels >= 1,
            kept@ == first_channel(samples@.subrange(0, i as int), channels as int),
        decreases samples.len() - i,
    {
        let ghost front = samples@.subrange(0, i as int);
        let ghost next = samples@.subrange(0, i + 1);
        assert(next.drop_last() =~= front);
        assert(next.last() == samples[i as int]);
        if i % (channels as usize) == 0 {
            kept.push(samples[i]);
        }
        i += 1;
    }
    assert(samples@.subrange(0, samples.len() as int) =~= samples@);
    kept
}

/// The samples of the first channel of integer data, each turned into a
/// sample by `scale`, which is given the integer and the bit depth.
///
/// An error for a bit depth that is not known, and for data without a
/// channel.
pub fn decode_ints<S: Fn(i32, u16) -> ControlVoltage>(
    header: &WavHeader,
    ints: &Vec<i32>,
    scale: S,
) -> (samples: Result<Vec<ControlVoltage>, DecodeError>)
    requires
        forall|x: i32, bits: u16| call_requires(scale, (x, bits)),
    ensures
        match samples {
            Ok(v) => {
                let kept = first_channel(ints@, header.channels as int);
                &&& known_depth(header.bits_per_sample)
                &&& header.channels >= 1
                &&& v.len() == kept.len()
                &&& forall|k: int|
                    0 <= k < v.len() ==> call_ensures(
                        scale,
                        (kept[k], header.bits_per_sample),
                        #[trigger] v[k],
                    )
            },
            Err(e) => if known_depth(header.bits_per_sample) {
                e == DecodeError::Wav && header.channels == 0
            } else {
                e == DecodeError::BitDepth
            },
        },
{
    let bits = header.bits_per_sample;
    if !(bits == 8 || bits == 16 || bits == 24 || bits == 32) {
        return Err(DecodeError::BitDepth);
    }
    if header.channels == 0 {
        return Err(DecodeError::Wav);
    }
    let kept = take_first_channel(ints, header.channels);
    let mut out: Vec<ControlVoltage> = Vec::with_capacity(kept.len());
    let mut k: usize = 0;
    while k < kept.len()
        invariant
            k <= kept.len(),
            out.len() == k,
            forall|x: i32, bits: u16| call_requires(scale, (x, bits)),
            forall|j: int| 0 <= j < k ==> call_ensures(scale, (kept[j], bits), #[trigger] out[j]),
        decreases kept.len() - k,
    {
        out.push(scale(kept[k], bits));
        k += 1;
    }
    Ok(out)
}

/// The samples of the first channel of floating-point data, given the
/// bit patterns `floats` of all its samples, channel by channel.
///
/// An error for samples that are not 32 bits wide, and for data without a
/// channel.
pub fn decode_floats(header: &WavHeader, floats: &Vec<ControlVoltage>) -> (samples: Result<
    Vec<ControlVoltage>,
    DecodeError,
>)
    ensures
        decoded_floats(*header, Some(floats@), seen(samples)),
{
    if header.bits_per_sample != 32 {
        return Err(DecodeError::BitDepth);
    }
    if header.channels == 0 {
        return Err(DecodeError::Wav);
    }
    Ok(take_first_channel(floats, header.channels))
}

/// What was read, if anything, seen as a sequence.
pub open spec fn read_of(values: Option<&Vec<ControlVoltage>>) -> Option<Seq<ControlVoltage>> {
    match values {
        Some(v) => Some(v@),
        None => None,
    }
}

/// What a result holds, seen as a sequence.
pub open spec fn seen(samples: Result<Vec<ControlVoltage>, DecodeError>) -> Result<
    Seq<ControlVoltage>,
    DecodeError,
> {
    match samples {
        Ok(v) => Ok(v@),
        Err(e) => Err(e),
    }
}

/// `samples` is what floating-point data with header `h` decodes to,
/// where `floats` are the bit patterns of the numbers read, or nothing if
/// they could not be read: the samples of the first channel, as they
/// stand.
pub open spec fn decoded_floats(
    h: WavHeader,
    floats: Option<Seq<ControlVoltage>>,
    samples: Result<Seq<ControlVoltage>, DecodeError>,
) -> bool {
    match samples {
        Ok(v) => {
            &&& h.bits_per_sample == 32
            &&& h.channels >= 1
            &&& floats matches Some(read)
            &&& v == first_channel(read, h.channels as int)
        },
        Err(e) => if h.bits_per_sample != 32 {
            e == DecodeError::BitDepth
        } else {
            e == DecodeError::Wav && (h.channels == 0 || floats is None)
        },
    }
}

/// `samples` is what integer data with header `h` decodes to, where `ints`
/// are the integers read, or nothing if they could not be read.
pub open spec fn decoded_ints<S: Fn(i32, u16) -> ControlVoltage>(
    h: WavHeader,
    ints: Option<Seq<i32>>,
    samples: Result<Seq<ControlVoltage>, DecodeError>,
    scale: S,
) -> bool {
    match samples {
        Ok(v) => {
            &&& known_depth(h.bits_per_sample)
            &&& h.channels >= 1
            &&& ints matches Some(read)
            &&& v.len() == first_channel(read, h.channels as int).len()
            &&& forall|k: int|
                0 <= k < v.len() ==> call_ensures(
                    scale,
                    (first_channel(read, h.channels as int)[k], h.bits_per_sample),
                    #[trigger] v[k],
                )
        },
        Err(e) => if !known_depth(h.bits_per_sample) {
            e == DecodeError::BitDepth
        } else {
            e == DecodeError::Wav && (h.channels == 0 || ints is None)
        },
    }
}

/// `samples` is what WAV data with header `h` decodes to.
pub open spec fn decodes<S: Fn(i32, u16) -> ControlVoltage>(
    h: WavHeader,
    ints: Option<Seq<i32>>,
    floats: Option<Seq<ControlVoltage>>,
    samples: Result<Seq<ControlVoltage>, DecodeError>,
    scale: S,
) -> bool {
    if h.float {
        decoded_floats(h, floats, samples)
    } else {
        decoded_ints(h, ints, samples, scale)
    }
}

impl WaveBox {
    /// The recording that WAV data makes, given what was read from it:
    /// the header, or a failure; the samples as integers, or a failure; and
    /// the samples as floating-point numbers, by their bit patterns, or a
    /// failure. `scale` turns an integer sample of a bit depth into a
    /// sample.
    ///
    /// The first channel is kept. Samples that are 32-bit floating-point
    /// numbers are taken as they stand; integer samples of 8, 16, 24 or 32
    /// bits are turned into samples by `scale`.
    pub fn decode<S: Fn(i32, u16) -> ControlVoltage>(
        header: Option<WavHeader>,
        ints: Option<&Vec<i32>>,
        floats: Option<&Vec<ControlVoltage>>,
        scale: S,
    ) -> (samples: Result<Vec<ControlVoltage>, DecodeError>)
        requires
            forall|x: i32, bits: u16| call_requires(scale, (x, bits)),
        ensures
            header is None ==> samples == Err::<Vec<ControlVoltage>, DecodeError>(DecodeError::Wav),
            header matches Some(h) ==> decodes(
                h,
                match ints {
                    Some(v) => Some(v@),
                    None => None,
                },
                read_of(floats),
                seen(samples),
                scale,
            ),
    {
        let header = match header {
            Some(header) => header,
            None => {
                return Err(DecodeError::Wav);
            },
        };
        if header.float {
            if header.bits_per_sample != 32 {
                return Err(DecodeError::BitDepth);
            }
            match floats {
                Some(floats) => decode_floats(&header, floats),
                None => Err(DecodeError::Wav),
            }
        } else {
            if !(header.bits_per_sample == 8 || header.bits_per_sample == 16
                || header.bits_per_sample == 24 || header.bits_per_sample == 32) {
                return Err(DecodeError::BitDepth);
            }
            match ints {
                Some(ints) => decode_ints(&header, ints, scale),
                None => Err(DecodeError::Wav),
            }
        }
    }

    /// Reads a recording from WAV data, in place of the one held. `scale`
    /// turns an integer sample of a bit depth into a sample. `floats` holds
    /// the samples of the data read as floating-point numbers, by their
    /// bit patterns, or nothing where they cannot be read so: the library
    /// holds no floating-point number, so its caller reads them.
    ///
    /// `hound` reads the header and, for integer samples, the samples; the
    /// recording is what `decode` makes of them. It takes the sample rate
    /// of the data and is marked as fresh. On an error, a box for whose
    /// data `hound` could read a header is left empty, any other as it
    /// was.
    pub fn load<S: Fn(i32, u16) -> ControlVoltage>(
        &mut self,
        wav_data: &Vec<u8>,
        floats: Option<&Vec<ControlVoltage>>,
        scale: S,
    ) -> (done: Result<(), DecodeError>)
        requires
            forall|x: i32, bits: u16| call_requires(scale, (x, bits)),
        ensures
            match wav_header_of(wav_data@) {
                None => done == Err::<(), DecodeError>(DecodeError::Wav) && final(self).samples@
                    == old(self).samples@ && final(self).sample_rate == old(self).sample_rate
                    && final(self).fresh == old(self).fresh,
                Some(h) => exists|samples: Result<Seq<ControlVoltage>, DecodeError>|
                    {
                        &&& #[trigger] decodes(
                            h,
                            wav_ints_of(wav_data@),
                            read_of(floats),
                            samples,
                            scale,
                        )
                        &&& match samples {
                            Ok(v) => done is Ok && final(self).samples@ == v && final(self).sample_rate
                                == h.sample_rate && final(self).fresh,
                            Err(e) => done == Err::<(), DecodeError>(e) && final(self).samples@.len()
                                == 0 && final(self).sample_rate == old(self).sample_rate && final(self).fresh == old(self).fresh,
                        }
                    },
            },
    {
        let header = match wav_header(wav_data) {
            Ok(header) => header,
            Err(_) => {
                return Err(DecodeError::Wav);
            },
        };
        self.samples.clear();
        let decoded = if header.float {
            Self::decode(Some(header), None, floats, scale)
        } else {
            match wav_samples(wav_data) {
                Ok(ints) => Self::decode(Some(header), Some(&ints), floats, scale),
                Err(_) => Self::decode(Some(header), None, floats, scale),
            }
        };
        proof {
            assert(decodes(
                header,
                wav_ints_of(wav_data@),
                read_of(floats),
                seen(decoded),
                scale,
            ));
        }
        match decoded {
            Ok(samples) => {
                self.samples = samples;
                self.fresh = true;
                self.sample_rate = header.sample_rate;
                Ok(())
            },
            Err(e) => Err(e),
        }
    }
}

} // verus!
