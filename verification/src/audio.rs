//! Audio as it is uploaded: WAV files and raw samples.

use vstd::arithmetic::power2::pow2;
use vstd::prelude::*;

verus! {

/// Integer samples. A sample `s` stands for the amplitude `s / full_scale`.
#[derive(Debug)]
pub struct PcmAudio {
    pub samples: Vec<i32>,
    pub full_scale: i64,
}

/// What the header of a WAV file says.
#[derive(Debug, Clone, Copy, PartialEq, Eq, Structural)]
pub struct WavHeader {
    pub channels: u16,
    pub sample_rate: u32,
    pub bits_per_sample: u16,
    pub float: bool,
}

/// The value of a 16-bit sample in little-endian byte order.
pub open spec fn sample_value(low: u8, high: u8) -> int {
    let bits = low + 256 * high;
    if bits < 32768 {
        bits
    } else {
        bits - 65536
    }
}

/// A number below two to the power of 16 as two bytes, low byte first.
pub open spec fn two_bytes(n: int) -> Seq<u8> {
    seq![(n % 256) as u8, (n / 256) as u8]
}

/// A number below two to the power of 32 as four bytes, lowest byte first.
pub open spec fn four_bytes(n: int) -> Seq<u8> {
    two_bytes(n % 65536) + two_bytes(n / 65536)
}

/// Two hundred and fifty-six to the power of `k`, for up to four bytes.
pub open spec fn byte_weight(k: int) -> int {
    if k == 0 {
        1
    } else if k == 1 {
        256
    } else if k == 2 {
        65536
    } else {
        16777216
    }
}

/// Byte `k` of a sample in two's complement, counted from the lowest.
pub open spec fn sample_byte(sample: int, k: int) -> u8 {
    ((sample / byte_weight(k)) % 256) as u8
}

/// Samples of `width` bytes each, lowest byte first.
pub open spec fn sample_bytes(samples: Seq<i32>, width: nat) -> Seq<u8> {
    Seq::new(
        width * samples.len(),
        |j: int| sample_byte(samples[j / width as int] as int, j % width as int),
    )
}

/// Whether these samples have at most `bits` bits.
pub open spec fn samples_fit(samples: Seq<i32>, bits: u16) -> bool {
    forall|i: int|
        0 <= i < samples.len() ==> -pow2((bits - 1) as nat) <= #[trigger] samples[i] < pow2(
            (bits - 1) as nat,
        )
}

/// Whether these bytes are a plain WAV file with one channel of these integer samples, of 16, 24
/// or 32 bits each.
pub open spec fn is_mono_file(
    data: Seq<u8>,
    sample_rate: u32,
    bits: u16,
    samples: Seq<i32>,
) -> bool {
    let width = (bits / 8) as nat;
    let len = width * samples.len() as int;
    let riff = seq![0x52u8, 0x49, 0x46, 0x46];
    let wave = seq![0x57u8, 0x41, 0x56, 0x45];
    let fmt = seq![0x66u8, 0x6D, 0x74, 0x20];
    let content = seq![0x64u8, 0x61, 0x74, 0x61];
    let format = two_bytes(1) + two_bytes(1) + four_bytes(sample_rate as int) + four_bytes(
        width * sample_rate,
    ) + two_bytes(width as int) + two_bytes(bits as int);
    &&& bits == 16 || bits == 24 || bits == 32
    &&& samples_fit(samples, bits)
    &&& width * sample_rate <= u32::MAX
    &&& 36 + len <= u32::MAX
    &&& data == riff + four_bytes(36 + len) + wave + fmt + four_bytes(16) + format + content
        + four_bytes(len) + sample_bytes(samples, width)
}

/// The full scale of 16-bit samples.
pub const FULL_SCALE_16: i64 = 32768;

/// Reads raw samples of 16 bits each, low byte first. A last odd byte is ignored.
pub fn parse_raw_pcm(data: &[u8]) -> (r: PcmAudio)
    ensures
        r.full_scale == FULL_SCALE_16,
        r.samples@ == Seq::new(
            data@.len() / 2,
            |i: int| sample_value(data@[2 * i], data@[2 * i + 1]) as i32,
        ),
{
    let total: usize = data.len();
    let count: usize = total / 2;
    let mut samples: Vec<i32> = Vec::new();
    let mut i: usize = 0;
    while i < count
        invariant
            i <= count,
            count == total / 2,
            total == data@.len(),
            samples@ == Seq::new(
                i as nat,
                |k: int| sample_value(data@[2 * k], data@[2 * k + 1]) as i32,
            ),
        decreases count - i,
    {
        let bits: i32 = data[2 * i] as i32 + 256 * (data[2 * i + 1] as i32);
        let sample: i32 = if bits < 32768 {
            bits
        } else {
            bits - 65536
        };
        samples.push(sample);
        i = i + 1;
        assert(samples@ =~= Seq::new(
            i as nat,
            |k: int| sample_value(data@[2 * k], data@[2 * k + 1]) as i32,
        ));
    }
    PcmAudio { samples, full_scale: FULL_SCALE_16 }
}

/// How the samples of a WAV file are to be read.
#[derive(Debug, Clone, Copy, PartialEq, Eq, Structural)]
pub enum SampleEncoding {
    Float,
    Int { full_scale: i64 },
}

/// The full scale of integer samples of `bits` bits. No sample has more than 32 bits.
pub open spec fn full_scale_of(bits: u16) -> int {
    if bits <= 32 {
        pow2((bits - 1) as nat) as int
    } else {
        pow2(31) as int
    }
}

/// How samples of this kind are to be read.
pub open spec fn encoding_of(header: WavHeader) -> SampleEncoding {
    if header.float {
        SampleEncoding::Float
    } else {
        SampleEncoding::Int { full_scale: full_scale_of(header.bits_per_sample) as i64 }
    }
}

/// How samples of this kind are to be read: integers of `n` bits have the full scale two to the
/// power of `n - 1`.
pub fn sample_encoding(header: WavHeader) -> (r: SampleEncoding)
    requires
        header.bits_per_sample > 0,
    ensures
        r == encoding_of(header),
{
    if header.float {
        return SampleEncoding::Float;
    }
    let bits: u16 = if header.bits_per_sample > 32 {
        32
    } else {
        header.bits_per_sample
    };
    let mut full_scale: i64 = 1;
    let mut i: u16 = 1;
    proof {
        vstd::arithmetic::power2::lemma2_to64();
    }
    while i < bits
        invariant
            1 <= i <= bits <= 32,
            full_scale == pow2((i - 1) as nat),
        decreases bits - i,
    {
        proof {
            vstd::arithmetic::power2::lemma_pow2_unfold(i as nat);
            vstd::arithmetic::power2::lemma2_to64();
            if i < 31 {
                vstd::arithmetic::power2::lemma_pow2_strictly_increases(i as nat, 31);
            }
        }
        full_scale = full_scale * 2;
        i = i + 1;
    }
    SampleEncoding::Int { full_scale }
}

/// The type of `hound`'s errors.
#[verifier::external_type_specification]
#[verifier::external_body]
pub struct ExWavError(hound::Error);

/// A reader over bytes in memory.
#[verifier::external_type_specification]
#[verifier::external_body]
#[verifier::reject_recursive_types(T)]
pub struct ExCursor<T>(std::io::Cursor<T>);

/// The type of `hound`'s WAV readers.
#[verifier::external_type_specification]
#[verifier::external_body]
#[verifier::reject_recursive_types(R)]
pub struct ExWavReader<R>(hound::WavReader<R>);

/// The type of the iterators over the samples of a WAV file.
#[verifier::external_type_specification]
#[verifier::external_body]
#[verifier::reject_recursive_types(R)]
#[verifier::reject_recursive_types(S)]
pub struct ExWavIntoSamples<R, S>(hound::WavIntoSamples<R, S>);

/// The header that `hound` finds in these bytes, if it takes them for a WAV file.
pub uninterp spec fn wav_header(data: Seq<u8>) -> Option<WavHeader>;

/// What reading the samples of a WAV file as integers gives, one after the other: a sample, or
/// nothing where it cannot be read.
pub uninterp spec fn wav_samples(data: Seq<u8>) -> Seq<Option<i32>>;

/// The bytes that a reader was opened on.
pub uninterp spec fn reader_source(reader: hound::WavReader<std::io::Cursor<&[u8]>>) -> Seq<u8>;

/// What an iterator over samples has not handed out yet.
pub uninterp spec fn samples_left(
    samples: hound::WavIntoSamples<std::io::Cursor<&[u8]>, i32>,
) -> Seq<Option<i32>>;

/// Opens a WAV file in memory with `hound::WavReader::new`.
///
/// Whether this succeeds depends on the bytes alone, and it does on a plain mono file. What the
/// errors tell apart is left unsaid.
#[verifier::external_body]
fn open_wav<'a>(data: &'a [u8]) -> (r: Result<
    hound::WavReader<std::io::Cursor<&'a [u8]>>,
    hound::Error,
>)
    ensures
        match r {
            Ok(reader) => wav_header(data@) is Some && reader_source(reader) == data@,
            Err(_) => wav_header(data@) is None,
        },
        forall|rate: u32, bits: u16, samples: Seq<i32>| #[trigger]
            is_mono_file(data@, rate, bits, samples) ==> r is Ok,
{
    hound::WavReader::new(std::io::Cursor::new(data))
}

/// The header of a WAV file, by `hound::WavReader::spec`.
///
/// It depends on the bytes alone, a sample has at least one bit, and for a plain mono file it is
/// the header that the file was written with.
#[verifier::external_body]
fn read_header(reader: &hound::WavReader<std::io::Cursor<&[u8]>>) -> (r: WavHeader)
    ensures
        wav_header(reader_source(*reader)) == Some(r),
        r.bits_per_sample > 0,
        forall|rate: u32, bits: u16, samples: Seq<i32>| #[trigger]
            is_mono_file(reader_source(*reader), rate, bits, samples) ==> r == (WavHeader {
                channels: 1,
                sample_rate: rate,
                bits_per_sample: bits,
                float: false,
            }),
{
    let spec = reader.spec();
    WavHeader {
        channels: spec.channels,
        sample_rate: spec.sample_rate,
        bits_per_sample: spec.bits_per_sample,
        float: match spec.sample_format {
            hound::SampleFormat::Float => true,
            hound::SampleFormat::Int => false,
        },
    }
}

/// The samples of a WAV file as integers, by `hound::WavReader::into_samples`.
///
/// What they are depends on the bytes alone, and for a plain mono file they are the samples that
/// the file was written with. No integer sample of more than 32 bits can be read.
#[verifier::external_body]
fn int_samples<'a>(reader: hound::WavReader<std::io::Cursor<&'a [u8]>>) -> (r: hound::WavIntoSamples<
    std::io::Cursor<&'a [u8]>,
    i32,
>)
    ensures
        samples_left(r) == wav_samples(reader_source(reader)),
        forall|rate: u32, bits: u16, samples: Seq<i32>| #[trigger]
            is_mono_file(reader_source(reader), rate, bits, samples) ==> samples_left(r)
                == samples.map_values(|sample: i32| Some(sample)),
        forall|i: int|
            is_too_deep(wav_header(reader_source(reader))) && 0 <= i < samples_left(r).len()
                ==> #[trigger] samples_left(r)[i] is None,
{
    reader.into_samples::<i32>()
}

/// The next sample, by `next` of `hound::WavIntoSamples`: nothing at the end, and no value for a
/// sample that cannot be read.
#[verifier::external_body]
fn next_sample(samples: &mut hound::WavIntoSamples<std::io::Cursor<&[u8]>, i32>) -> (r: Option<
    Option<i32>,
>)
    ensures
        match r {
            Some(sample) => {
                &&& samples_left(*old(samples)).len() > 0
                &&& sample == samples_left(*old(samples))[0]
                &&& samples_left(*final(samples)) == samples_left(*old(samples)).skip(1)
            },
            None => {
                &&& samples_left(*old(samples)).len() == 0
                &&& samples_left(*final(samples)).len() == 0
            },
        },
{
    samples.next().map(|sample| sample.ok())
}

/// Whether this is the header of integer samples of more than 32 bits.
pub open spec fn is_too_deep(header: Option<WavHeader>) -> bool {
    header matches Some(header) && !header.float && header.bits_per_sample > 32
}

/// The samples that could be read, in order.
pub open spec fn readable(samples: Seq<Option<i32>>) -> Seq<i32>
    decreases samples.len(),
{
    if samples.len() == 0 {
        seq![]
    } else {
        match samples[0] {
            Some(sample) => seq![sample] + readable(samples.skip(1)),
            None => readable(samples.skip(1)),
        }
    }
}

proof fn lemma_all_readable(samples: Seq<i32>)
    ensures
        readable(samples.map_values(|sample: i32| Some(sample))) == samples,
    decreases samples.len(),
{
    let read = samples.map_values(|sample: i32| Some(sample));
    if samples.len() > 0 {
        lemma_all_readable(samples.skip(1));
        assert(read.skip(1) =~= samples.skip(1).map_values(|sample: i32| Some(sample)));
        assert(samples =~= seq![samples[0]] + samples.skip(1));
    } else {
        assert(readable(read) =~= samples);
    }
}

proof fn lemma_none_readable(samples: Seq<Option<i32>>)
    requires
        forall|i: int| 0 <= i < samples.len() ==> #[trigger] samples[i] is None,
    ensures
        readable(samples) == Seq::<i32>::empty(),
    decreases samples.len(),
{
    if samples.len() > 0 {
        assert(samples[0] is None);
        lemma_none_readable(samples.skip(1));
    }
}

/// A WAV file that could be opened.
#[derive(Debug)]
pub enum WavAudio {
    Pcm { audio: PcmAudio, sample_rate: u32 },
    /// Floating-point samples, which are left to the caller.
    Float { sample_rate: u32 },
}

/// Why a WAV file was not read.
#[derive(Debug, Clone, Copy, PartialEq, Eq, Structural)]
pub enum WavError {
    /// The bytes are no WAV file.
    Malformed,
}

/// Whether `r` is what the bytes `data` read as.
pub open spec fn wav_reading(data: Seq<u8>, r: Result<WavAudio, WavError>) -> bool {
    match wav_header(data) {
        None => r == Err::<WavAudio, WavError>(WavError::Malformed),
        Some(header) => match encoding_of(header) {
            SampleEncoding::Float => {
                &&& r matches Ok(WavAudio::Float { sample_rate })
                &&& sample_rate == header.sample_rate
            },
            SampleEncoding::Int { full_scale } => {
                &&& r matches Ok(WavAudio::Pcm { audio, sample_rate })
                &&& audio.samples@ == readable(wav_samples(data))
                &&& audio.full_scale == full_scale
                &&& sample_rate == header.sample_rate
            },
        },
    }
}

/// Reads a WAV file. Samples that cannot be read are left out.
///
/// A plain mono file reads as the samples that it was written with, and a file of integers of
/// more than 32 bits has none.
pub fn parse_wav(data: &[u8]) -> (r: Result<WavAudio, WavError>)
    ensures
        wav_reading(data@, r),
        forall|rate: u32, bits: u16, samples: Seq<i32>| #[trigger]
            is_mono_file(data@, rate, bits, samples) ==> {
                &&& r matches Ok(WavAudio::Pcm { audio, sample_rate })
                &&& audio.samples@ == samples
                &&& audio.full_scale == pow2((bits - 1) as nat)
                &&& sample_rate == rate
            },
        is_too_deep(wav_header(data@)) ==> {
            &&& r matches Ok(WavAudio::Pcm { audio, sample_rate })
            &&& audio.samples@.len() == 0
        },
{
    proof {
        vstd::arithmetic::power2::lemma2_to64();
    }
    let reader = match open_wav(data) {
        Ok(reader) => reader,
        Err(_) => {
            return Err(WavError::Malformed);
        },
    };
    let header = read_header(&reader);
    match sample_encoding(header) {
        SampleEncoding::Float => Ok(WavAudio::Float { sample_rate: header.sample_rate }),
        SampleEncoding::Int { full_scale } => {
            let mut left = int_samples(reader);
            let ghost all = wav_samples(data@);
            let mut samples: Vec<i32> = Vec::new();
            let mut more = true;
            assert(samples@ + readable(all) =~= readable(all));
            while more
                invariant
                    readable(all) == samples@ + readable(samples_left(left)),
                    !more ==> samples_left(left).len() == 0,
                decreases
                    samples_left(left).len(),
                    if more {
                        1int
                    } else {
                        0
                    },
            {
                let ghost before = samples_left(left);
                let ghost kept = samples@;
                match next_sample(&mut left) {
                    Some(Some(sample)) => {
                        samples.push(sample);
                        assert(samples@ + readable(before.skip(1)) =~= kept + (seq![sample]
                            + readable(before.skip(1))));
                    },
                    Some(None) => {},
                    None => {
                        more = false;
                    },
                }
            }
            assert(samples@ =~= readable(all));
            proof {
                assert forall|rate: u32, bits: u16, written: Seq<i32>| #[trigger]
                    is_mono_file(data@, rate, bits, written) implies samples@ == written by {
                    lemma_all_readable(written);
                }
                if is_too_deep(wav_header(data@)) {
                    lemma_none_readable(all);
                }
            }
            Ok(
                WavAudio::Pcm {
                    audio: PcmAudio { samples, full_scale },
                    sample_rate: header.sample_rate,
                },
            )
        },
    }
}

/// Raw samples read back as what they were written as.
pub proof fn law_raw_samples_read_back(samples: Seq<i32>, i: int)
    requires
        0 <= i < samples.len(),
        samples_fit(samples, 16),
    ensures
        sample_bytes(samples, 2).len() == 2 * samples.len(),
        sample_value(sample_bytes(samples, 2)[2 * i], sample_bytes(samples, 2)[2 * i + 1])
            == samples[i],
{
    vstd::arithmetic::power2::lemma2_to64();
    assert(-32768 <= samples[i] < 32768);
    let bytes = sample_bytes(samples, 2);
    assert(bytes[2 * i] == sample_byte(samples[i] as int, 0));
    assert(bytes[2 * i + 1] == sample_byte(samples[i] as int, 1));
}

/// What resampling has to do.
#[derive(Debug, Clone, Copy, PartialEq, Eq, Structural)]
pub enum ResamplePlan {
    /// The samples stay as they are.
    Keep,
    /// There is nothing left.
    Drop,
    /// New samples are computed between the old ones.
    Interpolate,
}

/// What resampling `len` samples from one rate to another has to do.
pub fn resample_plan(len: usize, from_rate: usize, to_rate: usize) -> (r: ResamplePlan)
    ensures
        r == if len == 0 || from_rate == to_rate {
            ResamplePlan::Keep
        } else if from_rate == 0 || to_rate == 0 {
            ResamplePlan::Drop
        } else {
            ResamplePlan::Interpolate
        },
{
    if len == 0 || from_rate == to_rate {
        ResamplePlan::Keep
    } else if from_rate == 0 || to_rate == 0 {
        ResamplePlan::Drop
    } else {
        ResamplePlan::Interpolate
    }
}

/// The two samples to interpolate between at a position whose whole part is `floor`, out of
/// `len`: the one there and the one after it, or the last one twice. None beyond the end.
pub fn neighbours(floor: usize, len: usize) -> (r: Option<(usize, usize)>)
    ensures
        match r {
            Some((left, right)) => {
                &&& left == floor < len
                &&& right == if floor + 1 < len {
                    floor + 1
                } else {
                    len - 1
                }
            },
            None => floor >= len,
        },
{
    if floor >= len {
        None
    } else if floor + 1 < len {
        Some((floor, floor + 1))
    } else {
        Some((floor, len - 1))
    }
}

} // verus!
