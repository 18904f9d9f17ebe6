//! What holds of uploaded audio.

use crate::audio::{
    is_mono_file, neighbours, parse_raw_pcm, parse_wav, readable, resample_plan, sample_encoding,
    sample_value, wav_header, wav_samples, PcmAudio, ResamplePlan, SampleEncoding, WavAudio,
    WavError, WavHeader,
};
use vstd::arithmetic::power2::pow2;
use vstd::prelude::*;

verus! {

/// Whether these are the samples that raw bytes stand for: one for every two bytes, each a number
/// from -32768 to 32767 that is the first byte and 256 times the second one, but for 65536.
pub open spec fn are_raw_samples(data: Seq<u8>, samples: Seq<i32>) -> bool {
    &&& samples.len() == data.len() / 2
    &&& forall|i: int|
        0 <= i < samples.len() ==> {
            &&& -32768 <= #[trigger] samples[i] <= 32767
            &&& samples[i] == data[2 * i] + 256 * data[2 * i + 1] || samples[i] + 65536 == data[2
                * i] + 256 * data[2 * i + 1]
        }
}

/// Raw bytes are samples of 16 bits, low byte first, and every pair of bytes is one of them.
pub proof fn law_raw_bytes_are_samples(data: &[u8], r: PcmAudio)
    requires
        call_ensures(parse_raw_pcm, (data,), r),
    ensures
        are_raw_samples(data@, r.samples@),
        r.full_scale == 32768,
{
    lemma_raw_samples(data@, r.samples@);
}

/// The samples of raw bytes.
pub proof fn lemma_raw_samples(data: Seq<u8>, samples: Seq<i32>)
    requires
        samples == Seq::new(
            data.len() / 2,
            |i: int| sample_value(data[2 * i], data[2 * i + 1]) as i32,
        ),
    ensures
        are_raw_samples(data, samples),
{
    assert forall|i: int| 0 <= i < samples.len() implies {
        &&& -32768 <= #[trigger] samples[i] <= 32767
        &&& samples[i] == data[2 * i] + 256 * data[2 * i + 1] || samples[i] + 65536 == data[2 * i]
            + 256 * data[2 * i + 1]
    } by {
        let low = data[2 * i];
        let high = data[2 * i + 1];
        assert(0 <= low <= 255 && 0 <= high <= 255);
    }
}

/// The full scale of integer samples is two to the power of one less than their bits, of which no
/// more than 32 count, and floating-point samples have none.
pub proof fn law_full_scale_follows_the_depth(header: WavHeader, r: SampleEncoding)
    requires
        header.bits_per_sample > 0,
        call_ensures(sample_encoding, (header,), r),
    ensures
        header.float <==> r is Float,
        r matches SampleEncoding::Int { full_scale } ==> full_scale == if header.bits_per_sample
            <= 32 {
            pow2((header.bits_per_sample - 1) as nat) as int
        } else {
            2147483648
        },
{
    vstd::arithmetic::power2::lemma2_to64();
    if header.bits_per_sample < 32 {
        vstd::arithmetic::power2::lemma_pow2_strictly_increases(
            (header.bits_per_sample - 1) as nat,
            31,
        );
    }
}

/// Of a row of samples those that could be read are kept, in their order and with their values, and
/// the others are left out.
pub proof fn law_readable_samples_are_kept(
    a: Seq<Option<i32>>,
    b: Seq<Option<i32>>,
    sample: i32,
)
    ensures
        readable(Seq::empty()) == Seq::<i32>::empty(),
        readable(seq![Some(sample)]) == seq![sample],
        readable(seq![None]) == Seq::<i32>::empty(),
        readable(a + b) == readable(a) + readable(b),
    decreases a.len(),
{
    reveal_with_fuel(readable, 2);
    assert(seq![Some(sample)].skip(1) =~= Seq::empty());
    assert(readable(seq![Some(sample)]) =~= seq![sample]);
    assert(seq![None::<i32>].skip(1) =~= Seq::empty());
    if a.len() == 0 {
        assert(a + b =~= b);
        assert(readable(a + b) =~= readable(a) + readable(b));
    } else {
        law_readable_samples_are_kept(a.skip(1), b, sample);
        assert((a + b).skip(1) =~= a.skip(1) + b);
        assert(readable(a + b) =~= readable(a) + readable(b));
    }
}

/// A WAV file is read as its header says: floating-point samples are left to the caller, integers
/// are read with the full scale of their depth, and both have the rate of the header. Bytes without
/// such a header are no WAV file.
pub proof fn law_wav_files_are_read(data: &[u8], r: Result<WavAudio, WavError>)
    requires
        call_ensures(parse_wav, (data,), r),
        wav_header(data@) matches Some(header) ==> header.bits_per_sample > 0,
    ensures
        r is Err <==> wav_header(data@) is None,
        wav_header(data@) matches Some(header) ==> match r {
            Ok(WavAudio::Float { sample_rate }) => header.float && sample_rate
                == header.sample_rate,
            Ok(WavAudio::Pcm { audio, sample_rate }) => {
                &&& !header.float
                &&& sample_rate == header.sample_rate
                &&& audio.samples@ == readable(wav_samples(data@))
                &&& header.bits_per_sample <= 32 ==> audio.full_scale == pow2(
                    (header.bits_per_sample - 1) as nat,
                )
                &&& header.bits_per_sample > 32 ==> audio.samples@.len() == 0 && audio.full_scale
                    == 2147483648
            },
            Err(_) => false,
        },
{
    vstd::arithmetic::power2::lemma2_to64();
    if let Some(header) = wav_header(data@) {
        if header.bits_per_sample < 32 {
            vstd::arithmetic::power2::lemma_pow2_strictly_increases(
                (header.bits_per_sample - 1) as nat,
                31,
            );
        }
    }
}

/// A plain mono file reads as the samples that it was written with, at its rate, with the full
/// scale of its depth.
pub proof fn law_mono_files_read_back(
    data: &[u8],
    rate: u32,
    bits: u16,
    samples: Seq<i32>,
    r: Result<WavAudio, WavError>,
)
    requires
        is_mono_file(data@, rate, bits, samples),
        call_ensures(parse_wav, (data,), r),
    ensures
        r matches Ok(WavAudio::Pcm { audio, sample_rate }) && {
            &&& audio.samples@ == samples
            &&& audio.full_scale == pow2((bits - 1) as nat)
            &&& sample_rate == rate
        },
{
}

/// Audio of the wanted rate, or without samples, stays as it is; nothing is left where one of the
/// rates is zero; and otherwise new samples are computed.
pub proof fn law_resampling_is_planned(len: usize, from: usize, to: usize, r: ResamplePlan)
    requires
        call_ensures(resample_plan, (len, from, to), r),
    ensures
        r is Keep <==> len == 0 || from == to,
        r is Drop <==> len > 0 && from != to && (from == 0 || to == 0),
        r is Interpolate <==> len > 0 && from != to && from > 0 && to > 0,
{
}

/// A sample is computed between the one at its place and the next one, or the last one where there
/// is no next.
pub proof fn law_samples_are_computed_between_neighbours(
    floor: usize,
    len: usize,
    r: Option<(usize, usize)>,
)
    requires
        call_ensures(neighbours, (floor, len), r),
    ensures
        r is Some <==> floor < len,
        r matches Some((left, right)) ==> left == floor && right < len && (right == floor + 1 || (
        right == floor && floor + 1 == len)),
{
}

} // verus!
