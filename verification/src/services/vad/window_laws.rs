//! What a model is fed with, window by window, and what is cut out of audio.

use crate::services::vad::detection_laws::{at_rest, carried, context_of, window_of};
use crate::services::vad::segments::SpeechSegment;
use crate::services::vad::windows::{
    filled, fit, law_windows_cover_the_audio, row_views, sizes_for, window_count, VadRun,
};
use crate::services::vad::{clipped, speech_audio, VadService};
use vstd::prelude::*;

verus! {

/// What a model takes is split into a window of at most 512 samples and the context before it, and
/// nothing gets lost: the two make up what it takes.
pub proof fn law_model_input_is_split(samples: Option<usize>, r: (usize, usize))
    requires
        call_ensures(sizes_for, (samples,), r),
    ensures
        0 < r.0 <= 512,
        r.1 > 0 ==> r.0 == 512,
        samples matches Some(n) ==> (n > 0 ==> r.0 + r.1 == n),
        samples is None || samples == Some(0usize) ==> r.0 == 512 && r.1 == 0,
{
}

/// What is fitted has the wanted length, starts like the data, and ends with zeros where the data
/// is too short.
pub proof fn law_data_is_fitted<T: Copy>(data: &Vec<T>, len: usize, zero: T, r: Vec<T>)
    requires
        call_ensures(fit::<T>, (data, len, zero), r),
    ensures
        r@.len() == len,
        forall|j: int|
            0 <= j < len ==> #[trigger] r@[j] == if j < data@.len() {
                data@[j]
            } else {
                zero
            },
{
}

/// What is filled with a value has the wanted length and holds nothing else.
pub proof fn law_data_is_filled<T: Copy>(zero: T, len: usize, r: Vec<T>)
    requires
        call_ensures(filled::<T>, (zero, len), r),
    ensures
        r@.len() == len,
        forall|j: int| 0 <= j < len ==> #[trigger] r@[j] == zero,
{
}

/// A run starts before the first window, with zeros for the context and the states.
pub proof fn law_run_starts_at_rest<T: Copy>(vad: &VadService, zero: T, r: VadRun<T>)
    requires
        call_ensures(VadService::process_audio::<T>, (vad, zero), r),
    ensures
        r.window_size == window_of(*vad),
        r.context@.len() == context_of(*vad),
        forall|j: int| 0 <= j < r.context@.len() ==> #[trigger] r.context@[j] == zero,
        at_rest(*vad, r.states@.map_values(|state: Vec<T>| state@), zero),
        r.state_lens@.len() == vad.input_layout.state_inputs@.len(),
        forall|m: int|
            0 <= m < r.state_lens@.len() ==> #[trigger] r.state_lens@[m]
                == vad.input_layout.state_inputs@[m].len,
        r.speech@.len() == 0,
{
    let states = r.states@.map_values(|state: Vec<T>| state@);
    assert forall|m: int| 0 <= m < states.len() implies {
        &&& (#[trigger] states[m]).len() == vad.input_layout.state_inputs@[m].len
        &&& forall|j: int| 0 <= j < states[m].len() ==> #[trigger] states[m][j] == zero
    } by {
        assert(states[m] == r.states@[m]@);
    }
}

/// A run of given sizes has a context and states of zeros, and no window is taken.
pub proof fn law_new_run_is_at_rest<T: Copy>(
    window_size: usize,
    context_size: usize,
    state_lens: Vec<usize>,
    zero: T,
    r: VadRun<T>,
)
    requires
        call_ensures(VadRun::<T>::new, (window_size, context_size, state_lens, zero), r),
    ensures
        r.window_size == window_size,
        r.context@.len() == context_size,
        forall|j: int| 0 <= j < r.context@.len() ==> #[trigger] r.context@[j] == zero,
        r.state_lens@ == state_lens@,
        r.states@.len() == state_lens@.len(),
        forall|m: int, j: int|
            0 <= m < r.states@.len() && 0 <= j < r.states@[m]@.len() ==> #[trigger] r.states@[m]@[j]
                == zero,
        forall|m: int|
            0 <= m < r.states@.len() ==> (#[trigger] r.states@[m])@.len() == state_lens@[m],
        r.speech@.len() == 0,
{
}

/// There is a next input as long as the windows so far do not cover the audio. It is the context,
/// and then the next window of the audio, with zeros after its end.
pub proof fn law_next_input_is_the_next_window<T: Copy>(
    run: &VadRun<T>,
    audio: &[T],
    zero: T,
    r: Option<Vec<T>>,
)
    requires
        run.wf(),
        call_ensures(VadRun::<T>::next_input, (run, audio, zero), r),
    ensures
        r is Some <==> run.speech@.len() * run.window_size < audio@.len(),
        r matches Some(input) ==> {
            let c = run.context@.len() as int;
            let at = run.speech@.len() * run.window_size;
            &&& input@.len() == c + run.window_size
            &&& forall|j: int| 0 <= j < c ==> #[trigger] input@[j] == run.context@[j]
            &&& forall|j: int|
                c <= j < input@.len() ==> #[trigger] input@[j] == if at + (j - c) < audio@.len() {
                    audio@[at + (j - c)]
                } else {
                    zero
                }
        },
{
    let n = run.speech@.len() as int;
    let w = run.window_size as int;
    let count = window_count(audio@.len(), w as nat) as int;
    law_windows_cover_the_audio(audio@.len(), w as nat);
    assert(0 <= n * w) by (nonlinear_arith)
        requires
            0 <= n,
            0 < w,
    ;
    if n < count {
        assert(n * w < audio@.len()) by (nonlinear_arith)
            requires
                n < count,
                0 < w,
                count * w < audio@.len() + w,
        ;
    } else {
        assert(n * w >= audio@.len()) by (nonlinear_arith)
            requires
                n >= count,
                0 < w,
                count * w >= audio@.len(),
        ;
    }
}

/// An answer is noted as the next one, what follows the first window of the input is the context
/// of the next one, and the states are those that the model returned, cut or filled up, or else as
/// they were.
pub proof fn law_answer_is_taken<T: Copy>(
    vad: VadService,
    run: &mut VadRun<T>,
    input: &Vec<T>,
    is_speech: bool,
    outputs: &Vec<Vec<T>>,
    zero: T,
)
    requires
        old(run).states@.len() == vad.input_layout.state_inputs@.len(),
        old(run).state_lens@ == Seq::new(
            vad.input_layout.state_inputs@.len(),
            |m: int| vad.input_layout.state_inputs@[m].len,
        ),
        call_ensures(VadRun::<T>::accept, (run, input, is_speech, outputs, zero), ()),
    ensures
        final(run).window_size == old(run).window_size,
        final(run).state_lens@ == old(run).state_lens@,
        final(run).speech@ == old(run).speech@.push(is_speech),
        input@.len() >= old(run).window_size ==> {
            &&& final(run).context@.len() == input@.len() - old(run).window_size
            &&& forall|j: int|
                0 <= j < final(run).context@.len() ==> #[trigger] final(run).context@[j]
                    == input@[j + old(run).window_size]
        },
        carried(
            vad,
            old(run).states@.map_values(|state: Vec<T>| state@),
            outputs@,
            final(run).states@.map_values(|state: Vec<T>| state@),
            zero,
        ),
{
    let before = row_views(old(run).states@);
    let after = row_views(final(run).states@);
    assert(row_views(outputs@).len() == outputs@.len());
    assert forall|m: int| 0 <= m < after.len() implies if m < outputs@.len() {
        &&& (#[trigger] after[m]).len() == vad.input_layout.state_inputs@[m].len
        &&& forall|j: int|
            0 <= j < after[m].len() ==> #[trigger] after[m][j] == if j < outputs@[m]@.len() {
                outputs@[m]@[j]
            } else {
                zero
            }
    } else {
        after[m] == before[m]
    } by {
        if m < outputs@.len() {
            assert(row_views(outputs@)[m] == outputs@[m]@);
        }
    }
}

/// What a bound at 16 kHz is in audio of another rate: its place there, or the end of the audio.
pub open spec fn place_in(bound: usize, sample_rate: usize, len: int) -> int {
    if bound * sample_rate / 16000 < len {
        bound * sample_rate / 16000
    } else {
        len
    }
}

/// Of one segment just the samples between its bounds are cut out, in their order.
pub proof fn law_segment_is_cut_out<T: Copy>(
    audio: &[T],
    segments: &Vec<SpeechSegment>,
    sample_rate: usize,
    r: Vec<T>,
    segment: SpeechSegment,
)
    requires
        call_ensures(VadService::extract_speech_audio::<T>, (audio, segments, sample_rate), r),
        segments@ == seq![segment],
    ensures
        ({
            let start = place_in(segment.start, sample_rate, audio@.len() as int);
            let end = place_in(segment.end, sample_rate, audio@.len() as int);
            &&& r@.len() == if start < end {
                end - start
            } else {
                0
            }
            &&& forall|j: int| 0 <= j < r@.len() ==> #[trigger] r@[j] == audio@[start + j]
        }),
{
    reveal_with_fuel(speech_audio, 2);
    assert(segments@.drop_last() =~= Seq::empty());
    let a = segment.start * sample_rate;
    let b = segment.end * sample_rate;
    assert(0 <= a && 0 <= b) by (nonlinear_arith)
        requires
            a == segment.start * sample_rate,
            b == segment.end * sample_rate,
    ;
    assert(r@ =~= clipped(audio@, segment, sample_rate));
}

/// What is cut out for a row of segments is what is cut out for its parts, one after the other.
pub proof fn law_segments_are_cut_out_in_order<T: Copy>(
    audio: &[T],
    sample_rate: usize,
    a: &Vec<SpeechSegment>,
    b: &Vec<SpeechSegment>,
    both: &Vec<SpeechSegment>,
    cut_a: Vec<T>,
    cut_b: Vec<T>,
    cut_both: Vec<T>,
)
    requires
        both@ == a@ + b@,
        call_ensures(VadService::extract_speech_audio::<T>, (audio, a, sample_rate), cut_a),
        call_ensures(VadService::extract_speech_audio::<T>, (audio, b, sample_rate), cut_b),
        call_ensures(VadService::extract_speech_audio::<T>, (audio, both, sample_rate), cut_both),
    ensures
        cut_both@ == cut_a@ + cut_b@,
{
    lemma_cut_in_order(audio@, a@, b@, sample_rate);
}

proof fn lemma_cut_in_order<T>(
    audio: Seq<T>,
    a: Seq<SpeechSegment>,
    b: Seq<SpeechSegment>,
    sample_rate: usize,
)
    ensures
        speech_audio(audio, a + b, sample_rate) == speech_audio(audio, a, sample_rate)
            + speech_audio(audio, b, sample_rate),
    decreases b.len(),
{
    let cut = speech_audio(audio, a, sample_rate);
    if b.len() == 0 {
        assert(a + b =~= a);
        assert(cut + speech_audio(audio, b, sample_rate) =~= cut);
    } else {
        lemma_cut_in_order(audio, a, b.drop_last(), sample_rate);
        assert((a + b).drop_last() =~= a + b.drop_last());
        assert((a + b).last() == b.last());
        assert(speech_audio(audio, a + b, sample_rate) =~= cut + speech_audio(
            audio,
            b,
            sample_rate,
        ));
    }
}

} // verus!
