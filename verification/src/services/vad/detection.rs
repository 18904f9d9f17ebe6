//! What a detector hears of audio, window by window, with a model that answers for each.

use crate::services::vad::segments::{speech_segments, SpeechSegment, WindowRules};
use crate::services::vad::windows::{
    next_states, row_views, samples_from, window_count, SAMPLE_RATE,
};
use crate::services::vad::VadService;
use vstd::prelude::*;

verus! {

/// A model: from an input and the recurrent states to whether the input holds speech and to the
/// states that it returns, or to nothing where it fails.
pub type Model<T> = spec_fn(Seq<T>, Seq<Seq<T>>) -> Option<(bool, Seq<Seq<T>>)>;

/// A way of bringing audio of some rate to 16 kHz.
pub type Resampler<T> = spec_fn(Seq<T>, usize) -> Seq<T>;

/// What an answer holds.
pub open spec fn answer_view<T, E>(answer: Result<(bool, Vec<Vec<T>>), E>) -> Option<
    (bool, Seq<Seq<T>>),
> {
    match answer {
        Ok((is_speech, outputs)) => Some((is_speech, row_views(outputs@))),
        Err(_) => None,
    }
}

/// Whether a function may give this answer.
pub open spec fn can_answer<T, E, M>(
    infer: M,
    input: &Vec<T>,
    states: &Vec<Vec<T>>,
    answer: Result<(bool, Vec<Vec<T>>), E>,
) -> bool where M: Fn(&Vec<T>, &Vec<Vec<T>>) -> Result<(bool, Vec<Vec<T>>), E> {
    infer.ensures((input, states), answer)
}

/// Whether a function may give this answer to an input and states that hold this.
pub open spec fn may_give<T, E, M>(
    infer: M,
    input: Seq<T>,
    states: Seq<Seq<T>>,
    answer: Result<(bool, Vec<Vec<T>>), E>,
) -> bool where M: Fn(&Vec<T>, &Vec<Vec<T>>) -> Result<(bool, Vec<Vec<T>>), E> {
    exists|i: &Vec<T>, s: &Vec<Vec<T>>|
        i@ == input && row_views(s@) == states && #[trigger] can_answer(infer, i, s, answer)
}

/// Whether a function answers as this model does.
pub open spec fn follows_model<T, E, M>(infer: M, model: Model<T>) -> bool where
    M: Fn(&Vec<T>, &Vec<Vec<T>>) -> Result<(bool, Vec<Vec<T>>), E>,
 {
    forall|input: &Vec<T>, states: &Vec<Vec<T>>, answer: Result<(bool, Vec<Vec<T>>), E>| #[trigger]
        infer.ensures((input, states), answer) ==> answer_view(answer) == model(
            input@,
            row_views(states@),
        )
}

/// Whether a function resamples in this way.
pub open spec fn follows_resampler<T, R>(resample: R, resampler: Resampler<T>) -> bool where
    R: Fn(&[T], usize) -> Vec<T>,
 {
    forall|audio: &[T], rate: usize, heard: Vec<T>| #[trigger]
        resample.ensures((audio, rate), heard) ==> heard@ == resampler(audio@, rate)
}

/// Whether a function may turn audio into this.
pub open spec fn can_resample<T, R>(
    resample: R,
    audio: &[T],
    sample_rate: usize,
    heard: Vec<T>,
) -> bool where R: Fn(&[T], usize) -> Vec<T> {
    resample.ensures((audio, sample_rate), heard)
}

/// Whether this may be what is searched: the audio at 16 kHz.
pub open spec fn may_hear<T, R>(
    resample: R,
    audio: &[T],
    sample_rate: usize,
    heard: Seq<T>,
) -> bool where R: Fn(&[T], usize) -> Vec<T> {
    if sample_rate != SAMPLE_RATE {
        exists|given: Vec<T>| #[trigger]
            can_resample(resample, audio, sample_rate, given) && given@ == heard
    } else {
        heard == audio@
    }
}

/// What a detection came to.
pub open spec fn outcome<E>(r: Result<Vec<SpeechSegment>, E>) -> Option<Seq<SpeechSegment>> {
    match r {
        Ok(segments) => Some(segments@),
        Err(_) => None,
    }
}

/// The audio that is searched: that at 16 kHz.
pub open spec fn heard_audio<T>(
    resampler: Resampler<T>,
    audio: Seq<T>,
    sample_rate: usize,
) -> Seq<T> {
    if sample_rate != SAMPLE_RATE {
        resampler(audio, sample_rate)
    } else {
        audio
    }
}

/// The lengths of the recurrent states.
pub open spec fn state_lens(vad: VadService) -> Seq<usize> {
    Seq::new(
        vad.input_layout.state_inputs@.len(),
        |i: int| vad.input_layout.state_inputs@[i].len,
    )
}

/// The recurrent states at the start.
pub open spec fn zero_states<T>(vad: VadService, zero: T) -> Seq<Seq<T>> {
    Seq::new(
        vad.input_layout.state_inputs@.len(),
        |i: int| Seq::new(vad.input_layout.state_inputs@[i].len as nat, |j: int| zero),
    )
}

/// What the model gets for window `k`: the window and the audio right before it.
pub open spec fn input_at<T>(vad: VadService, audio: Seq<T>, zero: T, k: nat) -> Seq<T> {
    samples_from(
        audio,
        k * vad.window() - vad.context(),
        vad.context() as nat + vad.window() as nat,
        zero,
    )
}

/// Which of the first `k` windows hold speech, and the states after them, or nothing where the
/// model fails on one of them.
pub open spec fn run_after<T>(
    vad: VadService,
    model: Model<T>,
    audio: Seq<T>,
    zero: T,
    k: nat,
) -> Option<(Seq<bool>, Seq<Seq<T>>)>
    decreases k,
{
    if k == 0 {
        Some((seq![], zero_states(vad, zero)))
    } else {
        match run_after(vad, model, audio, zero, (k - 1) as nat) {
            Some((speech, states)) => match model(
                input_at(vad, audio, zero, (k - 1) as nat),
                states,
            ) {
                Some((is_speech, outputs)) => Some(
                    (
                        speech.push(is_speech),
                        next_states(states, state_lens(vad), outputs, zero),
                    ),
                ),
                None => None,
            },
            None => None,
        }
    }
}

/// The states after the first `k` of these answers.
pub open spec fn states_after<T>(
    vad: VadService,
    answers: Seq<(bool, Vec<Vec<T>>)>,
    zero: T,
    k: nat,
) -> Seq<Seq<T>>
    decreases k,
{
    if k == 0 {
        zero_states(vad, zero)
    } else {
        next_states(
            states_after(vad, answers, zero, (k - 1) as nat),
            state_lens(vad),
            row_views(answers[k - 1].1@),
            zero,
        )
    }
}

/// Which windows hold speech by these answers.
pub open spec fn speech_by<T>(answers: Seq<(bool, Vec<Vec<T>>)>) -> Seq<bool> {
    answers.map_values(|answer: (bool, Vec<Vec<T>>)| answer.0)
}

/// Whether a function may give these answers to the first windows, each with the states that the
/// answers before it left.
pub open spec fn may_give_all<T, E, M>(
    vad: VadService,
    infer: M,
    audio: Seq<T>,
    zero: T,
    answers: Seq<(bool, Vec<Vec<T>>)>,
) -> bool where M: Fn(&Vec<T>, &Vec<Vec<T>>) -> Result<(bool, Vec<Vec<T>>), E> {
    forall|k: int|
        0 <= k < answers.len() ==> may_give(
            infer,
            input_at(vad, audio, zero, k as nat),
            states_after(vad, answers, zero, k as nat),
            Ok(#[trigger] answers[k]),
        )
}

/// Whether `r` comes of these answers: of one for each window, the segments of the windows that
/// hold speech by them; or of those before an error, that error.
pub open spec fn comes_of<T, E, M>(
    vad: VadService,
    infer: M,
    audio: Seq<T>,
    zero: T,
    answers: Seq<(bool, Vec<Vec<T>>)>,
    r: Result<Vec<SpeechSegment>, E>,
) -> bool where M: Fn(&Vec<T>, &Vec<Vec<T>>) -> Result<(bool, Vec<Vec<T>>), E> {
    let count = window_count(audio.len(), vad.window() as nat);
    let n = answers.len();
    &&& may_give_all(vad, infer, audio, zero, answers)
    &&& match r {
        Ok(segments) => {
            &&& n == count
            &&& segments@ == speech_segments(
                WindowRules { sample_rate: SAMPLE_RATE, window: vad.window() },
                speech_by(answers),
            )
        },
        Err(e) => {
            &&& n < count
            &&& may_give(
                infer,
                input_at(vad, audio, zero, n),
                states_after(vad, answers, zero, n),
                Err(e),
            )
        },
    }
}

/// Whether `r` may come of a search of audio at 16 kHz.
pub open spec fn may_find<T, E, M>(
    vad: VadService,
    infer: M,
    audio: Seq<T>,
    zero: T,
    r: Result<Vec<SpeechSegment>, E>,
) -> bool where M: Fn(&Vec<T>, &Vec<Vec<T>>) -> Result<(bool, Vec<Vec<T>>), E> {
    exists|answers: Seq<(bool, Vec<Vec<T>>)>| #[trigger]
        comes_of(vad, infer, audio, zero, answers, r)
}

/// More answers do not change the states before them.
pub proof fn lemma_states_before<T>(
    vad: VadService,
    answers: Seq<(bool, Vec<Vec<T>>)>,
    answer: (bool, Vec<Vec<T>>),
    zero: T,
    k: nat,
)
    requires
        k <= answers.len(),
    ensures
        states_after(vad, answers.push(answer), zero, k) == states_after(vad, answers, zero, k),
    decreases k,
{
    if k > 0 {
        lemma_states_before(vad, answers, answer, zero, (k - 1) as nat);
    }
}

/// A function that answers as a model does gives the answers of the model.
proof fn lemma_answers_of_model<T, E, M>(
    vad: VadService,
    infer: M,
    model: Model<T>,
    audio: Seq<T>,
    zero: T,
    answers: Seq<(bool, Vec<Vec<T>>)>,
    k: nat,
) where M: Fn(&Vec<T>, &Vec<Vec<T>>) -> Result<(bool, Vec<Vec<T>>), E>
    requires
        follows_model(infer, model),
        may_give_all(vad, infer, audio, zero, answers),
        k <= answers.len(),
    ensures
        run_after(vad, model, audio, zero, k) == Some(
            (speech_by(answers).take(k as int), states_after(vad, answers, zero, k)),
        ),
    decreases k,
{
    if k == 0 {
        assert(speech_by(answers).take(0) =~= seq![]);
    } else {
        let before = (k - 1) as nat;
        lemma_answers_of_model(vad, infer, model, audio, zero, answers, before);
        let answer: Result<(bool, Vec<Vec<T>>), E> = Ok(answers[k - 1]);
        let input = input_at(vad, audio, zero, before);
        let states = states_after(vad, answers, zero, before);
        assert(may_give(infer, input, states, answer));
        let (i, s) = choose|i: &Vec<T>, s: &Vec<Vec<T>>|
            i@ == input && row_views(s@) == states && #[trigger] can_answer(infer, i, s, answer);
        assert(infer.ensures((i, s), answer));
        assert(answer_view(answer) == model(input, states));
        assert(speech_by(answers).take(k as int) =~= speech_by(answers).take(before as int).push(
            answers[k - 1].0,
        ));
    }
}

/// A search with a function that answers as a model does finds what the model makes of the audio.
pub proof fn law_search_follows_the_model<T, E, M>(
    vad: VadService,
    infer: M,
    model: Model<T>,
    resampler: Resampler<T>,
    audio: Seq<T>,
    zero: T,
    r: Result<Vec<SpeechSegment>, E>,
) where M: Fn(&Vec<T>, &Vec<Vec<T>>) -> Result<(bool, Vec<Vec<T>>), E>
    requires
        follows_model(infer, model),
        may_find(vad, infer, audio, zero, r),
    ensures
        outcome(r) == vad.detected(model, resampler, audio, SAMPLE_RATE, zero),
{
    let answers = choose|answers: Seq<(bool, Vec<Vec<T>>)>| #[trigger]
        comes_of(vad, infer, audio, zero, answers, r);
    let n = answers.len();
    let count = window_count(audio.len(), vad.window() as nat);
    lemma_answers_of_model(vad, infer, model, audio, zero, answers, n);
    assert(speech_by(answers).take(n as int) =~= speech_by(answers));
    if let Err(e) = r {
        let answer: Result<(bool, Vec<Vec<T>>), E> = Err(e);
        let input = input_at(vad, audio, zero, n);
        let states = states_after(vad, answers, zero, n);
        let (i, s) = choose|i: &Vec<T>, s: &Vec<Vec<T>>|
            i@ == input && row_views(s@) == states && #[trigger] can_answer(infer, i, s, answer);
        assert(infer.ensures((i, s), answer));
        assert(answer_view(answer) == model(input, states));
        lemma_failure_stays(vad, model, audio, zero, n + 1, count);
    }
}

/// A search of no audio finds nothing and does not fail, whatever the function would answer.
pub proof fn law_search_of_nothing_finds_nothing<T, E, M>(
    vad: VadService,
    infer: M,
    audio: Seq<T>,
    zero: T,
    r: Result<Vec<SpeechSegment>, E>,
) where M: Fn(&Vec<T>, &Vec<Vec<T>>) -> Result<(bool, Vec<Vec<T>>), E>
    requires
        may_find(vad, infer, audio, zero, r),
        audio.len() == 0,
    ensures
        r matches Ok(segments) && segments@.len() == 0,
{
    let answers = choose|answers: Seq<(bool, Vec<Vec<T>>)>| #[trigger]
        comes_of(vad, infer, audio, zero, answers, r);
    lemma_no_windows(vad.window() as int);
    assert(speech_by(answers) =~= seq![]);
}

proof fn lemma_no_windows(w: int)
    requires
        w > 0,
    ensures
        (w - 1) / w == 0,
{
    assert((w - 1) / w == 0) by (nonlinear_arith)
        requires
            w > 0,
    ;
}

/// Where the model failed on one of the first windows, nothing comes of the rest.
proof fn lemma_failure_stays<T>(
    vad: VadService,
    model: Model<T>,
    audio: Seq<T>,
    zero: T,
    k: nat,
    n: nat,
)
    requires
        k <= n,
        run_after(vad, model, audio, zero, k) is None,
    ensures
        run_after(vad, model, audio, zero, n) is None,
    decreases n - k,
{
    if k < n {
        lemma_failure_stays(vad, model, audio, zero, k + 1, n);
    }
}

/// Repeating a detection repeats its result, whatever was detected in between: it depends on the
/// audio, the model and the way of resampling alone.
pub proof fn law_detection_repeats<T, E>(
    vad: VadService,
    model: Model<T>,
    resampler: Resampler<T>,
    audio: Seq<T>,
    sample_rate: usize,
    zero: T,
    first: Result<Vec<SpeechSegment>, E>,
    second: Result<Vec<SpeechSegment>, E>,
)
    requires
        outcome(first) == vad.detected(model, resampler, audio, sample_rate, zero),
        outcome(second) == vad.detected(model, resampler, audio, sample_rate, zero),
    ensures
        outcome(first) == outcome(second),
{
}

/// Audio of any rate gives the same segments as the same audio brought to 16 kHz before.
pub proof fn law_detection_resamples_first<T>(
    vad: VadService,
    model: Model<T>,
    resampler: Resampler<T>,
    audio: Seq<T>,
    sample_rate: usize,
    zero: T,
)
    ensures
        vad.detected(model, resampler, audio, sample_rate, zero) == vad.detected(
            model,
            resampler,
            heard_audio(resampler, audio, sample_rate),
            SAMPLE_RATE,
            zero,
        ),
{
}

/// No audio holds no speech, whatever the model would say.
pub proof fn law_no_audio_holds_no_speech<T>(
    vad: VadService,
    model: Model<T>,
    resampler: Resampler<T>,
    audio: Seq<T>,
    sample_rate: usize,
    zero: T,
)
    requires
        heard_audio(resampler, audio, sample_rate).len() == 0,
    ensures
        vad.detected(model, resampler, audio, sample_rate, zero) == Some(
            Seq::<SpeechSegment>::empty(),
        ),
{
    lemma_no_windows(vad.window() as int);
    let rules = WindowRules { sample_rate: SAMPLE_RATE, window: vad.window() };
    assert(speech_segments(rules, seq![]) =~= Seq::<SpeechSegment>::empty());
}

/// Where the model fails on any window there are no segments at all, not even those of the
/// windows before.
pub proof fn law_failed_model_finds_nothing<T>(
    vad: VadService,
    model: Model<T>,
    resampler: Resampler<T>,
    audio: Seq<T>,
    sample_rate: usize,
    zero: T,
    k: nat,
)
    requires
        ({
            let heard = heard_audio(resampler, audio, sample_rate);
            &&& k <= window_count(heard.len(), vad.window() as nat)
            &&& run_after(vad, model, heard, zero, k) is None
        }),
    ensures
        vad.detected(model, resampler, audio, sample_rate, zero) is None,
{
    let heard = heard_audio(resampler, audio, sample_rate);
    let count = window_count(heard.len(), vad.window() as nat);
    lemma_failure_stays(vad, model, heard, zero, k, count);
}

} // verus!
