//! Voice activity detection: from a model's per-window answers to stretches of speech.

pub mod detection;
pub mod detection_laws;
pub mod layout;
pub mod layout_laws;
pub mod segment_laws;
pub mod segments;
pub mod window_laws;
pub mod windows;

use crate::services::vad::detection::{
    can_answer, can_resample, comes_of, follows_model, follows_resampler, heard_audio, input_at,
    law_detection_resamples_first, law_search_follows_the_model,
    law_search_of_nothing_finds_nothing, lemma_states_before, may_find, may_give, may_give_all,
    may_hear, outcome, run_after, speech_by, state_lens, states_after, zero_states, Model,
    Resampler,
};
use crate::services::vad::layout::{infer_input_layout, TensorInput, VadInputLayout};
use crate::services::vad::segments::{
    segments_of_windows, speech_segments, SpeechSegment, WindowRules,
};
use crate::services::vad::windows::{
    row_views, sizes_for, VadRun, SAMPLE_RATE, WINDOW_SIZE_SAMPLES,
};
use vstd::prelude::*;

verus! {

/// The detector for one model.
#[derive(Debug, Clone)]
pub struct VadService {
    pub input_layout: VadInputLayout,
}

/// The place of a sample at 16 kHz in audio of `len` samples at another rate, or its end.
pub open spec fn place_of(sample: usize, sample_rate: usize, len: nat) -> int {
    let place = sample * sample_rate / SAMPLE_RATE as int;
    if place <= len {
        place
    } else {
        len as int
    }
}

/// The part of audio that a segment stands for.
pub open spec fn clipped<T>(audio: Seq<T>, segment: SpeechSegment, sample_rate: usize) -> Seq<T> {
    let start = place_of(segment.start, sample_rate, audio.len());
    let end = place_of(segment.end, sample_rate, audio.len());
    if start < end {
        audio.subrange(start, end)
    } else {
        seq![]
    }
}

/// The audio of the segments, one after the other.
pub open spec fn speech_audio<T>(
    audio: Seq<T>,
    segments: Seq<SpeechSegment>,
    sample_rate: usize,
) -> Seq<T>
    decreases segments.len(),
{
    if segments.len() == 0 {
        seq![]
    } else {
        speech_audio(audio, segments.drop_last(), sample_rate) + clipped(
            audio,
            segments.last(),
            sample_rate,
        )
    }
}

fn place(sample: usize, sample_rate: usize, len: usize) -> (r: usize)
    ensures
        r == place_of(sample, sample_rate, len as nat),
{
    proof {
        let a = sample as int;
        let b = sample_rate as int;
        assert(0 <= a * b <= usize::MAX * usize::MAX) by (nonlinear_arith)
            requires
                0 <= a <= usize::MAX,
                0 <= b <= usize::MAX,
        ;
        assert(usize::MAX * usize::MAX <= u128::MAX) by (nonlinear_arith)
            requires
                0 <= usize::MAX <= 0xffff_ffff_ffff_ffff,
        ;
    }
    let place: u128 = sample as u128 * sample_rate as u128 / SAMPLE_RATE as u128;
    if place <= len as u128 {
        place as usize
    } else {
        len
    }
}

impl VadService {
    /// The window length of the model.
    pub open spec fn window(self) -> usize {
        windows::window_sizes(self.input_layout.audio_input_samples).0
    }

    /// The context length of the model.
    pub open spec fn context(self) -> usize {
        windows::window_sizes(self.input_layout.audio_input_samples).1
    }

    /// A detector for a model with these inputs.
    pub fn new(inputs: &Vec<TensorInput>) -> (r: Result<VadService, String>)
        ensures
            match r {
                Ok(vad) => vad.input_layout.is_layout_of(inputs@),
                Err(e) => {
                    &&& layout::inputs_of(inputs@, layout::ElementType::Float32).len() == 0
                    &&& e@ == "VAD model has no float32 input tensor"@
                },
            },
    {
        match infer_input_layout(inputs) {
            Ok(input_layout) => Ok(VadService { input_layout }),
            Err(e) => Err(e),
        }
    }

    /// Starts on a piece of audio. `zero` is the value of silence.
    pub fn process_audio<T: Copy>(&self, zero: T) -> (r: VadRun<T>)
        ensures
            r.wf(),
            r.window_size == self.window(),
            r.context@ == Seq::new(self.context() as nat, |j: int| zero),
            r.state_lens@ == Seq::new(
                self.input_layout.state_inputs@.len(),
                |i: int| self.input_layout.state_inputs@[i].len,
            ),
            forall|i: int|
                0 <= i < r.states@.len() ==> (#[trigger] r.states@[i])@ == Seq::new(
                    self.input_layout.state_inputs@[i].len as nat,
                    |j: int| zero,
                ),
            r.speech@ == Seq::<bool>::empty(),
            forall|audio: Seq<T>| #[trigger] r.tracks(audio, zero),
    {
        let (window_size, context_size) = sizes_for(self.input_layout.audio_input_samples);
        let mut state_lens: Vec<usize> = Vec::new();
        let mut i: usize = 0;
        while i < self.input_layout.state_inputs.len()
            invariant
                i <= self.input_layout.state_inputs.len(),
                state_lens@ == Seq::new(
                    i as nat,
                    |k: int| self.input_layout.state_inputs@[k].len,
                ),
            decreases self.input_layout.state_inputs.len() - i,
        {
            state_lens.push(self.input_layout.state_inputs[i].len);
            i = i + 1;
            assert(state_lens@ =~= Seq::new(
                i as nat,
                |k: int| self.input_layout.state_inputs@[k].len,
            ));
        }
        VadRun::new(window_size, context_size, state_lens, zero)
    }

    /// What this detector finds with this model and this way of resampling, or nothing where the
    /// model fails.
    pub open spec fn detected<T>(
        self,
        model: Model<T>,
        resampler: Resampler<T>,
        audio: Seq<T>,
        sample_rate: usize,
        zero: T,
    ) -> Option<Seq<SpeechSegment>> {
        let heard = heard_audio(resampler, audio, sample_rate);
        let count = windows::window_count(heard.len(), self.window() as nat);
        match run_after(self, model, heard, zero, count) {
            Some((speech, _)) => Some(
                speech_segments(
                    WindowRules { sample_rate: SAMPLE_RATE, window: self.window() },
                    speech,
                ),
            ),
            None => None,
        }
    }

    /// The speech segments of audio: it is brought to 16 kHz by `resample` where it has another
    /// rate, and `infer` is asked for each window whether it holds speech.
    ///
    /// Where `infer` fails, its error is returned and nothing else.
    pub fn detect_speech_segments<T: Copy, E, R, M>(
        &self,
        audio: &[T],
        sample_rate: usize,
        zero: T,
        resample: R,
        infer: M,
    ) -> (r: Result<Vec<SpeechSegment>, E>) where
        R: Fn(&[T], usize) -> Vec<T>,
        M: Fn(&Vec<T>, &Vec<Vec<T>>) -> Result<(bool, Vec<Vec<T>>), E>,

        requires
            audio@.len() + WINDOW_SIZE_SAMPLES <= usize::MAX,
            sample_rate != SAMPLE_RATE ==> resample.requires((audio, sample_rate)),
            forall|heard: Vec<T>| #[trigger]
                resample.ensures((audio, sample_rate), heard) ==> heard@.len()
                    + WINDOW_SIZE_SAMPLES <= usize::MAX,
            forall|input: &Vec<T>, states: &Vec<Vec<T>>| #[trigger]
                infer.requires((input, states)),
        ensures
            exists|heard: Seq<T>| #[trigger]
                may_hear(resample, audio, sample_rate, heard) && may_find(
                    *self,
                    infer,
                    heard,
                    zero,
                    r,
                ),
            forall|model: Model<T>, resampler: Resampler<T>|
                #![trigger follows_model(infer, model), self.detected(model, resampler, audio@, sample_rate, zero)]
                follows_model(infer, model) && (sample_rate == SAMPLE_RATE || follows_resampler(
                    resample,
                    resampler,
                )) ==> outcome(r) == self.detected(model, resampler, audio@, sample_rate, zero),
            sample_rate == SAMPLE_RATE && audio@.len() == 0 ==> (r matches Ok(segments)
                && segments@.len() == 0),
    {
        if sample_rate != SAMPLE_RATE {
            let heard = resample(audio, sample_rate);
            let r = self.detect_in(heard.as_slice(), zero, infer);
            proof {
                assert(can_resample(resample, audio, sample_rate, heard));
                assert(may_hear(resample, audio, sample_rate, heard@));
                assert forall|model: Model<T>, resampler: Resampler<T>|
                    follows_model(infer, model) && follows_resampler(
                        resample,
                        resampler,
                    ) implies outcome(r) == #[trigger] self.detected(
                    model,
                    resampler,
                    audio@,
                    sample_rate,
                    zero,
                ) by {
                    law_search_follows_the_model(
                        *self,
                        infer,
                        model,
                        resampler,
                        heard@,
                        zero,
                        r,
                    );
                    law_detection_resamples_first(
                        *self,
                        model,
                        resampler,
                        audio@,
                        sample_rate,
                        zero,
                    );
                }
            }
            r
        } else {
            let r = self.detect_in(audio, zero, infer);
            proof {
                assert(may_hear(resample, audio, sample_rate, audio@));
                if audio@.len() == 0 {
                    law_search_of_nothing_finds_nothing(*self, infer, audio@, zero, r);
                }
                assert forall|model: Model<T>, resampler: Resampler<T>|
                    follows_model(infer, model) implies outcome(r) == #[trigger] self.detected(
                    model,
                    resampler,
                    audio@,
                    sample_rate,
                    zero,
                ) by {
                    law_search_follows_the_model(
                        *self,
                        infer,
                        model,
                        resampler,
                        audio@,
                        zero,
                        r,
                    );
                }
            }
            r
        }
    }

    /// The speech segments of audio at 16 kHz.
    fn detect_in<T: Copy, E, M>(&self, audio: &[T], zero: T, infer: M) -> (r: Result<
        Vec<SpeechSegment>,
        E,
    >) where M: Fn(&Vec<T>, &Vec<Vec<T>>) -> Result<(bool, Vec<Vec<T>>), E>
        requires
            audio@.len() + WINDOW_SIZE_SAMPLES <= usize::MAX,
            forall|input: &Vec<T>, states: &Vec<Vec<T>>| #[trigger]
                infer.requires((input, states)),
        ensures
            may_find(*self, infer, audio@, zero, r),
    {
        let (window_size, _) = sizes_for(self.input_layout.audio_input_samples);
        let ghost count = windows::window_count(audio@.len(), window_size as nat);
        let ghost mut answers: Seq<(bool, Vec<Vec<T>>)> = seq![];
        let mut run = self.process_audio(zero);
        proof {
            windows::law_windows_cover_the_audio(audio@.len(), window_size as nat);
            assert(row_views(run.states@) =~= zero_states(*self, zero));
            assert(run.speech@ =~= speech_by(answers));
        }
        loop
            invariant
                run.wf(),
                run.tracks(audio@, zero),
                run.window_size == window_size,
                window_size == self.window(),
                run.context@.len() == self.context(),
                run.state_lens@ == state_lens(*self),
                count == windows::window_count(audio@.len(), window_size as nat),
                run.speech@.len() <= count,
                run.speech@.len() == answers.len(),
                run.speech@ == speech_by(answers),
                row_views(run.states@) == states_after(*self, answers, zero, answers.len()),
                may_give_all(*self, infer, audio@, zero, answers),
                forall|input: &Vec<T>, states: &Vec<Vec<T>>| #[trigger]
                    infer.requires((input, states)),
            ensures
                run.speech@.len() == count,
            decreases count - run.speech@.len(),
        {
            let input = match run.next_input(audio, zero) {
                Some(input) => input,
                None => {
                    break ;
                },
            };
            let answer = infer(&input, &run.states);
            proof {
                windows::law_context_continues(
                    audio@,
                    run.position(),
                    window_size as nat,
                    run.context@,
                    zero,
                );
                assert(input@ == input_at(*self, audio@, zero, answers.len()));
                assert(can_answer(infer, &input, &run.states, answer));
                assert(may_give(
                    infer,
                    input_at(*self, audio@, zero, answers.len()),
                    states_after(*self, answers, zero, answers.len()),
                    answer,
                ));
            }
            match answer {
                Ok((is_speech, outputs)) => {
                    proof {
                        let next = (is_speech, outputs);
                        let longer = answers.push(next);
                        assert forall|k: int| 0 <= k < longer.len() implies may_give(
                            infer,
                            input_at(*self, audio@, zero, k as nat),
                            states_after(*self, longer, zero, k as nat),
                            Ok(#[trigger] longer[k]),
                        ) by {
                            lemma_states_before(*self, answers, next, zero, k as nat);
                            if k < answers.len() {
                                assert(longer[k] == answers[k]);
                            }
                        }
                        lemma_states_before(*self, answers, next, zero, answers.len());
                        assert(speech_by(longer) =~= speech_by(answers).push(is_speech));
                        answers = longer;
                    }
                    run.accept(&input, is_speech, &outputs, zero);
                },
                Err(e) => {
                    let r: Result<Vec<SpeechSegment>, E> = Err(e);
                    assert(comes_of(*self, infer, audio@, zero, answers, r));
                    return r;
                },
            }
        }
        let r: Result<Vec<SpeechSegment>, E> = Ok(
            segments_of_windows(&run.speech, SAMPLE_RATE, window_size),
        );
        assert(comes_of(*self, infer, audio@, zero, answers, r));
        r
    }

    /// The audio of the segments only, one after the other, out of audio of this rate.
    pub fn extract_speech_audio<T: Copy>(
        audio: &[T],
        segments: &Vec<SpeechSegment>,
        sample_rate: usize,
    ) -> (r: Vec<T>)
        ensures
            r@ == speech_audio(audio@, segments@, sample_rate),
    {
        let mut r: Vec<T> = Vec::new();
        let mut i: usize = 0;
        while i < segments.len()
            invariant
                i <= segments.len(),
                r@ == speech_audio(audio@, segments@.take(i as int), sample_rate),
            decreases segments.len() - i,
        {
            let segment = segments[i];
            let total: usize = audio.len();
            let start: usize = place(segment.start, sample_rate, total);
            let end: usize = place(segment.end, sample_rate, total);
            let ghost before = r@;
            let ghost piece = clipped(audio@, segment, sample_rate);
            let mut p: usize = start;
            while p < end
                invariant
                    start <= p,
                    p <= end || p == start,
                    end <= audio@.len(),
                    piece == if start < end {
                        audio@.subrange(start as int, end as int)
                    } else {
                        seq![]
                    },
                    r@ == before + piece.take(p - start),
                decreases end - p,
            {
                r.push(audio[p]);
                p = p + 1;
                assert(r@ =~= before + piece.take(p - start));
            }
            assert(piece.take(p - start) =~= piece);
            assert(segments@.take(i + 1).drop_last() =~= segments@.take(i as int));
            i = i + 1;
        }
        assert(segments@.take(i as int) =~= segments@);
        r
    }
}

} // verus!
