//! What a detection comes to, from the answers to its windows to its segments.

use crate::services::vad::detection::{
    can_answer, can_resample, comes_of, input_at, may_find, may_give, may_hear, speech_by,
    states_after,
};
use crate::services::vad::segment_laws::{
    in_segments, law_segments_in_order, law_speech_is_covered, lemma_segment_pairs,
};
use crate::services::vad::segments::{
    emitted, lemma_last_longer, lemma_next_speech, lemma_run_end, next_speech, run_end,
    run_segment, segments_from, segments_of_windows, speech_segments, SpeechSegment, WindowRules,
};
use crate::services::vad::windows::{law_windows_cover_the_audio, row_views, window_count};
use crate::services::vad::VadService;
use vstd::prelude::*;

verus! {

/// How many samples a window of this detector has: what the model takes, at most 512.
pub open spec fn window_of(vad: VadService) -> int {
    match vad.input_layout.audio_input_samples {
        Some(samples) => if 0 < samples < 512 {
            samples as int
        } else {
            512
        },
        None => 512,
    }
}

/// How many samples of context this detector puts before a window: what the model takes beyond 512.
pub open spec fn context_of(vad: VadService) -> int {
    match vad.input_layout.audio_input_samples {
        Some(samples) => if samples > 512 {
            samples - 512
        } else {
            0
        },
        None => 0,
    }
}

/// Whether the windows `a..=b` all hold speech.
pub open spec fn all_speech(flags: Seq<bool>, a: int, b: int) -> bool {
    forall|i: int| a <= i <= b ==> #[trigger] flags[i]
}

/// Whether the windows `a..=b` are all silent.
pub open spec fn all_silent(flags: Seq<bool>, a: int, b: int) -> bool {
    forall|i: int| a <= i <= b ==> !#[trigger] flags[i]
}

/// Whether the windows `a..=b` are a run: both hold speech, no silence of more than 100 ms lies
/// between them, and more than 100 ms of silence lie between them and any other speech.
pub open spec fn is_run(flags: Seq<bool>, rate: int, w: int, a: int, b: int) -> bool {
    &&& 0 <= a <= b < flags.len()
    &&& flags[a]
    &&& flags[b]
    &&& forall|i: int, j: int|
        a < i <= j < b && #[trigger] all_silent(flags, i, j) ==> (j + 1 - i) * w * 1000 <= 100
            * rate
    &&& forall|k: int|
        0 <= k < a && #[trigger] flags[k] ==> (a - 1 - k) * w * 1000 > 100 * rate
    &&& forall|k: int|
        b < k < flags.len() && #[trigger] flags[k] ==> (k - 1 - b) * w * 1000 > 100 * rate
}

/// Whether the windows `a..=b` last at least 250 ms.
pub open spec fn is_long(rate: int, w: int, a: int, b: int) -> bool {
    (b + 1 - a) * w * 1000 >= 250 * rate
}

/// Whether a segment lasts from 30 ms before window `a` to 30 ms after window `b`, as far as there
/// is audio, or to the end of the audio where no more than 100 ms follow.
pub open spec fn spans(
    flags: Seq<bool>,
    rate: int,
    w: int,
    segment: SpeechSegment,
    a: int,
    b: int,
) -> bool {
    let total = flags.len() * w;
    let pad = 30 * rate / 1000;
    &&& segment.start == if a * w < pad {
        0
    } else {
        a * w - pad
    }
    &&& if (flags.len() - 1 - b) * w * 1000 > 100 * rate && (b + 1) * w + pad < total {
        segment.end == (b + 1) * w + pad
    } else {
        segment.end == total
    }
}

/// Whether a segment is that of a run of at least 250 ms.
pub open spec fn is_of_speech(
    flags: Seq<bool>,
    rate: int,
    w: int,
    segment: SpeechSegment,
) -> bool {
    exists|a: int, b: int| #[trigger]
        is_run(flags, rate, w, a, b) && is_long(rate, w, a, b) && spans(
            flags,
            rate,
            w,
            segment,
            a,
            b,
        )
}

/// Whether one of the segments is that of the run `a..=b`.
pub open spec fn is_listed(
    flags: Seq<bool>,
    rate: int,
    w: int,
    segments: Seq<SpeechSegment>,
    a: int,
    b: int,
) -> bool {
    exists|m: int|
        0 <= m < segments.len() && spans(flags, rate, w, #[trigger] segments[m], a, b)
}

/// Whether these are the segments of windows of `w` samples: every run of at least 250 ms has its
/// segment, each segment is that of such a run, and they come one after the other. So every sample
/// of a row of speech of at least 250 ms, and of 30 ms around it, lies in one of them.
pub open spec fn are_segments_of(
    flags: Seq<bool>,
    rate: int,
    w: int,
    segments: Seq<SpeechSegment>,
) -> bool {
    let pad = 30 * rate / 1000;
    &&& forall|a: int, b: int| #[trigger]
        is_run(flags, rate, w, a, b) && is_long(rate, w, a, b) ==> is_listed(
            flags,
            rate,
            w,
            segments,
            a,
            b,
        )
    &&& forall|m: int|
        0 <= m < segments.len() ==> is_of_speech(flags, rate, w, #[trigger] segments[m])
    &&& forall|m: int, n: int|
        0 <= m < n < segments.len() ==> (#[trigger] segments[m]).end <= (
        #[trigger] segments[n]).start
    &&& forall|a: int, b: int, p: int|
        0 <= a <= b < flags.len() && #[trigger] all_speech(flags, a, b) && is_long(rate, w, a, b)
            && a * w - pad <= p < (b + 1) * w + pad && 0 <= p < flags.len() * w
            ==> #[trigger] in_a_segment(segments, p)
}

/// Whether a sample lies in one of the segments.
pub open spec fn in_a_segment(segments: Seq<SpeechSegment>, p: int) -> bool {
    exists|m: int|
        0 <= m < segments.len() && (#[trigger] segments[m]).start <= p < segments[m].end
}

/// A run holds no silence that is long enough to end it.
proof fn lemma_no_closing_gap(rules: WindowRules, speech: Seq<bool>, a: int, i: int, j: int)
    requires
        0 <= a < speech.len(),
        speech[a],
        a < i <= j < run_end(rules, speech, a),
        all_silent(speech, i, j),
    ensures
        !rules.closes(j + 1 - i),
    decreases speech.len() - a,
{
    lemma_next_speech(speech, a + 1);
    let c = next_speech(speech, a + 1);
    assert(a < c < speech.len() && !rules.closes(c - a - 1));
    lemma_run_end(rules, speech, c);
    assert(speech[c]);
    if j < c {
        lemma_last_longer(rules, j + 1 - i, c - a - 1);
    } else {
        if i <= c {
            assert(!speech[c]);
        }
        lemma_no_closing_gap(rules, speech, c, i, j);
    }
}

/// Whether more than 100 ms of silence lie between the first speech from window `i` on and any
/// speech before window `i`.
spec fn is_apart(rules: WindowRules, speech: Seq<bool>, i: int) -> bool {
    forall|k: int|
        0 <= k < i && #[trigger] speech[k] && next_speech(speech, i) < speech.len()
            ==> rules.closes(next_speech(speech, i) - 1 - k)
}

/// What follows a run is apart from all that was before.
proof fn lemma_apart_after_run(rules: WindowRules, speech: Seq<bool>, a: int)
    requires
        0 <= a < speech.len(),
        speech[a],
    ensures
        is_apart(rules, speech, run_end(rules, speech, a) + 1),
{
    lemma_run_end(rules, speech, a);
    let b = run_end(rules, speech, a);
    let c = next_speech(speech, b + 1);
    assert forall|k: int|
        0 <= k < b + 1 && #[trigger] speech[k] && c < speech.len() implies rules.closes(
        c - 1 - k,
    ) by {
        lemma_last_longer(rules, c - b - 1, c - 1 - k);
    }
}

/// The run that starts with the first speech from window `i` on.
proof fn lemma_first_run(rules: WindowRules, speech: Seq<bool>, i: int)
    requires
        0 <= i <= speech.len(),
        next_speech(speech, i) < speech.len(),
        is_apart(rules, speech, i),
    ensures
        ({
            let a = next_speech(speech, i);
            is_run(
                speech,
                rules.sample_rate as int,
                rules.window as int,
                a,
                run_end(rules, speech, a),
            )
        }),
{
    let rate = rules.sample_rate as int;
    let w = rules.window as int;
    lemma_next_speech(speech, i);
    let a = next_speech(speech, i);
    lemma_run_end(rules, speech, a);
    let b = run_end(rules, speech, a);
    assert forall|x: int, y: int|
        a < x <= y < b && #[trigger] all_silent(speech, x, y) implies (y + 1 - x) * w * 1000 <= 100
        * rate by {
        lemma_no_closing_gap(rules, speech, a, x, y);
    }
    assert forall|k: int| 0 <= k < a && #[trigger] speech[k] implies (a - 1 - k) * w * 1000 > 100
        * rate by {
        assert(k < i);
    }
    assert forall|k: int| b < k < speech.len() && #[trigger] speech[k] implies (k - 1 - b) * w
        * 1000 > 100 * rate by {
        lemma_next_speech(speech, b + 1);
        let c = next_speech(speech, b + 1);
        assert(c <= k);
        lemma_last_longer(rules, c - b - 1, k - 1 - b);
    }
}

/// Every segment comes from a run.
proof fn lemma_segment_has_run(rules: WindowRules, speech: Seq<bool>, i: int, m: int)
    requires
        0 <= i <= speech.len(),
        is_apart(rules, speech, i),
        0 <= m < segments_from(rules, speech, i).len(),
    ensures
        exists|a: int, b: int| #[trigger]
            is_run(speech, rules.sample_rate as int, rules.window as int, a, b) && run_segment(
                rules,
                speech.len(),
                a,
                b,
            ) == Some(segments_from(rules, speech, i)[m]),
    decreases speech.len() - i,
{
    lemma_next_speech(speech, i);
    let a = next_speech(speech, i);
    if a < speech.len() {
        lemma_run_end(rules, speech, a);
        let b = run_end(rules, speech, a);
        lemma_first_run(rules, speech, i);
        let here = emitted(rules, speech.len(), a, b);
        let rest = segments_from(rules, speech, b + 1);
        assert(segments_from(rules, speech, i) == here + rest);
        if m >= here.len() {
            assert((here + rest)[m] == rest[m - here.len()]);
            lemma_apart_after_run(rules, speech, a);
            lemma_segment_has_run(rules, speech, b + 1, m - here.len());
        }
    }
}

/// A run goes on from each of its windows to its last.
proof fn lemma_run_is_whole(rules: WindowRules, speech: Seq<bool>, a: int, b: int, x: int)
    requires
        is_run(speech, rules.sample_rate as int, rules.window as int, a, b),
        a <= x <= b,
        speech[x],
    ensures
        run_end(rules, speech, x) == b,
    decreases b - x,
{
    lemma_next_speech(speech, x + 1);
    let c = next_speech(speech, x + 1);
    if x < b {
        assert(c <= b);
        if x + 1 <= c - 1 {
            assert(all_silent(speech, x + 1, c - 1));
        } else {
            assert(0 * rules.window * 1000 == 0) by (nonlinear_arith);
            assert(c - x - 1 == 0);
        }
        assert(!rules.closes(c - x - 1));
        lemma_run_is_whole(rules, speech, a, b, c);
    }
}

/// What is before a run ends before it.
proof fn lemma_run_stops(rules: WindowRules, speech: Seq<bool>, a: int, b: int, x: int)
    requires
        is_run(speech, rules.sample_rate as int, rules.window as int, a, b),
        0 <= x < a,
        speech[x],
    ensures
        run_end(rules, speech, x) < a,
    decreases a - x,
{
    lemma_next_speech(speech, x + 1);
    let c = next_speech(speech, x + 1);
    assert(c <= a);
    if c < a {
        lemma_run_stops(rules, speech, a, b, c);
    }
}

/// Every run that is long enough has its segment.
proof fn lemma_run_has_segment(rules: WindowRules, speech: Seq<bool>, i: int, a: int, b: int)
    requires
        0 <= i <= a,
        is_run(speech, rules.sample_rate as int, rules.window as int, a, b),
        rules.keeps(b + 1 - a),
    ensures
        segments_from(rules, speech, i).contains(run_segment(rules, speech.len(), a, b)->0),
    decreases speech.len() - i,
{
    lemma_next_speech(speech, i);
    let x = next_speech(speech, i);
    assert(x <= a);
    lemma_run_end(rules, speech, x);
    let y = run_end(rules, speech, x);
    let here = emitted(rules, speech.len(), x, y);
    let rest = segments_from(rules, speech, y + 1);
    let pair = run_segment(rules, speech.len(), a, b)->0;
    assert(segments_from(rules, speech, i) == here + rest);
    if x == a {
        lemma_run_is_whole(rules, speech, a, b, a);
        assert((here + rest)[0] == pair);
    } else {
        lemma_run_stops(rules, speech, a, b, x);
        lemma_run_has_segment(rules, speech, y + 1, a, b);
        let k = choose|k: int| 0 <= k < rest.len() && rest[k] == pair;
        assert((here + rest)[here.len() + k] == pair);
    }
}

/// The segments of a row of windows are those of its runs of at least 250 ms, and come one after
/// the other.
pub proof fn law_segments_are_the_speech(
    speech: &Vec<bool>,
    sample_rate: usize,
    window: usize,
    r: Vec<SpeechSegment>,
)
    requires
        speech@.len() * window <= usize::MAX,
        call_ensures(segments_of_windows, (speech, sample_rate, window), r),
    ensures
        are_segments_of(speech@, sample_rate as int, window as int, r@),
{
    lemma_segments_are_the_speech(speech@, sample_rate, window);
}

proof fn lemma_segments_are_the_speech(flags: Seq<bool>, rate: usize, w: usize)
    requires
        flags.len() * w <= usize::MAX,
    ensures
        are_segments_of(
            flags,
            rate as int,
            w as int,
            speech_segments(WindowRules { sample_rate: rate, window: w }, flags),
        ),
{
    let rules = WindowRules { sample_rate: rate, window: w };
    let segments = speech_segments(rules, flags);
    let pairs = segments_from(rules, flags, 0);
    let pad = 30 * rate / 1000;
    law_segments_in_order(rules, flags);
    lemma_segment_pairs(rules, flags);
    assert forall|a: int, b: int, p: int|
        0 <= a <= b < flags.len() && #[trigger] all_speech(flags, a, b) && is_long(
            rate as int,
            w as int,
            a,
            b,
        ) && a * w - pad <= p < (b + 1) * w + pad && 0 <= p < flags.len()
            * w implies #[trigger] in_a_segment(segments, p) by {
        law_speech_is_covered(rules, flags, a, b, p);
        assert(in_segments(segments, p));
    }
    assert forall|m: int| 0 <= m < segments.len() implies is_of_speech(
        flags,
        rate as int,
        w as int,
        #[trigger] segments[m],
    ) by {
        lemma_segment_has_run(rules, flags, 0, m);
        let (a, b) = choose|a: int, b: int| #[trigger]
            is_run(flags, rate as int, w as int, a, b) && run_segment(rules, flags.len(), a, b)
                == Some(pairs[m]);
        assert(segments[m].start == pairs[m].0 && segments[m].end == pairs[m].1);
        assert(spans(flags, rate as int, w as int, segments[m], a, b));
    }
    assert forall|a: int, b: int| #[trigger]
        is_run(flags, rate as int, w as int, a, b) && is_long(
            rate as int,
            w as int,
            a,
            b,
        ) implies is_listed(flags, rate as int, w as int, segments, a, b) by {
        lemma_run_has_segment(rules, flags, 0, a, b);
        let pair = run_segment(rules, flags.len(), a, b)->0;
        let m = choose|m: int| 0 <= m < pairs.len() && pairs[m] == pair;
        assert(segments[m].start == pairs[m].0 && segments[m].end == pairs[m].1);
        assert(spans(flags, rate as int, w as int, segments[m], a, b));
    }
}

/// Whether a function may give this answer.
pub open spec fn gives<T, E, M>(
    infer: M,
    input: &Vec<T>,
    states: &Vec<Vec<T>>,
    answer: Result<(bool, Vec<Vec<T>>), E>,
) -> bool where M: Fn(&Vec<T>, &Vec<Vec<T>>) -> Result<(bool, Vec<Vec<T>>), E> {
    call_ensures(infer, (input, states), answer)
}

/// Whether a function may make this of audio of some rate.
pub open spec fn makes<T, R>(resample: R, audio: &[T], sample_rate: usize, given: Vec<T>) -> bool
    where R: Fn(&[T], usize) -> Vec<T>
{
    call_ensures(resample, (audio, sample_rate), given)
}

/// Whether the recurrent states go over into others by what a model returned: a state that it
/// returned is cut or filled up to its length, and another keeps its value.
pub open spec fn carried<T>(
    vad: VadService,
    before: Seq<Seq<T>>,
    outputs: Seq<Vec<T>>,
    after: Seq<Seq<T>>,
    zero: T,
) -> bool {
    let specs = vad.input_layout.state_inputs@;
    &&& before.len() == after.len() == specs.len()
    &&& forall|m: int|
        0 <= m < after.len() ==> if m < outputs.len() {
            &&& (#[trigger] after[m]).len() == specs[m].len
            &&& forall|j: int|
                0 <= j < after[m].len() ==> #[trigger] after[m][j] == if j < outputs[m]@.len() {
                    outputs[m]@[j]
                } else {
                    zero
                }
        } else {
            after[m] == before[m]
        }
}

/// Whether these are the states that a detection starts with: zeros, as many as each has.
pub open spec fn at_rest<T>(vad: VadService, states: Seq<Seq<T>>, zero: T) -> bool {
    let specs = vad.input_layout.state_inputs@;
    &&& states.len() == specs.len()
    &&& forall|m: int|
        0 <= m < states.len() ==> {
            &&& (#[trigger] states[m]).len() == specs[m].len
            &&& forall|j: int| 0 <= j < states[m].len() ==> #[trigger] states[m][j] == zero
        }
}

/// Whether an input is window `k` with the context before it: the samples of the audio there, and
/// zeros before its start and after its end.
pub open spec fn is_window<T>(
    vad: VadService,
    audio: Seq<T>,
    zero: T,
    k: int,
    input: Seq<T>,
) -> bool {
    let w = window_of(vad);
    let c = context_of(vad);
    &&& input.len() == c + w
    &&& forall|j: int|
        0 <= j < input.len() ==> #[trigger] input[j] == if 0 <= k * w - c + j < audio.len() {
            audio[k * w - c + j]
        } else {
            zero
        }
}

/// Whether a function was asked for window `k` with these states and gave this answer.
pub open spec fn was_asked<T, E, M>(
    vad: VadService,
    infer: M,
    audio: Seq<T>,
    zero: T,
    k: int,
    states: Seq<Seq<T>>,
    answer: Result<(bool, Vec<Vec<T>>), E>,
) -> bool where M: Fn(&Vec<T>, &Vec<Vec<T>>) -> Result<(bool, Vec<Vec<T>>), E> {
    exists|i: &Vec<T>, s: &Vec<Vec<T>>|
        is_window(vad, audio, zero, k, i@) && s@.len() == states.len() && (forall|m: int|
            0 <= m < states.len() ==> (#[trigger] s@[m])@ == states[m]) && #[trigger] gives(
            infer,
            i,
            s,
            answer,
        )
}

/// Whether a function gave these answers to the first windows, starting at rest, with the states
/// carried on from each to the next.
pub open spec fn gave<T, E, M>(
    vad: VadService,
    infer: M,
    audio: Seq<T>,
    zero: T,
    answers: Seq<(bool, Vec<Vec<T>>)>,
    states: Seq<Seq<Seq<T>>>,
) -> bool where M: Fn(&Vec<T>, &Vec<Vec<T>>) -> Result<(bool, Vec<Vec<T>>), E> {
    &&& states.len() == answers.len() + 1
    &&& at_rest(vad, states[0], zero)
    &&& forall|k: int|
        0 <= k < answers.len() ==> {
            &&& was_asked(vad, infer, audio, zero, k, states[k], Ok(#[trigger] answers[k]))
            &&& carried(vad, states[k], answers[k].1@, states[k + 1], zero)
        }
}

/// Whether so many windows cover the audio, and no fewer do.
pub open spec fn covers_audio(n: int, w: int, len: int) -> bool {
    &&& n * w >= len
    &&& n > 0 ==> (n - 1) * w < len
}

proof fn lemma_window_is_input<T>(vad: VadService, audio: Seq<T>, zero: T, k: nat)
    ensures
        is_window(vad, audio, zero, k as int, input_at(vad, audio, zero, k)),
{
    assert(vad.window() == window_of(vad) && vad.context() == context_of(vad));
}

proof fn lemma_was_asked<T, E, M>(
    vad: VadService,
    infer: M,
    audio: Seq<T>,
    zero: T,
    k: nat,
    states: Seq<Seq<T>>,
    answer: Result<(bool, Vec<Vec<T>>), E>,
) where M: Fn(&Vec<T>, &Vec<Vec<T>>) -> Result<(bool, Vec<Vec<T>>), E>
    requires
        may_give(infer, input_at(vad, audio, zero, k), states, answer),
    ensures
        was_asked(vad, infer, audio, zero, k as int, states, answer),
{
    let input = input_at(vad, audio, zero, k);
    let (i, s) = choose|i: &Vec<T>, s: &Vec<Vec<T>>|
        i@ == input && row_views(s@) == states && #[trigger] can_answer(infer, i, s, answer);
    lemma_window_is_input(vad, audio, zero, k);
    assert(gives(infer, i, s, answer));
    assert(row_views(s@).len() == s@.len());
    assert forall|m: int| 0 <= m < states.len() implies (#[trigger] s@[m])@ == states[m] by {
        assert(row_views(s@)[m] == s@[m]@);
    }
}

/// What a detection at 16 kHz returns is right for what it heard: there are answers of the model,
/// one to each window from the first on, with the states carried on. Where there is one for every
/// window, the segments are those of the windows answered with speech: every sample of every row
/// of such windows of at least 250 ms lies in one of them. Otherwise it returns the error that the
/// model gave to the next window.
pub proof fn law_search_returns_the_speech<T, E, M>(
    vad: VadService,
    infer: M,
    audio: Seq<T>,
    zero: T,
    r: Result<Vec<SpeechSegment>, E>,
) where M: Fn(&Vec<T>, &Vec<Vec<T>>) -> Result<(bool, Vec<Vec<T>>), E>
    requires
        may_find(vad, infer, audio, zero, r),
        audio.len() + 512 <= usize::MAX,
    ensures
        exists|answers: Seq<(bool, Vec<Vec<T>>)>, states: Seq<Seq<Seq<T>>>|
            #[trigger] gave(vad, infer, audio, zero, answers, states) && match r {
                Ok(segments) => {
                    &&& covers_audio(answers.len() as int, window_of(vad), audio.len() as int)
                    &&& are_segments_of(
                        answers.map_values(|answer: (bool, Vec<Vec<T>>)| answer.0),
                        16000,
                        window_of(vad),
                        segments@,
                    )
                },
                Err(e) => {
                    &&& answers.len() * window_of(vad) < audio.len()
                    &&& was_asked(
                        vad,
                        infer,
                        audio,
                        zero,
                        answers.len() as int,
                        states.last(),
                        Err(e),
                    )
                },
            },
{
    let answers = choose|answers: Seq<(bool, Vec<Vec<T>>)>| #[trigger]
        comes_of(vad, infer, audio, zero, answers, r);
    let n = answers.len();
    let w = vad.window();
    assert(w == window_of(vad));
    let count = window_count(audio.len(), w as nat);
    law_windows_cover_the_audio(audio.len(), w as nat);
    let states = Seq::new(n + 1, |k: int| states_after(vad, answers, zero, k as nat));
    assert(at_rest(vad, states[0], zero));
    assert forall|k: int| 0 <= k < n implies {
        &&& was_asked(vad, infer, audio, zero, k, states[k], Ok(#[trigger] answers[k]))
        &&& carried(vad, states[k], answers[k].1@, states[k + 1], zero)
    } by {
        lemma_was_asked(vad, infer, audio, zero, k as nat, states[k], Ok(answers[k]));
        lemma_states_len(vad, answers, zero, k as nat);
        let outputs = answers[k].1@;
        let after = states[k + 1];
        assert forall|m: int| 0 <= m < after.len() implies if m < outputs.len() {
            &&& (#[trigger] after[m]).len() == vad.input_layout.state_inputs@[m].len
            &&& forall|j: int|
                0 <= j < after[m].len() ==> #[trigger] after[m][j] == if j < outputs[m]@.len() {
                    outputs[m]@[j]
                } else {
                    zero
                }
        } else {
            after[m] == states[k][m]
        } by {
            if m < outputs.len() {
                assert(row_views(outputs)[m] == outputs[m]@);
            }
        }
    }
    assert(gave(vad, infer, audio, zero, answers, states));
    match r {
        Ok(segments) => {
            assert((n - 1) * w == n * w - w) by (nonlinear_arith);
            lemma_segments_are_the_speech(speech_by(answers), 16000, w);
        },
        Err(e) => {
            assert(n * w < audio.len()) by (nonlinear_arith)
                requires
                    n < count,
                    w > 0,
                    count * w < audio.len() + w,
            ;
            lemma_was_asked(vad, infer, audio, zero, n, states.last(), Err(e));
        },
    }
}

proof fn lemma_states_len<T>(
    vad: VadService,
    answers: Seq<(bool, Vec<Vec<T>>)>,
    zero: T,
    k: nat,
)
    ensures
        states_after(vad, answers, zero, k).len() == vad.input_layout.state_inputs@.len(),
    decreases k,
{
    if k > 0 {
        lemma_states_len(vad, answers, zero, (k - 1) as nat);
    }
}

/// What a detection returns is right for its audio brought to 16 kHz: the audio itself where it
/// has that rate, and otherwise what resampling it gave.
pub proof fn law_detection_returns_the_speech<T: Copy, E, R, M>(
    vad: &VadService,
    audio: &[T],
    sample_rate: usize,
    zero: T,
    resample: R,
    infer: M,
    r: Result<Vec<SpeechSegment>, E>,
) where
    R: Fn(&[T], usize) -> Vec<T>,
    M: Fn(&Vec<T>, &Vec<Vec<T>>) -> Result<(bool, Vec<Vec<T>>), E>,

    requires
        audio@.len() + 512 <= usize::MAX,
        forall|heard: Vec<T>| #[trigger]
            makes(resample, audio, sample_rate, heard) ==> heard@.len() + 512 <= usize::MAX,
        call_ensures(
            VadService::detect_speech_segments::<T, E, R, M>,
            (vad, audio, sample_rate, zero, resample, infer),
            r,
        ),
    ensures
        exists|heard: Seq<T>, answers: Seq<(bool, Vec<Vec<T>>)>, states: Seq<Seq<Seq<T>>>|
            #[trigger] gave(*vad, infer, heard, zero, answers, states) && {
                &&& sample_rate == 16000 ==> heard == audio@
                &&& sample_rate != 16000 ==> exists|given: Vec<T>| #[trigger]
                    makes(resample, audio, sample_rate, given) && given@ == heard
                &&& r matches Ok(segments) ==> covers_audio(
                    answers.len() as int,
                    window_of(*vad),
                    heard.len() as int,
                ) && are_segments_of(
                    answers.map_values(|answer: (bool, Vec<Vec<T>>)| answer.0),
                    16000,
                    window_of(*vad),
                    segments@,
                )
                &&& r matches Err(e) ==> answers.len() * window_of(*vad) < heard.len()
                    && was_asked(
                    *vad,
                    infer,
                    heard,
                    zero,
                    answers.len() as int,
                    states.last(),
                    Err(e),
                )
            },
{
    let heard = choose|heard: Seq<T>| #[trigger]
        may_hear(resample, audio, sample_rate, heard) && may_find(*vad, infer, heard, zero, r);
    if sample_rate != 16000 {
        let given = choose|given: Vec<T>| #[trigger]
            can_resample(resample, audio, sample_rate, given) && given@ == heard;
        assert(makes(resample, audio, sample_rate, given));
    }
    law_search_returns_the_speech(*vad, infer, heard, zero, r);
}

} // verus!
