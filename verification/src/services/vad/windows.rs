//! Feeding audio to a model window by window, with left context and recurrent state.

use vstd::prelude::*;

verus! {

/// The sample rate that the model works at.
pub const SAMPLE_RATE: usize = 16000;

/// The length of a window, 32 ms.
pub const WINDOW_SIZE_SAMPLES: usize = 512;

/// The window length and the length of the left context for a model that takes this many
/// samples: what goes beyond a full window is context.
pub open spec fn window_sizes(audio_input_samples: Option<usize>) -> (usize, usize) {
    match audio_input_samples {
        Some(samples) => {
            if samples > WINDOW_SIZE_SAMPLES {
                (WINDOW_SIZE_SAMPLES, (samples - WINDOW_SIZE_SAMPLES) as usize)
            } else if samples > 0 {
                (samples, 0)
            } else {
                (WINDOW_SIZE_SAMPLES, 0)
            }
        },
        None => (WINDOW_SIZE_SAMPLES, 0),
    }
}

/// How many windows it takes to cover `samples` samples.
pub open spec fn window_count(samples: nat, window: nat) -> nat {
    ((samples + window - 1) / window as int) as nat
}

/// The sample at position `p`, where everything before and after the audio is `zero`.
pub open spec fn sample_at<T>(audio: Seq<T>, p: int, zero: T) -> T {
    if 0 <= p < audio.len() {
        audio[p]
    } else {
        zero
    }
}

/// The `len` samples from position `from` on.
pub open spec fn samples_from<T>(audio: Seq<T>, from: int, len: nat, zero: T) -> Seq<T> {
    Seq::new(len, |j: int| sample_at(audio, from + j, zero))
}

/// `data` cut or filled up with `zero` to `len` elements.
pub open spec fn fitted<T>(data: Seq<T>, len: nat, zero: T) -> Seq<T> {
    Seq::new(len, |j: int| sample_at(data, j, zero))
}

/// The states after a model returned `outputs`: a state that it did not return keeps its value, and
/// one of another length is cut or filled up.
pub open spec fn next_states<T>(
    states: Seq<Seq<T>>,
    lens: Seq<usize>,
    outputs: Seq<Seq<T>>,
    zero: T,
) -> Seq<Seq<T>> {
    Seq::new(
        states.len(),
        |i: int|
            if i < outputs.len() {
                fitted(outputs[i], lens[i] as nat, zero)
            } else {
                states[i]
            },
    )
}

/// What each row of a row holds.
pub open spec fn row_views<T>(rows: Seq<Vec<T>>) -> Seq<Seq<T>> {
    rows.map_values(|row: Vec<T>| row@)
}

/// A model's progress through a piece of audio.
pub struct VadRun<T> {
    /// The window length.
    pub window_size: usize,
    /// What the model sees before the next window.
    pub context: Vec<T>,
    /// The lengths of the recurrent state tensors.
    pub state_lens: Vec<usize>,
    /// The recurrent state tensors.
    pub states: Vec<Vec<T>>,
    /// Which of the windows so far hold speech.
    pub speech: Vec<bool>,
}

impl<T> VadRun<T> {
    /// Windows are not empty, and every state tensor has its length.
    pub open spec fn wf(self) -> bool {
        &&& self.window_size > 0
        &&& self.states@.len() == self.state_lens@.len()
        &&& forall|i: int|
            0 <= i < self.states@.len() ==> (#[trigger] self.states@[i])@.len()
                == self.state_lens@[i]
    }

    /// The position of the next window in the audio.
    pub open spec fn position(self) -> int {
        self.speech@.len() * self.window_size
    }

    /// What the model gets next: the context, then the next window.
    pub open spec fn model_input(self, audio: Seq<T>, zero: T) -> Seq<T> {
        self.context@ + samples_from(audio, self.position(), self.window_size as nat, zero)
    }

    /// Whether the context is the part of the audio right before the next window.
    pub open spec fn tracks(self, audio: Seq<T>, zero: T) -> bool {
        self.context@ == samples_from(
            audio,
            self.position() - self.context@.len(),
            self.context@.len(),
            zero,
        )
    }

    /// Whether every window of the audio has been taken.
    pub open spec fn is_done(self, audio: Seq<T>) -> bool {
        self.speech@.len() >= window_count(audio.len(), self.window_size as nat)
    }
}

/// The windows cover the audio, and the last of them starts inside it.
pub proof fn law_windows_cover_the_audio(samples: nat, window: nat)
    requires
        window > 0,
    ensures
        samples <= window_count(samples, window) * window < samples + window,
{
    let n = samples as int;
    let w = window as int;
    assert(0 <= (n + w - 1) / w && n <= (n + w - 1) / w * w < n + w) by (nonlinear_arith)
        requires
            n >= 0,
            w > 0,
    ;
}

/// The model sees one unbroken stretch of the audio: the context that it saw before the window
/// continues into the window, and the end of what it saw is the context of the next window.
pub proof fn law_context_continues<T>(
    audio: Seq<T>,
    position: int,
    window: nat,
    context: Seq<T>,
    zero: T,
)
    requires
        context == samples_from(audio, position - context.len(), context.len(), zero),
    ensures
        ({
            let input = context + samples_from(audio, position, window, zero);
            &&& input == samples_from(
                audio,
                position - context.len(),
                context.len() + window,
                zero,
            )
            &&& input.skip(window as int) == samples_from(
                audio,
                position + window - context.len(),
                context.len(),
                zero,
            )
        }),
{
    let input = context + samples_from(audio, position, window, zero);
    assert(input =~= samples_from(audio, position - context.len(), context.len() + window, zero));
    assert(input.skip(window as int) =~= samples_from(
        audio,
        position + window - context.len(),
        context.len(),
        zero,
    ));
}

/// A row of `len` copies of `zero`.
pub fn filled<T: Copy>(zero: T, len: usize) -> (r: Vec<T>)
    ensures
        r@ == Seq::new(len as nat, |j: int| zero),
{
    let mut r: Vec<T> = Vec::new();
    let mut i: usize = 0;
    while i < len
        invariant
            i <= len,
            r@ == Seq::new(i as nat, |j: int| zero),
        decreases len - i,
    {
        r.push(zero);
        i = i + 1;
        assert(r@ =~= Seq::new(i as nat, |j: int| zero));
    }
    r
}

/// `data` cut or filled up with `zero` to `len` elements.
pub fn fit<T: Copy>(data: &Vec<T>, len: usize, zero: T) -> (r: Vec<T>)
    ensures
        r@ == fitted(data@, len as nat, zero),
{
    let mut r: Vec<T> = Vec::new();
    let mut i: usize = 0;
    while i < len
        invariant
            i <= len,
            r@ == fitted(data@, len as nat, zero).take(i as int),
        decreases len - i,
    {
        if i < data.len() {
            r.push(data[i]);
        } else {
            r.push(zero);
        }
        i = i + 1;
        assert(r@ =~= fitted(data@, len as nat, zero).take(i as int));
    }
    assert(r@ =~= fitted(data@, len as nat, zero));
    r
}

/// The window length and the context length for a model input.
pub fn sizes_for(audio_input_samples: Option<usize>) -> (r: (usize, usize))
    ensures
        r == window_sizes(audio_input_samples),
        0 < r.0 <= WINDOW_SIZE_SAMPLES,
{
    match audio_input_samples {
        Some(samples) => {
            if samples > WINDOW_SIZE_SAMPLES {
                (WINDOW_SIZE_SAMPLES, samples - WINDOW_SIZE_SAMPLES)
            } else if samples > 0 {
                (samples, 0)
            } else {
                (WINDOW_SIZE_SAMPLES, 0)
            }
        },
        None => (WINDOW_SIZE_SAMPLES, 0),
    }
}

fn count_windows(samples: usize, window: usize) -> (r: usize)
    requires
        window > 0,
    ensures
        r == window_count(samples as nat, window as nat),
{
    if samples == 0 {
        assert((window - 1) / window as int == 0) by (nonlinear_arith)
            requires
                window > 0,
        ;
        0
    } else {
        proof {
            let n = samples as int;
            let w = window as int;
            assert((n + w - 1) / w == (n - 1) / w + 1) by (nonlinear_arith)
                requires
                    n > 0,
                    w > 0,
            ;
            assert((n - 1) / w + 1 <= n) by (nonlinear_arith)
                requires
                    n > 0,
                    w > 0,
            ;
        }
        (samples - 1) / window + 1
    }
}

impl<T: Copy> VadRun<T> {
    /// A run at the start of the audio: no context but silence, and zero states.
    pub fn new(
        window_size: usize,
        context_size: usize,
        state_lens: Vec<usize>,
        zero: T,
    ) -> (r: VadRun<T>)
        requires
            window_size > 0,
        ensures
            r.wf(),
            r.window_size == window_size,
            r.context@ == Seq::new(context_size as nat, |j: int| zero),
            r.state_lens == state_lens,
            forall|i: int|
                0 <= i < state_lens@.len() ==> (#[trigger] r.states@[i])@ == Seq::new(
                    state_lens@[i] as nat,
                    |j: int| zero,
                ),
            r.speech@ == Seq::<bool>::empty(),
            forall|audio: Seq<T>| #[trigger] r.tracks(audio, zero),
    {
        let mut states: Vec<Vec<T>> = Vec::new();
        let mut i: usize = 0;
        while i < state_lens.len()
            invariant
                i <= state_lens.len(),
                states@.len() == i,
                forall|k: int|
                    0 <= k < i ==> (#[trigger] states@[k])@ == Seq::new(
                        state_lens@[k] as nat,
                        |j: int| zero,
                    ),
            decreases state_lens.len() - i,
        {
            states.push(filled(zero, state_lens[i]));
            i = i + 1;
        }
        let context = filled(zero, context_size);
        let r = VadRun { window_size, context, state_lens, states, speech: Vec::new() };
        assert forall|audio: Seq<T>| #[trigger] r.tracks(audio, zero) by {
            assert(r.context@ =~= samples_from(
                audio,
                r.position() - r.context@.len(),
                r.context@.len(),
                zero,
            ));
        }
        r
    }

    /// What the model gets next: the context and the next window, filled up with `zero` at the
    /// end of the audio. None once every window has been taken.
    pub fn next_input(&self, audio: &[T], zero: T) -> (r: Option<Vec<T>>)
        requires
            self.wf(),
        ensures
            match r {
                Some(input) => {
                    &&& !self.is_done(audio@)
                    &&& input@ == self.model_input(audio@, zero)
                },
                None => self.is_done(audio@),
            },
    {
        if self.speech.len() >= count_windows(audio.len(), self.window_size) {
            return None;
        }
        let mut r: Vec<T> = Vec::new();
        let mut i: usize = 0;
        while i < self.context.len()
            invariant
                i <= self.context.len(),
                r@ == self.context@.take(i as int),
            decreases self.context.len() - i,
        {
            r.push(self.context[i]);
            i = i + 1;
        }
        assert(r@ =~= self.context@);
        let window: usize = self.window_size;
        let index: usize = self.speech.len();
        let total: usize = audio.len();
        proof {
            let n = audio@.len() as int;
            let w = window as int;
            let k = index as int;
            assert(k * w < n) by (nonlinear_arith)
                requires
                    w > 0,
                    n >= 0,
                    0 <= k < (n + w - 1) / w,
            ;
            assert(0 <= k * w) by (nonlinear_arith)
                requires
                    w > 0,
                    0 <= k,
            ;
        }
        let start: usize = index * window;
        let ghost tail = samples_from(audio@, start as int, window as nat, zero);
        let mut j: usize = 0;
        while j < window
            invariant
                j <= window,
                start < total,
                total == audio@.len(),
                tail == samples_from(audio@, start as int, window as nat, zero),
                r@ == self.context@ + tail.take(j as int),
            decreases window - j,
        {
            if j < total - start {
                r.push(audio[start + j]);
            } else {
                r.push(zero);
            }
            j = j + 1;
            assert(r@ =~= self.context@ + tail.take(j as int));
        }
        assert(tail.take(j as int) =~= tail);
        Some(r)
    }

    /// Takes the model's answer to `input`: whether it heard speech, and its new states.
    ///
    /// A state that the model did not return keeps its value; one of another length is cut or
    /// filled up.
    pub fn accept(&mut self, input: &Vec<T>, is_speech: bool, outputs: &Vec<Vec<T>>, zero: T)
        requires
            old(self).wf(),
            input@.len() == old(self).context@.len() + old(self).window_size,
        ensures
            final(self).wf(),
            final(self).window_size == old(self).window_size,
            final(self).state_lens == old(self).state_lens,
            final(self).speech@ == old(self).speech@.push(is_speech),
            final(self).context@ == input@.skip(old(self).window_size as int),
            row_views(final(self).states@) == next_states(
                row_views(old(self).states@),
                old(self).state_lens@,
                row_views(outputs@),
                zero,
            ),
            forall|audio: Seq<T>|
                #![trigger final(self).tracks(audio, zero)]
                old(self).tracks(audio, zero) && input@ == old(self).model_input(audio, zero)
                    ==> final(self).tracks(audio, zero),
    {
        let ghost before = *self;
        let mut context: Vec<T> = Vec::new();
        let mut i: usize = self.window_size;
        while i < input.len()
            invariant
                self.window_size <= i <= input.len(),
                context@ == input@.subrange(self.window_size as int, i as int),
            decreases input.len() - i,
        {
            context.push(input[i]);
            i = i + 1;
            assert(context@ =~= input@.subrange(self.window_size as int, i as int));
        }
        assert(context@ =~= input@.skip(self.window_size as int));
        self.context = context;
        let mut s: usize = 0;
        while s < self.states.len() && s < outputs.len()
            invariant
                s <= self.states.len(),
                s <= outputs.len(),
                self.wf(),
                self.window_size == before.window_size,
                self.context == context,
                self.state_lens == before.state_lens,
                self.speech == before.speech,
                self.states@.len() == before.states@.len(),
                forall|k: int|
                    0 <= k < self.states@.len() ==> (#[trigger] self.states@[k])@ == if k < s {
                        fitted(outputs@[k]@, before.state_lens@[k] as nat, zero)
                    } else {
                        before.states@[k]@
                    },
            decreases self.states.len() - s,
        {
            let state = fit(&outputs[s], self.state_lens[s], zero);
            self.states.set(s, state);
            s = s + 1;
        }
        self.speech.push(is_speech);
        assert(row_views(self.states@) =~= next_states(
            row_views(before.states@),
            before.state_lens@,
            row_views(outputs@),
            zero,
        ));
        assert forall|audio: Seq<T>|
            before.tracks(audio, zero) && input@ == before.model_input(
                audio,
                zero,
            ) implies #[trigger] self.tracks(audio, zero) by {
            law_context_continues(
                audio,
                before.position(),
                before.window_size as nat,
                before.context@,
                zero,
            );
            assert(self.position() == before.position() + before.window_size) by (nonlinear_arith)
                requires
                    self.position() == self.speech@.len() * self.window_size,
                    before.position() == before.speech@.len() * before.window_size,
                    self.speech@.len() == before.speech@.len() + 1,
                    self.window_size == before.window_size,
            ;
        }
    }
}

} // verus!
