//! Speech segments out of per-window speech decisions.

use vstd::prelude::*;

verus! {

/// Speech shorter than this is dropped.
pub const MIN_SPEECH_DURATION_MS: usize = 250;

/// Silence that is longer than this ends a segment.
pub const MIN_SILENCE_DURATION_MS: usize = 100;

/// Each segment is widened by this much on both sides, as far as there is audio.
pub const SPEECH_PAD_MS: usize = 30;

/// A stretch of speech, `start..end` in samples.
#[derive(Debug, Clone, Copy, PartialEq, Eq, Structural)]
pub struct SpeechSegment {
    pub start: usize,
    pub end: usize,
}

/// The duration rules for windows of `window` samples.
#[derive(Debug, Clone, Copy, PartialEq, Eq, Structural)]
pub struct WindowRules {
    pub sample_rate: usize,
    pub window: usize,
}

impl WindowRules {
    /// Whether so many silent windows in a row end a segment.
    pub open spec fn closes(self, windows: int) -> bool {
        windows * self.window * 1000 > MIN_SILENCE_DURATION_MS * self.sample_rate
    }

    /// Whether a run of so many windows is long enough to be a segment.
    pub open spec fn keeps(self, windows: int) -> bool {
        windows * self.window * 1000 >= MIN_SPEECH_DURATION_MS * self.sample_rate
    }

    /// The padding in samples.
    pub open spec fn pad(self) -> int {
        SPEECH_PAD_MS * self.sample_rate / 1000
    }

    fn is_closing(&self, windows: usize) -> (r: bool)
        requires
            windows * self.window <= usize::MAX,
        ensures
            r == self.closes(windows as int),
    {
        let samples: usize = windows * self.window;
        assert(MIN_SILENCE_DURATION_MS * self.sample_rate == 100 * self.sample_rate);
        samples as u128 * 1000 > MIN_SILENCE_DURATION_MS as u128 * self.sample_rate as u128
    }

    fn is_kept(&self, windows: usize) -> (r: bool)
        requires
            windows * self.window <= usize::MAX,
        ensures
            r == self.keeps(windows as int),
    {
        let samples: usize = windows * self.window;
        assert(MIN_SPEECH_DURATION_MS * self.sample_rate == 250 * self.sample_rate);
        samples as u128 * 1000 >= MIN_SPEECH_DURATION_MS as u128 * self.sample_rate as u128
    }

    fn padding(&self) -> (r: usize)
        ensures
            r == self.pad(),
    {
        let pad: u128 = SPEECH_PAD_MS as u128 * self.sample_rate as u128 / 1000;
        pad as usize
    }
}

/// More windows last longer.
pub proof fn lemma_last_longer(rules: WindowRules, fewer: int, more: int)
    requires
        fewer <= more,
    ensures
        rules.closes(fewer) ==> rules.closes(more),
        rules.keeps(fewer) ==> rules.keeps(more),
{
    let w = rules.window as int;
    assert(fewer * w * 1000 <= more * w * 1000) by (nonlinear_arith)
        requires
            fewer <= more,
            0 <= w,
    ;
}

/// The first speech window at or after `i`, or the number of windows if there is none.
pub open spec fn next_speech(speech: Seq<bool>, i: int) -> int
    decreases speech.len() - i,
{
    if i >= speech.len() {
        speech.len() as int
    } else if speech[i] {
        i
    } else {
        next_speech(speech, i + 1)
    }
}

/// The last speech window of the run that window `b` belongs to: a run goes on over every gap
/// that is too short to end a segment.
pub open spec fn run_end(rules: WindowRules, speech: Seq<bool>, b: int) -> int
    decreases speech.len() - b,
{
    let c = next_speech(speech, b + 1);
    if b < c < speech.len() && !rules.closes(c - b - 1) {
        run_end(rules, speech, c)
    } else {
        b
    }
}

/// Where the segment of a run starts whose first speech window is `a`, in samples.
pub open spec fn segment_start(rules: WindowRules, a: int) -> int {
    if a * rules.window < rules.pad() {
        0
    } else {
        a * rules.window - rules.pad()
    }
}

/// Where the segment of a run ends whose last speech window is `b`, out of `count` windows, in
/// samples: after the padding, or with the audio where that ends first. Where the audio ends
/// before the silence was long enough, the segment lasts to the end of the audio.
pub open spec fn segment_end(rules: WindowRules, count: nat, b: int) -> int {
    let padded = (b + 1) * rules.window + rules.pad();
    if rules.closes(count - 1 - b) && padded < count * rules.window {
        padded
    } else {
        count * rules.window
    }
}

/// The segment of the run `a..=b`, in samples, unless the run is too short.
pub open spec fn run_segment(rules: WindowRules, count: nat, a: int, b: int) -> Option<(int, int)> {
    if rules.keeps(b + 1 - a) {
        Some((segment_start(rules, a), segment_end(rules, count, b)))
    } else {
        None
    }
}

/// The segment of a run as a row of none or one.
pub open spec fn emitted(rules: WindowRules, count: nat, a: int, b: int) -> Seq<(int, int)> {
    match run_segment(rules, count, a, b) {
        Some(segment) => seq![segment],
        None => seq![],
    }
}

/// The segments of the runs that start at or after window `i`, in samples.
pub open spec fn segments_from(rules: WindowRules, speech: Seq<bool>, i: int) -> Seq<(int, int)>
    decreases speech.len() - i,
{
    let a = next_speech(speech, i);
    let b = run_end(rules, speech, a);
    if i <= a <= b < speech.len() {
        emitted(rules, speech.len(), a, b) + segments_from(rules, speech, b + 1)
    } else {
        seq![]
    }
}

/// The speech segments of a row of windows, given which of them hold speech.
pub open spec fn speech_segments(rules: WindowRules, speech: Seq<bool>) -> Seq<SpeechSegment> {
    as_segments(segments_from(rules, speech, 0))
}

/// Pairs of a start and an end as segments.
pub open spec fn as_segments(pairs: Seq<(int, int)>) -> Seq<SpeechSegment> {
    pairs.map_values(|s: (int, int)| SpeechSegment { start: s.0 as usize, end: s.1 as usize })
}

pub proof fn lemma_next_speech(speech: Seq<bool>, i: int)
    requires
        0 <= i <= speech.len(),
    ensures
        i <= next_speech(speech, i) <= speech.len(),
        forall|j: int| i <= j < next_speech(speech, i) ==> !#[trigger] speech[j],
        next_speech(speech, i) < speech.len() ==> speech[next_speech(speech, i)],
    decreases speech.len() - i,
{
    if i < speech.len() && !speech[i] {
        lemma_next_speech(speech, i + 1);
    }
}

proof fn lemma_skip_silence(speech: Seq<bool>, i: int, k: int)
    requires
        0 <= i <= k <= speech.len(),
        forall|j: int| i <= j < k ==> !#[trigger] speech[j],
    ensures
        next_speech(speech, i) == next_speech(speech, k),
    decreases k - i,
{
    if i < k {
        lemma_skip_silence(speech, i + 1, k);
    }
}

pub proof fn lemma_run_end(rules: WindowRules, speech: Seq<bool>, b: int)
    requires
        0 <= b < speech.len(),
        speech[b],
    ensures
        b <= run_end(rules, speech, b) < speech.len(),
        speech[run_end(rules, speech, b)],
        is_end(rules, speech, run_end(rules, speech, b)),
    decreases speech.len() - b,
{
    lemma_next_speech(speech, b + 1);
    let c = next_speech(speech, b + 1);
    if b < c < speech.len() && !rules.closes(c - b - 1) {
        lemma_run_end(rules, speech, c);
    }
}

/// Whether no run goes on after window `b`.
pub open spec fn is_end(rules: WindowRules, speech: Seq<bool>, b: int) -> bool {
    let c = next_speech(speech, b + 1);
    c < speech.len() ==> rules.closes(c - b - 1)
}

proof fn lemma_as_segments_push(pairs: Seq<(int, int)>, pair: (int, int))
    ensures
        as_segments(pairs.push(pair)) == as_segments(pairs).push(
            SpeechSegment { start: pair.0 as usize, end: pair.1 as usize },
        ),
{
    assert(as_segments(pairs.push(pair)) =~= as_segments(pairs).push(
        SpeechSegment { start: pair.0 as usize, end: pair.1 as usize },
    ));
}

proof fn lemma_window_fits(i: int, count: int, window: int)
    requires
        0 <= i <= count,
        0 <= window,
        count * window <= usize::MAX,
    ensures
        0 <= i * window <= count * window <= usize::MAX,
{
    assert(0 <= i * window <= count * window) by (nonlinear_arith)
        requires
            0 <= i <= count,
            0 <= window,
    ;
}

/// The segment of the run `a..=b` out of `count` windows.
fn segment_of_run(rules: WindowRules, count: usize, a: usize, b: usize) -> (r: Option<
    SpeechSegment,
>)
    requires
        a <= b < count,
        count * rules.window <= usize::MAX,
    ensures
        match r {
            Some(segment) => run_segment(rules, count as nat, a as int, b as int) == Some(
                (segment.start as int, segment.end as int),
            ),
            None => run_segment(rules, count as nat, a as int, b as int) is None,
        },
{
    let window: usize = rules.window;
    proof {
        lemma_window_fits(b + 1 - a, count as int, window as int);
        lemma_window_fits(count - 1 - b, count as int, window as int);
        lemma_window_fits(a as int, count as int, window as int);
        lemma_window_fits(b + 1, count as int, window as int);
    }
    if !rules.is_kept(b + 1 - a) {
        return None;
    }
    let pad: usize = rules.padding();
    let first: usize = a * window;
    let start: usize = if first < pad {
        0
    } else {
        first - pad
    };
    let total: usize = count * window;
    let spoken: usize = (b + 1) * window;
    let end: usize = if rules.is_closing(count - 1 - b) && pad < total
        - spoken {
        spoken + pad
    } else {
        total
    };
    Some(SpeechSegment { start, end })
}

/// The speech segments of a row of windows, given which of them hold speech.
pub fn segments_of_windows(speech: &Vec<bool>, sample_rate: usize, window: usize) -> (r: Vec<
    SpeechSegment,
>)
    requires
        sample_rate > 0,
        speech@.len() * window <= usize::MAX,
    ensures
        r@ == speech_segments(WindowRules { sample_rate, window }, speech@),
{
    let rules = WindowRules { sample_rate, window };
    let count: usize = speech.len();
    let mut segments: Vec<SpeechSegment> = Vec::new();
    let ghost all = segments_from(rules, speech@, 0);
    let ghost mut done: Seq<(int, int)> = seq![];
    let mut in_speech = false;
    let mut first: usize = 0;
    let mut silence: usize = 0;
    assert(as_segments(done) =~= seq![]);
    assert(done + segments_from(rules, speech@, 0) =~= all);
    let mut i: usize = 0;
    while i < count
        invariant
            i <= count,
            count == speech@.len(),
            count * window <= usize::MAX,
            rules == (WindowRules { sample_rate, window }),
            sample_rate > 0,
            all == segments_from(rules, speech@, 0),
            segments@ == as_segments(done),
            !in_speech ==> all == done + segments_from(rules, speech@, i as int),
            in_speech ==> {
                let b = i - 1 - silence;
                &&& 0 <= first <= b < i
                &&& !rules.closes(silence as int)
                &&& speech@[b]
                &&& forall|j: int| b < j < i ==> !#[trigger] speech@[j]
                &&& all == done + (emitted(
                    rules,
                    speech@.len(),
                    first as int,
                    run_end(rules, speech@, b),
                ) + segments_from(rules, speech@, run_end(rules, speech@, b) + 1))
            },
        decreases count - i,
    {
        if speech[i] {
            proof {
                if !in_speech {
                    lemma_next_speech(speech@, i as int);
                    lemma_run_end(rules, speech@, i as int);
                } else {
                    let b = i - 1 - silence;
                    lemma_skip_silence(speech@, b + 1, i as int);
                }
            }
            if !in_speech {
                first = i;
                in_speech = true;
            }
            silence = 0;
        } else if in_speech {
            let last: usize = i - 1 - silence;
            silence = silence + 1;
            proof {
                lemma_window_fits(silence as int, count as int, window as int);
            }
            if rules.is_closing(silence) {
                proof {
                    lemma_skip_silence(speech@, last + 1, i + 1);
                    lemma_next_speech(speech@, i + 1);
                    let c = next_speech(speech@, last + 1);
                    lemma_last_longer(rules, silence as int, c - last - 1);
                    assert(run_end(rules, speech@, last as int) == last);
                }
                if let Some(segment) = segment_of_run(rules, count, first, last) {
                    proof {
                        let pair = (segment.start as int, segment.end as int);
                        lemma_as_segments_push(done, pair);
                        done = done.push(pair);
                    }
                    segments.push(segment);
                }
                assert(segments_from(rules, speech@, last + 1) == segments_from(
                    rules,
                    speech@,
                    i + 1,
                ));
                assert(all =~= done + segments_from(rules, speech@, i + 1));
                in_speech = false;
                silence = 0;
            }
        } else {
            proof {
                assert(next_speech(speech@, i as int) == next_speech(speech@, i + 1));
                lemma_next_speech(speech@, i + 1);
                assert(segments_from(rules, speech@, i as int) == segments_from(
                    rules,
                    speech@,
                    i + 1,
                ));
            }
        }
        i = i + 1;
    }
    if in_speech {
        let last: usize = i - 1 - silence;
        proof {
            lemma_skip_silence(speech@, last + 1, count as int);
            assert(run_end(rules, speech@, last as int) == last);
        }
        if let Some(segment) = segment_of_run(rules, count, first, last) {
            proof {
                let pair = (segment.start as int, segment.end as int);
                lemma_as_segments_push(done, pair);
                done = done.push(pair);
            }
            segments.push(segment);
        }
        assert(segments_from(rules, speech@, last + 1) =~= seq![]);
        assert(all =~= done);
    } else {
        assert(all =~= done);
    }
    segments
}

} // verus!
