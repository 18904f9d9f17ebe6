//! What holds of all speech segments.

use crate::services::vad::segments::{
    emitted, is_end, lemma_last_longer, lemma_next_speech, lemma_run_end,
    next_speech, run_end, run_segment, segment_end, segment_start,
    segments_from, speech_segments, SpeechSegment, WindowRules, MIN_SPEECH_DURATION_MS,
};
use vstd::prelude::*;

verus! {

/// Whether sample `p` lies in one of the segments.
pub open spec fn in_segments(segments: Seq<SpeechSegment>, p: int) -> bool {
    exists|i: int|
        0 <= i < segments.len() && (#[trigger] segments[i]).start <= p < segments[i].end
}

/// What holds of a row of pairs of a start and an end, all of which start at `low` or later.
spec fn well_spaced(rules: WindowRules, pairs: Seq<(int, int)>, low: int, total: int) -> bool {
    &&& forall|i: int|
        0 <= i < pairs.len() ==> {
            &&& low <= #[trigger] pairs[i].0
            &&& 0 <= pairs[i].0 <= pairs[i].1 <= total
            &&& (pairs[i].1 - pairs[i].0) * 1000 >= MIN_SPEECH_DURATION_MS * rules.sample_rate
        }
    &&& forall|i: int, j: int|
        0 <= i < j < pairs.len() ==> (#[trigger] pairs[i]).1 <= (#[trigger] pairs[j]).0
}

/// The segment of a run covers the run, lies within the audio and is long enough.
proof fn lemma_segment_of_run(rules: WindowRules, count: nat, a: int, b: int)
    requires
        0 <= a <= b < count,
    ensures
        ({
            let start = segment_start(rules, a);
            let end = segment_end(rules, count, b);
            let w = rules.window as int;
            &&& 0 <= start <= a * w <= (b + 1) * w <= end <= count * w
            &&& a * w - rules.pad() <= start
            &&& rules.keeps(b + 1 - a) ==> (end - start) * 1000 >= MIN_SPEECH_DURATION_MS
                * rules.sample_rate
        }),
{
    let w = rules.window as int;
    assert(0 <= a * w <= (b + 1) * w <= count * w) by (nonlinear_arith)
        requires
            0 <= a <= b < count,
            0 <= w,
    ;
    assert((b + 1 - a) * w == (b + 1) * w - a * w) by (nonlinear_arith);
}

proof fn lemma_well_spaced(rules: WindowRules, speech: Seq<bool>, i: int)
    requires
        0 <= i <= speech.len(),
    ensures
        well_spaced(
            rules,
            segments_from(rules, speech, i),
            next_speech(speech, i) * rules.window - rules.pad(),
            speech.len() * rules.window,
        ),
    decreases speech.len() - i,
{
    lemma_next_speech(speech, i);
    let a = next_speech(speech, i);
    let w = rules.window as int;
    if a < speech.len() {
        lemma_run_end(rules, speech, a);
        let b = run_end(rules, speech, a);
        lemma_segment_of_run(rules, speech.len(), a, b);
        lemma_next_speech(speech, b + 1);
        lemma_well_spaced(rules, speech, b + 1);
        let c = next_speech(speech, b + 1);
        let rest = segments_from(rules, speech, b + 1);
        let here = emitted(rules, speech.len(), a, b);
        let all = segments_from(rules, speech, i);
        assert(all == here + rest);
        assert(a * w <= c * w && (c - b - 1) * w == c * w - (b + 1) * w) by (nonlinear_arith)
            requires
                a <= c,
                0 <= w,
        ;
        if c >= speech.len() {
            assert(rest.len() == 0);
        } else {
            lemma_last_longer(rules, c - b - 1, speech.len() - 1 - b);
            assert((b + 1) * w + rules.pad() <= c * w - rules.pad());
        }
        assert forall|k: int| 0 <= k < all.len() implies {
            &&& a * w - rules.pad() <= #[trigger] all[k].0
            &&& 0 <= all[k].0 <= all[k].1 <= speech.len() * w
            &&& (all[k].1 - all[k].0) * 1000 >= MIN_SPEECH_DURATION_MS * rules.sample_rate
        } by {
            if k >= here.len() {
                assert(all[k] == rest[k - here.len()]);
            }
        }
        assert forall|k: int, l: int| 0 <= k < l < all.len() implies (#[trigger] all[k]).1 <= (
        #[trigger] all[l]).0 by {
            assert(all[l] == rest[l - here.len()]);
            if k >= here.len() {
                assert(all[k] == rest[k - here.len()]);
            }
        }
    }
}

/// The segments come in the order of time and do not overlap, each lies within the audio, and
/// each lasts at least as long as speech has to.
pub proof fn law_segments_in_order(rules: WindowRules, speech: Seq<bool>)
    requires
        speech.len() * rules.window <= usize::MAX,
    ensures
        ({
            let r = speech_segments(rules, speech);
            &&& forall|i: int|
                0 <= i < r.len() ==> {
                    &&& (#[trigger] r[i]).start <= r[i].end <= speech.len() * rules.window
                    &&& (r[i].end - r[i].start) * 1000 >= MIN_SPEECH_DURATION_MS
                        * rules.sample_rate
                }
            &&& forall|i: int, j: int|
                0 <= i < j < r.len() ==> (#[trigger] r[i]).end <= (#[trigger] r[j]).start
        }),
{
    lemma_well_spaced(rules, speech, 0);
    let pairs = segments_from(rules, speech, 0);
    let r = speech_segments(rules, speech);
    assert forall|i: int| 0 <= i < r.len() implies (#[trigger] r[i]).start == pairs[i].0
        && r[i].end == pairs[i].1 by {
        assert(0 <= pairs[i].0);
    }
}

/// The segments are the pairs that they are made of.
pub proof fn lemma_segment_pairs(rules: WindowRules, speech: Seq<bool>)
    requires
        speech.len() * rules.window <= usize::MAX,
    ensures
        ({
            let pairs = segments_from(rules, speech, 0);
            let r = speech_segments(rules, speech);
            &&& r.len() == pairs.len()
            &&& forall|i: int|
                0 <= i < r.len() ==> (#[trigger] r[i]).start == pairs[i].0 && r[i].end
                    == pairs[i].1
        }),
{
    lemma_well_spaced(rules, speech, 0);
    let pairs = segments_from(rules, speech, 0);
    let r = speech_segments(rules, speech);
    assert forall|i: int| 0 <= i < r.len() implies (#[trigger] r[i]).start == pairs[i].0
        && r[i].end == pairs[i].1 by {
        assert(0 <= pairs[i].0);
    }
}

/// Every window of a long enough run of speech is part of a segment, with the padding around the
/// run as far as there is audio.
pub proof fn law_speech_is_covered(rules: WindowRules, speech: Seq<bool>, a: int, b: int, p: int)
    requires
        speech.len() * rules.window <= usize::MAX,
        0 <= a <= b < speech.len(),
        forall|i: int| a <= i <= b ==> #[trigger] speech[i],
        rules.keeps(b + 1 - a),
        a * rules.window - rules.pad() <= p < (b + 1) * rules.window + rules.pad(),
        0 <= p < speech.len() * rules.window,
    ensures
        in_segments(speech_segments(rules, speech), p),
{
    lemma_run_around(rules, speech, 0, a);
    let (c, d) = choose|c: int, d: int| #[trigger] has_run(rules, speech, 0, c, d) && c <= a <= d;
    lemma_run_goes_on(rules, speech, speech, a, d);
    lemma_run_end_of_speech(rules, speech, a, b);
    lemma_segment_around(rules, speech, c, d, a, b, p);
}

/// Where more windows hold speech, no less is found: a lower threshold never finds less speech.
pub proof fn law_more_speech_finds_more(
    rules: WindowRules,
    less: Seq<bool>,
    more: Seq<bool>,
    p: int,
)
    requires
        less.len() == more.len(),
        forall|i: int| 0 <= i < less.len() && #[trigger] less[i] ==> more[i],
        less.len() * rules.window <= usize::MAX,
        in_segments(speech_segments(rules, less), p),
    ensures
        in_segments(speech_segments(rules, more), p),
{
    let r = speech_segments(rules, less);
    let pairs = segments_from(rules, less, 0);
    let k = choose|k: int| 0 <= k < r.len() && (#[trigger] r[k]).start <= p < r[k].end;
    lemma_well_spaced(rules, less, 0);
    assert(r[k].start == pairs[k].0 && r[k].end == pairs[k].1);
    lemma_pair_of_run(rules, less, 0, k);
    let a = choose|a: int|
        0 <= a < less.len() && #[trigger] less[a] && run_segment(
            rules,
            less.len(),
            a,
            run_end(rules, less, a),
        ) == Some(pairs[k]);
    let b = run_end(rules, less, a);
    lemma_run_end(rules, less, a);
    lemma_run_around(rules, more, 0, a);
    let (c, d) = choose|c: int, d: int| #[trigger] has_run(rules, more, 0, c, d) && c <= a <= d;
    lemma_run_goes_on(rules, less, more, a, d);
    lemma_segment_of_run(rules, less.len(), a, b);
    lemma_segment_around(rules, more, c, d, a, b, p);
}

/// Whether `a..=b` is a run that the segments from window `i` on are made of.
spec fn has_run(rules: WindowRules, speech: Seq<bool>, i: int, a: int, b: int) -> bool {
    &&& i <= a <= b < speech.len()
    &&& speech[a]
    &&& b == run_end(rules, speech, a)
    &&& run_segment(rules, speech.len(), a, b) matches Some(pair) ==> segments_from(
        rules,
        speech,
        i,
    ).contains(pair)
}

/// Every speech window is part of a run.
proof fn lemma_run_around(rules: WindowRules, speech: Seq<bool>, i: int, w: int)
    requires
        0 <= i <= w < speech.len(),
        speech[w],
    ensures
        exists|a: int, b: int| #[trigger] has_run(rules, speech, i, a, b) && a <= w <= b,
    decreases speech.len() - i,
{
    lemma_next_speech(speech, i);
    let a = next_speech(speech, i);
    assert(a <= w);
    lemma_run_end(rules, speech, a);
    let b = run_end(rules, speech, a);
    let here = emitted(rules, speech.len(), a, b);
    let rest = segments_from(rules, speech, b + 1);
    assert(segments_from(rules, speech, i) == here + rest);
    if w <= b {
        if run_segment(rules, speech.len(), a, b) is Some {
            assert((here + rest)[0] == run_segment(rules, speech.len(), a, b)->0);
        }
        assert(has_run(rules, speech, i, a, b));
    } else {
        lemma_run_around(rules, speech, b + 1, w);
        let (c, d) = choose|c: int, d: int| #[trigger]
            has_run(rules, speech, b + 1, c, d) && c <= w <= d;
        if let Some(pair) = run_segment(rules, speech.len(), c, d) {
            let k = choose|k: int| 0 <= k < rest.len() && rest[k] == pair;
            assert((here + rest)[here.len() + k] == pair);
        }
        assert(has_run(rules, speech, i, c, d));
    }
}

/// Every segment comes from a run.
proof fn lemma_pair_of_run(rules: WindowRules, speech: Seq<bool>, i: int, k: int)
    requires
        0 <= i <= speech.len(),
        0 <= k < segments_from(rules, speech, i).len(),
    ensures
        exists|a: int|
            0 <= a < speech.len() && #[trigger] speech[a] && run_segment(
                rules,
                speech.len(),
                a,
                run_end(rules, speech, a),
            ) == Some(segments_from(rules, speech, i)[k]),
    decreases speech.len() - i,
{
    lemma_next_speech(speech, i);
    let a = next_speech(speech, i);
    if a < speech.len() {
        lemma_run_end(rules, speech, a);
        let b = run_end(rules, speech, a);
        let here = emitted(rules, speech.len(), a, b);
        let rest = segments_from(rules, speech, b + 1);
        assert(segments_from(rules, speech, i) == here + rest);
        if k < here.len() {
            assert(speech[a]);
        } else {
            assert((here + rest)[k] == rest[k - here.len()]);
            lemma_pair_of_run(rules, speech, b + 1, k - here.len());
        }
    }
}

/// A run does not go on past a window where no run goes on in a row that holds more speech.
proof fn lemma_run_goes_on(
    rules: WindowRules,
    less: Seq<bool>,
    more: Seq<bool>,
    x: int,
    d: int,
)
    requires
        less.len() == more.len(),
        forall|i: int| 0 <= i < less.len() && #[trigger] less[i] ==> more[i],
        0 <= x <= d < less.len(),
        less[x],
        exists|c: int| 0 <= c <= d && #[trigger] more[c] && d == run_end(rules, more, c),
    ensures
        run_end(rules, less, x) <= d,
    decreases less.len() - x,
{
    let c = choose|c: int| 0 <= c <= d && #[trigger] more[c] && d == run_end(rules, more, c);
    lemma_run_end(rules, more, c);
    assert(is_end(rules, more, d));
    lemma_next_speech(less, x + 1);
    lemma_next_speech(more, d + 1);
    let y = next_speech(less, x + 1);
    if x < y < less.len() && !rules.closes(y - x - 1) {
        if y > d {
            let z = next_speech(more, d + 1);
            assert(more[y]);
            assert(z <= y);
            lemma_last_longer(rules, z - d - 1, y - x - 1);
        }
        lemma_run_goes_on(rules, less, more, y, d);
    }
}

/// A run holds all the speech windows in a row.
proof fn lemma_run_end_of_speech(rules: WindowRules, speech: Seq<bool>, a: int, b: int)
    requires
        0 <= a <= b < speech.len(),
        forall|i: int| a <= i <= b ==> #[trigger] speech[i],
    ensures
        b <= run_end(rules, speech, a),
    decreases b - a,
{
    if a < b {
        assert(speech[a + 1]);
        lemma_run_end_of_speech(rules, speech, a + 1, b);
        assert(next_speech(speech, a + 1) == a + 1);
        assert(0 * rules.window * 1000 == 0) by (nonlinear_arith);
        assert(!rules.closes(0));
    } else {
        assert(speech[a]);
        lemma_run_end(rules, speech, a);
    }
}

/// The segment of a run holds what the segment of a part of it would hold.
proof fn lemma_segment_around(
    rules: WindowRules,
    speech: Seq<bool>,
    c: int,
    d: int,
    a: int,
    b: int,
    p: int,
)
    requires
        speech.len() * rules.window <= usize::MAX,
        has_run(rules, speech, 0, c, d),
        c <= a <= b <= d,
        rules.keeps(b + 1 - a),
        segment_start(rules, a) <= p,
        p < segment_end(rules, speech.len(), b) || p < (b + 1) * rules.window + rules.pad(),
        p < speech.len() * rules.window,
    ensures
        in_segments(speech_segments(rules, speech), p),
{
    let w = rules.window as int;
    let count = speech.len();
    lemma_last_longer(rules, b + 1 - a, d + 1 - c);
    lemma_segment_of_run(rules, count, c, d);
    assert(c * w <= a * w && (b + 1) * w <= (d + 1) * w) by (nonlinear_arith)
        requires
            c <= a,
            b <= d,
            0 <= w,
    ;
    if rules.closes(count - 1 - d) {
        lemma_last_longer(rules, count - 1 - d, count - 1 - b);
    }
    let pair = (segment_start(rules, c), segment_end(rules, count, d));
    let pairs = segments_from(rules, speech, 0);
    assert(pairs.contains(pair));
    let k = choose|k: int| 0 <= k < pairs.len() && pairs[k] == pair;
    let r = speech_segments(rules, speech);
    assert(r[k].start == pair.0 && r[k].end == pair.1);
}

} // verus!
