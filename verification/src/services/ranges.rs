//! The stretches of audio that are transcribed.

use vstd::prelude::*;

verus! {

/// A stretch of audio, `start_sample..end_sample`.
#[derive(Debug, Clone, Copy, PartialEq, Eq, Structural)]
pub struct AudioRange {
    pub start_sample: usize,
    pub end_sample: usize,
}

impl AudioRange {
    /// Whether sample `p` lies in the range.
    pub open spec fn holds(self, p: int) -> bool {
        self.start_sample <= p < self.end_sample
    }

    /// The number of samples in the range.
    pub open spec fn spec_len(self) -> int {
        self.end_sample - self.start_sample
    }
}

/// Whether sample `p` lies in one of the ranges.
pub open spec fn covered(ranges: Seq<AudioRange>, p: int) -> bool {
    exists|i: int| 0 <= i < ranges.len() && (#[trigger] ranges[i]).holds(p)
}

/// Not empty, in the order of time, with at least one sample between neighbours.
pub open spec fn separated(ranges: Seq<AudioRange>) -> bool {
    &&& forall|i: int|
        0 <= i < ranges.len() ==> (#[trigger] ranges[i]).start_sample < ranges[i].end_sample
    &&& forall|i: int, j: int|
        0 <= i < j < ranges.len() ==> (#[trigger] ranges[i]).end_sample < (
        #[trigger] ranges[j]).start_sample
}

/// The samples in all ranges together.
pub open spec fn total_len(ranges: Seq<AudioRange>) -> int
    decreases ranges.len(),
{
    if ranges.len() == 0 {
        0
    } else {
        total_len(ranges.drop_last()) + ranges.last().spec_len()
    }
}

/// What is to be transcribed of `total` samples: all of it, or where stretches of speech are
/// known and one of them is within the audio, those.
pub open spec fn wanted(total: usize, speech: Option<Seq<AudioRange>>, p: int) -> bool {
    match speech {
        Some(speech) => {
            &&& 0 <= p < total
            &&& any_speech(total, speech) ==> covered(speech, p)
        },
        None => 0 <= p < total,
    }
}

/// Whether one of the stretches of speech holds a sample of the audio.
pub open spec fn any_speech(total: usize, speech: Seq<AudioRange>) -> bool {
    exists|q: int| 0 <= q < total && #[trigger] covered(speech, q)
}

/// Two rows of separated ranges that hold the same samples are the same row, so that what is to
/// be transcribed fixes the ranges.
pub proof fn law_ranges_are_canonical(a: Seq<AudioRange>, b: Seq<AudioRange>)
    requires
        separated(a),
        separated(b),
        forall|p: int| covered(a, p) == covered(b, p),
    ensures
        a == b,
    decreases a.len(),
{
    if a.len() == 0 {
        if b.len() > 0 {
            assert(b[0].holds(b[0].start_sample as int));
            assert(covered(b, b[0].start_sample as int));
            assert(covered(a, b[0].start_sample as int));
        }
        assert(a =~= b);
    } else {
        assert(a.last().holds(a.last().end_sample - 1));
        assert(covered(a, a.last().end_sample - 1));
        assert(covered(b, a.last().end_sample - 1));
        lemma_same_last(a, b);
        let c = a.drop_last();
        let d = b.drop_last();
        assert forall|p: int| covered(c, p) == covered(d, p) by {
            lemma_covered_drop_last(a, p);
            lemma_covered_drop_last(b, p);
            assert(covered(a, p) == covered(b, p));
        }
        law_ranges_are_canonical(c, d);
        assert(a =~= c.push(a.last()));
        assert(b =~= d.push(b.last()));
    }
}

proof fn lemma_covered_drop_last(ranges: Seq<AudioRange>, p: int)
    requires
        separated(ranges),
        ranges.len() > 0,
    ensures
        covered(ranges.drop_last(), p) == (covered(ranges, p) && p < ranges.last().start_sample),
{
    let rest = ranges.drop_last();
    if covered(rest, p) {
        let i = choose|i: int| 0 <= i < rest.len() && (#[trigger] rest[i]).holds(p);
        assert(ranges[i].holds(p));
        assert(ranges[i].end_sample < ranges[ranges.len() - 1].start_sample);
    }
    if covered(ranges, p) && p < ranges.last().start_sample {
        let i = choose|i: int| 0 <= i < ranges.len() && (#[trigger] ranges[i]).holds(p);
        assert(rest[i].holds(p));
    }
}

proof fn lemma_same_last(a: Seq<AudioRange>, b: Seq<AudioRange>)
    requires
        separated(a),
        separated(b),
        a.len() > 0,
        b.len() > 0,
        forall|p: int| covered(a, p) == covered(b, p),
    ensures
        a.last() == b.last(),
{
    lemma_last_reaches(a, b);
    lemma_last_reaches(b, a);
    let x = a.last();
    let y = b.last();
    assert(x.end_sample == y.end_sample);
    if x.start_sample < y.start_sample {
        lemma_gap_before_last(b);
        assert(x.holds(y.start_sample - 1));
        assert(covered(a, y.start_sample - 1));
        assert(covered(b, y.start_sample - 1));
    } else if y.start_sample < x.start_sample {
        lemma_gap_before_last(a);
        assert(y.holds(x.start_sample - 1));
        assert(covered(b, x.start_sample - 1));
        assert(covered(a, x.start_sample - 1));
    }
}

proof fn lemma_last_reaches(a: Seq<AudioRange>, b: Seq<AudioRange>)
    requires
        separated(a),
        separated(b),
        a.len() > 0,
        b.len() > 0,
        forall|p: int| covered(a, p) == covered(b, p),
    ensures
        a.last().end_sample <= b.last().end_sample,
{
    let p = a.last().end_sample - 1;
    assert(a[a.len() - 1].holds(p));
    assert(covered(a, p));
    assert(covered(b, p));
    let i = choose|i: int| 0 <= i < b.len() && (#[trigger] b[i]).holds(p);
    if i < b.len() - 1 {
        assert(b[i].end_sample < b[b.len() - 1].start_sample);
    }
}

proof fn lemma_gap_before_last(ranges: Seq<AudioRange>)
    requires
        separated(ranges),
        ranges.len() > 0,
    ensures
        !covered(ranges, ranges.last().start_sample - 1),
{
    let p = ranges.last().start_sample - 1;
    if covered(ranges, p) {
        let i = choose|i: int| 0 <= i < ranges.len() && (#[trigger] ranges[i]).holds(p);
        if i < ranges.len() - 1 {
            assert(ranges[i].end_sample < ranges[ranges.len() - 1].start_sample);
        }
    }
}

/// Not empty, within the audio, and in the order of their starts.
spec fn in_start_order(ranges: Seq<AudioRange>, total: int) -> bool {
    &&& forall|i: int|
        0 <= i < ranges.len() ==> (#[trigger] ranges[i]).start_sample < ranges[i].end_sample
            <= total
    &&& forall|i: int, j: int|
        0 <= i < j < ranges.len() ==> (#[trigger] ranges[i]).start_sample <= (
        #[trigger] ranges[j]).start_sample
}

/// Puts a range behind those that start no later.
fn insert_by_start(ranges: &mut Vec<AudioRange>, range: AudioRange, total: usize)
    requires
        in_start_order(old(ranges)@, total as int),
        range.start_sample < range.end_sample <= total,
    ensures
        in_start_order(final(ranges)@, total as int),
        final(ranges)@.len() == old(ranges)@.len() + 1,
        forall|p: int| #[trigger]
            covered(final(ranges)@, p) == (covered(old(ranges)@, p) || range.holds(p)),
{
    let ghost before = ranges@;
    let mut at: usize = ranges.len();
    while at > 0 && ranges[at - 1].start_sample > range.start_sample
        invariant
            at <= ranges@.len(),
            ranges@ == before,
            in_start_order(before, total as int),
            forall|j: int|
                at <= j < before.len() ==> (#[trigger] before[j]).start_sample
                    > range.start_sample,
        decreases at,
    {
        at = at - 1;
    }
    ranges.insert(at, range);
    let ghost after = ranges@;
    assert forall|p: int| #[trigger] covered(after, p) == (covered(before, p) || range.holds(p)) by {
        if covered(after, p) {
            let i = choose|i: int| 0 <= i < after.len() && (#[trigger] after[i]).holds(p);
            if i < at {
                assert(before[i].holds(p));
            } else if i > at {
                assert(before[i - 1].holds(p));
            }
        }
        if range.holds(p) {
            assert(after[at as int].holds(p));
        }
        if covered(before, p) {
            let i = choose|i: int| 0 <= i < before.len() && (#[trigger] before[i]).holds(p);
            if i < at {
                assert(after[i].holds(p));
            } else {
                assert(after[i + 1].holds(p));
            }
        }
    }
}

/// Joins ranges that overlap or touch.
fn merge(ranges: &Vec<AudioRange>, total: usize) -> (r: Vec<AudioRange>)
    requires
        in_start_order(ranges@, total as int),
    ensures
        separated(r@),
        forall|p: int| #[trigger] covered(r@, p) == covered(ranges@, p),
{
    let mut merged: Vec<AudioRange> = Vec::new();
    let mut i: usize = 0;
    while i < ranges.len()
        invariant
            i <= ranges@.len(),
            in_start_order(ranges@, total as int),
            separated(merged@),
            i == 0 ==> merged@.len() == 0,
            i > 0 ==> merged@.len() > 0 && merged@.last().start_sample <= ranges@[i
                - 1].start_sample,
            forall|p: int| #[trigger]
                covered(merged@, p) == covered(ranges@.take(i as int), p),
        decreases ranges.len() - i,
    {
        let range = ranges[i];
        let ghost before = merged@;
        proof {
            assert(i > 0 ==> before.last().start_sample <= range.start_sample);
        }
        let count: usize = merged.len();
        if count > 0 && range.start_sample <= merged[count - 1].end_sample {
            let last = merged[count - 1];
            let end_sample: usize = if last.end_sample < range.end_sample {
                range.end_sample
            } else {
                last.end_sample
            };
            let joined = AudioRange { start_sample: last.start_sample, end_sample };
            merged.set(count - 1, joined);
            assert forall|p: int| #[trigger]
                covered(merged@, p) == (covered(before, p) || range.holds(p)) by {
                if covered(merged@, p) {
                    let k = choose|k: int| 0 <= k < merged@.len() && (#[trigger] merged@[k]).holds(
                        p,
                    );
                    if k < count - 1 {
                        assert(before[k].holds(p));
                    } else if !range.holds(p) {
                        assert(before[count - 1].holds(p));
                    }
                }
                if range.holds(p) {
                    assert(merged@[count - 1].holds(p));
                }
                if covered(before, p) {
                    let k = choose|k: int| 0 <= k < before.len() && (#[trigger] before[k]).holds(p);
                    assert(merged@[k].holds(p));
                }
            }
        } else {
            merged.push(range);
            assert forall|p: int| #[trigger]
                covered(merged@, p) == (covered(before, p) || range.holds(p)) by {
                lemma_covered_push(before, range, p);
            }
        }
        assert forall|p: int| #[trigger] covered(merged@, p) == covered(ranges@.take(i + 1), p) by {
            assert(ranges@.take(i + 1) =~= ranges@.take(i as int).push(range));
            lemma_covered_push(ranges@.take(i as int), range, p);
            assert(covered(before, p) == covered(ranges@.take(i as int), p));
        }
        i = i + 1;
    }
    assert(ranges@.take(i as int) =~= ranges@);
    merged
}

proof fn lemma_covered_push(ranges: Seq<AudioRange>, range: AudioRange, p: int)
    ensures
        covered(ranges.push(range), p) == (covered(ranges, p) || range.holds(p)),
{
    let after = ranges.push(range);
    if covered(after, p) {
        let i = choose|i: int| 0 <= i < after.len() && (#[trigger] after[i]).holds(p);
        if i < ranges.len() {
            assert(ranges[i].holds(p));
        }
    }
    if covered(ranges, p) {
        let i = choose|i: int| 0 <= i < ranges.len() && (#[trigger] ranges[i]).holds(p);
        assert(after[i].holds(p));
    }
    if range.holds(p) {
        assert(after[ranges.len() as int].holds(p));
    }
}

/// The ranges to transcribe, out of stretches of speech in any order that may overlap and reach
/// beyond the audio.
pub fn build_audio_ranges(total_samples: usize, speech: Option<&Vec<AudioRange>>) -> (r: Vec<
    AudioRange,
>)
    ensures
        separated(r@),
        forall|p: int| #[trigger]
            covered(r@, p) == wanted(
                total_samples,
                match speech {
                    Some(speech) => Some(speech@),
                    None => None,
                },
                p,
            ),
{
    let mut ranges: Vec<AudioRange> = Vec::new();
    if let Some(speech) = speech {
        let mut i: usize = 0;
        while i < speech.len()
            invariant
                i <= speech@.len(),
                in_start_order(ranges@, total_samples as int),
                forall|p: int| #[trigger]
                    covered(ranges@, p) == (0 <= p < total_samples && covered(
                        speech@.take(i as int),
                        p,
                    )),
            decreases speech.len() - i,
        {
            let ghost before = ranges@;
            let given = speech[i];
            let start_sample: usize = if given.start_sample < total_samples {
                given.start_sample
            } else {
                total_samples
            };
            let end_sample: usize = if given.end_sample < total_samples {
                given.end_sample
            } else {
                total_samples
            };
            let range = AudioRange { start_sample, end_sample };
            if start_sample < end_sample {
                insert_by_start(&mut ranges, range, total_samples);
            }
            assert forall|p: int| #[trigger]
                covered(ranges@, p) == (0 <= p < total_samples && covered(
                    speech@.take(i + 1),
                    p,
                )) by {
                assert(speech@.take(i + 1) =~= speech@.take(i as int).push(given));
                lemma_covered_push(speech@.take(i as int), given, p);
                assert(covered(before, p) == (0 <= p < total_samples && covered(
                    speech@.take(i as int),
                    p,
                )));
                assert(range.holds(p) == (0 <= p < total_samples && given.holds(p)));
            }
            i = i + 1;
        }
        assert(speech@.take(i as int) =~= speech@);
        if ranges.len() > 0 {
            assert(ranges@[0].holds(ranges@[0].start_sample as int));
            assert(covered(ranges@, ranges@[0].start_sample as int));
        }
        assert(any_speech(total_samples, speech@) ==> ranges@.len() > 0) by {
            if any_speech(total_samples, speech@) {
                let q = choose|q: int| 0 <= q < total_samples && #[trigger] covered(speech@, q);
                assert(covered(ranges@, q));
            }
        }
    }
    if ranges.len() == 0 {
        if total_samples > 0 {
            let whole = AudioRange { start_sample: 0, end_sample: total_samples };
            let ghost none = ranges@;
            ranges.push(whole);
            assert forall|p: int| #[trigger] covered(ranges@, p) == (0 <= p < total_samples) by {
                lemma_covered_push(none, whole, p);
            }
        }
        ranges
    } else {
        merge(&ranges, total_samples)
    }
}

/// Ranges that lie apart hold no more samples than the audio up to the end of the last one.
pub proof fn lemma_total_len_bound(ranges: Seq<AudioRange>)
    requires
        separated(ranges),
    ensures
        0 <= total_len(ranges),
        ranges.len() > 0 ==> total_len(ranges) <= ranges.last().end_sample,
    decreases ranges.len(),
{
    if ranges.len() > 0 {
        lemma_total_len_bound(ranges.drop_last());
        if ranges.len() > 1 {
            assert(ranges[ranges.len() - 2].end_sample < ranges[ranges.len() - 1].start_sample);
        }
    }
}

/// One more range adds its samples.
pub proof fn lemma_total_len_take(ranges: Seq<AudioRange>, i: int)
    requires
        0 <= i < ranges.len(),
    ensures
        total_len(ranges.take(i + 1)) == total_len(ranges.take(i)) + ranges[i].spec_len(),
{
    assert(ranges.take(i + 1).drop_last() =~= ranges.take(i));
}

/// The first ranges hold no more samples than all of them.
pub proof fn lemma_total_len_prefix(ranges: Seq<AudioRange>, i: int)
    requires
        separated(ranges),
        0 <= i <= ranges.len(),
    ensures
        0 <= total_len(ranges.take(i)) <= total_len(ranges),
    decreases ranges.len() - i,
{
    if i < ranges.len() {
        lemma_total_len_prefix(ranges, i + 1);
        lemma_total_len_take(ranges, i);
        lemma_total_len_bound(ranges.take(i));
    } else {
        assert(ranges.take(i) =~= ranges);
        lemma_total_len_bound(ranges);
    }
}

} // verus!
