//! What becomes of a block: which segments are kept, where the work goes on, and what is told.

use crate::models::{
    segment_views, Progress, SegmentView, TranscriptionResult, TranscriptionSegment,
};
use crate::services::ranges::{
    build_audio_ranges, covered, total_len, wanted, AudioRange,
};
use crate::services::transcriber::{
    end_position, furthest, is_ng_word, joined_text, selected, usable, Recognized, Transcriber,
};
use crate::services::vad::segments::SpeechSegment;
use crate::text::trimmed;
use vstd::prelude::*;
#[allow(unused_imports)]
use vstd::string::*;

verus! {

/// Whether a reported segment says something that is not made up, and starts before it ends.
pub open spec fn is_useful(r: Recognized) -> bool {
    &&& trimmed(r.text@).len() > 0
    &&& trimmed(r.text@) != "あ"@
    &&& trimmed(r.text@) != "ん"@
    &&& trimmed(r.text@) != "ご視聴ありがとうございました"@
    &&& r.start_offset < r.end_offset
}

/// The useful ones among the reported segments.
pub open spec fn useful(heard: Seq<Recognized>) -> Seq<Recognized> {
    heard.filter(|r: Recognized| is_useful(r))
}

/// How many samples of a block of `len` are left after a segment.
pub open spec fn left_after(len: int, r: Recognized) -> int {
    if r.end_offset > 0 {
        len - 160 * r.end_offset
    } else {
        len
    }
}

/// The end of the next block: 480000 samples on, or the end of the range.
pub open spec fn end_of_block(t: Transcriber) -> int {
    let end = t.ranges@[t.index as int].end_sample as int;
    if end <= t.cursor + 480000 {
        end
    } else {
        t.cursor + 480000
    }
}

/// Whether a segment is the reported one of the block that starts at `block_start`, with its own
/// times and its text without the white space around it.
pub open spec fn is_reported(
    segment: TranscriptionSegment,
    block_start: int,
    heard: Recognized,
) -> bool {
    &&& segment.block_start == block_start
    &&& segment.start_offset == heard.start_offset
    &&& segment.end_offset == heard.end_offset
    &&& segment.text@ == trimmed(heard.text@)
}

/// Whether two segments tell the same.
pub open spec fn same_segment(a: TranscriptionSegment, b: TranscriptionSegment) -> bool {
    &&& a.block_start == b.block_start
    &&& a.start_offset == b.start_offset
    &&& a.end_offset == b.end_offset
    &&& a.text@ == b.text@
}

/// Whether the segments `after` a block that starts at `block_start` are those `before` and then
/// the kept ones, in their order.
pub open spec fn appended(
    before: Seq<TranscriptionSegment>,
    after: Seq<TranscriptionSegment>,
    block_start: int,
    kept: Seq<Recognized>,
) -> bool {
    &&& after.len() == before.len() + kept.len()
    &&& forall|i: int| 0 <= i < before.len() ==> same_segment(#[trigger] after[i], before[i])
    &&& forall|i: int|
        before.len() <= i < after.len() ==> is_reported(
            #[trigger] after[i],
            block_start,
            kept[i - before.len()],
        )
}

/// The useful segments of a block of `len` samples without one that may have been cut off.
pub open spec fn whole(len: int, heard: Seq<Recognized>) -> Seq<Recognized> {
    let all = useful(heard);
    if all.len() < 2 {
        all
    } else if left_after(len, all.last()) < 8000 {
        all.drop_last()
    } else if left_after(len, all.last()) == 8000 && all.last().edge_tie {
        all.drop_last()
    } else {
        all
    }
}

proof fn lemma_useful(heard: Seq<Recognized>)
    ensures
        heard.filter(|r: Recognized| usable(r)) == useful(heard),
{
    assert((|r: Recognized| usable(r)) =~= (|r: Recognized| is_useful(r)));
}

proof fn lemma_whole(len: int, heard: Seq<Recognized>)
    ensures
        selected(len, heard) == whole(len, heard),
{
    lemma_useful(heard);
}

/// What a block leads to is told by the segments that are whole.
pub proof fn lemma_appended(
    t: Transcriber,
    heard: Seq<Recognized>,
    next: Transcriber,
    after: Seq<TranscriptionSegment>,
)
    requires
        t.leads_to(heard, next),
        segment_views(after) == next.heard_segments(),
    ensures
        appended(
            t.segments@,
            after,
            t.cursor as int,
            whole(end_of_block(t) - t.cursor, heard),
        ),
{
    let len = end_of_block(t) - t.cursor;
    lemma_whole(len, heard);
    let kept = whole(len, heard);
    let n = t.segments@.len() as int;
    let views = segment_views(after);
    assert(t.heard_segments().len() == n);
    assert(views.len() == after.len());
    assert forall|i: int| 0 <= i < after.len() implies {
        &&& i < n ==> same_segment(#[trigger] after[i], t.segments@[i])
        &&& i >= n ==> is_reported(after[i], t.cursor as int, kept[i - n])
    } by {
        assert(views[i] == after[i]@);
        if i < n {
            assert(t.heard_segments()[i] == t.segments@[i]@);
        }
    }
}

/// However many useful segments were heard in a block: where there are at least two and the last
/// of them ends less than 8000 samples before the end of the block, all but that one are appended;
/// where it ends more than 8000 samples before, or is the only one, all of them are.
pub proof fn law_cut_off_segment_is_dropped(
    t: &mut Transcriber,
    heard: &Vec<Recognized>,
    r: Progress,
)
    requires
        call_ensures(Transcriber::accept_block, (t, heard), r),
    ensures
        ({
            let before = old(t).segments@;
            let after = final(t).segments@;
            let start = old(t).cursor as int;
            let all = useful(heard@);
            let left = left_after(end_of_block(*old(t)) - start, all.last());
            &&& all.len() >= 2 && left < 8000 ==> appended(before, after, start, all.drop_last())
            &&& all.len() >= 2 && left == 8000 ==> appended(
                before,
                after,
                start,
                if all.last().edge_tie {
                    all.drop_last()
                } else {
                    all
                },
            )
            &&& all.len() >= 2 && left > 8000 ==> appended(before, after, start, all)
            &&& all.len() <= 1 ==> appended(before, after, start, all)
        }),
{
    lemma_appended(*old(t), heard@, *final(t), final(t).segments@);
}

/// Nothing that was heard gets lost but what is useless or cut off: each useful segment but the
/// last is among the segments afterwards.
pub proof fn law_useful_segments_are_kept(
    t: &mut Transcriber,
    heard: &Vec<Recognized>,
    r: Progress,
    i: int,
)
    requires
        call_ensures(Transcriber::accept_block, (t, heard), r),
        0 <= i < useful(heard@).len() - 1,
    ensures
        old(t).segments@.len() + i < final(t).segments@.len(),
        is_reported(
            final(t).segments@[old(t).segments@.len() + i],
            old(t).cursor as int,
            useful(heard@)[i],
        ),
{
    lemma_appended(*old(t), heard@, *final(t), final(t).segments@);
}

/// How many samples after the start of its block a segment ends.
pub open spec fn ends_after(r: Recognized) -> int {
    160 * r.end_offset - if r.end_short {
        1int
    } else {
        0
    }
}

/// Whether the work goes on at sample `at` after a block of which these segments were kept: at the
/// latest end among them, unless that is not inside the block.
pub open spec fn goes_on_at(t: Transcriber, kept: Seq<Recognized>, at: int) -> bool {
    let len = end_of_block(t) - t.cursor;
    if forall|i: int| 0 <= i < kept.len() ==> ends_after(#[trigger] kept[i]) <= 0 {
        at == end_of_block(t)
    } else if exists|i: int| 0 <= i < kept.len() && ends_after(#[trigger] kept[i]) >= len {
        at == end_of_block(t)
    } else {
        &&& exists|i: int| 0 <= i < kept.len() && at == t.cursor + ends_after(#[trigger] kept[i])
        &&& forall|i: int|
            0 <= i < kept.len() ==> t.cursor + ends_after(#[trigger] kept[i]) <= at
    }
}

proof fn lemma_furthest(segments: Seq<Recognized>)
    ensures
        furthest(segments) >= 0,
        forall|i: int| 0 <= i < segments.len() ==> ends_after(#[trigger] segments[i]) <= furthest(
            segments,
        ),
        furthest(segments) > 0 ==> exists|i: int|
            0 <= i < segments.len() && ends_after(#[trigger] segments[i]) == furthest(segments),
    decreases segments.len(),
{
    if segments.len() > 0 {
        let rest = segments.drop_last();
        lemma_furthest(rest);
        assert(end_position(segments.last()) == ends_after(segments.last()));
        assert forall|i: int| 0 <= i < segments.len() implies ends_after(#[trigger] segments[i])
            <= furthest(segments) by {
            if i < rest.len() {
                assert(rest[i] == segments[i]);
            }
        }
        if furthest(segments) > 0 {
            if furthest(segments) == ends_after(segments.last()) {
                assert(ends_after(segments[segments.len() - 1]) == furthest(segments));
            } else {
                let i = choose|i: int|
                    0 <= i < rest.len() && ends_after(#[trigger] rest[i]) == furthest(rest);
                assert(ends_after(segments[i]) == furthest(segments));
            }
        }
    }
}

/// Whether `next` stands at sample `at` of the range that `t` works on, or, where that is its
/// end, at the start of the next range.
pub open spec fn stands_at(t: Transcriber, next: Transcriber, at: int) -> bool {
    &&& t.cursor < at <= end_of_block(t)
    &&& next.ranges@ == t.ranges@
    &&& if at < t.ranges@[t.index as int].end_sample {
        next.index == t.index && next.cursor == at
    } else {
        &&& next.index == t.index + 1
        &&& next.index < next.ranges@.len() ==> next.cursor
            == next.ranges@[next.index as int].start_sample
    }
}

/// How many samples lie before the place where a transcription stands: those of the ranges that
/// are through, and those of its own range before the cursor.
pub open spec fn samples_before(t: Transcriber) -> int {
    if t.index < t.ranges@.len() {
        total_len(t.ranges@.take(t.index as int)) + (t.cursor
            - t.ranges@[t.index as int].start_sample)
    } else {
        total_len(t.ranges@)
    }
}

/// Where the work goes on after a block.
pub proof fn lemma_goes_on(t: Transcriber, heard: Seq<Recognized>, next: Transcriber) -> (at: int)
    requires
        t.wf(),
        !t.is_done(),
        t.leads_to(heard, next),
    ensures
        goes_on_at(t, whole(end_of_block(t) - t.cursor, heard), at),
        stands_at(t, next, at),
{
    let len = end_of_block(t) - t.cursor;
    lemma_whole(len, heard);
    let kept = whole(len, heard);
    lemma_furthest(kept);
    let m = furthest(kept);
    if forall|i: int| 0 <= i < kept.len() ==> ends_after(#[trigger] kept[i]) <= 0 {
        assert(m <= 0);
    } else if exists|i: int| 0 <= i < kept.len() && ends_after(#[trigger] kept[i]) >= len {
        assert(m >= len);
    } else {
        assert(m > 0);
        let i = choose|i: int| 0 <= i < kept.len() && ends_after(#[trigger] kept[i]) == m;
        assert(ends_after(kept[i]) == m);
    }
    if 0 < m < len {
        t.cursor + m
    } else {
        end_of_block(t)
    }
}

/// The samples that are done are those before the place where the transcription stands.
pub proof fn lemma_samples_before(t: Transcriber)
    requires
        t.wf(),
    ensures
        t.done() == samples_before(t),
        t.total == total_len(t.ranges@),
{
    if t.is_done() {
        assert(t.ranges@.take(t.index as int) =~= t.ranges@);
    }
}

/// After a block the work goes on where the last kept segment ended, or after the block, and from
/// the end of a range it goes on with the next range. The progress tells the samples before that.
pub proof fn law_work_goes_on_after_the_last_segment(
    t: &mut Transcriber,
    heard: &Vec<Recognized>,
    r: Progress,
)
    requires
        old(t).wf(),
        old(t).index < old(t).ranges@.len(),
        call_ensures(Transcriber::accept_block, (t, heard), r),
    ensures
        exists|at: int| #[trigger]
            stands_at(*old(t), *final(t), at) && goes_on_at(
                *old(t),
                whole(end_of_block(*old(t)) - old(t).cursor, heard@),
                at,
            ),
        r matches Progress::Samples { done, total } && done == samples_before(*final(t)) && total
            == total_len(old(t).ranges@),
{
    let at = lemma_goes_on(*old(t), heard@, *final(t));
    lemma_samples_before(*final(t));
    lemma_samples_before(*old(t));
    assert(stands_at(*old(t), *final(t), at));
}

/// A block starts at the cursor, is not empty, and lasts to the end of the range, or 480000
/// samples where the range is longer. There is one until the last range is through.
pub proof fn law_blocks_are_limited(t: &Transcriber, r: Option<AudioRange>)
    requires
        t.wf(),
        call_ensures(Transcriber::next_block, (t,), r),
    ensures
        r is Some <==> t.index < t.ranges@.len(),
        r matches Some(block) ==> {
            let end = t.ranges@[t.index as int].end_sample;
            &&& block.start_sample == t.cursor < block.end_sample <= end
            &&& block.end_sample == end || block.end_sample - block.start_sample == 480000
            &&& block.end_sample - block.start_sample <= 480000
        },
{
}

/// The text of no segments is empty, that of one is its own, and that of a row is that of its
/// parts with a space between.
pub proof fn law_texts_are_joined_by_spaces(
    a: Seq<SegmentView>,
    b: Seq<SegmentView>,
    one: SegmentView,
)
    requires
        a.len() > 0,
        b.len() > 0,
    ensures
        joined_text(Seq::<SegmentView>::empty()) == Seq::<char>::empty(),
        joined_text(seq![one]) == one.text,
        joined_text(a + b) == joined_text(a) + seq![' '] + joined_text(b),
    decreases b.len(),
{
    if b.len() == 1 {
        assert((a + b).drop_last() =~= a);
        assert(joined_text(b) == b[0].text);
    } else {
        let c = b.drop_last();
        assert((a + b).drop_last() =~= a + c);
        assert((a + b).last() == b.last());
        law_texts_are_joined_by_spaces(a, c, one);
        assert(joined_text(a + b) =~= joined_text(a) + seq![' '] + joined_text(b));
    }
}

/// The result of a transcription tells all its segments, their joined texts, and the stretches of
/// speech that it was given.
pub proof fn law_result_is_the_transcription(
    t: Transcriber,
    vad_segments: Option<Vec<SpeechSegment>>,
    r: TranscriptionResult,
)
    requires
        t.wf(),
        call_ensures(Transcriber::finish, (t, vad_segments), r),
    ensures
        r.segments@.len() == t.segments@.len(),
        forall|i: int|
            0 <= i < r.segments@.len() ==> same_segment(
                #[trigger] r.segments@[i],
                t.segments@[i],
            ),
        r.full_text@ == joined_text(
            t.segments@.map_values(|segment: TranscriptionSegment| segment@),
        ),
        r.vad_segments is Some <==> vad_segments is Some,
        r.vad_segments is Some ==> r.vad_segments->0@ == vad_segments->0@,
{
    let views = segment_views(r.segments@);
    assert(views.len() == r.segments@.len());
    assert(segment_views(t.segments@).len() == t.segments@.len());
    assert forall|i: int| 0 <= i < r.segments@.len() implies (#[trigger] r.segments@[i])@
        == t.segments@[i]@ by {
        assert(views[i] == r.segments@[i]@);
        assert(segment_views(t.segments@)[i] == t.segments@[i]@);
    }
}

/// The made-up texts are these three and no others.
pub proof fn law_made_up_texts(text: &str, r: bool)
    requires
        call_ensures(is_ng_word, (text,), r),
    ensures
        r <==> (text@ == "あ"@ || text@ == "ん"@ || text@ == "ご視聴ありがとうございました"@),
{
}

/// Whether sample `p` lies between the bounds of one of these stretches.
pub open spec fn in_stretches(stretches: Seq<AudioRange>, p: int) -> bool {
    exists|i: int|
        0 <= i < stretches.len() && (#[trigger] stretches[i]).start_sample <= p
            < stretches[i].end_sample
}

/// Whether sample `p` is to be transcribed: it is one of the audio, and lies in the speech, unless
/// none is known or none of it lies in the audio.
pub open spec fn is_to_transcribe(total: int, speech: Option<Seq<AudioRange>>, p: int) -> bool {
    &&& 0 <= p < total
    &&& match speech {
        None => true,
        Some(speech) => {
            ||| in_stretches(speech, p)
            ||| forall|q: int| 0 <= q < total ==> !#[trigger] in_stretches(speech, q)
        },
    }
}

/// What is covered and wanted is what lies in the ranges and is to be transcribed.
proof fn lemma_wanted(total: usize, speech: Option<Seq<AudioRange>>)
    ensures
        forall|s: Seq<AudioRange>, q: int| #[trigger] in_stretches(s, q) == covered(s, q),
        forall|p: int| #[trigger]
            wanted(total, speech, p) == is_to_transcribe(total as int, speech, p),
{
    assert forall|s: Seq<AudioRange>, q: int| #[trigger] in_stretches(s, q) == covered(s, q) by {
        if in_stretches(s, q) {
            let i = choose|i: int|
                0 <= i < s.len() && (#[trigger] s[i]).start_sample <= q < s[i].end_sample;
            assert(s[i].holds(q));
        }
        if covered(s, q) {
            let i = choose|i: int| 0 <= i < s.len() && (#[trigger] s[i]).holds(q);
            assert(s[i].start_sample <= q < s[i].end_sample);
        }
    }
    if let Some(given) = speech {
        assert((forall|q: int| 0 <= q < total ==> !#[trigger] in_stretches(given, q)) <==> (
        forall|q: int| 0 <= q < total ==> !#[trigger] covered(given, q))) by {
            if forall|q: int| 0 <= q < total ==> !#[trigger] in_stretches(given, q) {
                assert forall|q: int| 0 <= q < total implies !#[trigger] covered(given, q) by {
                    assert(!in_stretches(given, q));
                }
            }
        }
        assert forall|p: int| #[trigger]
            wanted(total, speech, p) == is_to_transcribe(total as int, speech, p) by {
            assert(in_stretches(given, p) == covered(given, p));
        }
    }
}

/// What a vector holds, where there is one.
pub open spec fn held(speech: Option<&Vec<AudioRange>>) -> Option<Seq<AudioRange>> {
    match speech {
        Some(speech) => Some(speech@),
        None => None,
    }
}

/// The ranges hold just the samples of the audio that lie in stretches of speech, or all of them
/// where no speech is known or none of it lies in the audio. They are in order, not empty, and do
/// not touch.
pub proof fn law_ranges_are_the_speech(
    total: usize,
    speech: Option<&Vec<AudioRange>>,
    r: Vec<AudioRange>,
    p: int,
)
    requires
        call_ensures(build_audio_ranges, (total, speech), r),
    ensures
        in_stretches(r@, p) <==> is_to_transcribe(total as int, held(speech), p),
        forall|i: int|
            0 <= i < r@.len() ==> (#[trigger] r@[i]).start_sample < r@[i].end_sample <= total,
        forall|i: int, j: int|
            0 <= i < j < r@.len() ==> (#[trigger] r@[i]).end_sample < (
            #[trigger] r@[j]).start_sample,
{
    lemma_wanted(total, held(speech));
    assert(wanted(total, held(speech), p) == is_to_transcribe(total as int, held(speech), p));
    assert forall|i: int| 0 <= i < r@.len() implies (#[trigger] r@[i]).start_sample
        < r@[i].end_sample <= total by {
        assert(r@[i].holds(r@[i].end_sample - 1));
        assert(covered(r@, r@[i].end_sample - 1));
    }
}

/// The samples of a row of ranges are counted one range after the other.
pub proof fn law_samples_are_counted(ranges: Seq<AudioRange>, range: AudioRange)
    ensures
        total_len(Seq::<AudioRange>::empty()) == 0,
        total_len(ranges.push(range)) == total_len(ranges) + (range.end_sample
            - range.start_sample),
{
    assert(ranges.push(range).drop_last() =~= ranges);
}

/// Whether a transcription is at its start: nothing is heard, and it stands at the first sample of
/// its ranges, which hold what is to be transcribed.
pub open spec fn at_start(t: Transcriber, total: int, speech: Option<Seq<AudioRange>>) -> bool {
    &&& t.segments@.len() == 0
    &&& t.index == 0
    &&& t.ranges@.len() > 0 ==> t.cursor == t.ranges@[0].start_sample
    &&& forall|p: int| #[trigger]
        in_stretches(t.ranges@, p) <==> is_to_transcribe(total, speech, p)
}

/// The start of a transcription.
pub proof fn lemma_at_start(t: Transcriber, total: usize, speech: Option<Seq<AudioRange>>)
    requires
        t.is_start_of(total, speech),
    ensures
        at_start(t, total as int, speech),
{
    lemma_wanted(total, speech);
    assert forall|p: int| #[trigger] in_stretches(t.ranges@, p) == is_to_transcribe(
        total as int,
        speech,
        p,
    ) by {
        assert(wanted(total, speech, p) == is_to_transcribe(total as int, speech, p));
    }
}

/// A transcription starts at the first of its ranges with nothing heard, and its total is the
/// number of samples in them.
pub proof fn law_transcription_starts_at_the_first_range(
    total: usize,
    speech: Option<&Vec<AudioRange>>,
    t: Transcriber,
)
    requires
        call_ensures(Transcriber::new, (total, speech), t),
    ensures
        at_start(t, total as int, held(speech)),
        t.total == total_len(t.ranges@),
        samples_before(t) == 0,
{
    lemma_at_start(t, total, held(speech));
    lemma_samples_before(t);
}

} // verus!
