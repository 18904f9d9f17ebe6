//! Walking through audio block by block, and gathering what was recognized.

use crate::models::{
    segment_views, Progress, ResultView, SegmentView, TranscriptionResult, TranscriptionSegment,
};
use crate::services::ranges::{
    build_audio_ranges, covered, lemma_total_len_bound, lemma_total_len_prefix,
    lemma_total_len_take, separated, total_len, wanted, AudioRange,
};
use crate::services::vad::segments::SpeechSegment;
use crate::text::{lemma_trimmed_twice, same_text, trim, trimmed};
use vstd::prelude::*;
#[allow(unused_imports)]
use vstd::string::*;

verus! {

/// The sample rate of all audio that is transcribed.
pub const SAMPLE_RATE: usize = 16000;

/// The longest block that is handed to the recognizer, 30 seconds.
pub const BLOCK_SAMPLES: usize = 480000;

/// How many samples a hundredth of a second has.
pub const SAMPLES_PER_HUNDREDTH: i128 = 160;

/// A segment that ends closer than this to the end of its block, half a second, may have been cut
/// off there.
pub const BLOCK_EDGE_TRIM_SAMPLES: i128 = 8000;

/// A segment as the recognizer reported it for a block.
///
/// Its end is turned into samples by way of seconds, as a floating-point number, which is rounded.
/// What came of that is told along with the segment.
#[derive(Debug)]
pub struct Recognized {
    pub text: String,
    /// The start, in hundredths of a second from the start of the block.
    pub start_offset: i64,
    /// The end, in hundredths of a second from the start of the block.
    pub end_offset: i64,
    /// Whether the end in seconds falls short of its sample, so that it lies in the one before.
    pub end_short: bool,
    /// Whether an end of half a second before the end of the block counts as less than that.
    pub edge_tie: bool,
}

/// A text that the recognizer makes up where nothing is said.
pub open spec fn ng_word(text: Seq<char>) -> bool {
    ||| text == "あ"@
    ||| text == "ん"@
    ||| text == "ご視聴ありがとうございました"@
}

/// Whether a reported segment is kept: it says something, and it starts before it ends.
pub open spec fn usable(r: Recognized) -> bool {
    &&& trimmed(r.text@).len() > 0
    &&& !ng_word(trimmed(r.text@))
    &&& r.start_offset < r.end_offset
}

/// Whether a segment ends close to the end of a block of `len` samples.
pub open spec fn near_edge(len: int, r: Recognized) -> bool {
    let end = if r.end_offset < 0 {
        0
    } else {
        SAMPLES_PER_HUNDREDTH * r.end_offset
    };
    ||| len - end < BLOCK_EDGE_TRIM_SAMPLES
    ||| len - end == BLOCK_EDGE_TRIM_SAMPLES && r.edge_tie
}

/// The sample that a segment ends at, counted from the start of its block.
pub open spec fn end_position(r: Recognized) -> int {
    if r.end_short {
        SAMPLES_PER_HUNDREDTH * r.end_offset - 1
    } else {
        SAMPLES_PER_HUNDREDTH * r.end_offset
    }
}

/// The reported segments of a block of `len` samples that are kept: where there are several, not
/// the last one if it ends close to the end of the block.
pub open spec fn selected(len: int, heard: Seq<Recognized>) -> Seq<Recognized> {
    let usable = heard.filter(|r: Recognized| usable(r));
    if usable.len() > 1 && near_edge(len, usable.last()) {
        usable.drop_last()
    } else {
        usable
    }
}

/// A kept segment of the block that starts at `block_start`.
pub open spec fn segment_of(block_start: int, r: Recognized) -> SegmentView {
    SegmentView {
        block_start,
        start_offset: r.start_offset as int,
        end_offset: r.end_offset as int,
        text: trimmed(r.text@),
    }
}

/// The kept segments of the block `start..end`.
pub open spec fn block_segments(start: int, end: int, heard: Seq<Recognized>) -> Seq<SegmentView> {
    selected(end - start, heard).map_values(|r: Recognized| segment_of(start, r))
}

/// What every segment of a transcription is like: its text has no white space around it, says
/// something, and is not made up, and it starts before it ends.
pub open spec fn is_proper(segment: SegmentView) -> bool {
    &&& segment.text.len() > 0
    &&& trimmed(segment.text) == segment.text
    &&& !ng_word(segment.text)
    &&& segment.start_offset < segment.end_offset
}

/// Whether all segments are proper.
pub open spec fn all_proper(segments: Seq<SegmentView>) -> bool {
    forall|i: int| 0 <= i < segments.len() ==> is_proper(#[trigger] segments[i])
}

/// The latest end among segments, in samples from the start of their block, or zero where none
/// ends later.
pub open spec fn furthest(segments: Seq<Recognized>) -> int
    decreases segments.len(),
{
    if segments.len() == 0 {
        0
    } else {
        let before = furthest(segments.drop_last());
        if end_position(segments.last()) > before {
            end_position(segments.last())
        } else {
            before
        }
    }
}

/// Where to go on after the block `start..end`: where the last kept segment ended, if that is
/// inside the block, and otherwise at its end.
pub open spec fn resume_at(start: int, end: int, heard: Seq<Recognized>) -> int {
    let last = start + furthest(selected(end - start, heard));
    if start < last < end {
        last
    } else {
        end
    }
}

/// The texts of the segments with a space between neighbours.
pub open spec fn joined_text(segments: Seq<SegmentView>) -> Seq<char>
    decreases segments.len(),
{
    if segments.len() == 0 {
        seq![]
    } else if segments.len() == 1 {
        segments[0].text
    } else {
        joined_text(segments.drop_last()) + seq![' '] + segments.last().text
    }
}

/// Whether `text` is one that the recognizer makes up where nothing is said.
pub fn is_ng_word(text: &str) -> (r: bool)
    ensures
        r == ng_word(text@),
{
    same_text(text, "あ") || same_text(text, "ん") || same_text(
        text,
        "ご視聴ありがとうございました",
    )
}

/// The state of a transcription.
pub struct Transcriber {
    /// What is to be transcribed.
    pub ranges: Vec<AudioRange>,
    /// The range that is being worked on.
    pub index: usize,
    /// The start of the next block.
    pub cursor: usize,
    /// The samples in the ranges that are done.
    pub completed: usize,
    /// The samples in all ranges.
    pub total: usize,
    /// What has been recognized so far.
    pub segments: Vec<TranscriptionSegment>,
    /// The text so far.
    pub full_text: String,
}

impl Transcriber {
    /// What every step keeps: the cursor is in the current range, the samples are counted
    /// rightly, the text is that of the segments, and the segments are proper.
    pub open spec fn wf(self) -> bool {
        &&& separated(self.ranges@)
        &&& self.index <= self.ranges@.len()
        &&& self.index < self.ranges@.len() ==> self.ranges@[self.index as int].holds(
            self.cursor as int,
        )
        &&& self.completed == total_len(self.ranges@.take(self.index as int))
        &&& self.total == total_len(self.ranges@)
        &&& self.full_text@ == joined_text(segment_views(self.segments@))
        &&& all_proper(segment_views(self.segments@))
    }

    /// Whether everything has been transcribed.
    pub open spec fn is_done(self) -> bool {
        self.index >= self.ranges@.len()
    }

    /// The end of the next block.
    pub open spec fn block_end(self) -> int {
        let end = self.ranges@[self.index as int].end_sample;
        if end - self.cursor <= BLOCK_SAMPLES {
            end as int
        } else {
            self.cursor + BLOCK_SAMPLES
        }
    }

    /// How many samples are done.
    pub open spec fn done(self) -> int {
        if self.is_done() {
            self.completed as int
        } else {
            self.completed + (self.cursor - self.ranges@[self.index as int].start_sample)
        }
    }

    /// Whether sample `p` is still to be transcribed.
    pub open spec fn pending(self, p: int) -> bool {
        &&& !self.is_done()
        &&& p >= self.cursor
        &&& covered(self.ranges@, p)
    }

    /// What has been recognized so far.
    pub open spec fn heard_segments(self) -> Seq<SegmentView> {
        segment_views(self.segments@)
    }

    /// Whether this is the start of a transcription of `total_samples` samples that is limited
    /// to these stretches of speech: everything wanted is still to be transcribed.
    pub open spec fn is_start_of(
        self,
        total_samples: usize,
        speech: Option<Seq<AudioRange>>,
    ) -> bool {
        &&& self.index == 0
        &&& self.completed == 0
        &&& self.segments@.len() == 0
        &&& forall|p: int| #[trigger]
            covered(self.ranges@, p) == wanted(total_samples, speech, p)
        &&& forall|p: int| #[trigger] self.pending(p) == wanted(total_samples, speech, p)
        &&& !self.is_done() ==> self.cursor == self.ranges@[0].start_sample
        &&& self.done() == 0
    }

    /// Whether `next` is this transcription after `heard` was recognized in the next block: what
    /// is kept of it is appended, and the cursor moves on, past the end of the range where the
    /// range is through.
    pub open spec fn leads_to(self, heard: Seq<Recognized>, next: Transcriber) -> bool {
        let range = self.ranges@[self.index as int];
        let resume = resume_at(self.cursor as int, self.block_end(), heard);
        &&& next.ranges == self.ranges
        &&& next.total == self.total
        &&& next.heard_segments() == self.heard_segments() + block_segments(
            self.cursor as int,
            self.block_end(),
            heard,
        )
        &&& if resume < range.end_sample {
            &&& next.index == self.index
            &&& next.cursor == resume
        } else {
            &&& next.index == self.index + 1
            &&& !next.is_done() ==> next.cursor == next.ranges@[next.index as int].start_sample
        }
    }
}

proof fn lemma_joined_push(segments: Seq<SegmentView>, segment: SegmentView)
    ensures
        joined_text(segments.push(segment)) == if segments.len() == 0 {
            segment.text
        } else {
            joined_text(segments) + seq![' '] + segment.text
        },
{
    assert(segments.push(segment).drop_last() =~= segments);
}

proof fn lemma_joined_not_empty(segments: Seq<SegmentView>)
    requires
        all_proper(segments),
    ensures
        joined_text(segments).len() == 0 <==> segments.len() == 0,
{
    if segments.len() > 0 {
        assert(is_proper(segments[0]));
    }
}

proof fn lemma_views_push(segments: Seq<TranscriptionSegment>, segment: TranscriptionSegment)
    ensures
        segment_views(segments.push(segment)) == segment_views(segments).push(segment@),
{
    assert(segment_views(segments.push(segment)) =~= segment_views(segments).push(segment@));
}

/// The kept segments of a block with what the walk needs of them.
struct Kept {
    segments: Vec<TranscriptionSegment>,
    ends: Vec<i128>,
}

/// Whether these are the ends of the segments.
spec fn ends_of(segments: Seq<Recognized>, ends: Seq<i128>) -> bool {
    &&& ends.len() == segments.len()
    &&& forall|i: int| 0 <= i < ends.len() ==> #[trigger] ends[i] == end_position(segments[i])
}

/// The kept segments of the block `start..end`.
fn keep(start: usize, end: usize, heard: &Vec<Recognized>) -> (r: Kept)
    requires
        start <= end,
    ensures
        segment_views(r.segments@) == block_segments(start as int, end as int, heard@),
        ends_of(selected(end - start, heard@), r.ends@),
        all_proper(segment_views(r.segments@)),
{
    let mut segments: Vec<TranscriptionSegment> = Vec::new();
    let mut ends: Vec<i128> = Vec::new();
    let len: i128 = (end - start) as i128;
    let mut last_near_edge = false;
    let ghost pred = |h: Recognized| usable(h);
    let ghost to_segment = |h: Recognized| segment_of(start as int, h);
    let mut i: usize = 0;
    proof {
        reveal(Seq::filter);
        assert(segment_views(segments@) =~= heard@.take(0).filter(pred).map_values(to_segment));
    }
    while i < heard.len()
        invariant
            i <= heard@.len(),
            pred == (|h: Recognized| usable(h)),
            to_segment == (|h: Recognized| segment_of(start as int, h)),
            segment_views(segments@) == heard@.take(i as int).filter(pred).map_values(to_segment),
            ends_of(heard@.take(i as int).filter(pred), ends@),
            len == end - start,
            ends@.len() > 0 ==> last_near_edge == near_edge(
                len as int,
                heard@.take(i as int).filter(pred).last(),
            ),
            all_proper(segment_views(segments@)),
        decreases heard.len() - i,
    {
        let given = &heard[i];
        let text = trim(given.text.as_str());
        proof {
            reveal(Seq::filter);
            assert(heard@.take(i + 1).drop_last() =~= heard@.take(i as int));
        }
        let ghost before = heard@.take(i as int).filter(pred);
        if !text.is_empty() && !is_ng_word(text) && given.start_offset < given.end_offset {
            assert(heard@.take(i + 1).filter(pred) == before.push(heard@[i as int]));
            let segment = TranscriptionSegment {
                block_start: start,
                start_offset: given.start_offset,
                end_offset: given.end_offset,
                text: text.to_string(),
            };
            proof {
                lemma_views_push(segments@, segment);
                lemma_trimmed_twice(given.text@);
                assert(is_proper(segment@));
            }
            segments.push(segment);
            let exact: i128 = SAMPLES_PER_HUNDREDTH * given.end_offset as i128;
            ends.push(
                if given.end_short {
                    exact - 1
                } else {
                    exact
                },
            );
            let left: i128 = if given.end_offset < 0 {
                len
            } else {
                len - exact
            };
            last_near_edge = left < BLOCK_EDGE_TRIM_SAMPLES || (left == BLOCK_EDGE_TRIM_SAMPLES
                && given.edge_tie);
            proof {
                let after = heard@.take(i + 1).filter(pred);
                assert(segment_views(segments@) =~= after.map_values(to_segment));
            }
        }
        i = i + 1;
    }
    assert(heard@.take(i as int) =~= heard@);
    let ghost all = heard@.filter(pred);
    assert(segments@.len() == segment_views(segments@).len());
    let ghost full = segments@;
    if ends.len() > 1 && last_near_edge {
        segments.pop();
        ends.pop();
        assert(segments@ =~= full.drop_last());
        assert(segment_views(full).drop_last() =~= segment_views(segments@));
        assert(segment_views(segments@) =~= all.drop_last().map_values(to_segment));
    }
    Kept { segments, ends }
}

/// The largest number of a row, or zero where none is larger.
fn largest(ends: &Vec<i128>, Ghost(segments): Ghost<Seq<Recognized>>) -> (r: i128)
    requires
        ends_of(segments, ends@),
    ensures
        r == furthest(segments),
        r >= 0,
{
    let mut r: i128 = 0;
    let mut i: usize = 0;
    while i < ends.len()
        invariant
            i <= ends@.len(),
            ends_of(segments, ends@),
            r == furthest(segments.take(i as int)),
            r >= 0,
        decreases ends.len() - i,
    {
        proof {
            assert(segments.take(i + 1).drop_last() =~= segments.take(i as int));
            assert(ends@[i as int] == end_position(segments[i as int]));
        }
        if ends[i] > r {
            r = ends[i];
        }
        i = i + 1;
    }
    assert(segments.take(i as int) =~= segments);
    r
}

/// Counts the samples in ranges that lie apart.
fn count_samples(ranges: &Vec<AudioRange>) -> (r: usize)
    requires
        separated(ranges@),
    ensures
        r == total_len(ranges@),
{
    let mut r: usize = 0;
    let mut i: usize = 0;
    while i < ranges.len()
        invariant
            i <= ranges@.len(),
            separated(ranges@),
            r == total_len(ranges@.take(i as int)),
        decreases ranges.len() - i,
    {
        proof {
            lemma_total_len_take(ranges@, i as int);
            lemma_total_len_bound(ranges@.take(i + 1));
            assert(ranges@[i as int].start_sample < ranges@[i as int].end_sample);
        }
        r = r + (ranges[i].end_sample - ranges[i].start_sample);
        i = i + 1;
    }
    assert(ranges@.take(i as int) =~= ranges@);
    r
}

impl Transcriber {
    /// A transcription of `total_samples` samples, limited to the given stretches of speech.
    pub fn new(total_samples: usize, speech: Option<&Vec<AudioRange>>) -> (r: Transcriber)
        ensures
            r.wf(),
            r.is_start_of(
                total_samples,
                match speech {
                    Some(speech) => Some(speech@),
                    None => None,
                },
            ),
    {
        let ranges = build_audio_ranges(total_samples, speech);
        let total: usize = count_samples(&ranges);
        let cursor: usize = if ranges.len() > 0 {
            ranges[0].start_sample
        } else {
            0
        };
        let r = Transcriber {
            ranges,
            index: 0,
            cursor,
            completed: 0,
            total,
            segments: Vec::new(),
            full_text: String::new(),
        };
        proof {
            assert(r.ranges@.take(0) =~= seq![]);
            assert(segment_views(r.segments@) =~= seq![]);
            assert(r.full_text@ =~= joined_text(segment_views(r.segments@)));
            assert forall|p: int| #[trigger] r.pending(p) == covered(r.ranges@, p) by {
                if covered(r.ranges@, p) {
                    let i = choose|i: int|
                        0 <= i < r.ranges@.len() && (#[trigger] r.ranges@[i]).holds(p);
                    if i > 0 {
                        assert(r.ranges@[0].end_sample < r.ranges@[i].start_sample);
                        assert(r.ranges@[0].start_sample < r.ranges@[0].end_sample);
                    }
                }
            }
        }
        r
    }

    /// The next block to transcribe.
    pub fn next_block(&self) -> (r: Option<AudioRange>)
        requires
            self.wf(),
        ensures
            match r {
                Some(block) => {
                    &&& !self.is_done()
                    &&& block.start_sample == self.cursor
                    &&& block.end_sample == self.block_end()
                    &&& block.start_sample < block.end_sample
                    &&& forall|p: int| block.holds(p) ==> #[trigger] covered(self.ranges@, p)
                },
                None => self.is_done(),
            },
    {
        if self.index >= self.ranges.len() {
            return None;
        }
        let range = self.ranges[self.index];
        let end_sample: usize = if range.end_sample - self.cursor <= BLOCK_SAMPLES {
            range.end_sample
        } else {
            self.cursor + BLOCK_SAMPLES
        };
        let block = AudioRange { start_sample: self.cursor, end_sample };
        assert forall|p: int| block.holds(p) implies #[trigger] covered(self.ranges@, p) by {
            assert(self.ranges@[self.index as int].holds(p));
        }
        Some(block)
    }

    /// Takes what was recognized in the next block, and tells how far the work has come.
    pub fn accept_block(&mut self, heard: &Vec<Recognized>) -> (r: Progress)
        requires
            old(self).wf(),
            !old(self).is_done(),
        ensures
            final(self).wf(),
            old(self).leads_to(heard@, *final(self)),
            r == (Progress::Samples {
                done: final(self).done() as usize,
                total: final(self).total,
            }),
            old(self).done() < final(self).done() <= final(self).total,
            final(self).is_done() ==> final(self).done() == final(self).total,
            forall|p: int|
                old(self).pending(p) && !(old(self).cursor <= p < old(self).block_end())
                    ==> #[trigger] final(self).pending(p),
    {
        let ghost before = *self;
        let range = self.ranges[self.index];
        let cursor: usize = self.cursor;
        let block_end: usize = if range.end_sample - cursor <= BLOCK_SAMPLES {
            range.end_sample
        } else {
            cursor + BLOCK_SAMPLES
        };
        let kept = keep(cursor, block_end, heard);
        let last: i128 = largest(&kept.ends, Ghost(selected(block_end - cursor, heard@)));
        let next: usize = if 0 < last && last < (block_end - cursor) as i128 {
            cursor + last as usize
        } else {
            block_end
        };
        assert(next == resume_at(before.cursor as int, before.block_end(), heard@));
        self.append(kept.segments);
        proof {
            lemma_total_len_take(self.ranges@, self.index as int);
            lemma_total_len_prefix(self.ranges@, self.index + 1);
        }
        let done: usize = self.completed + (next - range.start_sample);
        if next < range.end_sample {
            self.cursor = next;
        } else {
            self.completed = done;
            let count: usize = self.ranges.len();
            self.index = self.index + 1;
            if self.index < count {
                self.cursor = self.ranges[self.index].start_sample;
                assert(self.ranges@[self.index as int].start_sample
                    < self.ranges@[self.index as int].end_sample);
            } else {
                assert(self.ranges@.take(self.index as int) =~= self.ranges@);
            }
        }
        proof {
            law_nothing_is_skipped(before, heard@, *self);
        }
        Progress::Samples { done, total: self.total }
    }

    /// Appends segments and their texts.
    fn append(&mut self, segments: Vec<TranscriptionSegment>)
        requires
            old(self).wf(),
            all_proper(segment_views(segments@)),
        ensures
            final(self).wf(),
            final(self).ranges == old(self).ranges,
            final(self).index == old(self).index,
            final(self).cursor == old(self).cursor,
            final(self).completed == old(self).completed,
            final(self).total == old(self).total,
            final(self).heard_segments() == old(self).heard_segments() + segment_views(segments@),
    {
        let ghost before = *self;
        let mut i: usize = 0;
        assert(segments@.take(0) =~= seq![]);
        assert(before.segments@ + segments@.take(0) =~= before.segments@);
        while i < segments.len()
            invariant
                i <= segments@.len(),
                before.wf(),
                self.wf(),
                self.ranges == before.ranges,
                self.index == before.index,
                self.cursor == before.cursor,
                self.completed == before.completed,
                self.total == before.total,
                self.segments@ == before.segments@ + segments@.take(i as int),
                all_proper(segment_views(segments@)),
            decreases segments.len() - i,
        {
            let segment = segments[i].clone();
            proof {
                let views = segment_views(self.segments@);
                assert(is_proper(segment_views(segments@)[i as int]));
                lemma_joined_not_empty(views);
                lemma_joined_push(views, segment@);
                lemma_views_push(self.segments@, segment);
                reveal_strlit(" ");
                assert(" "@ =~= seq![' ']);
            }
            if !self.full_text.as_str().is_empty() {
                self.full_text.append(" ");
            }
            self.full_text.append(segment.text.as_str());
            self.segments.push(segment);
            assert(self.full_text@ =~= joined_text(segment_views(self.segments@)));
            assert(self.segments@ =~= before.segments@ + segments@.take(i + 1));
            i = i + 1;
        }
        assert(segments@.take(i as int) =~= segments@);
        assert(segment_views(before.segments@ + segments@) =~= segment_views(before.segments@)
            + segment_views(segments@));
    }

    /// The result, once everything is transcribed.
    pub fn finish(self, vad_segments: Option<Vec<SpeechSegment>>) -> (r: TranscriptionResult)
        requires
            self.wf(),
        ensures
            r@ == (ResultView {
                segments: self.heard_segments(),
                full_text: joined_text(self.heard_segments()),
                vad_segments: match vad_segments {
                    Some(segments) => Some(segments@),
                    None => None,
                },
            }),
            all_proper(r@.segments),
    {
        TranscriptionResult { segments: self.segments, full_text: self.full_text, vad_segments }
    }
}

/// No sample is skipped: what is still to be transcribed stays so until it is part of a block.
pub proof fn law_nothing_is_skipped(t: Transcriber, heard: Seq<Recognized>, next: Transcriber)
    requires
        t.wf(),
        !t.is_done(),
        next.wf(),
        t.leads_to(heard, next),
    ensures
        forall|p: int|
            t.pending(p) && !(t.cursor <= p < t.block_end()) ==> #[trigger] next.pending(p),
{
    assert forall|p: int|
        t.pending(p) && !(t.cursor <= p < t.block_end()) implies #[trigger] next.pending(p) by {
        let i = choose|i: int| 0 <= i < t.ranges@.len() && (#[trigger] t.ranges@[i]).holds(p);
        let at = t.index as int;
        if i < at {
            assert(t.ranges@[i].end_sample < t.ranges@[at].start_sample);
        } else if i > at {
            assert(t.ranges@[at].end_sample < t.ranges@[i].start_sample);
            if i > at + 1 {
                assert(t.ranges@[at + 1].end_sample < t.ranges@[i].start_sample);
            }
        }
    }
}

/// The reported progress never falls while blocks are accepted, and it stays below 100 percent.
pub proof fn law_progress_rises(done: usize, more: usize, total: usize)
    requires
        done <= more <= total,
        total > 0,
    ensures
        Progress::Started.at_most(Progress::Samples { done, total }),
        (Progress::Samples { done, total }).at_most(Progress::Samples { done: more, total }),
        (Progress::Samples { done: more, total }).at_most(Progress::Finishing),
        Progress::Finishing.at_most(Progress::Finished),
        !Progress::Finished.at_most(Progress::Samples { done: more, total }),
{
    let (a, b) = (Progress::Samples { done, total }).percentage();
    let (c, d) = (Progress::Samples { done: more, total }).percentage();
    assert(0 * b <= a * 1 && a * 1 <= 99 * b && c * 1 <= 99 * d && 100 * d > c * 1)
        by (nonlinear_arith)
        requires
            0 <= a <= 99 * b,
            0 <= c <= 99 * d,
            b > 0,
            d > 0,
    ;
    assert((100 * done) * total <= (100 * more) * total) by (nonlinear_arith)
        requires
            done <= more,
            total > 0,
    ;
}

} // verus!
