//! What holds of a transcription from its first block to its last.

use crate::models::SegmentView;
use crate::services::ranges::{covered, wanted, AudioRange};
use crate::services::transcriber::{
    block_segments, law_nothing_is_skipped, Recognized, Transcriber,
};
use vstd::prelude::*;

verus! {

/// Whether `walk` are the points that a transcription passes through, where `heard` is what was
/// recognized in the block at each of them but the last.
pub open spec fn is_walk(walk: Seq<Transcriber>, heard: Seq<Seq<Recognized>>) -> bool {
    &&& walk.len() == heard.len() + 1
    &&& forall|i: int| 0 <= i < walk.len() ==> (#[trigger] walk[i]).wf()
    &&& forall|i: int| 0 <= i < heard.len() ==> !(#[trigger] walk[i]).is_done()
    &&& forall|i: int| 0 <= i < heard.len() ==> walk[i].leads_to(#[trigger] heard[i], walk[i + 1])
}

/// Whether sample `p` is in the block at this point.
pub open spec fn in_block(t: Transcriber, p: int) -> bool {
    t.cursor <= p < t.block_end()
}

/// What is kept of the blocks of a walk, in order.
pub open spec fn kept_segments(walk: Seq<Transcriber>, heard: Seq<Seq<Recognized>>) -> Seq<
    SegmentView,
>
    decreases heard.len(),
{
    if heard.len() == 0 {
        seq![]
    } else {
        kept_segments(walk.drop_last(), heard.drop_last()) + block_segments(
            walk[heard.len() - 1].cursor as int,
            walk[heard.len() - 1].block_end(),
            heard.last(),
        )
    }
}

/// Every sample that is wanted is part of a block by the time a transcription is done.
pub proof fn law_everything_wanted_is_heard(
    total: usize,
    speech: Option<Seq<AudioRange>>,
    walk: Seq<Transcriber>,
    heard: Seq<Seq<Recognized>>,
    p: int,
)
    requires
        is_walk(walk, heard),
        walk[0].is_start_of(total, speech),
        walk.last().is_done(),
        wanted(total, speech, p),
    ensures
        exists|i: int| 0 <= i < heard.len() && in_block(#[trigger] walk[i], p),
{
    assert(walk[0].pending(p));
    lemma_pending_or_heard(walk, heard, p);
}

/// Nothing but what is wanted is part of a block.
pub proof fn law_only_what_is_wanted_is_heard(
    total: usize,
    speech: Option<Seq<AudioRange>>,
    walk: Seq<Transcriber>,
    heard: Seq<Seq<Recognized>>,
    i: int,
    p: int,
)
    requires
        is_walk(walk, heard),
        walk[0].is_start_of(total, speech),
        0 <= i < heard.len(),
        in_block(walk[i], p),
    ensures
        wanted(total, speech, p),
{
    lemma_ranges_stay(walk, heard, i);
    let t = walk[i];
    assert(t.ranges@[t.index as int].holds(p));
    assert(covered(walk[0].ranges@, p));
}

/// The segments of a transcription are what is kept of its blocks, in the order of the blocks.
pub proof fn law_segments_are_kept_in_order(
    total: usize,
    speech: Option<Seq<AudioRange>>,
    walk: Seq<Transcriber>,
    heard: Seq<Seq<Recognized>>,
)
    requires
        is_walk(walk, heard),
        walk[0].is_start_of(total, speech),
    ensures
        walk.last().heard_segments() == kept_segments(walk, heard),
    decreases heard.len(),
{
    if heard.len() == 0 {
        assert(walk.last().heard_segments() =~= kept_segments(walk, heard));
    } else {
        lemma_shorter_walk(walk, heard);
        let n = heard.len() - 1;
        assert(walk[n].leads_to(heard[n], walk[n + 1]));
        law_segments_are_kept_in_order(total, speech, walk.drop_last(), heard.drop_last());
    }
}

proof fn lemma_shorter_walk(walk: Seq<Transcriber>, heard: Seq<Seq<Recognized>>)
    requires
        is_walk(walk, heard),
        heard.len() > 0,
    ensures
        is_walk(walk.drop_last(), heard.drop_last()),
        walk.drop_last().last() == walk[heard.len() - 1],
{
    let shorter = walk.drop_last();
    let before = heard.drop_last();
    assert forall|i: int| 0 <= i < before.len() implies shorter[i].leads_to(
        #[trigger] before[i],
        shorter[i + 1],
    ) by {
        assert(before[i] == heard[i]);
    }
}

proof fn lemma_pending_or_heard(walk: Seq<Transcriber>, heard: Seq<Seq<Recognized>>, p: int)
    requires
        is_walk(walk, heard),
        walk[0].pending(p),
    ensures
        walk.last().pending(p) || exists|i: int|
            0 <= i < heard.len() && in_block(#[trigger] walk[i], p),
    decreases heard.len(),
{
    if heard.len() > 0 {
        lemma_shorter_walk(walk, heard);
        let shorter = walk.drop_last();
        let n = heard.len() - 1;
        lemma_pending_or_heard(shorter, heard.drop_last(), p);
        if shorter.last().pending(p) {
            assert(walk[n].leads_to(heard[n], walk[n + 1]));
            if !in_block(walk[n], p) {
                law_nothing_is_skipped(walk[n], heard[n], walk[n + 1]);
            }
        } else {
            let i = choose|i: int|
                0 <= i < heard.drop_last().len() && in_block(#[trigger] shorter[i], p);
            assert(in_block(walk[i], p));
        }
    }
}

proof fn lemma_ranges_stay(walk: Seq<Transcriber>, heard: Seq<Seq<Recognized>>, i: int)
    requires
        is_walk(walk, heard),
        0 <= i < walk.len(),
    ensures
        walk[i].ranges == walk[0].ranges,
    decreases i,
{
    if i > 0 {
        lemma_ranges_stay(walk, heard, i - 1);
        assert(walk[i - 1].leads_to(heard[i - 1], walk[i - 1 + 1]));
    }
}

} // verus!
