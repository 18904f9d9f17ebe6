//! What each step of a job leads to.

use crate::models::{segment_views, Progress, TranscriptionResult, TranscriptionSegment};
use crate::services::block_laws::{
    appended, at_start, end_of_block, goes_on_at, lemma_appended, lemma_at_start, lemma_goes_on,
    lemma_samples_before, same_segment, samples_before, stands_at, whole,
};
use crate::services::ranges::{total_len, AudioRange};
use crate::services::run::{
    heard_step, optional_segments, segments_of, stretches, FoundSegment, RunAction, RunEvent,
    RunStage,
};
use crate::services::store_laws::{
    ends_job, has_come, has_failed, has_result, is_begun, lemma_begun, lemma_come, lemma_completed,
    lemma_failed, lemma_touches_nothing, touches_nothing,
};
use crate::services::transcriber::{joined_text, Recognized, Transcriber};
use crate::services::transcription::TranscriptionService;
use crate::services::vad::segments::SpeechSegment;
use vstd::prelude::*;
#[allow(unused_imports)]
use vstd::string::*;

verus! {

/// Whether a recognizer is made ready for a transcription from its start.
pub open spec fn makes_ready(
    r: (RunStage, RunAction),
    total: int,
    speech: Option<Seq<AudioRange>>,
    segments: Option<Seq<SpeechSegment>>,
) -> bool {
    &&& r.1 is Open
    &&& r.0 matches RunStage::Opening { transcriber, vad_segments }
    &&& at_start(transcriber, total, speech)
    &&& same_segments(vad_segments, segments)
}

/// Whether segments that may be missing are these.
pub open spec fn same_segments(
    a: Option<Vec<SpeechSegment>>,
    b: Option<Seq<SpeechSegment>>,
) -> bool {
    match (a, b) {
        (Some(x), Some(y)) => x@ == y,
        (None, None) => true,
        _ => false,
    }
}

/// What segments that may be missing are.
pub open spec fn told(segments: Option<Vec<SpeechSegment>>) -> Option<Seq<SpeechSegment>> {
    match segments {
        Some(segments) => Some(segments@),
        None => None,
    }
}

/// The stretch of a segment that was found. A bound that falls short of its sample lies in the one
/// before, if there is one.
pub open spec fn stretch_of(f: FoundSegment) -> AudioRange {
    AudioRange {
        start_sample: if f.start_short && f.segment.start >= 1 {
            (f.segment.start - 1) as usize
        } else {
            f.segment.start
        },
        end_sample: if f.end_short && f.segment.end >= 1 {
            (f.segment.end - 1) as usize
        } else {
            f.segment.end
        },
    }
}

/// Whether the next block is recognized: from where the transcription stands, to the end of its
/// range or for 480000 samples.
pub open spec fn hears(
    r: (RunStage, RunAction),
    t: Transcriber,
    segments: Option<Seq<SpeechSegment>>,
) -> bool {
    &&& r.0 matches RunStage::Recognizing { transcriber, vad_segments }
    &&& transcriber == t
    &&& same_segments(vad_segments, segments)
    &&& r.1 matches RunAction::Recognize(block)
    &&& block.start_sample == t.cursor
    &&& block.end_sample == end_of_block(t)
}

/// Whether a result with these segments is stored.
pub open spec fn stores_result(
    r: (RunStage, RunAction),
    segments: Option<Seq<SpeechSegment>>,
) -> bool {
    &&& r.1 is Store
    &&& r.0 matches RunStage::Storing { result }
    &&& same_segments(result.vad_segments, segments)
    &&& result.full_text@ == joined_text(
        result.segments@.map_values(|segment: TranscriptionSegment| segment@),
    )
}

/// The result that is being stored.
pub open spec fn result_at(stage: RunStage) -> TranscriptionResult {
    stage->result
}

/// A job is begun with a search for speech where the service does that, and otherwise with all of
/// the audio.
pub proof fn law_job_begins(
    service: &mut TranscriptionService,
    filename: &str,
    total_samples: usize,
    r: (RunStage, RunAction),
)
    requires
        call_ensures(
            TranscriptionService::start_transcription,
            (service, filename, total_samples),
            r,
        ),
    ensures
        is_begun(*old(service), *final(service), filename@),
        if old(service).vad_service is Some {
            r.0 == (RunStage::Detecting { total_samples }) && r.1 is Detect
        } else {
            makes_ready(r, total_samples as int, None, None)
        },
{
    lemma_begun(*old(service), *final(service), filename@);
    if let RunStage::Opening { transcriber, .. } = r.0 {
        lemma_at_start(transcriber, total_samples, None);
    }
}

/// What was found is what is transcribed and told: just the stretches of the segments that were
/// found, or all of the audio where none of them lies in it.
pub proof fn law_found_speech_is_transcribed(
    service: &mut TranscriptionService,
    filename: &str,
    total_samples: usize,
    found: Vec<FoundSegment>,
    r: (RunStage, RunAction),
)
    requires
        call_ensures(
            TranscriptionService::transcribe,
            (
                service,
                filename,
                RunStage::Detecting { total_samples },
                RunEvent::Detected { found },
            ),
            r,
        ),
    ensures
        touches_nothing(*old(service), *final(service)),
        makes_ready(
            r,
            total_samples as int,
            Some(Seq::new(found@.len(), |i: int| stretch_of(found@[i]))),
            Some(Seq::new(found@.len(), |i: int| found@[i].segment)),
        ),
{
    lemma_touches_nothing(*old(service), *final(service));
    assert(stretches(found@) =~= Seq::new(found@.len(), |i: int| stretch_of(found@[i])));
    assert(segments_of(found@) =~= Seq::new(found@.len(), |i: int| found@[i].segment));
    if let RunStage::Opening { transcriber, .. } = r.0 {
        lemma_at_start(transcriber, total_samples, Some(stretches(found@)));
    }
}

/// Where the search for speech failed, all of the audio is transcribed, and no speech is told.
pub proof fn law_failed_search_is_no_failure(
    service: &mut TranscriptionService,
    filename: &str,
    total_samples: usize,
    r: (RunStage, RunAction),
)
    requires
        call_ensures(
            TranscriptionService::transcribe,
            (
                service,
                filename,
                RunStage::Detecting { total_samples },
                RunEvent::DetectionFailed,
            ),
            r,
        ),
    ensures
        touches_nothing(*old(service), *final(service)),
        makes_ready(r, total_samples as int, None, None),
{
    lemma_touches_nothing(*old(service), *final(service));
    if let RunStage::Opening { transcriber, .. } = r.0 {
        lemma_at_start(transcriber, total_samples, None);
    }
}

/// With the recognizer ready, the first block is recognized, or, where there is none, the result
/// is stored.
pub proof fn law_ready_recognizer_hears(
    service: &mut TranscriptionService,
    filename: &str,
    transcriber: Transcriber,
    vad_segments: Option<Vec<SpeechSegment>>,
    r: (RunStage, RunAction),
)
    requires
        call_ensures(
            TranscriptionService::transcribe,
            (
                service,
                filename,
                RunStage::Opening { transcriber, vad_segments },
                RunEvent::Opened,
            ),
            r,
        ),
    ensures
        if transcriber.index < transcriber.ranges@.len() {
            &&& touches_nothing(*old(service), *final(service))
            &&& hears(r, transcriber, told(vad_segments))
        } else {
            &&& has_come(*old(service), *final(service), filename@, Progress::Finishing)
            &&& stores_result(r, told(vad_segments))
            &&& result_at(r.0).segments@.len() == transcriber.segments@.len()
            &&& forall|i: int|
                0 <= i < transcriber.segments@.len() ==> same_segment(
                    #[trigger] result_at(r.0).segments@[i],
                    transcriber.segments@[i],
                )
        },
{
    if transcriber.index < transcriber.ranges@.len() {
        lemma_touches_nothing(*old(service), *final(service));
    } else {
        lemma_come(*old(service), *final(service), filename@, Progress::Finishing);
        let segments = result_at(r.0).segments@;
        let views = segment_views(segments);
        assert(views.len() == segments.len());
        assert(transcriber.heard_segments().len() == transcriber.segments@.len());
        assert forall|i: int| 0 <= i < transcriber.segments@.len() implies same_segment(
            #[trigger] segments[i],
            transcriber.segments@[i],
        ) by {
            assert(views[i] == segments[i]@);
            assert(transcriber.heard_segments()[i] == transcriber.segments@[i]@);
        }
    }
}

/// Whether the whole segments of a block are appended to those of `t`, and the work goes on after
/// the last of them, at `next`.
pub open spec fn takes_block(
    t: Transcriber,
    heard: Seq<Recognized>,
    after: Seq<TranscriptionSegment>,
    next: Transcriber,
    at: int,
) -> bool {
    let kept = whole(end_of_block(t) - t.cursor, heard);
    &&& appended(t.segments@, after, t.cursor as int, kept)
    &&& goes_on_at(t, kept, at)
    &&& stands_at(t, next, at)
}

/// Whether a block takes the job on to `next`: to its next block, with the samples that are done
/// as the progress, or, after the last range, to the result.
pub open spec fn takes_on(
    before: TranscriptionService,
    after: TranscriptionService,
    name: Seq<char>,
    t: Transcriber,
    segments: Option<Seq<SpeechSegment>>,
    heard: Seq<Recognized>,
    r: (RunStage, RunAction),
    next: Transcriber,
) -> bool {
    if next.index < next.ranges@.len() {
        &&& hears(r, next, segments)
        &&& exists|at: int| #[trigger] takes_block(t, heard, next.segments@, next, at)
        &&& exists|done: usize, total: usize|
            done == samples_before(next) && total == total_len(t.ranges@) && #[trigger] has_come(
                before,
                after,
                name,
                Progress::Samples { done, total },
            )
    } else {
        &&& stores_result(r, segments)
        &&& exists|at: int| #[trigger]
            takes_block(t, heard, result_at(r.0).segments@, next, at)
        &&& has_come(before, after, name, Progress::Finishing)
    }
}

/// What was heard in a block is appended to what was heard before, and the work goes on after it:
/// with the next block and the samples that are done as the progress, or, after the last range,
/// with the result.
pub proof fn law_heard_block_is_taken(
    service: &mut TranscriptionService,
    filename: &str,
    transcriber: Transcriber,
    vad_segments: Option<Vec<SpeechSegment>>,
    segments: Vec<Recognized>,
    r: (RunStage, RunAction),
)
    requires
        transcriber.wf(),
        transcriber.index < transcriber.ranges@.len(),
        call_ensures(
            TranscriptionService::transcribe,
            (
                service,
                filename,
                RunStage::Recognizing { transcriber, vad_segments },
                RunEvent::Heard { segments },
            ),
            r,
        ),
    ensures
        exists|next: Transcriber| #[trigger]
            takes_on(
                *old(service),
                *final(service),
                filename@,
                transcriber,
                told(vad_segments),
                segments@,
                r,
                next,
            ),
{
    let next = choose|next: Transcriber|
        heard_step(
            old(service)@,
            filename@,
            transcriber,
            optional_segments(vad_segments),
            segments@,
            r,
            final(service)@,
            next,
        );
    let at = lemma_goes_on(transcriber, segments@, next);
    lemma_samples_before(next);
    lemma_samples_before(transcriber);
    if next.index < next.ranges@.len() {
        lemma_appended(transcriber, segments@, next, next.segments@);
        assert(takes_block(transcriber, segments@, next.segments@, next, at));
        lemma_come(
            *old(service),
            *final(service),
            filename@,
            Progress::Samples { done: next.done() as usize, total: next.total },
        );
    } else {
        let after = result_at(r.0).segments@;
        lemma_appended(transcriber, segments@, next, after);
        assert(takes_block(transcriber, segments@, after, next, at));
        assert(final(service)@ =~= old(service)@.progressed(filename@, Progress::Finishing));
        lemma_come(*old(service), *final(service), filename@, Progress::Finishing);
    }
    assert(takes_on(
        *old(service),
        *final(service),
        filename@,
        transcriber,
        told(vad_segments),
        segments@,
        r,
        next,
    ));
}

/// Whether the job is over, with the files of these jobs to be removed.
pub open spec fn is_over(
    service: TranscriptionService,
    after: TranscriptionService,
    name: Seq<char>,
    r: (RunStage, RunAction),
) -> bool {
    &&& r.0 is Over
    &&& r.1 matches RunAction::Remove(names)
    &&& ends_job(service, after, name, names@)
}

/// A job whose recognizer does not get ready, or does not hear a block, has failed, and tells why.
/// The files of the jobs that are forgotten for it are to be removed.
pub proof fn law_failed_steps_fail_the_job(
    service: &mut TranscriptionService,
    filename: &str,
    transcriber: Transcriber,
    vad_segments: Option<Vec<SpeechSegment>>,
    error: String,
    r: (RunStage, RunAction),
)
    ensures
        call_ensures(
            TranscriptionService::transcribe,
            (
                service,
                filename,
                RunStage::Opening { transcriber, vad_segments },
                RunEvent::OpenFailed { error },
            ),
            r,
        ) ==> {
            &&& is_over(*old(service), *final(service), filename@, r)
            &&& has_failed(
                *old(service),
                *final(service),
                filename@,
                "Failed to create state: "@ + error@,
            )
        },
        call_ensures(
            TranscriptionService::transcribe,
            (
                service,
                filename,
                RunStage::Recognizing { transcriber, vad_segments },
                RunEvent::HearingFailed { error },
            ),
            r,
        ) ==> {
            &&& is_over(*old(service), *final(service), filename@, r)
            &&& has_failed(
                *old(service),
                *final(service),
                filename@,
                "Transcription failed: "@ + error@,
            )
        },
{
    if call_ensures(
        TranscriptionService::transcribe,
        (
            service,
            filename,
            RunStage::Opening { transcriber, vad_segments },
            RunEvent::OpenFailed { error },
        ),
        r,
    ) {
        lemma_failed(
            *old(service),
            *final(service),
            filename@,
            "Failed to create state: "@ + error@,
            r.1->Remove_0@,
        );
    }
    if call_ensures(
        TranscriptionService::transcribe,
        (
            service,
            filename,
            RunStage::Recognizing { transcriber, vad_segments },
            RunEvent::HearingFailed { error },
        ),
        r,
    ) {
        lemma_failed(
            *old(service),
            *final(service),
            filename@,
            "Transcription failed: "@ + error@,
            r.1->Remove_0@,
        );
    }
}

/// A job whose result is stored is completed with that very result. The files of the jobs that are
/// forgotten for it are to be removed.
pub proof fn law_stored_result_completes_the_job(
    service: &mut TranscriptionService,
    filename: &str,
    result: TranscriptionResult,
    r: (RunStage, RunAction),
)
    requires
        call_ensures(
            TranscriptionService::transcribe,
            (service, filename, RunStage::Storing { result }, RunEvent::Stored),
            r,
        ),
    ensures
        is_over(*old(service), *final(service), filename@, r),
        has_result(*old(service), *final(service), filename@, result),
{
    lemma_completed(*old(service), *final(service), filename@, result, r.1->Remove_0@);
}

} // verus!
