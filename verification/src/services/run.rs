//! Carrying out a job, from the search for speech to the result.

use crate::models::{Progress, ResultView, TranscriptionResult};
use crate::services::ranges::AudioRange;
use crate::services::transcriber::{all_proper, joined_text, Recognized, Transcriber};
use crate::services::transcription::{ServiceView, TranscriptionService};
use crate::services::vad::segments::SpeechSegment;
use vstd::prelude::*;
#[allow(unused_imports)]
use vstd::string::*;

verus! {

/// How far a job has come.
pub enum RunStage {
    /// Speech is being searched for in so many samples.
    Detecting { total_samples: usize },
    /// The recognizer is being made ready.
    Opening { transcriber: Transcriber, vad_segments: Option<Vec<SpeechSegment>> },
    /// A block is being recognized.
    Recognizing { transcriber: Transcriber, vad_segments: Option<Vec<SpeechSegment>> },
    /// The result is being stored.
    Storing { result: TranscriptionResult },
    /// The job is over.
    Over,
}

/// What happened in a job.
pub enum RunEvent {
    /// Speech was searched for, and this was found.
    Detected { found: Vec<FoundSegment> },
    /// The search for speech failed.
    DetectionFailed,
    /// The recognizer is ready.
    Opened,
    /// The recognizer could not be made ready.
    OpenFailed { error: String },
    /// The block was recognized.
    Heard { segments: Vec<Recognized> },
    /// The block could not be recognized.
    HearingFailed { error: String },
    /// The result was stored, or could not be: the job goes on either way.
    Stored,
}

/// What is to be done next in a job.
pub enum RunAction {
    /// Search for speech.
    Detect,
    /// Make the recognizer ready.
    Open,
    /// Recognize this block.
    Recognize(AudioRange),
    /// Store the result.
    Store,
    /// Remove the files of these jobs.
    Remove(Vec<String>),
}

/// Segments that may be missing.
pub open spec fn optional_segments(segments: Option<Vec<SpeechSegment>>) -> Option<
    Seq<SpeechSegment>,
> {
    match segments {
        Some(segments) => Some(segments@),
        None => None,
    }
}

/// A segment that was found.
///
/// Its bounds are turned into seconds and back, as floating-point numbers, which are rounded. What
/// came of that is told along with the segment.
#[derive(Debug, Clone, Copy)]
pub struct FoundSegment {
    pub segment: SpeechSegment,
    /// Whether the start in seconds falls short of its sample, so that it lies in the one before.
    pub start_short: bool,
    /// Whether the end in seconds falls short of its sample, so that it lies in the one before.
    pub end_short: bool,
}

/// The sample that a bound in seconds lies in.
pub open spec fn bound_sample(exact: usize, short: bool) -> usize {
    if short && exact > 0 {
        (exact - 1) as usize
    } else {
        exact
    }
}

/// The segments that were found.
pub open spec fn segments_of(found: Seq<FoundSegment>) -> Seq<SpeechSegment> {
    found.map_values(|f: FoundSegment| f.segment)
}

/// The stretches of audio that were found.
pub open spec fn stretches(found: Seq<FoundSegment>) -> Seq<AudioRange> {
    found.map_values(
        |f: FoundSegment|
            AudioRange {
                start_sample: bound_sample(f.segment.start, f.start_short),
                end_sample: bound_sample(f.segment.end, f.end_short),
            },
    )
}

fn bound(exact: usize, short: bool) -> (r: usize)
    ensures
        r == bound_sample(exact, short),
{
    if short && exact > 0 {
        exact - 1
    } else {
        exact
    }
}

/// The segments that were found, and the stretches of audio that they stand for.
fn take_apart(found: &Vec<FoundSegment>) -> (r: (Vec<SpeechSegment>, Vec<AudioRange>))
    ensures
        r.0@ == segments_of(found@),
        r.1@ == stretches(found@),
{
    let mut segments: Vec<SpeechSegment> = Vec::new();
    let mut speech: Vec<AudioRange> = Vec::new();
    let mut i: usize = 0;
    while i < found.len()
        invariant
            i <= found@.len(),
            segments@ == segments_of(found@).take(i as int),
            speech@ == stretches(found@).take(i as int),
        decreases found.len() - i,
    {
        let f = found[i];
        segments.push(f.segment);
        speech.push(
            AudioRange {
                start_sample: bound(f.segment.start, f.start_short),
                end_sample: bound(f.segment.end, f.end_short),
            },
        );
        i = i + 1;
        assert(segments@ =~= segments_of(found@).take(i as int));
        assert(speech@ =~= stretches(found@).take(i as int));
    }
    assert(segments@ =~= segments_of(found@));
    assert(speech@ =~= stretches(found@));
    (segments, speech)
}

/// Whether this can happen at this stage.
pub open spec fn run_can(stage: RunStage, event: RunEvent) -> bool {
    match stage {
        RunStage::Detecting { .. } => event is Detected || event is DetectionFailed,
        RunStage::Opening { .. } => event is Opened || event is OpenFailed,
        RunStage::Recognizing { .. } => event is Heard || event is HearingFailed,
        RunStage::Storing { .. } => event is Stored,
        RunStage::Over => false,
    }
}

/// What every stage of a job keeps.
pub open spec fn run_wf(stage: RunStage) -> bool {
    match stage {
        RunStage::Opening { transcriber, .. } => transcriber.wf() && transcriber.done() == 0,
        RunStage::Recognizing { transcriber, .. } => transcriber.wf() && !transcriber.is_done(),
        RunStage::Storing { result } => all_proper(result@.segments),
        _ => true,
    }
}

/// Whether the job goes on with a transcription of `total_samples` samples.
pub open spec fn opens(
    total_samples: usize,
    segments: Option<Seq<SpeechSegment>>,
    speech: Option<Seq<AudioRange>>,
    r: (RunStage, RunAction),
) -> bool {
    &&& r.0 matches RunStage::Opening { transcriber, vad_segments }
    &&& r.1 is Open
    &&& transcriber.is_start_of(total_samples, speech)
    &&& optional_segments(vad_segments) == segments
}

/// Whether a job over so many samples begins with this: with a search for speech, if there is
/// one, and otherwise with all of the audio.
pub open spec fn begins(total_samples: usize, detects: bool, r: (RunStage, RunAction)) -> bool {
    if detects {
        &&& r.0 == (RunStage::Detecting { total_samples })
        &&& r.1 is Detect
    } else {
        opens(total_samples, None, None, r)
    }
}

/// Whether the job goes on at this point of a transcription: with its next block, or, where it is
/// done, with its result.
pub open spec fn goes_on(
    name: Seq<char>,
    transcriber: Transcriber,
    segments: Option<Seq<SpeechSegment>>,
    before: ServiceView,
    r: (RunStage, RunAction),
    after: ServiceView,
) -> bool {
    if transcriber.is_done() {
        &&& after == before.progressed(name, Progress::Finishing)
        &&& r.0 matches RunStage::Storing { result }
        &&& r.1 is Store
        &&& result@ == (ResultView {
            segments: transcriber.heard_segments(),
            full_text: joined_text(transcriber.heard_segments()),
            vad_segments: segments,
        })
    } else {
        &&& after == before
        &&& r.0 matches RunStage::Recognizing { transcriber: next, vad_segments }
        &&& r.1 matches RunAction::Recognize(block)
        &&& next == transcriber
        &&& optional_segments(vad_segments) == segments
        &&& block.start_sample == transcriber.cursor
        &&& block.end_sample == transcriber.block_end()
    }
}

/// Whether the job has ended, and the files of these jobs are to be removed.
pub open spec fn ends(r: (RunStage, RunAction), evicted: Seq<Seq<char>>) -> bool {
    &&& r.0 is Over
    &&& r.1 matches RunAction::Remove(names)
    &&& names@.map_values(|name: String| name@) == evicted
}

/// Whether a block with these segments leads from one point of the job to the next.
pub open spec fn heard_step(
    before: ServiceView,
    name: Seq<char>,
    transcriber: Transcriber,
    vad_segments: Option<Seq<SpeechSegment>>,
    heard: Seq<Recognized>,
    r: (RunStage, RunAction),
    after: ServiceView,
    next: Transcriber,
) -> bool {
    &&& next.wf()
    &&& transcriber.leads_to(heard, next)
    &&& transcriber.done() < next.done() <= next.total
    &&& next.is_done() ==> next.done() == next.total
    &&& goes_on(
        name,
        next,
        vad_segments,
        before.progressed(
            name,
            Progress::Samples { done: next.done() as usize, total: next.total },
        ),
        r,
        after,
    )
}

/// Whether `r` and the jobs `after` are what the event leads to at this stage.
pub open spec fn run_step(
    before: ServiceView,
    name: Seq<char>,
    stage: RunStage,
    event: RunEvent,
    r: (RunStage, RunAction),
    after: ServiceView,
) -> bool {
    match (stage, event) {
        (RunStage::Detecting { total_samples }, RunEvent::Detected { found }) => {
            &&& after == before
            &&& opens(total_samples, Some(segments_of(found@)), Some(stretches(found@)), r)
        },
        (RunStage::Detecting { total_samples }, RunEvent::DetectionFailed) => {
            &&& after == before
            &&& opens(total_samples, None, None, r)
        },
        (RunStage::Opening { transcriber, vad_segments }, RunEvent::Opened) => goes_on(
            name,
            transcriber,
            optional_segments(vad_segments),
            before,
            r,
            after,
        ),
        (RunStage::Opening { .. }, RunEvent::OpenFailed { error }) => {
            &&& after == before.failed(name, "Failed to create state: "@ + error@)
            &&& ends(r, before.evicted_by(name))
        },
        (
            RunStage::Recognizing { transcriber, vad_segments },
            RunEvent::Heard { segments },
        ) => exists|next: Transcriber|
            heard_step(
                before,
                name,
                transcriber,
                optional_segments(vad_segments),
                segments@,
                r,
                after,
                next,
            ),
        (RunStage::Recognizing { .. }, RunEvent::HearingFailed { error }) => {
            &&& after == before.failed(name, "Transcription failed: "@ + error@)
            &&& ends(r, before.evicted_by(name))
        },
        (RunStage::Storing { result }, RunEvent::Stored) => {
            &&& after == before.completed(name, result@)
            &&& ends(r, before.evicted_by(name))
        },
        _ => true,
    }
}

impl TranscriptionService {
    /// Starts on a job over `total_samples` samples: with a search for speech, if the service
    /// does that, and otherwise with all of the audio.
    pub fn start_transcription(&mut self, filename: &str, total_samples: usize) -> (r: (
        RunStage,
        RunAction,
    ))
        ensures
            final(self)@ == old(self)@.started(filename@),
            final(self).vad_service == old(self).vad_service,
            run_wf(r.0),
            begins(total_samples, old(self).vad_service is Some, r),
    {
        self.begin_job(filename);
        if self.vad_service.is_some() {
            (RunStage::Detecting { total_samples }, RunAction::Detect)
        } else {
            let transcriber = Transcriber::new(total_samples, None);
            (RunStage::Opening { transcriber, vad_segments: None }, RunAction::Open)
        }
    }

    /// Takes a job one event further, and tells what is to be done next.
    pub fn transcribe(&mut self, filename: &str, stage: RunStage, event: RunEvent) -> (r: (
        RunStage,
        RunAction,
    ))
        requires
            run_wf(stage),
            run_can(stage, event),
        ensures
            run_wf(r.0),
            run_step(old(self)@, filename@, stage, event, r, final(self)@),
            final(self).vad_service == old(self).vad_service,
    {
        let ghost before = self@;
        match (stage, event) {
            (RunStage::Detecting { total_samples }, RunEvent::Detected { found }) => {
                let (segments, speech) = take_apart(&found);
                let transcriber = Transcriber::new(total_samples, Some(&speech));
                (RunStage::Opening { transcriber, vad_segments: Some(segments) }, RunAction::Open)
            },
            (RunStage::Detecting { total_samples }, RunEvent::DetectionFailed) => {
                let transcriber = Transcriber::new(total_samples, None);
                (RunStage::Opening { transcriber, vad_segments: None }, RunAction::Open)
            },
            (RunStage::Opening { transcriber, vad_segments }, RunEvent::Opened) => self.go_on(
                filename,
                transcriber,
                vad_segments,
            ),
            (RunStage::Opening { .. }, RunEvent::OpenFailed { error }) => {
                let mut text = "Failed to create state: ".to_string();
                text.append(error.as_str());
                let evicted = self.fail_job(filename, text);
                (RunStage::Over, RunAction::Remove(evicted))
            },
            (
                RunStage::Recognizing { transcriber, vad_segments },
                RunEvent::Heard { segments },
            ) => {
                let mut next = transcriber;
                let progress = next.accept_block(&segments);
                self.update_job_progress(filename, progress);
                let r = self.go_on(filename, next, vad_segments);
                assert(heard_step(
                    before,
                    filename@,
                    transcriber,
                    optional_segments(vad_segments),
                    segments@,
                    r,
                    self@,
                    next,
                ));
                r
            },
            (RunStage::Recognizing { .. }, RunEvent::HearingFailed { error }) => {
                let mut text = "Transcription failed: ".to_string();
                text.append(error.as_str());
                let evicted = self.fail_job(filename, text);
                (RunStage::Over, RunAction::Remove(evicted))
            },
            (RunStage::Storing { result }, RunEvent::Stored) => {
                let evicted = self.complete_job(filename, result);
                (RunStage::Over, RunAction::Remove(evicted))
            },
            _ => (RunStage::Over, RunAction::Remove(Vec::new())),
        }
    }

    /// Goes on with the next block, or with the result.
    fn go_on(
        &mut self,
        filename: &str,
        transcriber: Transcriber,
        vad_segments: Option<Vec<SpeechSegment>>,
    ) -> (r: (RunStage, RunAction))
        requires
            transcriber.wf(),
        ensures
            run_wf(r.0),
            goes_on(
                filename@,
                transcriber,
                optional_segments(vad_segments),
                old(self)@,
                r,
                final(self)@,
            ),
            final(self).vad_service == old(self).vad_service,
    {
        match transcriber.next_block() {
            Some(block) => (
                RunStage::Recognizing { transcriber, vad_segments },
                RunAction::Recognize(block),
            ),
            None => {
                self.update_job_progress(filename, Progress::Finishing);
                let result = transcriber.finish(vad_segments);
                (RunStage::Storing { result }, RunAction::Store)
            },
        }
    }
}

} // verus!
