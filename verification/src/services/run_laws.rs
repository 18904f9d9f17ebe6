//! What holds of a job while it is carried out.

use crate::models::{law_progress_is_ordered, Progress};
use crate::services::job_laws::{
    law_completing_keeps_consistency, law_failing_keeps_consistency, law_progress_keeps_consistency,
};
use crate::services::run::{
    heard_step, optional_segments, run_can, run_step, run_wf, RunAction, RunEvent, RunStage,
};
use crate::services::transcriber::{all_proper, law_progress_rises, Transcriber};
use crate::services::transcription::ServiceView;
use vstd::prelude::*;

verus! {

/// Whether a job at this stage shows this progress: none before the first block, then the samples
/// that are done, and the last but one mark while the result is stored.
pub open spec fn shows(stage: RunStage, progress: Progress) -> bool {
    match stage {
        RunStage::Detecting { .. } => progress is Started,
        RunStage::Opening { .. } => progress is Started,
        RunStage::Recognizing { transcriber, .. } => {
            ||| progress is Started && transcriber.done() == 0
            ||| progress == (Progress::Samples {
                done: transcriber.done() as usize,
                total: transcriber.total,
            })
        },
        RunStage::Storing { .. } => progress is Finishing,
        RunStage::Over => true,
    }
}

/// How many kinds of stages are still to come.
pub open spec fn stages_left(stage: RunStage) -> int {
    match stage {
        RunStage::Detecting { .. } => 4,
        RunStage::Opening { .. } => 3,
        RunStage::Recognizing { .. } => 2,
        RunStage::Storing { .. } => 1,
        RunStage::Over => 0,
    }
}

/// How many samples are still to be recognized.
pub open spec fn samples_left(stage: RunStage) -> int {
    match stage {
        RunStage::Recognizing { transcriber, .. } => transcriber.total - transcriber.done(),
        _ => 0,
    }
}

/// A step of an open job keeps the jobs consistent. The job stays open, with its status, until
/// it is over, and then it has either completed or failed.
pub proof fn law_run_keeps_consistency(
    before: ServiceView,
    name: Seq<char>,
    stage: RunStage,
    event: RunEvent,
    r: (RunStage, RunAction),
    after: ServiceView,
)
    requires
        before.consistent(),
        before.is_open(name),
        run_wf(stage),
        run_can(stage, event),
        run_step(before, name, stage, event, r, after),
    ensures
        after.consistent(),
        after.jobs.contains_key(name),
        if r.0 is Over {
            after.jobs[name].status.is_final()
        } else {
            after.jobs[name].status == before.jobs[name].status
        },
{
    match (stage, event) {
        (RunStage::Opening { transcriber, vad_segments }, RunEvent::Opened) => {
            law_progress_keeps_consistency(before, name, Progress::Finishing);
        },
        (RunStage::Opening { .. }, RunEvent::OpenFailed { error }) => {
            law_failing_keeps_consistency(before, name, "Failed to create state: "@ + error@);
        },
        (RunStage::Recognizing { transcriber, vad_segments }, RunEvent::Heard { segments }) => {
            let next = choose|next: Transcriber|
                heard_step(
                    before,
                    name,
                    transcriber,
                    optional_segments(vad_segments),
                    segments@,
                    r,
                    after,
                    next,
                );
            let progress = Progress::Samples { done: next.done() as usize, total: next.total };
            law_progress_keeps_consistency(before, name, progress);
            law_progress_keeps_consistency(
                before.progressed(name, progress),
                name,
                Progress::Finishing,
            );
        },
        (RunStage::Recognizing { .. }, RunEvent::HearingFailed { error }) => {
            law_failing_keeps_consistency(before, name, "Transcription failed: "@ + error@);
        },
        (RunStage::Storing { result }, RunEvent::Stored) => {
            law_completing_keeps_consistency(before, name, result@);
        },
        _ => {},
    }
}

/// The progress that a job shows never falls while it is carried out, and it fits the stage that
/// the job has come to.
pub proof fn law_run_progress_never_falls(
    before: ServiceView,
    name: Seq<char>,
    stage: RunStage,
    event: RunEvent,
    r: (RunStage, RunAction),
    after: ServiceView,
)
    requires
        before.consistent(),
        before.is_open(name),
        run_wf(stage),
        run_can(stage, event),
        shows(stage, before.jobs[name].progress),
        run_step(before, name, stage, event, r, after),
    ensures
        after.jobs.contains_key(name),
        before.jobs[name].progress.at_most(after.jobs[name].progress),
        shows(r.0, after.jobs[name].progress),
        r.0 is Over && after.jobs[name].status is Completed ==> after.jobs[name].progress
            is Finished,
{
    let shown = before.jobs[name].progress;
    law_progress_is_ordered(shown, shown, shown);
    match (stage, event) {
        (RunStage::Opening { .. }, RunEvent::OpenFailed { error }) => {
            law_failing_keeps_consistency(before, name, "Failed to create state: "@ + error@);
        },
        (RunStage::Recognizing { transcriber, vad_segments }, RunEvent::Heard { segments }) => {
            let next = choose|next: Transcriber|
                heard_step(
                    before,
                    name,
                    transcriber,
                    optional_segments(vad_segments),
                    segments@,
                    r,
                    after,
                    next,
                );
            law_progress_rises(
                transcriber.done() as usize,
                next.done() as usize,
                transcriber.total,
            );
            law_progress_rises(
                transcriber.done() as usize,
                transcriber.done() as usize,
                transcriber.total,
            );
        },
        (RunStage::Recognizing { .. }, RunEvent::HearingFailed { error }) => {
            law_failing_keeps_consistency(before, name, "Transcription failed: "@ + error@);
        },
        (RunStage::Storing { result }, RunEvent::Stored) => {
            law_completing_keeps_consistency(before, name, result@);
        },
        _ => {},
    }
}

/// A job comes to an end: each step leads to a later kind of stage, or to fewer samples left.
pub proof fn law_run_comes_to_an_end(
    before: ServiceView,
    name: Seq<char>,
    stage: RunStage,
    event: RunEvent,
    r: (RunStage, RunAction),
    after: ServiceView,
)
    requires
        run_wf(stage),
        run_can(stage, event),
        run_step(before, name, stage, event, r, after),
    ensures
        0 <= stages_left(r.0) < stages_left(stage) || (stages_left(r.0) == stages_left(stage) && 0
            <= samples_left(r.0) < samples_left(stage)),
{
}

/// A job is completed just by its stored result: what is recorded is that result, all of whose
/// segments are proper.
pub proof fn law_result_is_recorded(
    before: ServiceView,
    name: Seq<char>,
    stage: RunStage,
    event: RunEvent,
    r: (RunStage, RunAction),
    after: ServiceView,
)
    requires
        before.consistent(),
        before.is_open(name),
        run_wf(stage),
        run_can(stage, event),
        run_step(before, name, stage, event, r, after),
    ensures
        after.jobs[name].status is Completed <==> stage is Storing,
        stage matches RunStage::Storing { result } ==> after.results.contains_key(name)
            && after.results[name] == result@ && all_proper(after.results[name].segments),
        !(stage is Storing) ==> !after.results.contains_key(name),
{
    law_run_keeps_consistency(before, name, stage, event, r, after);
    match (stage, event) {
        (RunStage::Opening { .. }, RunEvent::OpenFailed { error }) => {
            law_failing_keeps_consistency(before, name, "Failed to create state: "@ + error@);
        },
        (RunStage::Recognizing { .. }, RunEvent::HearingFailed { error }) => {
            law_failing_keeps_consistency(before, name, "Transcription failed: "@ + error@);
        },
        (RunStage::Storing { result }, RunEvent::Stored) => {
            law_completing_keeps_consistency(before, name, result@);
        },
        _ => {},
    }
}

} // verus!
