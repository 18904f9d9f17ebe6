//! What holds of a job over the whole life of a server.

use crate::handlers::upload::{
    can_happen, upload_step, UploadAction, UploadEvent, UploadStage,
};
use crate::models::{law_progress_is_ordered, JobView, Progress, ResultView, TranscriptionStatus};
use crate::services::job_laws::{
    law_ending_leaves_other_jobs, law_open_jobs_are_kept, law_starting_keeps_consistency,
};
use crate::services::run::{begins, run_can, run_step, run_wf, RunAction, RunEvent, RunStage};
use crate::services::run_laws::{
    law_run_keeps_consistency, law_run_progress_never_falls, shows,
};
use crate::services::transcription::ServiceView;
use vstd::prelude::*;

verus! {

/// The jobs of a server, and how far those have come that are being carried out.
pub struct ServerView {
    pub service: ServiceView,
    pub runs: Map<Seq<char>, RunStage>,
}

/// Something that happens on a server.
#[allow(inconsistent_fields)]
pub enum ServerStep {
    /// An upload goes one event further.
    Upload {
        max: usize,
        stage: UploadStage,
        event: UploadEvent,
        r: (UploadStage, UploadAction),
    },
    /// A job is started.
    Begin { name: Seq<char>, total_samples: usize, detects: bool, r: (RunStage, RunAction) },
    /// A job goes one event further.
    Run { name: Seq<char>, event: RunEvent, r: (RunStage, RunAction) },
}

impl ServerView {
    /// A server that has just come up.
    pub open spec fn fresh() -> ServerView {
        ServerView { service: ServiceView::empty(), runs: Map::empty() }
    }

    /// Whether a step leads from here to `after`. A job is started once, after it was created.
    pub open spec fn leads_to(self, step: ServerStep, after: ServerView) -> bool {
        match step {
            ServerStep::Upload { max, stage, event, r } => {
                &&& can_happen(stage, event)
                &&& upload_step(self.service, max, stage, event, r, after.service)
                &&& after.runs == self.runs
            },
            ServerStep::Begin { name, total_samples, detects, r } => {
                &&& self.service.jobs.contains_key(name)
                &&& self.service.jobs[name].status is Pending
                &&& begins(total_samples, detects, r)
                &&& run_wf(r.0)
                &&& after.service == self.service.started(name)
                &&& after.runs == self.runs.insert(name, r.0)
            },
            ServerStep::Run { name, event, r } => {
                &&& self.runs.contains_key(name)
                &&& run_can(self.runs[name], event)
                &&& run_step(self.service, name, self.runs[name], event, r, after.service)
                &&& run_wf(r.0)
                &&& after.runs == if r.0 is Over {
                    self.runs.remove(name)
                } else {
                    self.runs.insert(name, r.0)
                }
            },
        }
    }

    /// What every step keeps: the jobs are consistent, the jobs that are being processed are
    /// those that are being carried out, and each shows a progress that fits its stage.
    pub open spec fn sound(self) -> bool {
        &&& self.service.consistent()
        &&& forall|name: Seq<char>| #[trigger]
            self.runs.contains_key(name) ==> {
                &&& self.service.jobs.contains_key(name)
                &&& self.service.jobs[name].status is Processing
                &&& run_wf(self.runs[name])
                &&& shows(self.runs[name], self.service.jobs[name].progress)
            }
        &&& forall|name: Seq<char>| #[trigger]
            self.service.jobs.contains_key(name) ==> {
                &&& self.service.jobs[name].status is Pending
                    ==> self.service.jobs[name].progress is Started
                &&& self.service.jobs[name].status is Processing ==> self.runs.contains_key(name)
            }
    }
}

/// Whether a step creates the job of this name.
pub open spec fn creates(step: ServerStep, name: Seq<char>) -> bool {
    &&& step matches ServerStep::Upload { max, stage, event, r }
    &&& r.1 matches UploadAction::Start { filename, reply }
    &&& filename@ == name
}

/// The order of the statuses of a job.
pub open spec fn status_rank(status: TranscriptionStatus) -> int {
    match status {
        TranscriptionStatus::Pending => 0,
        TranscriptionStatus::Processing => 1,
        TranscriptionStatus::Completed => 2,
        TranscriptionStatus::Failed => 2,
    }
}

/// Whether a job that was seen as `earlier` may be seen as `later` afterwards: the status goes
/// from pending to processing to completed or failed, the progress does not fall, and nothing
/// happens to a job that is over.
pub open spec fn may_follow(earlier: JobView, later: JobView) -> bool {
    &&& status_rank(earlier.status) <= status_rank(later.status)
    &&& earlier.progress.at_most(later.progress)
    &&& earlier.status.is_final() ==> later == earlier
}

/// Whether `trace` is the history of a server through these steps.
pub open spec fn is_history(trace: Seq<ServerView>, steps: Seq<ServerStep>) -> bool {
    &&& trace.len() == steps.len() + 1
    &&& trace[0] == ServerView::fresh()
    &&& forall|k: int| 0 <= k < steps.len() ==> trace[k].leads_to(#[trigger] steps[k], trace[k + 1])
}

/// However often a job is looked at between its creation and the next job of that name: its
/// status only moves forward, its progress never falls, it shows 100 percent just where it is
/// completed and an error just where it failed, and once it is over it stays as it is.
pub proof fn law_job_only_moves_forward(
    trace: Seq<ServerView>,
    steps: Seq<ServerStep>,
    name: Seq<char>,
    i: int,
    j: int,
)
    requires
        is_history(trace, steps),
        0 <= i <= j < trace.len(),
        trace[i].service.jobs.contains_key(name),
        trace[j].service.jobs.contains_key(name),
        forall|k: int| i <= k < j ==> !creates(#[trigger] steps[k], name),
    ensures
        may_follow(trace[i].service.jobs[name], trace[j].service.jobs[name]),
        Progress::Started.at_most(trace[i].service.jobs[name].progress),
        trace[j].service.jobs[name].progress.at_most(Progress::Finished),
        trace[j].service.jobs[name].progress is Finished <==> trace[j].service.jobs[name].status
            is Completed,
        trace[j].service.jobs[name].error is Some <==> trace[j].service.jobs[name].status is Failed,
    decreases j - i,
{
    law_history_is_sound(trace, steps, j);
    let first = trace[i].service.jobs[name];
    let last = trace[j].service.jobs[name];
    law_progress_is_ordered(first.progress, last.progress, last.progress);
    law_progress_is_ordered(last.progress, last.progress, last.progress);
    if i < j {
        law_history_is_sound(trace, steps, j - 1);
        assert(trace[j - 1].leads_to(steps[j - 1], trace[j - 1 + 1]));
        lemma_step_moves_forward(trace[j - 1], steps[j - 1], trace[j], name);
        law_job_only_moves_forward(trace, steps, name, i, j - 1);
        let middle = trace[j - 1].service.jobs[name];
        law_progress_is_ordered(first.progress, middle.progress, last.progress);
    }
}

/// Whatever happens on a server, it stays sound.
pub proof fn law_history_is_sound(trace: Seq<ServerView>, steps: Seq<ServerStep>, i: int)
    requires
        is_history(trace, steps),
        0 <= i < trace.len(),
    ensures
        trace[i].sound(),
    decreases i,
{
    if i > 0 {
        law_history_is_sound(trace, steps, i - 1);
        assert(trace[i - 1].leads_to(steps[i - 1], trace[i - 1 + 1]));
        lemma_step_keeps_soundness(trace[i - 1], steps[i - 1], trace[i]);
    }
}

/// A step of one job leaves the others alone, but for those that are over and forgotten.
proof fn lemma_run_leaves_others(
    before: ServerView,
    name: Seq<char>,
    event: RunEvent,
    r: (RunStage, RunAction),
    after: ServerView,
    other: Seq<char>,
)
    requires
        before.sound(),
        before.leads_to(ServerStep::Run { name, event, r }, after),
        other != name,
    ensures
        after.service.jobs.contains_key(other) ==> before.service.jobs.contains_key(other)
            && after.service.jobs[other] == before.service.jobs[other],
        before.service.is_open(other) ==> after.service.jobs.contains_key(other),
{
    let s = before.service;
    assert(s.jobs[name].status is Processing);
    match (before.runs[name], event) {
        (RunStage::Opening { .. }, RunEvent::OpenFailed { error }) => {
            let text = "Failed to create state: "@ + error@;
            lemma_end_leaves_others(s, name, other, arbitrary(), text);
        },
        (RunStage::Recognizing { .. }, RunEvent::HearingFailed { error }) => {
            let text = "Transcription failed: "@ + error@;
            lemma_end_leaves_others(s, name, other, arbitrary(), text);
        },
        (RunStage::Storing { result }, RunEvent::Stored) => {
            lemma_end_leaves_others(s, name, other, result@, arbitrary());
        },
        _ => {},
    }
}

proof fn lemma_end_leaves_others(
    s: ServiceView,
    name: Seq<char>,
    other: Seq<char>,
    result: ResultView,
    error: Seq<char>,
)
    requires
        s.consistent(),
        s.is_open(name),
        other != name,
    ensures
        ({
            let completed = s.completed(name, result);
            let failed = s.failed(name, error);
            &&& completed.jobs.contains_key(other) ==> s.jobs.contains_key(other)
                && completed.jobs[other] == s.jobs[other]
            &&& failed.jobs.contains_key(other) ==> s.jobs.contains_key(other)
                && failed.jobs[other] == s.jobs[other]
            &&& s.is_open(other) ==> completed.jobs.contains_key(other)
                && failed.jobs.contains_key(other)
        }),
{
    law_ending_leaves_other_jobs(s, name, other, result, error);
    if s.is_open(other) {
        law_open_jobs_are_kept(s, name, other, result, error);
    }
}

proof fn lemma_step_keeps_soundness(before: ServerView, step: ServerStep, after: ServerView)
    requires
        before.sound(),
        before.leads_to(step, after),
    ensures
        after.sound(),
{
    match step {
        ServerStep::Upload { max, stage, event, r } => {},
        ServerStep::Begin { name, total_samples, detects, r } => {
            law_starting_keeps_consistency(before.service, name);
            assert forall|x: Seq<char>| #[trigger]
                after.service.jobs.contains_key(x) implies before.service.jobs.contains_key(x) by {}
        },
        ServerStep::Run { name, event, r } => {
            let stage = before.runs[name];
            law_run_keeps_consistency(before.service, name, stage, event, r, after.service);
            law_run_progress_never_falls(before.service, name, stage, event, r, after.service);
            assert forall|x: Seq<char>| #[trigger] after.runs.contains_key(x) implies {
                &&& after.service.jobs.contains_key(x)
                &&& after.service.jobs[x].status is Processing
                &&& run_wf(after.runs[x])
                &&& shows(after.runs[x], after.service.jobs[x].progress)
            } by {
                if x != name {
                    assert(before.runs.contains_key(x));
                    lemma_run_leaves_others(before, name, event, r, after, x);
                }
            }
            assert forall|x: Seq<char>| #[trigger] after.service.jobs.contains_key(x) implies {
                &&& after.service.jobs[x].status is Pending
                    ==> after.service.jobs[x].progress is Started
                &&& after.service.jobs[x].status is Processing ==> after.runs.contains_key(x)
            } by {
                if x != name {
                    lemma_run_leaves_others(before, name, event, r, after, x);
                }
            }
        },
    }
}

proof fn lemma_step_moves_forward(
    before: ServerView,
    step: ServerStep,
    after: ServerView,
    name: Seq<char>,
)
    requires
        before.sound(),
        before.leads_to(step, after),
        after.service.jobs.contains_key(name),
        !creates(step, name),
    ensures
        before.service.jobs.contains_key(name),
        may_follow(before.service.jobs[name], after.service.jobs[name]),
{
    let seen = before.service.jobs[name].progress;
    law_progress_is_ordered(seen, seen, seen);
    match step {
        ServerStep::Upload { max, stage, event, r } => {},
        ServerStep::Begin { name: begun, total_samples, detects, r } => {},
        ServerStep::Run { name: running, event, r } => {
            if name == running {
                let stage = before.runs[name];
                law_run_keeps_consistency(before.service, name, stage, event, r, after.service);
                law_run_progress_never_falls(before.service, name, stage, event, r, after.service);
            } else {
                lemma_run_leaves_others(before, running, event, r, after, name);
            }
        },
    }
}

} // verus!
