//! Handing out the result of a job.

use crate::handlers::reply::{
    refuse, refuse_with, Reply, BAD_REQUEST, INTERNAL_SERVER_ERROR, NOT_FOUND, OK,
};
use crate::handlers::{filename_problem, validate_filename};
use crate::models::{Progress, ResultView, TranscriptionResult, TranscriptionStatus};
use crate::services::transcription::{ServiceView, TranscriptionService};
use crate::text::trimmed;
use vstd::prelude::*;

verus! {

/// The answer to a request for a result.
#[derive(Debug)]
pub enum FinishReply {
    Refused(Reply),
    /// The job has no result, or not yet.
    NotCompleted { status: TranscriptionStatus, progress: Progress },
    Finished(TranscriptionResult),
}

impl FinishReply {
    /// The status code of the answer: asking too early is a bad request.
    pub fn status_code(&self) -> (r: u16)
        ensures
            r == match *self {
                FinishReply::Refused(reply) => reply.status,
                FinishReply::NotCompleted { .. } => BAD_REQUEST,
                FinishReply::Finished(_) => OK,
            },
    {
        match self {
            FinishReply::Refused(reply) => reply.status,
            FinishReply::NotCompleted { .. } => BAD_REQUEST,
            FinishReply::Finished(_) => OK,
        }
    }
}

/// Whether `r` is the answer to a request for the result of `filename`.
pub open spec fn finish_answer(
    s: ServiceView,
    filename: Option<Seq<char>>,
    r: FinishReply,
) -> bool {
    match filename {
        None => {
            &&& r matches FinishReply::Refused(reply)
            &&& reply.tells(BAD_REQUEST, "Missing 'filename' query parameter"@)
        },
        Some(raw) => {
            let name = trimmed(raw);
            match filename_problem(name) {
                Some(problem) => {
                    &&& r matches FinishReply::Refused(reply)
                    &&& reply.tells(
                        BAD_REQUEST,
                        "Invalid 'filename' query parameter: "@ + problem,
                    )
                },
                None => if !s.jobs.contains_key(name) {
                    &&& r matches FinishReply::Refused(reply)
                    &&& reply.tells(NOT_FOUND, "Job not found: "@ + name)
                } else if !(s.jobs[name].status is Completed) {
                    &&& r matches FinishReply::NotCompleted { status, progress }
                    &&& status == s.jobs[name].status
                    &&& progress == s.jobs[name].progress
                } else if s.results.contains_key(name) {
                    &&& r matches FinishReply::Finished(result)
                    &&& result@ == s.results[name]
                } else {
                    &&& r matches FinishReply::Refused(reply)
                    &&& reply.tells(
                        INTERNAL_SERVER_ERROR,
                        "Result not found (this should not happen)"@,
                    )
                },
            }
        },
    }
}

/// Answers with the result of the job of the given name.
pub fn finish_handler(service: &TranscriptionService, filename: Option<&str>) -> (r: FinishReply)
    ensures
        finish_answer(
            service@,
            match filename {
                Some(name) => Some(name@),
                None => None,
            },
            r,
        ),
{
    let name = match filename {
        None => {
            return FinishReply::Refused(
                refuse(BAD_REQUEST, "Missing 'filename' query parameter"),
            );
        },
        Some(raw) => match validate_filename(raw) {
            Ok(name) => name,
            Err(e) => {
                return FinishReply::Refused(
                    refuse_with(
                        BAD_REQUEST,
                        "Invalid 'filename' query parameter: ",
                        e.as_str(),
                    ),
                );
            },
        },
    };
    let job = match service.get_job_status(name.as_str()) {
        Some(job) => job,
        None => {
            return FinishReply::Refused(
                refuse_with(NOT_FOUND, "Job not found: ", name.as_str()),
            );
        },
    };
    if job.status != TranscriptionStatus::Completed {
        return FinishReply::NotCompleted { status: job.status, progress: job.progress };
    }
    match service.get_result(name.as_str()) {
        Some(result) => FinishReply::Finished(result),
        None => FinishReply::Refused(
            refuse(INTERNAL_SERVER_ERROR, "Result not found (this should not happen)"),
        ),
    }
}

/// While the jobs are consistent no request ends in an internal error: a completed job has its
/// result.
pub proof fn law_completed_job_has_result(s: ServiceView, filename: Option<Seq<char>>, r: FinishReply)
    requires
        s.consistent(),
        finish_answer(s, filename, r),
    ensures
        r matches FinishReply::Refused(reply) ==> reply.status != INTERNAL_SERVER_ERROR,
{
    if let Some(raw) = filename {
        let name = trimmed(raw);
        assert(s.results.contains_key(name) <==> s.jobs.contains_key(name)
            && s.jobs[name].status is Completed);
    }
}

/// Once a job is completed, a request for its result is answered with what was stored.
pub proof fn law_stored_result_is_answered(
    s: ServiceView,
    filename: Seq<char>,
    result: ResultView,
    r: FinishReply,
)
    requires
        s.consistent(),
        filename_problem(trimmed(filename)) is None,
        s.is_open(trimmed(filename)),
        finish_answer(s.completed(trimmed(filename), result), Some(filename), r),
    ensures
        r matches FinishReply::Finished(given) && given@ == result,
{
    crate::services::job_laws::law_completing_keeps_consistency(s, trimmed(filename), result);
}

} // verus!
