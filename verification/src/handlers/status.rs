//! Telling where a job stands.

use crate::handlers::reply::{refuse, refuse_with, Reply, BAD_REQUEST, NOT_FOUND, OK};
use crate::models::TranscriptionJob;
use crate::services::transcription::TranscriptionService;
use vstd::prelude::*;

verus! {

/// The answer to a question about a job.
#[derive(Debug)]
pub enum StatusReply {
    Refused(Reply),
    Job(TranscriptionJob),
}

impl StatusReply {
    /// The status code of the answer.
    pub fn status_code(&self) -> (r: u16)
        ensures
            r == match *self {
                StatusReply::Refused(reply) => reply.status,
                StatusReply::Job(_) => OK,
            },
    {
        match self {
            StatusReply::Refused(reply) => reply.status,
            StatusReply::Job(_) => OK,
        }
    }
}

/// Answers where the job of the given name stands.
pub fn status_handler(service: &TranscriptionService, filename: Option<&str>) -> (r: StatusReply)
    ensures
        match (filename, r) {
            (None, StatusReply::Refused(reply)) => reply.tells(
                BAD_REQUEST,
                "Missing 'filename' query parameter"@,
            ),
            (Some(name), StatusReply::Refused(reply)) => {
                &&& !service@.jobs.contains_key(name@)
                &&& reply.tells(NOT_FOUND, "Job not found: "@ + name@)
            },
            (Some(name), StatusReply::Job(job)) => {
                &&& service@.jobs.contains_key(name@)
                &&& job@ == service@.jobs[name@]
            },
            (None, StatusReply::Job(_)) => false,
        },
{
    match filename {
        None => StatusReply::Refused(refuse(BAD_REQUEST, "Missing 'filename' query parameter")),
        Some(name) => match service.get_job_status(name) {
            Some(job) => StatusReply::Job(job),
            None => StatusReply::Refused(refuse_with(NOT_FOUND, "Job not found: ", name)),
        },
    }
}

} // verus!
