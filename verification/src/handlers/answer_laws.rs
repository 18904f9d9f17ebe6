//! What requests are answered.

use crate::handlers::finish::{finish_handler, FinishReply};
use crate::handlers::reply::{json_response, refuse, refuse_with, started, Reply};
use crate::handlers::status::{status_handler, StatusReply};
use crate::handlers::{filename_char, filename_problem, health_check, validate_filename};
use crate::json::object_text;
use crate::models::ErrorResponse;
use crate::services::store_laws::{
    lemma_same_result, lemma_view_of_service, same_job, same_result,
};
use crate::services::transcription::TranscriptionService;
use crate::text::trimmed;
use vstd::prelude::*;
#[allow(unused_imports)]
use vstd::string::*;
use vstd::utf8::encode_utf8;

verus! {

/// Whether an answer tells this error with this status code.
pub open spec fn says(reply: Reply, status: int, error: Seq<char>) -> bool {
    &&& reply.status == status
    &&& reply.body@ == object_text(seq![("error"@, error)], 2, true)
}

/// Whether a character may stand in a file name: a letter or a digit of ASCII, a dot, an underscore
/// or a hyphen.
pub open spec fn may_stand(c: char) -> bool {
    ||| 'a' <= c && c <= 'z' || 'A' <= c && c <= 'Z' || '0' <= c && c <= '9'
    ||| c == '-' || c == '.' || c == '_'
}

/// Whether a text without white space around it is a file name: not empty, no longer than 128
/// bytes, not one of the two special directories, and of such characters only.
pub open spec fn is_file_name(name: Seq<char>) -> bool {
    &&& name.len() > 0
    &&& encode_utf8(name).len() <= 128
    &&& name != seq!['.']
    &&& name != seq!['.', '.']
    &&& forall|i: int| 0 <= i < name.len() ==> may_stand(#[trigger] name[i])
}

/// Whether this tells what is wrong with a text that is no file name, the first of what there is.
pub open spec fn is_name_problem(name: Seq<char>, problem: Seq<char>) -> bool {
    if name.len() == 0 {
        problem == "filename must not be empty"@
    } else if encode_utf8(name).len() > 128 {
        problem == "filename is too long (max 128 characters)"@
    } else if name == seq!['.'] || name == seq!['.', '.'] {
        problem == "filename is invalid"@
    } else {
        problem == "filename contains invalid characters"@
    }
}

/// A text is found wrong just where it is no file name, and it is told why.
pub proof fn lemma_problem_of_name(name: Seq<char>)
    ensures
        filename_problem(name) is None <==> is_file_name(name),
        filename_problem(name) matches Some(problem) ==> is_name_problem(name, problem),
{
    if filename_problem(name) is None {
        assert forall|i: int| 0 <= i < name.len() implies may_stand(#[trigger] name[i]) by {
            assert(filename_char(name[i]));
        }
    }
    if exists|i: int| 0 <= i < name.len() && !filename_char(#[trigger] name[i]) {
        let i = choose|i: int| 0 <= i < name.len() && !filename_char(#[trigger] name[i]);
        assert(!may_stand(name[i]));
    }
}

/// A file name passes just where it is one without the white space around it, and that is what it
/// then is. Otherwise it is told what is wrong.
pub proof fn law_file_names_are_checked(filename: &str, r: Result<String, String>)
    requires
        call_ensures(validate_filename, (filename,), r),
    ensures
        r is Ok <==> is_file_name(trimmed(filename@)),
        r matches Ok(name) ==> name@ == trimmed(filename@),
        r matches Err(problem) ==> is_name_problem(trimmed(filename@), problem@),
{
    lemma_problem_of_name(trimmed(filename@));
}

/// An error is told whole, with its status code, and a start with the name of its job.
pub proof fn law_answers_tell_what_they_are_given(
    status: u16,
    data: &ErrorResponse,
    error: &str,
    detail: &str,
    filename: &str,
    a: Reply,
    b: Reply,
    c: Reply,
    d: Reply,
)
    requires
        call_ensures(json_response, (status, data), a),
        call_ensures(refuse, (status, error), b),
        call_ensures(refuse_with, (status, error, detail), c),
        call_ensures(started, (filename,), d),
    ensures
        says(a, status as int, data.error@),
        says(b, status as int, error@),
        says(c, status as int, error@ + detail@),
        d.status == 202,
        d.body@ == object_text(
            seq![("filename"@, filename@), ("message"@, "Transcription started"@)],
            0,
            false,
        ),
{
}

/// The server tells that it is up.
pub proof fn law_health_is_told(r: &'static str)
    requires
        call_ensures(health_check, (), r),
    ensures
        r@ == "Whisper HTTP Server is running"@,
{
}

/// A refusal is sent with its own code, a job and a result with 200, and a job that is not completed
/// with 400.
pub proof fn law_answers_have_their_codes(
    about: StatusReply,
    finish: FinishReply,
    a: u16,
    b: u16,
)
    requires
        call_ensures(StatusReply::status_code, (&about,), a),
        call_ensures(FinishReply::status_code, (&finish,), b),
    ensures
        about matches StatusReply::Refused(reply) ==> a == reply.status,
        about is Job ==> a == 200,
        finish matches FinishReply::Refused(reply) ==> b == reply.status,
        finish is NotCompleted ==> b == 400,
        finish is Finished ==> b == 200,
{
}

/// A question about a job is answered with that very job, under the name as it was given: its
/// name, its status, its progress and its error. Without a name it is a bad request, and a job
/// that is not there is not found.
pub proof fn law_status_tells_the_job(
    service: &TranscriptionService,
    filename: Option<&str>,
    r: StatusReply,
    code: u16,
)
    requires
        call_ensures(status_handler, (service, filename), r),
        call_ensures(StatusReply::status_code, (&r,), code),
    ensures
        match filename {
            None => {
                &&& r matches StatusReply::Refused(reply)
                &&& says(reply, 400, "Missing 'filename' query parameter"@)
                &&& code == 400
            },
            Some(name) => if service.jobs@.contains_key(name@) {
                &&& r matches StatusReply::Job(told)
                &&& code == 200
                &&& same_job(told, service.jobs@[name@])
            } else {
                &&& r matches StatusReply::Refused(reply)
                &&& says(reply, 404, "Job not found: "@ + name@)
                &&& code == 404
            },
        },
{
    lemma_view_of_service(*service);
}

/// A request for a result is answered with the stored result, whole, just where the job is
/// completed. Without a file name it is a bad request, a job that is not there is not found, and
/// for one that is not completed it is told where the job stands.
pub proof fn law_finish_tells_the_result(
    service: &TranscriptionService,
    filename: Option<&str>,
    r: FinishReply,
    code: u16,
)
    requires
        call_ensures(finish_handler, (service, filename), r),
        call_ensures(FinishReply::status_code, (&r,), code),
    ensures
        match filename {
            None => {
                &&& r matches FinishReply::Refused(reply)
                &&& says(reply, 400, "Missing 'filename' query parameter"@)
                &&& code == 400
            },
            Some(raw) => {
                let name = trimmed(raw@);
                if !is_file_name(name) {
                    &&& r matches FinishReply::Refused(reply)
                    &&& exists|problem: Seq<char>| #[trigger]
                        is_name_problem(name, problem) && says(
                            reply,
                            400,
                            "Invalid 'filename' query parameter: "@ + problem,
                        )
                    &&& code == 400
                } else if !service.jobs@.contains_key(name) {
                    &&& r matches FinishReply::Refused(reply)
                    &&& says(reply, 404, "Job not found: "@ + name)
                    &&& code == 404
                } else if !(service.jobs@[name].status is Completed) {
                    &&& r == (FinishReply::NotCompleted {
                        status: service.jobs@[name].status,
                        progress: service.jobs@[name].progress,
                    })
                    &&& code == 400
                } else if service.results@.contains_key(name) {
                    &&& r matches FinishReply::Finished(told)
                    &&& code == 200
                    &&& same_result(told, service.results@[name])
                } else {
                    &&& r matches FinishReply::Refused(reply)
                    &&& says(reply, 500, "Result not found (this should not happen)"@)
                    &&& code == 500
                }
            },
        },
{
    lemma_view_of_service(*service);
    if let Some(raw) = filename {
        lemma_problem_of_name(trimmed(raw@));
        if let FinishReply::Finished(told) = r {
            lemma_same_result(told, service.results@[trimmed(raw@)]);
        }
    }
}

} // verus!
