//! Answers: a status code and a JSON text.

use crate::json::{member_views, object_text, write_object};
use crate::models::ErrorResponse;
use vstd::prelude::*;
#[allow(unused_imports)]
use vstd::string::*;

verus! {

pub const OK: u16 = 200;

pub const ACCEPTED: u16 = 202;

pub const BAD_REQUEST: u16 = 400;

pub const NOT_FOUND: u16 = 404;

pub const CONFLICT: u16 = 409;

pub const PAYLOAD_TOO_LARGE: u16 = 413;

pub const INTERNAL_SERVER_ERROR: u16 = 500;

/// An answer with a JSON text as its body.
#[derive(Debug)]
pub struct Reply {
    pub status: u16,
    pub body: String,
}

/// The body of an answer that tells an error.
pub open spec fn error_body(error: Seq<char>) -> Seq<char> {
    object_text(seq![("error"@, error)], 2, true)
}

/// The body of an answer that tells that a job was started.
pub open spec fn started_body(filename: Seq<char>) -> Seq<char> {
    object_text(
        seq![("filename"@, filename), ("message"@, "Transcription started"@)],
        0,
        false,
    )
}

impl Reply {
    /// Whether this tells this error with this status.
    pub open spec fn tells(self, status: u16, error: Seq<char>) -> bool {
        self.status == status && self.body@ == error_body(error)
    }
}

/// An answer that tells an error.
pub fn json_response(status: u16, data: &ErrorResponse) -> (r: Reply)
    ensures
        r.tells(status, data.error@),
{
    let mut members: Vec<(&str, &str)> = Vec::new();
    members.push(("error", data.error.as_str()));
    assert(member_views(members@) =~= seq![("error"@, data.error@)]);
    Reply { status, body: write_object(&members, 2, true) }
}

/// An answer that tells an error.
pub fn refuse(status: u16, error: &str) -> (r: Reply)
    ensures
        r.tells(status, error@),
{
    json_response(status, &ErrorResponse { error: error.to_string() })
}

/// An answer that tells an error that ends with `detail`.
pub fn refuse_with(status: u16, error: &str, detail: &str) -> (r: Reply)
    ensures
        r.tells(status, error@ + detail@),
{
    let mut text = error.to_string();
    text.append(detail);
    json_response(status, &ErrorResponse { error: text })
}

/// The answer to an upload that was taken on.
pub fn started(filename: &str) -> (r: Reply)
    ensures
        r.status == ACCEPTED,
        r.body@ == started_body(filename@),
{
    let mut members: Vec<(&str, &str)> = Vec::new();
    members.push(("filename", filename));
    members.push(("message", "Transcription started"));
    assert(member_views(members@) =~= seq![
        ("filename"@, filename@),
        ("message"@, "Transcription started"@),
    ]);
    Reply { status: ACCEPTED, body: write_object(&members, 0, false) }
}

} // verus!
