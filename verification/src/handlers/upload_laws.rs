//! What holds of every upload.

use crate::handlers::finish::{finish_answer, FinishReply};
use crate::handlers::upload::{
    can_happen, generated_filename, optional_text, upload_step, UploadAction, UploadEvent, UploadForm,
    UploadStage,
};
use crate::handlers::{filename_char, filename_problem};
use crate::models::{Progress, TranscriptionStatus};
use crate::services::transcription::ServiceView;
use crate::text::{decimal_digits, is_digit, lemma_digits_of, trim_end, trim_start, trimmed};
use vstd::arithmetic::power::pow;
use vstd::prelude::*;
#[allow(unused_imports)]
use vstd::string::*;
use vstd::utf8::{is_ascii_chars, is_ascii_chars_encode_utf8};

verus! {

/// A job is created by the last step of an upload only: a request that is refused, and one that
/// is still being taken in, changes no job.
pub proof fn law_only_a_start_changes_the_jobs(
    before: ServiceView,
    max: usize,
    stage: UploadStage,
    event: UploadEvent,
    r: (UploadStage, UploadAction),
    after: ServiceView,
)
    requires
        can_happen(stage, event),
        upload_step(before, max, stage, event, r, after),
    ensures
        !(r.1 is Start) ==> after == before,
        r.1 is Answer ==> r.0 is Over,
{
}

/// An upload keeps the jobs consistent.
pub proof fn law_upload_keeps_consistency(
    before: ServiceView,
    max: usize,
    stage: UploadStage,
    event: UploadEvent,
    r: (UploadStage, UploadAction),
    after: ServiceView,
)
    requires
        before.consistent(),
        can_happen(stage, event),
        upload_step(before, max, stage, event, r, after),
    ensures
        after.consistent(),
{
}

/// Whether `name` is a file name that passes, with no white space around it.
pub open spec fn valid_name(name: Seq<char>) -> bool {
    filename_problem(name) is None && trimmed(name) == name
}

/// Whether the name that a stage carries, if it has been checked, is valid.
pub open spec fn valid_stage(stage: UploadStage) -> bool {
    match stage {
        UploadStage::Resampling { filename } => valid_name(filename@),
        UploadStage::Saving { filename } => valid_name(filename@),
        _ => true,
    }
}

/// Audio is stored, and a job is started, under a valid name only.
pub proof fn law_upload_names_are_valid(
    before: ServiceView,
    max: usize,
    stage: UploadStage,
    event: UploadEvent,
    r: (UploadStage, UploadAction),
    after: ServiceView,
)
    requires
        valid_stage(stage),
        can_happen(stage, event),
        upload_step(before, max, stage, event, r, after),
    ensures
        valid_stage(r.0),
        r.1 matches UploadAction::Save { filename } ==> valid_name(filename@),
        r.1 matches UploadAction::Start { filename, reply } ==> valid_name(filename@),
{
    if let (UploadStage::Decoding { sample_rate, filename, .. }, UploadEvent::Decoded { samples, now })
        = (stage, event) {
        let name = trimmed(
            match filename {
                Some(name) => name@,
                None => generated_filename(now),
            },
        );
        if filename_problem(name) is None {
            lemma_nothing_to_trim(name);
        }
    }
}

/// The file name field names the job, wherever it stands in the form: no later audio field
/// changes it, and the name of the uploaded file counts only where there is no such field.
pub proof fn law_filename_field_names_the_job(
    before: ServiceView,
    max: usize,
    form: UploadForm,
    event: UploadEvent,
    r: (UploadStage, UploadAction),
    after: ServiceView,
)
    requires
        can_happen(UploadStage::Reading(form), event),
        upload_step(before, max, UploadStage::Reading(form), event, r, after),
        form.filename is Some,
        !(event is Filename),
    ensures
        r.0 matches UploadStage::Reading(next) ==> optional_text(next.filename) == Some(
            form.filename->0@,
        ),
        r.0 matches UploadStage::Decoding { filename, .. } ==> optional_text(filename) == Some(
            form.filename->0@,
        ),
{
}

/// A job that an upload started is found under the name that was answered: it is pending.
pub proof fn law_started_job_is_found(
    before: ServiceView,
    max: usize,
    stage: UploadStage,
    event: UploadEvent,
    r: (UploadStage, UploadAction),
    after: ServiceView,
    answer: FinishReply,
)
    requires
        valid_stage(stage),
        can_happen(stage, event),
        upload_step(before, max, stage, event, r, after),
        r.1 is Start,
        finish_answer(after, Some(r.1->Start_filename@), answer),
    ensures
        after.jobs.contains_key(r.1->Start_filename@),
        after.jobs[r.1->Start_filename@].status is Pending,
        answer == (FinishReply::NotCompleted {
            status: TranscriptionStatus::Pending,
            progress: Progress::Started,
        }),
{
    law_upload_names_are_valid(before, max, stage, event, r, after);
}

/// A name that is made up for an upload is always valid.
pub proof fn law_generated_filename_is_valid(now: u64)
    ensures
        valid_name(generated_filename(now)),
{
    let name = generated_filename(now);
    let digits = decimal_digits(now as nat);
    reveal_strlit("audio_");
    lemma_digits_of(now as nat);
    assert(now < pow(10, 20)) by {
        reveal_with_fuel(pow, 21);
        assert(pow(10, 20) == 100_000_000_000_000_000_000);
    }
    lemma_digit_count(now as nat, 20);
    assert forall|i: int| 0 <= i < name.len() implies filename_char(#[trigger] name[i]) by {
        if i >= 6 {
            assert(name[i] == digits[i - 6]);
            assert(is_digit(digits[i - 6]));
        }
    }
    assert(is_ascii_chars(name)) by {
        assert forall|i: int| 0 <= i < name.len() implies (name[i] as u32) < 128 by {
            assert(filename_char(name[i]));
        }
    }
    is_ascii_chars_encode_utf8(name);
    assert(name[0] == 'a');
    lemma_nothing_to_trim(name);
}

proof fn lemma_digit_count(n: nat, k: nat)
    requires
        k >= 1,
        n < pow(10, k),
    ensures
        decimal_digits(n).len() <= k,
    decreases k,
{
    reveal(pow);
    if n >= 10 {
        assert(pow(10, k) == 10 * pow(10, (k - 1) as nat));
        if k == 1 {
            assert(pow(10, 0) == 1);
        }
        lemma_digit_count(n / 10, (k - 1) as nat);
    }
}

/// A name that passes has no white space to take off.
proof fn lemma_nothing_to_trim(name: Seq<char>)
    requires
        name.len() > 0,
        forall|i: int| 0 <= i < name.len() ==> filename_char(#[trigger] name[i]),
    ensures
        trimmed(name) == name,
{
    assert(filename_char(name[0]));
    assert(filename_char(name[name.len() - 1]));
    assert(trim_start(name) == name);
    assert(trim_end(name) == name);
}

} // verus!
