//! What the documents tell, member by member.

use crate::documents::{
    document_view, job_document, not_completed_document, result_document, row_view, Content, Entry,
    Member, Value,
};
use crate::models::{
    Progress, TranscriptionJob, TranscriptionResult, TranscriptionSegment, TranscriptionStatus,
};
use crate::services::vad::segments::SpeechSegment;
use vstd::prelude::*;
#[allow(unused_imports)]
use vstd::string::*;

verus! {

/// Whether a member of a document has this name and is this text.
pub open spec fn tells_text(entry: Entry, name: Seq<char>, text: Seq<char>) -> bool {
    &&& entry.name@ == name
    &&& entry.content matches Content::One(Value::Text(told))
    &&& told@ == text
}

/// Whether a member of a document has this name and is this percentage.
pub open spec fn tells_progress(entry: Entry, name: Seq<char>, progress: Progress) -> bool {
    &&& entry.name@ == name
    &&& entry.content == Content::One(Value::Percentage(progress))
}

/// Whether an object tells the times and the text of a segment.
pub open spec fn tells_segment(row: Seq<Member>, segment: TranscriptionSegment) -> bool {
    &&& row.len() == 3
    &&& row[0].name@ == "start_time"@
    &&& row[0].value == (Value::BlockTime {
        block_start: segment.block_start,
        offset: segment.start_offset,
    })
    &&& row[1].name@ == "end_time"@
    &&& row[1].value == (Value::BlockTime {
        block_start: segment.block_start,
        offset: segment.end_offset,
    })
    &&& row[2].name@ == "text"@
    &&& row[2].value matches Value::Text(text)
    &&& text@ == segment.text@
}

/// Whether an object tells the bounds of a stretch of speech.
pub open spec fn tells_speech(row: Seq<Member>, segment: SpeechSegment) -> bool {
    &&& row.len() == 2
    &&& row[0].name@ == "start"@
    &&& row[0].value == Value::SampleTime(segment.start)
    &&& row[1].name@ == "end"@
    &&& row[1].value == Value::SampleTime(segment.end)
}

proof fn lemma_entries(document: Seq<Entry>)
    ensures
        document_view(document).len() == document.len(),
        forall|i: int|
            0 <= i < document.len() ==> #[trigger] document_view(document)[i] == document[i]@,
{
}

proof fn lemma_rows(row: Seq<Member>)
    ensures
        row_view(row).len() == row.len(),
        forall|i: int| 0 <= i < row.len() ==> #[trigger] row_view(row)[i] == row[i]@,
{
}

/// The document of a result lists every segment: there are as many objects as segments, and object
/// `i` holds the start, the end and the text of segment `i`. The full text follows.
pub proof fn law_result_document_tells_every_segment(result: &TranscriptionResult, r: Vec<Entry>)
    requires
        call_ensures(result_document, (result,), r),
    ensures
        r@.len() >= 2,
        r@[0].name@ == "segments"@,
        r@[0].content matches Content::Rows(rows) && {
            &&& rows@.len() == result.segments@.len()
            &&& forall|i: int|
                0 <= i < rows@.len() ==> tells_segment(
                    (#[trigger] rows@[i])@,
                    result.segments@[i],
                )
        },
        tells_text(r@[1], "full_text"@, result.full_text@),
{
    lemma_entries(r@);
    let view = document_view(r@);
    assert(view[0] == r@[0]@ && view[1] == r@[1]@);
    if let Content::Rows(rows) = r@[0].content {
        let views = rows@.map_values(|row: Vec<Member>| row_view(row@));
        assert(views.len() == rows@.len());
        assert forall|i: int| 0 <= i < rows@.len() implies tells_segment(
            (#[trigger] rows@[i])@,
            result.segments@[i],
        ) by {
            assert(views[i] == row_view(rows@[i]@));
            lemma_rows(rows@[i]@);
            let row = rows@[i]@;
            assert(row_view(row)[0] == row[0]@);
            assert(row_view(row)[1] == row[1]@);
            assert(row_view(row)[2] == row[2]@);
        }
    }
}

/// The document of a result ends with the stretches of speech, one object each, where they were
/// looked for, and otherwise with the full text.
pub proof fn law_result_document_tells_the_speech(result: &TranscriptionResult, r: Vec<Entry>)
    requires
        call_ensures(result_document, (result,), r),
    ensures
        match result.vad_segments {
            Some(segments) => {
                &&& r@.len() == 3
                &&& r@[2].name@ == "vad_segments"@
                &&& r@[2].content matches Content::Rows(rows)
                &&& rows@.len() == segments@.len()
                &&& forall|i: int|
                    0 <= i < rows@.len() ==> tells_speech((#[trigger] rows@[i])@, segments@[i])
            },
            None => r@.len() == 2,
        },
{
    lemma_entries(r@);
    let view = document_view(r@);
    if let Some(segments) = result.vad_segments {
        assert(view[2] == r@[2]@);
        if let Content::Rows(rows) = r@[2].content {
            let views = rows@.map_values(|row: Vec<Member>| row_view(row@));
            assert(views.len() == rows@.len());
            assert forall|i: int| 0 <= i < rows@.len() implies tells_speech(
                (#[trigger] rows@[i])@,
                segments@[i],
            ) by {
                assert(views[i] == row_view(rows@[i]@));
                lemma_rows(rows@[i]@);
                let row = rows@[i]@;
                assert(row_view(row)[0] == row[0]@);
                assert(row_view(row)[1] == row[1]@);
            }
        }
    }
}

/// Results that differ in a segment have documents that differ: the same document tells the same
/// number of segments, with the same times and texts.
pub proof fn law_result_documents_tell_results_apart(
    a: &TranscriptionResult,
    b: &TranscriptionResult,
    r: Vec<Entry>,
    i: int,
)
    requires
        call_ensures(result_document, (a,), r),
        call_ensures(result_document, (b,), r),
        0 <= i < a.segments@.len(),
    ensures
        a.segments@.len() == b.segments@.len(),
        a.segments@[i].block_start == b.segments@[i].block_start,
        a.segments@[i].start_offset == b.segments@[i].start_offset,
        a.segments@[i].end_offset == b.segments@[i].end_offset,
        a.segments@[i].text@ == b.segments@[i].text@,
        a.full_text@ == b.full_text@,
{
    law_result_document_tells_every_segment(a, r);
    law_result_document_tells_every_segment(b, r);
    let rows = r@[0].content->Rows_0;
    assert(tells_segment(rows@[i]@, a.segments@[i]));
    assert(tells_segment(rows@[i]@, b.segments@[i]));
}

/// The document of a job tells its name, its status by the name of that very status, its progress,
/// and its error where it has one.
pub proof fn law_job_document_tells_the_job(job: &TranscriptionJob, r: Vec<Entry>)
    requires
        call_ensures(job_document, (job,), r),
    ensures
        r@.len() >= 3,
        tells_text(r@[0], "filename"@, job.filename@),
        r@[1].name@ == "status"@,
        tells_text(r@[1], "status"@, "pending"@) <==> job.status is Pending,
        tells_text(r@[1], "status"@, "processing"@) <==> job.status is Processing,
        tells_text(r@[1], "status"@, "completed"@) <==> job.status is Completed,
        tells_text(r@[1], "status"@, "failed"@) <==> job.status is Failed,
        tells_progress(r@[2], "progress"@, job.progress),
        match job.error {
            Some(error) => r@.len() == 4 && tells_text(r@[3], "error"@, error@),
            None => r@.len() == 3,
        },
{
    lemma_entries(r@);
    let view = document_view(r@);
    assert(view[0] == r@[0]@ && view[1] == r@[1]@ && view[2] == r@[2]@);
    if job.error is Some {
        assert(view[3] == r@[3]@);
    }
    lemma_status_names_differ();
}

/// Jobs of different status have documents that differ.
pub proof fn law_job_documents_tell_statuses_apart(
    a: &TranscriptionJob,
    b: &TranscriptionJob,
    r: Vec<Entry>,
)
    requires
        call_ensures(job_document, (a,), r),
        call_ensures(job_document, (b,), r),
    ensures
        a.filename@ == b.filename@,
        a.status == b.status,
        a.progress == b.progress,
        a.error is Some <==> b.error is Some,
        a.error is Some ==> a.error->0@ == b.error->0@,
{
    law_job_document_tells_the_job(a, r);
    law_job_document_tells_the_job(b, r);
}

/// The answer to a request that came too early tells so, and where the job stands.
pub proof fn law_early_document_tells_the_job(
    status: TranscriptionStatus,
    progress: Progress,
    r: Vec<Entry>,
)
    requires
        call_ensures(not_completed_document, (status, progress), r),
    ensures
        r@.len() == 3,
        tells_text(r@[0], "error"@, "Job is not completed yet"@),
        tells_text(r@[1], "status"@, "pending"@) <==> status is Pending,
        tells_text(r@[1], "status"@, "processing"@) <==> status is Processing,
        tells_text(r@[1], "status"@, "completed"@) <==> status is Completed,
        tells_text(r@[1], "status"@, "failed"@) <==> status is Failed,
        tells_progress(r@[2], "progress"@, progress),
{
    lemma_entries(r@);
    let view = document_view(r@);
    assert(view[0] == r@[0]@ && view[1] == r@[1]@ && view[2] == r@[2]@);
    lemma_status_names_differ();
}

/// The status that a job is told to have is its own: each of the four has its own name.
pub proof fn law_statuses_have_their_own_names(status: TranscriptionStatus, r: String)
    requires
        call_ensures(TranscriptionStatus::to_string, (&status,), r),
    ensures
        r@ == "pending"@ <==> status is Pending,
        r@ == "processing"@ <==> status is Processing,
        r@ == "completed"@ <==> status is Completed,
        r@ == "failed"@ <==> status is Failed,
{
    lemma_status_names_differ();
}

proof fn lemma_status_names_differ()
    ensures
        "pending"@ != "processing"@,
        "pending"@ != "completed"@,
        "pending"@ != "failed"@,
        "processing"@ != "completed"@,
        "processing"@ != "failed"@,
        "completed"@ != "failed"@,
{
    reveal_strlit("pending");
    reveal_strlit("processing");
    reveal_strlit("completed");
    reveal_strlit("failed");
    assert("pending"@.len() == 7 && "processing"@.len() == 10 && "completed"@.len() == 9
        && "failed"@.len() == 6);
}

} // verus!
