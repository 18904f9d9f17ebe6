//! What the JSON documents of the server hold, member by member.

use crate::models::{
    JobView, Progress, ResultView, SegmentView, TranscriptionJob, TranscriptionResult,
    TranscriptionSegment, TranscriptionStatus,
};
use crate::services::vad::segments::SpeechSegment;
use vstd::prelude::*;
#[allow(unused_imports)]
use vstd::string::*;

verus! {

/// A single value. Numbers are kept exactly.
#[derive(Debug)]
pub enum Value {
    Text(String),
    /// How far a job has come, in percent.
    Percentage(Progress),
    /// A time in seconds: `block_start` samples at 16 kHz and `offset` hundredths of a second.
    BlockTime { block_start: usize, offset: i64 },
    /// A time in seconds: so many samples at 16 kHz.
    SampleTime(usize),
}

/// What a value holds.
pub enum ValueView {
    Text(Seq<char>),
    Percentage(Progress),
    BlockTime { block_start: int, offset: int },
    SampleTime(int),
}

impl View for Value {
    type V = ValueView;

    open spec fn view(&self) -> ValueView {
        match *self {
            Value::Text(text) => ValueView::Text(text@),
            Value::Percentage(progress) => ValueView::Percentage(progress),
            Value::BlockTime { block_start, offset } => ValueView::BlockTime {
                block_start: block_start as int,
                offset: offset as int,
            },
            Value::SampleTime(samples) => ValueView::SampleTime(samples as int),
        }
    }
}

/// A member of an object in a list.
#[derive(Debug)]
pub struct Member {
    pub name: String,
    pub value: Value,
}

impl View for Member {
    type V = (Seq<char>, ValueView);

    open spec fn view(&self) -> (Seq<char>, ValueView) {
        (self.name@, self.value@)
    }
}

/// What each member of an object holds.
pub open spec fn row_view(row: Seq<Member>) -> Seq<(Seq<char>, ValueView)> {
    row.map_values(|member: Member| member@)
}

/// What a member of a document stands for.
#[derive(Debug)]
pub enum Content {
    One(Value),
    /// A list of objects.
    Rows(Vec<Vec<Member>>),
}

/// What a content holds.
pub enum ContentView {
    One(ValueView),
    Rows(Seq<Seq<(Seq<char>, ValueView)>>),
}

impl View for Content {
    type V = ContentView;

    open spec fn view(&self) -> ContentView {
        match *self {
            Content::One(value) => ContentView::One(value@),
            Content::Rows(rows) => ContentView::Rows(
                rows@.map_values(|row: Vec<Member>| row_view(row@)),
            ),
        }
    }
}

/// A member of a document.
#[derive(Debug)]
pub struct Entry {
    pub name: String,
    pub content: Content,
}

impl View for Entry {
    type V = (Seq<char>, ContentView);

    open spec fn view(&self) -> (Seq<char>, ContentView) {
        (self.name@, self.content@)
    }
}

/// What each member of a document holds.
pub open spec fn document_view(document: Seq<Entry>) -> Seq<(Seq<char>, ContentView)> {
    document.map_values(|entry: Entry| entry@)
}

/// A member that is a text.
pub open spec fn text_entry(name: Seq<char>, text: Seq<char>) -> (Seq<char>, ContentView) {
    (name, ContentView::One(ValueView::Text(text)))
}

/// A member that is a percentage.
pub open spec fn progress_entry(name: Seq<char>, progress: Progress) -> (Seq<char>, ContentView) {
    (name, ContentView::One(ValueView::Percentage(progress)))
}

/// The document of a job: the error is told only where there is one.
pub open spec fn job_entries(job: JobView) -> Seq<(Seq<char>, ContentView)> {
    let always = seq![
        text_entry("filename"@, job.filename),
        text_entry("status"@, job.status.label()),
        progress_entry("progress"@, job.progress),
    ];
    match job.error {
        Some(error) => always.push(text_entry("error"@, error)),
        None => always,
    }
}

/// The document of a job whose result was asked for too early.
pub open spec fn not_completed_entries(status: TranscriptionStatus, progress: Progress) -> Seq<
    (Seq<char>, ContentView),
> {
    seq![
        text_entry("error"@, "Job is not completed yet"@),
        text_entry("status"@, status.label()),
        progress_entry("progress"@, progress),
    ]
}

/// The object of a transcribed segment.
pub open spec fn segment_row(segment: SegmentView) -> Seq<(Seq<char>, ValueView)> {
    seq![
        (
            "start_time"@,
            ValueView::BlockTime {
                block_start: segment.block_start,
                offset: segment.start_offset,
            },
        ),
        (
            "end_time"@,
            ValueView::BlockTime { block_start: segment.block_start, offset: segment.end_offset },
        ),
        ("text"@, ValueView::Text(segment.text)),
    ]
}

/// The object of a stretch of speech.
pub open spec fn speech_row(segment: SpeechSegment) -> Seq<(Seq<char>, ValueView)> {
    seq![
        ("start"@, ValueView::SampleTime(segment.start as int)),
        ("end"@, ValueView::SampleTime(segment.end as int)),
    ]
}

/// The document of a result: the stretches of speech are told only where they were looked for.
pub open spec fn result_entries(result: ResultView) -> Seq<(Seq<char>, ContentView)> {
    let always = seq![
        (
            "segments"@,
            ContentView::Rows(
                result.segments.map_values(|segment: SegmentView| segment_row(segment)),
            ),
        ),
        text_entry("full_text"@, result.full_text),
    ];
    match result.vad_segments {
        Some(segments) => always.push(
            (
                "vad_segments"@,
                ContentView::Rows(
                    segments.map_values(|segment: SpeechSegment| speech_row(segment)),
                ),
            ),
        ),
        None => always,
    }
}

fn one(name: &str, value: Value) -> (r: Entry)
    ensures
        r@ == (name@, ContentView::One(value@)),
{
    Entry { name: name.to_string(), content: Content::One(value) }
}

fn member(name: &str, value: Value) -> (r: Member)
    ensures
        r@ == (name@, value@),
{
    Member { name: name.to_string(), value }
}

/// The document of a job.
pub fn job_document(job: &TranscriptionJob) -> (r: Vec<Entry>)
    ensures
        document_view(r@) == job_entries(job@),
{
    let mut r: Vec<Entry> = Vec::new();
    r.push(one("filename", Value::Text(job.filename.clone())));
    r.push(one("status", Value::Text(job.status.to_string())));
    r.push(one("progress", Value::Percentage(job.progress)));
    if let Some(error) = &job.error {
        r.push(one("error", Value::Text(error.clone())));
    }
    assert(document_view(r@) =~= job_entries(job@));
    r
}

/// The document of a job whose result was asked for too early.
pub fn not_completed_document(status: TranscriptionStatus, progress: Progress) -> (r: Vec<Entry>)
    ensures
        document_view(r@) == not_completed_entries(status, progress),
{
    let mut r: Vec<Entry> = Vec::new();
    r.push(one("error", Value::Text("Job is not completed yet".to_string())));
    r.push(one("status", Value::Text(status.to_string())));
    r.push(one("progress", Value::Percentage(progress)));
    assert(document_view(r@) =~= not_completed_entries(status, progress));
    r
}

fn row_of_segment(segment: &TranscriptionSegment) -> (r: Vec<Member>)
    ensures
        row_view(r@) == segment_row(segment@),
{
    let block_start: usize = segment.block_start;
    let mut r: Vec<Member> = Vec::new();
    r.push(member("start_time", Value::BlockTime { block_start, offset: segment.start_offset }));
    r.push(member("end_time", Value::BlockTime { block_start, offset: segment.end_offset }));
    r.push(member("text", Value::Text(segment.text.clone())));
    assert(row_view(r@) =~= segment_row(segment@));
    r
}

fn row_of_speech(segment: SpeechSegment) -> (r: Vec<Member>)
    ensures
        row_view(r@) == speech_row(segment),
{
    let mut r: Vec<Member> = Vec::new();
    r.push(member("start", Value::SampleTime(segment.start)));
    r.push(member("end", Value::SampleTime(segment.end)));
    assert(row_view(r@) =~= speech_row(segment));
    r
}

/// The document of a result.
pub fn result_document(result: &TranscriptionResult) -> (r: Vec<Entry>)
    ensures
        document_view(r@) == result_entries(result@),
{
    let mut segments: Vec<Vec<Member>> = Vec::new();
    let mut i: usize = 0;
    while i < result.segments.len()
        invariant
            i <= result.segments@.len(),
            segments@.len() == i,
            forall|k: int|
                0 <= k < i ==> row_view((#[trigger] segments@[k])@) == segment_row(
                    result.segments@[k]@,
                ),
        decreases result.segments.len() - i,
    {
        segments.push(row_of_segment(&result.segments[i]));
        i = i + 1;
    }
    let ghost rows = result@.segments.map_values(|segment: SegmentView| segment_row(segment));
    assert(segments@.map_values(|row: Vec<Member>| row_view(row@)) =~= rows);
    let mut r: Vec<Entry> = Vec::new();
    r.push(Entry { name: "segments".to_string(), content: Content::Rows(segments) });
    r.push(one("full_text", Value::Text(result.full_text.clone())));
    if let Some(given) = &result.vad_segments {
        let mut speech: Vec<Vec<Member>> = Vec::new();
        let mut k: usize = 0;
        while k < given.len()
            invariant
                k <= given@.len(),
                speech@.len() == k,
                forall|j: int|
                    0 <= j < k ==> row_view((#[trigger] speech@[j])@) == speech_row(given@[j]),
            decreases given.len() - k,
        {
            speech.push(row_of_speech(given[k]));
            k = k + 1;
        }
        let ghost spoken = given@.map_values(|segment: SpeechSegment| speech_row(segment));
        assert(speech@.map_values(|row: Vec<Member>| row_view(row@)) =~= spoken);
        r.push(Entry { name: "vad_segments".to_string(), content: Content::Rows(speech) });
    }
    assert(document_view(r@) =~= result_entries(result@));
    r
}

/// Whether a document has a member of this name.
pub open spec fn has_member(document: Seq<(Seq<char>, ContentView)>, name: Seq<char>) -> bool {
    exists|i: int| 0 <= i < document.len() && (#[trigger] document[i]).0 == name
}

/// Stretches of speech are part of a result just where they were looked for.
pub proof fn law_speech_is_told_where_it_was_looked_for(result: ResultView)
    ensures
        has_member(result_entries(result), "vad_segments"@) <==> result.vad_segments is Some,
{
    reveal_strlit("vad_segments");
    reveal_strlit("segments");
    reveal_strlit("full_text");
    let document = result_entries(result);
    assert("vad_segments"@.len() == 12 && "segments"@.len() == 8 && "full_text"@.len() == 9);
    if result.vad_segments is Some {
        assert(document[2].0 == "vad_segments"@);
    }
}

/// An error is part of the document of a job just where it has one.
pub proof fn law_error_is_told_where_there_is_one(job: JobView)
    ensures
        has_member(job_entries(job), "error"@) <==> job.error is Some,
{
    reveal_strlit("error");
    reveal_strlit("filename");
    reveal_strlit("status");
    reveal_strlit("progress");
    let document = job_entries(job);
    assert("error"@.len() == 5 && "filename"@.len() == 8 && "status"@.len() == 6
        && "progress"@.len() == 8);
    if job.error is Some {
        assert(document[3].0 == "error"@);
    }
}

} // verus!
