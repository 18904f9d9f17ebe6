//! Jobs, their results, and error answers.

use crate::services::vad::segments::SpeechSegment;
use vstd::prelude::*;

verus! {

/// A transcribed stretch of speech.
///
/// The times are kept exactly: a time is the position of the block that was transcribed, in
/// samples at 16 kHz, and an offset into that block in hundredths of a second.
#[derive(Debug)]
pub struct TranscriptionSegment {
    pub block_start: usize,
    pub start_offset: i64,
    pub end_offset: i64,
    pub text: String,
}

/// What a segment holds.
pub struct SegmentView {
    pub block_start: int,
    pub start_offset: int,
    pub end_offset: int,
    pub text: Seq<char>,
}

impl View for TranscriptionSegment {
    type V = SegmentView;

    open spec fn view(&self) -> SegmentView {
        SegmentView {
            block_start: self.block_start as int,
            start_offset: self.start_offset as int,
            end_offset: self.end_offset as int,
            text: self.text@,
        }
    }
}

impl Clone for TranscriptionSegment {
    fn clone(&self) -> (r: Self)
        ensures
            r == *self,
    {
        TranscriptionSegment {
            block_start: self.block_start,
            start_offset: self.start_offset,
            end_offset: self.end_offset,
            text: self.text.clone(),
        }
    }
}

/// What each segment of a row holds.
pub open spec fn segment_views(segments: Seq<TranscriptionSegment>) -> Seq<SegmentView> {
    segments.map_values(|segment: TranscriptionSegment| segment@)
}

/// A finished transcription.
#[derive(Debug)]
pub struct TranscriptionResult {
    pub segments: Vec<TranscriptionSegment>,
    pub full_text: String,
    /// The stretches of speech that were found, where they were looked for.
    pub vad_segments: Option<Vec<SpeechSegment>>,
}

/// What a result holds.
#[verifier::ext_equal]
pub struct ResultView {
    pub segments: Seq<SegmentView>,
    pub full_text: Seq<char>,
    pub vad_segments: Option<Seq<SpeechSegment>>,
}

impl View for TranscriptionResult {
    type V = ResultView;

    open spec fn view(&self) -> ResultView {
        ResultView {
            segments: segment_views(self.segments@),
            full_text: self.full_text@,
            vad_segments: match self.vad_segments {
                Some(segments) => Some(segments@),
                None => None,
            },
        }
    }
}

impl Clone for TranscriptionResult {
    fn clone(&self) -> (r: Self)
        ensures
            r@ == self@,
    {
        let mut segments: Vec<TranscriptionSegment> = Vec::new();
        let mut i: usize = 0;
        while i < self.segments.len()
            invariant
                i <= self.segments.len(),
                segments@ == self.segments@.take(i as int),
            decreases self.segments.len() - i,
        {
            segments.push(self.segments[i].clone());
            i = i + 1;
        }
        assert(segments@ =~= self.segments@);
        let vad_segments: Option<Vec<SpeechSegment>> = match &self.vad_segments {
            Some(given) => {
                let mut copied: Vec<SpeechSegment> = Vec::new();
                let mut k: usize = 0;
                while k < given.len()
                    invariant
                        k <= given.len(),
                        copied@ == given@.take(k as int),
                    decreases given.len() - k,
                {
                    copied.push(given[k]);
                    k = k + 1;
                }
                assert(copied@ =~= given@);
                Some(copied)
            },
            None => None,
        };
        TranscriptionResult { segments, full_text: self.full_text.clone(), vad_segments }
    }
}

/// Where a job stands.
#[derive(Debug, Clone, Copy, PartialEq, Eq, Structural)]
pub enum TranscriptionStatus {
    Pending,
    Processing,
    Completed,
    Failed,
}

impl TranscriptionStatus {
    /// The name of the status in answers.
    pub open spec fn label(self) -> Seq<char> {
        match self {
            TranscriptionStatus::Pending => "pending"@,
            TranscriptionStatus::Processing => "processing"@,
            TranscriptionStatus::Completed => "completed"@,
            TranscriptionStatus::Failed => "failed"@,
        }
    }

    /// Whether nothing more will happen to the job.
    pub open spec fn is_final(self) -> bool {
        self is Completed || self is Failed
    }

    /// The name of the status in answers.
    pub fn to_string(&self) -> (r: String)
        ensures
            r@ == self.label(),
    {
        match self {
            TranscriptionStatus::Pending => "pending".to_string(),
            TranscriptionStatus::Processing => "processing".to_string(),
            TranscriptionStatus::Completed => "completed".to_string(),
            TranscriptionStatus::Failed => "failed".to_string(),
        }
    }
}

/// How far a job has come.
#[derive(Debug, Clone, Copy, PartialEq, Eq, Structural)]
pub enum Progress {
    /// Nothing is done: 0 percent.
    Started,
    /// `done` of `total` samples, or of one where there are none, as a percentage of at most 99.
    Samples { done: usize, total: usize },
    /// Only the last steps are left: 99 percent.
    Finishing,
    /// Everything is done: 100 percent.
    Finished,
}

impl Progress {
    /// The percentage as a numerator and a positive denominator.
    pub open spec fn percentage(self) -> (int, int) {
        match self {
            Progress::Started => (0, 1),
            Progress::Samples { done, total } => {
                let all = if total == 0 {
                    1
                } else {
                    total as int
                };
                if 100 * done >= 99 * all {
                    (99, 1)
                } else {
                    (100 * done, all)
                }
            },
            Progress::Finishing => (99, 1),
            Progress::Finished => (100, 1),
        }
    }

    /// Whether this is no further than `other`.
    pub open spec fn at_most(self, other: Progress) -> bool {
        self.percentage().0 * other.percentage().1 <= other.percentage().0 * self.percentage().1
    }
}

/// Progress is ordered: nothing is further than itself, what is at most something that is at most
/// a third is at most the third, and everything lies between the start and the end.
pub proof fn law_progress_is_ordered(a: Progress, b: Progress, c: Progress)
    ensures
        a.at_most(a),
        a.at_most(b) && b.at_most(c) ==> a.at_most(c),
        Progress::Started.at_most(a),
        a.at_most(Progress::Finished),
{
    let (an, ad) = a.percentage();
    let (bn, bd) = b.percentage();
    let (cn, cd) = c.percentage();
    assert(0 * ad <= an * 1 && an * 1 <= 100 * ad) by (nonlinear_arith)
        requires
            0 <= an <= 100 * ad,
    ;
    if a.at_most(b) && b.at_most(c) {
        assert(an * cd <= cn * ad) by (nonlinear_arith)
            requires
                ad > 0,
                bd > 0,
                cd > 0,
                an * bd <= bn * ad,
                bn * cd <= cn * bd,
        {
            assert((an * bd) * cd <= (bn * ad) * cd);
            assert((bn * cd) * ad <= (cn * bd) * ad);
            assert((an * cd) * bd <= (cn * ad) * bd);
        }
    }
}

/// A transcription job.
#[derive(Debug)]
pub struct TranscriptionJob {
    pub filename: String,
    pub status: TranscriptionStatus,
    pub progress: Progress,
    pub error: Option<String>,
}

/// What a job holds.
pub struct JobView {
    pub filename: Seq<char>,
    pub status: TranscriptionStatus,
    pub progress: Progress,
    pub error: Option<Seq<char>>,
}

impl View for TranscriptionJob {
    type V = JobView;

    open spec fn view(&self) -> JobView {
        JobView {
            filename: self.filename@,
            status: self.status,
            progress: self.progress,
            error: match self.error {
                Some(error) => Some(error@),
                None => None,
            },
        }
    }
}

impl Clone for TranscriptionJob {
    fn clone(&self) -> (r: Self)
        ensures
            r@ == self@,
    {
        TranscriptionJob {
            filename: self.filename.clone(),
            status: self.status,
            progress: self.progress,
            error: match &self.error {
                Some(error) => Some(error.clone()),
                None => None,
            },
        }
    }
}

/// The answer to a request that failed.
#[derive(Debug)]
pub struct ErrorResponse {
    pub error: String,
}

} // verus!
