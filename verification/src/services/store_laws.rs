//! What the operations on the jobs do to each of them.

use crate::models::{Progress, TranscriptionJob, TranscriptionResult};
use crate::services::transcription::{audio_file_name, result_file_name, TranscriptionService};
use crate::services::vad::VadService;
use vstd::prelude::*;
#[allow(unused_imports)]
use vstd::string::*;

verus! {

/// Whether two errors are the same text, or none.
pub open spec fn same_error(a: Option<String>, b: Option<String>) -> bool {
    match (a, b) {
        (Some(x), Some(y)) => x@ == y@,
        (None, None) => true,
        _ => false,
    }
}

/// Whether two jobs tell the same.
pub open spec fn same_job(a: TranscriptionJob, b: TranscriptionJob) -> bool {
    &&& a.filename@ == b.filename@
    &&& a.status == b.status
    &&& a.progress == b.progress
    &&& same_error(a.error, b.error)
}

/// Whether two results tell the same.
pub open spec fn same_result(a: TranscriptionResult, b: TranscriptionResult) -> bool {
    &&& a.segments@.len() == b.segments@.len()
    &&& forall|i: int|
        0 <= i < a.segments@.len() ==> {
            &&& (#[trigger] a.segments@[i]).block_start == b.segments@[i].block_start
            &&& a.segments@[i].start_offset == b.segments@[i].start_offset
            &&& a.segments@[i].end_offset == b.segments@[i].end_offset
            &&& a.segments@[i].text@ == b.segments@[i].text@
        }
    &&& a.full_text@ == b.full_text@
    &&& a.vad_segments is Some <==> b.vad_segments is Some
    &&& a.vad_segments is Some ==> a.vad_segments->0@ == b.vad_segments->0@
}

/// Whether the job of this name is the same before and after, or there is none.
pub open spec fn keeps_job(
    before: TranscriptionService,
    after: TranscriptionService,
    name: Seq<char>,
) -> bool {
    &&& after.jobs@.contains_key(name) <==> before.jobs@.contains_key(name)
    &&& before.jobs@.contains_key(name) ==> same_job(after.jobs@[name], before.jobs@[name])
}

/// Whether the result of this name is the same before and after, or there is none.
pub open spec fn keeps_result(
    before: TranscriptionService,
    after: TranscriptionService,
    name: Seq<char>,
) -> bool {
    &&& after.results@.contains_key(name) <==> before.results@.contains_key(name)
    &&& before.results@.contains_key(name) ==> same_result(
        after.results@[name],
        before.results@[name],
    )
}

/// The names of the jobs that are over, oldest first.
pub open spec fn over(s: TranscriptionService) -> Seq<Seq<char>> {
    Seq::new(s.finished_jobs@.len(), |i: int| s.finished_jobs@[i]@)
}

/// Whether nothing but the job of this name is touched.
pub open spec fn touches_only(
    before: TranscriptionService,
    after: TranscriptionService,
    name: Seq<char>,
) -> bool {
    &&& forall|other: Seq<char>| other != name ==> #[trigger] keeps_job(before, after, other)
    &&& forall|other: Seq<char>| #[trigger] keeps_result(before, after, other)
    &&& over(after) == over(before)
    &&& after.vad_service == before.vad_service
}

/// Whether nothing is touched.
pub open spec fn touches_nothing(
    before: TranscriptionService,
    after: TranscriptionService,
) -> bool {
    &&& forall|name: Seq<char>| #[trigger] keeps_job(before, after, name)
    &&& forall|name: Seq<char>| #[trigger] keeps_result(before, after, name)
    &&& over(after) == over(before)
    &&& after.vad_service == before.vad_service
}

/// How many names go when one more job is over: those beyond 200.
pub open spec fn surplus(before: TranscriptionService) -> int {
    if before.finished_jobs@.len() + 1 > 200 {
        before.finished_jobs@.len() + 1 - 200
    } else {
        0
    }
}

/// Whether the job of this name goes when `ended` is over too: it is one of the oldest, beyond the
/// 200 that are kept.
pub open spec fn goes(before: TranscriptionService, ended: Seq<char>, name: Seq<char>) -> bool {
    over(before).push(ended).take(surplus(before)).contains(name)
}

/// Whether `name` is now over, after the others, and the oldest beyond the limit are gone with
/// their jobs and results, while the other jobs and results are as they were.
pub open spec fn ends_job(
    before: TranscriptionService,
    after: TranscriptionService,
    name: Seq<char>,
    gone: Seq<String>,
) -> bool {
    &&& over(after) == over(before).push(name).skip(surplus(before))
    &&& gone.len() == surplus(before)
    &&& forall|i: int|
        0 <= i < gone.len() ==> (#[trigger] gone[i])@ == over(before).push(name)[i]
    &&& forall|x: Seq<char>| #[trigger]
        goes(before, name, x) ==> !after.jobs@.contains_key(x) && !after.results@.contains_key(x)
    &&& forall|x: Seq<char>|
        x != name && !goes(before, name, x) ==> #[trigger] keeps_job(before, after, x)
    &&& forall|x: Seq<char>|
        x != name && !goes(before, name, x) ==> #[trigger] keeps_result(before, after, x)
    &&& after.vad_service == before.vad_service
}

/// Whether the job of this name, if it is kept, has this result and is completed.
pub open spec fn has_result(
    before: TranscriptionService,
    after: TranscriptionService,
    name: Seq<char>,
    result: TranscriptionResult,
) -> bool {
    !goes(before, name, name) ==> {
        &&& after.results@.contains_key(name)
        &&& same_result(after.results@[name], result)
        &&& after.jobs@.contains_key(name) <==> before.jobs@.contains_key(name)
        &&& before.jobs@.contains_key(name) ==> {
            &&& after.jobs@[name].filename@ == before.jobs@[name].filename@
            &&& after.jobs@[name].status is Completed
            &&& after.jobs@[name].progress is Finished
            &&& same_error(after.jobs@[name].error, before.jobs@[name].error)
        }
    }
}

/// Whether the job of this name, if it is kept, has failed with this error, where it stood.
pub open spec fn has_failed(
    before: TranscriptionService,
    after: TranscriptionService,
    name: Seq<char>,
    error: Seq<char>,
) -> bool {
    !goes(before, name, name) ==> {
        &&& keeps_result(before, after, name)
        &&& after.jobs@.contains_key(name) <==> before.jobs@.contains_key(name)
        &&& before.jobs@.contains_key(name) ==> {
            &&& after.jobs@[name].filename@ == before.jobs@[name].filename@
            &&& after.jobs@[name].status is Failed
            &&& after.jobs@[name].progress == before.jobs@[name].progress
            &&& after.jobs@[name].error is Some
            &&& after.jobs@[name].error->0@ == error
        }
    }
}

/// Whether the job of this name, if there is one, has come this far.
pub open spec fn has_come(
    before: TranscriptionService,
    after: TranscriptionService,
    name: Seq<char>,
    progress: Progress,
) -> bool {
    &&& touches_only(before, after, name)
    &&& after.jobs@.contains_key(name) <==> before.jobs@.contains_key(name)
    &&& before.jobs@.contains_key(name) ==> {
        &&& after.jobs@[name].filename@ == before.jobs@[name].filename@
        &&& after.jobs@[name].status == before.jobs@[name].status
        &&& after.jobs@[name].progress == progress
        &&& same_error(after.jobs@[name].error, before.jobs@[name].error)
    }
}

/// Whether the job of this name, if there is one, is being processed from its start.
pub open spec fn is_begun(
    before: TranscriptionService,
    after: TranscriptionService,
    name: Seq<char>,
) -> bool {
    &&& touches_only(before, after, name)
    &&& after.jobs@.contains_key(name) <==> before.jobs@.contains_key(name)
    &&& before.jobs@.contains_key(name) ==> {
        &&& after.jobs@[name].filename@ == before.jobs@[name].filename@
        &&& after.jobs@[name].status is Processing
        &&& after.jobs@[name].progress is Started
        &&& same_error(after.jobs@[name].error, before.jobs@[name].error)
    }
}

/// Whether a job of this name is new, and waits.
pub open spec fn is_new(
    before: TranscriptionService,
    after: TranscriptionService,
    name: Seq<char>,
) -> bool {
    &&& touches_only(before, after, name)
    &&& !before.jobs@.contains_key(name)
    &&& after.jobs@.contains_key(name)
    &&& after.jobs@[name].filename@ == name
    &&& after.jobs@[name].status is Pending
    &&& after.jobs@[name].progress is Started
    &&& after.jobs@[name].error is None
}

/// The jobs, results and names of a service are those of its view.
pub proof fn lemma_view_of_service(s: TranscriptionService)
    ensures
        forall|name: Seq<char>|
            #![trigger s@.jobs.contains_key(name)]
            #![trigger s.jobs@.contains_key(name)]
            s@.jobs.contains_key(name) == s.jobs@.contains_key(name),
        forall|name: Seq<char>|
            #![trigger s@.jobs[name]]
            #![trigger s.jobs@[name]]
            s.jobs@.contains_key(name) ==> s@.jobs[name] == s.jobs@[name]@,
        forall|name: Seq<char>|
            #![trigger s@.results.contains_key(name)]
            #![trigger s.results@.contains_key(name)]
            s@.results.contains_key(name) == s.results@.contains_key(name),
        forall|name: Seq<char>|
            #![trigger s@.results[name]]
            #![trigger s.results@[name]]
            s.results@.contains_key(name) ==> s@.results[name] == s.results@[name]@,
        s@.finished == over(s),
{
    assert(s@.finished =~= over(s));
}

/// Results that hold the same tell the same.
pub proof fn lemma_same_result(a: TranscriptionResult, b: TranscriptionResult)
    requires
        a@ == b@,
    ensures
        same_result(a, b),
{
    assert(a@.segments.len() == a.segments@.len());
    assert(b@.segments.len() == b.segments@.len());
    assert forall|i: int| 0 <= i < a.segments@.len() implies (#[trigger] a.segments@[i])@
        == b.segments@[i]@ by {
        assert(a@.segments[i] == a.segments@[i]@);
        assert(b@.segments[i] == b.segments@[i]@);
    }
}

/// A job or a result that is the same in the views is the same in the services.
pub proof fn lemma_keeps(before: TranscriptionService, after: TranscriptionService, name: Seq<char>)
    ensures
        ({
            &&& after@.jobs.contains_key(name) == before@.jobs.contains_key(name)
            &&& after@.jobs[name] == before@.jobs[name]
        }) ==> keeps_job(before, after, name),
        ({
            &&& after@.results.contains_key(name) == before@.results.contains_key(name)
            &&& after@.results[name] == before@.results[name]
        }) ==> keeps_result(before, after, name),
        !after@.jobs.contains_key(name) && !before@.jobs.contains_key(name) ==> keeps_job(
            before,
            after,
            name,
        ),
        !after@.results.contains_key(name) && !before@.results.contains_key(name) ==> keeps_result(
            before,
            after,
            name,
        ),
{
    lemma_view_of_service(before);
    lemma_view_of_service(after);
    if after@.results.contains_key(name) && before@.results.contains_key(name)
        && after@.results[name] == before@.results[name] {
        assert(after@.results[name] == after.results@[name]@);
        assert(before@.results[name] == before.results@[name]@);
        lemma_same_result(after.results@[name], before.results@[name]);
    }
    if after@.jobs.contains_key(name) && before@.jobs.contains_key(name) && after@.jobs[name]
        == before@.jobs[name] {
        assert(after@.jobs[name] == after.jobs@[name]@);
        assert(before@.jobs[name] == before.jobs@[name]@);
    }
}

/// Services of the same view differ in nothing that they tell.
pub proof fn lemma_touches_nothing(before: TranscriptionService, after: TranscriptionService)
    requires
        after@ == before@,
        after.vad_service == before.vad_service,
    ensures
        touches_nothing(before, after),
{
    lemma_view_of_service(before);
    lemma_view_of_service(after);
    assert forall|name: Seq<char>| #[trigger] keeps_job(before, after, name) by {
        lemma_keeps(before, after, name);
    }
    assert forall|name: Seq<char>| #[trigger] keeps_result(before, after, name) by {
        lemma_keeps(before, after, name);
    }
}

/// A service whose view has another job under one name is touched only there.
pub proof fn lemma_touches_only(
    before: TranscriptionService,
    after: TranscriptionService,
    name: Seq<char>,
)
    requires
        after.vad_service == before.vad_service,
        after@.results == before@.results,
        after@.finished == before@.finished,
        after@.jobs == before@.jobs || after@.jobs == before@.jobs.insert(name, after@.jobs[name]),
    ensures
        touches_only(before, after, name),
{
    lemma_view_of_service(before);
    lemma_view_of_service(after);
    assert forall|other: Seq<char>| other != name implies #[trigger] keeps_job(
        before,
        after,
        other,
    ) by {
        lemma_keeps(before, after, other);
    }
    assert forall|other: Seq<char>| #[trigger] keeps_result(before, after, other) by {
        lemma_keeps(before, after, other);
    }
}

/// A new service has no jobs and no results, and does not look for speech. One that is made to
/// look for it has the jobs and results that it had.
pub proof fn law_service_starts_empty(
    fresh: TranscriptionService,
    given: TranscriptionService,
    vad_service: VadService,
    looking: TranscriptionService,
    name: Seq<char>,
)
    requires
        call_ensures(TranscriptionService::new, (), fresh),
        call_ensures(TranscriptionService::with_vad, (given, vad_service), looking),
    ensures
        !fresh.jobs@.contains_key(name),
        !fresh.results@.contains_key(name),
        fresh.finished_jobs@.len() == 0,
        fresh.vad_service is None,
        keeps_job(given, looking, name),
        keeps_result(given, looking, name),
        over(looking) == over(given),
        looking.vad_service == Some(vad_service),
{
    lemma_view_of_service(fresh);
    lemma_view_of_service(given);
    lemma_view_of_service(looking);
    lemma_keeps(given, looking, name);
    assert(over(fresh).len() == 0);
}

/// A job is created just where there is none of its name. It waits, with nothing done, and every
/// other job is as it was. Where there is one, nothing is changed.
pub proof fn law_created_job_waits(
    service: &mut TranscriptionService,
    filename: String,
    r: Result<(), String>,
)
    requires
        call_ensures(TranscriptionService::create_job, (service, filename), r),
    ensures
        r is Ok <==> !old(service).jobs@.contains_key(filename@),
        r is Ok ==> is_new(*old(service), *final(service), filename@),
        r matches Err(e) ==> e@ == "Job already exists"@ && touches_nothing(
            *old(service),
            *final(service),
        ),
{
    lemma_view_of_service(*old(service));
    lemma_view_of_service(*final(service));
    if r is Ok {
        lemma_touches_only(*old(service), *final(service), filename@);
        assert(final(service)@.jobs.contains_key(filename@));
        assert(final(service)@.jobs[filename@] == final(service).jobs@[filename@]@);
    } else {
        lemma_touches_nothing(*old(service), *final(service));
    }
}

/// A job and its result are read as they are kept.
pub proof fn law_jobs_are_read_as_kept(
    service: &TranscriptionService,
    filename: &str,
    job: Option<TranscriptionJob>,
    result: Option<TranscriptionResult>,
)
    requires
        call_ensures(TranscriptionService::get_job_status, (service, filename), job),
        call_ensures(TranscriptionService::get_result, (service, filename), result),
    ensures
        job is Some <==> service.jobs@.contains_key(filename@),
        job matches Some(job) ==> same_job(job, service.jobs@[filename@]),
        result is Some <==> service.results@.contains_key(filename@),
        result matches Some(result) ==> same_result(result, service.results@[filename@]),
{
    lemma_view_of_service(*service);
    if let Some(job) = job {
        assert(service@.jobs[filename@] == service.jobs@[filename@]@);
    }
    if let Some(result) = result {
        assert(service@.results[filename@] == service.results@[filename@]@);
        lemma_same_result(result, service.results@[filename@]);
    }
}

/// A job that is begun is being processed, with nothing done; a name without a job stays without
/// one. No other job is touched.
pub proof fn law_begun_job_is_processed(service: &mut TranscriptionService, filename: &str)
    requires
        call_ensures(TranscriptionService::begin_job, (service, filename), ()),
    ensures
        is_begun(*old(service), *final(service), filename@),
{
    lemma_begun(*old(service), *final(service), filename@);
}

/// What beginning a job does.
pub proof fn lemma_begun(
    before: TranscriptionService,
    after: TranscriptionService,
    name: Seq<char>,
)
    requires
        after@ == before@.started(name),
        after.vad_service == before.vad_service,
    ensures
        is_begun(before, after, name),
{
    lemma_view_of_service(before);
    lemma_view_of_service(after);
    lemma_touches_only(before, after, name);
    if before@.jobs.contains_key(name) {
        assert(before@.jobs[name] == before.jobs@[name]@);
        assert(after@.jobs[name] == after.jobs@[name]@);
    }
}

/// Progress is noted as it is told, and changes nothing else.
pub proof fn law_progress_is_noted(
    service: &mut TranscriptionService,
    filename: &str,
    progress: Progress,
)
    requires
        call_ensures(
            TranscriptionService::update_job_progress,
            (service, filename, progress),
            (),
        ),
    ensures
        has_come(*old(service), *final(service), filename@, progress),
{
    lemma_come(*old(service), *final(service), filename@, progress);
}

/// What noting progress does.
pub proof fn lemma_come(
    before: TranscriptionService,
    after: TranscriptionService,
    name: Seq<char>,
    progress: Progress,
)
    requires
        after@ == before@.progressed(name, progress),
        after.vad_service == before.vad_service,
    ensures
        has_come(before, after, name, progress),
{
    lemma_view_of_service(before);
    lemma_view_of_service(after);
    lemma_touches_only(before, after, name);
    if before@.jobs.contains_key(name) {
        assert(before@.jobs[name] == before.jobs@[name]@);
        assert(after@.jobs[name] == after.jobs@[name]@);
    }
}

/// What a job that has ended leaves behind, once it has its result or its error.
proof fn lemma_recorded(
    before: TranscriptionService,
    after: TranscriptionService,
    name: Seq<char>,
    gone: Seq<String>,
)
    requires
        after.vad_service == before.vad_service,
        gone.map_values(|name: String| name@) == before@.evicted_by(name),
        after@.finished == before@.recorded(name).finished,
        forall|x: Seq<char>| #[trigger]
            after@.jobs.contains_key(x) <==> before@.jobs.contains_key(x) && !before@.evicted_by(
                name,
            ).to_set().contains(x),
        forall|x: Seq<char>| #[trigger]
            after@.results.contains_key(x) ==> !before@.evicted_by(name).to_set().contains(x),
        forall|x: Seq<char>|
            x != name && #[trigger] after@.jobs.contains_key(x) ==> after@.jobs[x]
                == before@.jobs[x],
        forall|x: Seq<char>|
            x != name && !before@.evicted_by(name).to_set().contains(x) ==> {
                &&& #[trigger] after@.results.contains_key(x) == before@.results.contains_key(x)
                &&& before@.results.contains_key(x) ==> after@.results[x] == before@.results[x]
            },
    ensures
        ends_job(before, after, name, gone),
        forall|x: Seq<char>| #[trigger]
            goes(before, name, x) == before@.evicted_by(name).to_set().contains(x),
{
    lemma_view_of_service(before);
    lemma_view_of_service(after);
    let all = over(before).push(name);
    assert(before@.evicted_by(name) =~= all.take(surplus(before)));
    assert(gone.map_values(|name: String| name@).len() == gone.len());
    assert forall|i: int| 0 <= i < gone.len() implies (#[trigger] gone[i])@ == all[i] by {
        assert(gone.map_values(|name: String| name@)[i] == gone[i]@);
    }
    assert forall|x: Seq<char>| #[trigger]
        goes(before, name, x) == before@.evicted_by(name).to_set().contains(x) by {}
    assert forall|x: Seq<char>| #[trigger] goes(before, name, x) implies !after.jobs@.contains_key(
        x,
    ) && !after.results@.contains_key(x) by {
        assert(!after@.jobs.contains_key(x));
        assert(!after@.results.contains_key(x));
    }
    assert forall|x: Seq<char>| x != name && !goes(before, name, x) implies #[trigger] keeps_job(
        before,
        after,
        x,
    ) by {
        lemma_keeps(before, after, x);
        assert(after@.jobs.contains_key(x) == before@.jobs.contains_key(x));
    }
    assert forall|x: Seq<char>| x != name && !goes(before, name, x) implies #[trigger] keeps_result(
        before,
        after,
        x,
    ) by {
        lemma_keeps(before, after, x);
        assert(after@.results.contains_key(x) == before@.results.contains_key(x));
    }
}

/// What completing a job does.
pub proof fn lemma_completed(
    before: TranscriptionService,
    after: TranscriptionService,
    name: Seq<char>,
    result: TranscriptionResult,
    gone: Seq<String>,
)
    requires
        after@ == before@.completed(name, result@),
        after.vad_service == before.vad_service,
        gone.map_values(|name: String| name@) == before@.evicted_by(name),
    ensures
        ends_job(before, after, name, gone),
        has_result(before, after, name, result),
{
    lemma_recorded(before, after, name, gone);
    lemma_view_of_service(before);
    lemma_view_of_service(after);
    if !goes(before, name, name) {
        assert(after@.results.contains_key(name));
        assert(after@.results[name] == after.results@[name]@);
        lemma_same_result(after.results@[name], result);
        assert(after@.jobs.contains_key(name) == before@.jobs.contains_key(name));
        if before@.jobs.contains_key(name) {
            assert(before@.jobs[name] == before.jobs@[name]@);
            assert(after@.jobs[name] == after.jobs@[name]@);
        }
    }
}

/// What failing a job does.
pub proof fn lemma_failed(
    before: TranscriptionService,
    after: TranscriptionService,
    name: Seq<char>,
    error: Seq<char>,
    gone: Seq<String>,
)
    requires
        after@ == before@.failed(name, error),
        after.vad_service == before.vad_service,
        gone.map_values(|name: String| name@) == before@.evicted_by(name),
    ensures
        ends_job(before, after, name, gone),
        has_failed(before, after, name, error),
{
    lemma_recorded(before, after, name, gone);
    lemma_view_of_service(before);
    lemma_view_of_service(after);
    if !goes(before, name, name) {
        lemma_keeps(before, after, name);
        assert(after@.results.contains_key(name) == before@.results.contains_key(name));
        assert(after@.jobs.contains_key(name) == before@.jobs.contains_key(name));
        if before@.jobs.contains_key(name) {
            assert(before@.jobs[name] == before.jobs@[name]@);
            assert(after@.jobs[name] == after.jobs@[name]@);
        }
    }
}

/// A completed job has the very result that it was given, and is over as the latest. The oldest
/// jobs beyond the 200 that are kept are forgotten and told; no other job is touched.
pub proof fn law_completed_job_has_its_result(
    service: &mut TranscriptionService,
    filename: &str,
    result: TranscriptionResult,
    r: Vec<String>,
)
    requires
        call_ensures(TranscriptionService::complete_job, (service, filename, result), r),
    ensures
        ends_job(*old(service), *final(service), filename@, r@),
        has_result(*old(service), *final(service), filename@, result),
{
    lemma_completed(*old(service), *final(service), filename@, result, r@);
}

/// A failed job has the very error that it was given, and is over as the latest. The oldest jobs
/// beyond the 200 that are kept are forgotten and told; no other job is touched.
pub proof fn law_failed_job_has_its_error(
    service: &mut TranscriptionService,
    filename: &str,
    error: String,
    r: Vec<String>,
)
    requires
        call_ensures(TranscriptionService::fail_job, (service, filename, error), r),
    ensures
        ends_job(*old(service), *final(service), filename@, r@),
        has_failed(*old(service), *final(service), filename@, error@),
{
    lemma_failed(*old(service), *final(service), filename@, error@, r@);
}

/// A job that is recorded as over is the latest of those that are. The oldest beyond the 200 that
/// are kept are forgotten and told; no other job is touched, and this one only where it goes too.
pub proof fn law_recorded_job_is_over(
    service: &mut TranscriptionService,
    filename: &str,
    r: Vec<String>,
)
    requires
        call_ensures(TranscriptionService::record_finished_job, (service, filename), r),
    ensures
        ends_job(*old(service), *final(service), filename@, r@),
        !goes(*old(service), filename@, filename@) ==> {
            &&& keeps_job(*old(service), *final(service), filename@)
            &&& keeps_result(*old(service), *final(service), filename@)
        },
{
    lemma_recorded(*old(service), *final(service), filename@, r@);
    lemma_keeps(*old(service), *final(service), filename@);
}

/// The files of a job are named after it.
pub proof fn law_files_are_named_after_their_job(filename: &str, audio: String, result: String)
    requires
        call_ensures(audio_file_name, (filename,), audio),
        call_ensures(result_file_name, (filename,), result),
    ensures
        audio@ == filename@ + seq!['.', 'w', 'a', 'v'],
        result@ == filename@ + seq!['.', 'j', 's', 'o', 'n'],
{
    reveal_strlit(".wav");
    reveal_strlit(".json");
    assert(".wav"@ =~= seq!['.', 'w', 'a', 'v']);
    assert(".json"@ =~= seq!['.', 'j', 's', 'o', 'n']);
}

} // verus!
