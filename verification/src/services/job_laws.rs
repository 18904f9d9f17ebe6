//! What holds of the jobs whatever happens to them.

use crate::models::{Progress, ResultView};
use crate::services::transcription::{ServiceView, MAX_FINISHED_JOBS};
use vstd::prelude::*;

verus! {

/// A service starts out consistent.
pub proof fn law_empty_is_consistent()
    ensures
        ServiceView::empty().consistent(),
{
}

/// A new job keeps the jobs consistent, and it is open.
pub proof fn law_creating_keeps_consistency(s: ServiceView, name: Seq<char>)
    requires
        s.consistent(),
        !s.jobs.contains_key(name),
    ensures
        s.created(name).consistent(),
        s.created(name).is_open(name),
        s.created(name).jobs[name].status is Pending,
{
}

/// Starting an open job keeps the jobs consistent, and the job stays open.
pub proof fn law_starting_keeps_consistency(s: ServiceView, name: Seq<char>)
    requires
        s.consistent(),
        s.is_open(name),
    ensures
        s.started(name).consistent(),
        s.started(name).is_open(name),
        s.started(name).jobs[name].status is Processing,
{
}

/// Noting that a job which is not completed has come a part of the way keeps the jobs consistent
/// and changes no status.
pub proof fn law_progress_keeps_consistency(s: ServiceView, name: Seq<char>, progress: Progress)
    requires
        s.consistent(),
        !(progress is Finished),
        s.jobs.contains_key(name) ==> !(s.jobs[name].status is Completed),
    ensures
        s.progressed(name, progress).consistent(),
        s.progressed(name, progress).jobs.dom() == s.jobs.dom(),
        forall|other: Seq<char>| #[trigger]
            s.progressed(name, progress).jobs.contains_key(other) ==> s.progressed(
                name,
                progress,
            ).jobs[other].status == s.jobs[other].status,
{
    assert(s.progressed(name, progress).jobs.dom() =~= s.jobs.dom());
}

/// Completing an open job keeps the jobs consistent, and what was stored is what is read back.
pub proof fn law_completing_keeps_consistency(s: ServiceView, name: Seq<char>, result: ResultView)
    requires
        s.consistent(),
        s.is_open(name),
    ensures
        s.completed(name, result).consistent(),
        s.completed(name, result).jobs.contains_key(name),
        s.completed(name, result).jobs[name].status is Completed,
        s.completed(name, result).jobs[name].progress is Finished,
        s.completed(name, result).results.contains_key(name),
        s.completed(name, result).results[name] == result,
{
    assert(!s.finished.contains(name));
    lemma_recording(s.answered(name, result), name);
}

/// Failing an open job keeps the jobs consistent, and the error is what is read back.
pub proof fn law_failing_keeps_consistency(s: ServiceView, name: Seq<char>, error: Seq<char>)
    requires
        s.consistent(),
        s.is_open(name),
    ensures
        s.failed(name, error).consistent(),
        s.failed(name, error).jobs.contains_key(name),
        s.failed(name, error).jobs[name].status is Failed,
        s.failed(name, error).jobs[name].progress == s.jobs[name].progress,
        s.failed(name, error).jobs[name].error == Some(error),
        !s.failed(name, error).results.contains_key(name),
{
    assert(!s.finished.contains(name));
    lemma_recording(s.given_up(name, error), name);
}

/// A job that ends leaves every other job and its result alone, but for those that are
/// forgotten to stay within the limit: at most one, the one that has been over for the longest.
pub proof fn law_ending_leaves_other_jobs(
    s: ServiceView,
    name: Seq<char>,
    other: Seq<char>,
    result: ResultView,
    error: Seq<char>,
)
    requires
        s.consistent(),
        s.is_open(name),
        other != name,
    ensures
        ({
            let evicted = s.evicted_by(name);
            let completed = s.completed(name, result);
            let failed = s.failed(name, error);
            &&& evicted.len() <= 1
            &&& evicted.len() == 1 ==> s.finished.len() == MAX_FINISHED_JOBS && evicted[0]
                == s.finished[0]
            &&& if evicted.contains(other) {
                &&& !completed.jobs.contains_key(other) && !completed.results.contains_key(other)
                &&& !failed.jobs.contains_key(other) && !failed.results.contains_key(other)
            } else {
                &&& completed.jobs.contains_key(other) == s.jobs.contains_key(other)
                &&& failed.jobs.contains_key(other) == s.jobs.contains_key(other)
                &&& completed.results.contains_key(other) == s.results.contains_key(other)
                &&& failed.results.contains_key(other) == s.results.contains_key(other)
                &&& s.jobs.contains_key(other) ==> completed.jobs[other] == s.jobs[other]
                    && failed.jobs[other] == s.jobs[other]
                &&& s.results.contains_key(other) ==> completed.results[other] == s.results[other]
                    && failed.results[other] == s.results[other]
            }
        }),
{
    let evicted = s.evicted_by(name);
    assert(s.answered(name, result).evicted_by(name) == evicted);
    assert(s.given_up(name, error).evicted_by(name) == evicted);
    assert(evicted.to_set().contains(other) == evicted.contains(other));
}

/// A job that is not over is never forgotten when another one ends.
pub proof fn law_open_jobs_are_kept(
    s: ServiceView,
    name: Seq<char>,
    other: Seq<char>,
    result: ResultView,
    error: Seq<char>,
)
    requires
        s.consistent(),
        s.is_open(name),
        s.is_open(other),
        other != name,
    ensures
        s.completed(name, result).is_open(other),
        s.failed(name, error).is_open(other),
{
    law_ending_leaves_other_jobs(s, name, other, result, error);
    let evicted = s.evicted_by(name);
    if evicted.contains(other) {
        assert(s.finished.contains(s.finished[0]));
    }
}

/// A name stays taken until its job is forgotten: only then can a job of that name be created
/// again.
pub proof fn law_name_is_taken_until_forgotten(
    s: ServiceView,
    name: Seq<char>,
    result: ResultView,
    error: Seq<char>,
    progress: Progress,
)
    requires
        s.consistent(),
        s.is_open(name),
    ensures
        s.started(name).jobs.contains_key(name),
        s.progressed(name, progress).jobs.contains_key(name),
        s.completed(name, result).jobs.contains_key(name),
        s.failed(name, error).jobs.contains_key(name),
{
    law_completing_keeps_consistency(s, name, result);
    law_failing_keeps_consistency(s, name, error);
}

/// Recording a job that has just ended keeps it, and makes the jobs consistent again.
proof fn lemma_recording(s: ServiceView, name: Seq<char>)
    requires
        s.jobs.contains_key(name),
        s.jobs[name].status.is_final(),
        !s.finished.contains(name),
        forall|x: Seq<char>| #[trigger]
            s.jobs.contains_key(x) ==> {
                &&& s.jobs[x].filename == x
                &&& s.jobs[x].status is Failed <==> s.jobs[x].error is Some
                &&& s.jobs[x].status is Completed <==> s.jobs[x].progress is Finished
            },
        forall|x: Seq<char>|
            x != name ==> (#[trigger] s.finished.contains(x) <==> s.jobs.contains_key(x)
                && s.jobs[x].status.is_final()),
        forall|x: Seq<char>| #[trigger]
            s.results.contains_key(x) <==> s.jobs.contains_key(x) && s.jobs[x].status is Completed,
        s.finished.no_duplicates(),
        s.finished.len() <= MAX_FINISHED_JOBS,
    ensures
        s.recorded(name).consistent(),
        s.recorded(name).jobs.contains_key(name),
        s.recorded(name).jobs[name] == s.jobs[name],
        s.recorded(name).results.contains_key(name) == s.results.contains_key(name),
        s.results.contains_key(name) ==> s.recorded(name).results[name] == s.results[name],
{
    let all = s.finished.push(name);
    let evicted = s.evicted_by(name);
    let after = s.recorded(name);
    let n = evicted.len() as int;
    assert(n <= 1);
    assert(all.no_duplicates()) by {
        assert forall|i: int, j: int|
            0 <= i < all.len() && 0 <= j < all.len() && i != j implies all[i] != all[j] by {
            if i == s.finished.len() {
                assert(s.finished.contains(all[j]));
            } else if j == s.finished.len() {
                assert(s.finished.contains(all[i]));
            }
        }
    }
    assert(after.finished == all.skip(n));
    assert forall|x: Seq<char>| #[trigger] all.contains(x) == (s.jobs.contains_key(x)
        && s.jobs[x].status.is_final()) by {
        if all.contains(x) {
            let i = choose|i: int| 0 <= i < all.len() && all[i] == x;
            if i < s.finished.len() {
                assert(s.finished[i] == x);
                assert(s.finished.contains(x));
            }
        }
        if x == name {
            assert(all[s.finished.len() as int] == x);
        }
        if s.finished.contains(x) {
            let i = choose|i: int| 0 <= i < s.finished.len() && s.finished[i] == x;
            assert(all[i] == x);
        }
        if s.jobs.contains_key(x) && s.jobs[x].status.is_final() && x != name {
            assert(s.finished.contains(x));
        }
    }
    assert forall|x: Seq<char>| #[trigger]
        after.finished.contains(x) == (all.contains(x) && !evicted.contains(x)) by {
        if after.finished.contains(x) {
            let i = choose|i: int| 0 <= i < after.finished.len() && after.finished[i] == x;
            assert(all[i + n] == x);
            if evicted.contains(x) {
                let j = choose|j: int| 0 <= j < evicted.len() && evicted[j] == x;
                assert(all[j] == x);
            }
        }
        if all.contains(x) && !evicted.contains(x) {
            let i = choose|i: int| 0 <= i < all.len() && all[i] == x;
            if i < n {
                assert(evicted[i] == x);
            } else {
                assert(after.finished[i - n] == x);
            }
        }
    }
    assert forall|x: Seq<char>| #[trigger] evicted.contains(x) == evicted.to_set().contains(x) by {}
    assert(!evicted.contains(name)) by {
        if evicted.contains(name) {
            let j = choose|j: int| 0 <= j < evicted.len() && evicted[j] == name;
            assert(all[j] == name);
            assert(all[s.finished.len() as int] == name);
        }
    }
    assert forall|i: int, j: int|
        0 <= i < after.finished.len() && 0 <= j < after.finished.len() && i != j implies
        after.finished[i] != after.finished[j] by {
        assert(after.finished[i] == all[i + n]);
        assert(after.finished[j] == all[j + n]);
    }
    assert forall|x: Seq<char>| #[trigger]
        after.finished.contains(x) == (after.jobs.contains_key(x)
        && after.jobs[x].status.is_final()) by {
        assert(all.contains(x) == (s.jobs.contains_key(x) && s.jobs[x].status.is_final()));
        assert(evicted.contains(x) == evicted.to_set().contains(x));
    }
    assert forall|x: Seq<char>| #[trigger]
        after.results.contains_key(x) == (after.jobs.contains_key(x)
        && after.jobs[x].status is Completed) by {
        assert(s.results.contains_key(x) == (s.jobs.contains_key(x)
            && s.jobs[x].status is Completed));
    }
    assert forall|x: Seq<char>| #[trigger] after.jobs.contains_key(x) implies {
        &&& after.jobs[x].filename == x
        &&& after.jobs[x].status is Failed <==> after.jobs[x].error is Some
        &&& after.jobs[x].status is Completed <==> after.jobs[x].progress is Finished
    } by {
        assert(s.jobs.contains_key(x));
    }
}

} // verus!
