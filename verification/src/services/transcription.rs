//! The jobs of the server, their results, and which of them are kept.

use crate::models::{
    JobView, Progress, ResultView, TranscriptionJob, TranscriptionResult, TranscriptionStatus,
};
use crate::services::vad::VadService;
use std::collections::VecDeque;
use vstd::hash_map::StringHashMap;
use vstd::prelude::*;
#[allow(unused_imports)]
use vstd::string::*;

verus! {

/// How many jobs that are over are kept.
pub const MAX_FINISHED_JOBS: usize = 200;

/// The jobs, the results, and the names of the jobs that are over, oldest first.
#[verifier::ext_equal]
pub struct ServiceView {
    pub jobs: Map<Seq<char>, JobView>,
    pub results: Map<Seq<char>, ResultView>,
    pub finished: Seq<Seq<char>>,
}

impl ServiceView {
    /// No jobs.
    pub open spec fn empty() -> ServiceView {
        ServiceView { jobs: Map::empty(), results: Map::empty(), finished: seq![] }
    }

    /// A new job waits to be processed.
    pub open spec fn created(self, name: Seq<char>) -> ServiceView {
        ServiceView {
            jobs: self.jobs.insert(
                name,
                JobView {
                    filename: name,
                    status: TranscriptionStatus::Pending,
                    progress: Progress::Started,
                    error: None,
                },
            ),
            ..self
        }
    }

    /// The job of this name, where there is one, becomes `job`.
    pub open spec fn with_job(self, name: Seq<char>, job: JobView) -> ServiceView {
        if self.jobs.contains_key(name) {
            ServiceView { jobs: self.jobs.insert(name, job), ..self }
        } else {
            self
        }
    }

    /// The job is being processed.
    pub open spec fn started(self, name: Seq<char>) -> ServiceView {
        self.with_job(
            name,
            JobView {
                status: TranscriptionStatus::Processing,
                progress: Progress::Started,
                ..self.jobs[name]
            },
        )
    }

    /// The job has come this far.
    pub open spec fn progressed(self, name: Seq<char>, progress: Progress) -> ServiceView {
        self.with_job(name, JobView { progress, ..self.jobs[name] })
    }

    /// The names that have to go once `name` is over too: the oldest of those beyond the limit.
    pub open spec fn evicted_by(self, name: Seq<char>) -> Seq<Seq<char>> {
        let finished = self.finished.push(name);
        if finished.len() > MAX_FINISHED_JOBS {
            finished.take(finished.len() - MAX_FINISHED_JOBS)
        } else {
            seq![]
        }
    }

    /// The job is over, and the jobs beyond the limit are forgotten.
    pub open spec fn recorded(self, name: Seq<char>) -> ServiceView {
        let evicted = self.evicted_by(name);
        ServiceView {
            jobs: self.jobs.remove_keys(evicted.to_set()),
            results: self.results.remove_keys(evicted.to_set()),
            finished: self.finished.push(name).skip(evicted.len() as int),
        }
    }

    /// The job has this result, before it is recorded as over.
    pub open spec fn answered(self, name: Seq<char>, result: ResultView) -> ServiceView {
        let done = self.with_job(
            name,
            JobView {
                status: TranscriptionStatus::Completed,
                progress: Progress::Finished,
                ..self.jobs[name]
            },
        );
        ServiceView { results: done.results.insert(name, result), ..done }
    }

    /// The job has ended with a result.
    pub open spec fn completed(self, name: Seq<char>, result: ResultView) -> ServiceView {
        self.answered(name, result).recorded(name)
    }

    /// The job has this error, before it is recorded as over.
    pub open spec fn given_up(self, name: Seq<char>, error: Seq<char>) -> ServiceView {
        self.with_job(
            name,
            JobView {
                status: TranscriptionStatus::Failed,
                error: Some(error),
                ..self.jobs[name]
            },
        )
    }

    /// The job has ended with an error.
    pub open spec fn failed(self, name: Seq<char>, error: Seq<char>) -> ServiceView {
        self.given_up(name, error).recorded(name)
    }

    /// What every step of a job keeps.
    pub open spec fn consistent(self) -> bool {
        // Each job is filed under its own name, carries an error just where it failed, and shows
        // that everything is done just where it is completed.
        &&& forall|name: Seq<char>| #[trigger]
            self.jobs.contains_key(name) ==> {
                &&& self.jobs[name].filename == name
                &&& self.jobs[name].status is Failed <==> self.jobs[name].error is Some
                &&& self.jobs[name].status is Completed <==> self.jobs[name].progress is Finished
            }
            // The jobs that are over are the finished ones.
        &&& forall|name: Seq<char>| #[trigger]
            self.finished.contains(name) <==> self.jobs.contains_key(name)
                && self.jobs[name].status.is_final()
        // There is a result just for the completed jobs.
        &&& forall|name: Seq<char>| #[trigger]
            self.results.contains_key(name) <==> self.jobs.contains_key(name)
                && self.jobs[name].status is Completed
        // No job is over twice, and no more than the limit are kept.
        &&& self.finished.no_duplicates()
        &&& self.finished.len() <= MAX_FINISHED_JOBS
    }

    /// Whether there is a job of this name that is not over.
    pub open spec fn is_open(self, name: Seq<char>) -> bool {
        self.jobs.contains_key(name) && !self.jobs[name].status.is_final()
    }
}

/// The jobs and results of the server.
pub struct TranscriptionService {
    pub jobs: StringHashMap<TranscriptionJob>,
    pub results: StringHashMap<TranscriptionResult>,
    pub finished_jobs: VecDeque<String>,
    pub vad_service: Option<VadService>,
}

impl View for TranscriptionService {
    type V = ServiceView;

    open spec fn view(&self) -> ServiceView {
        ServiceView {
            jobs: self.jobs@.map_values(|job: TranscriptionJob| job@),
            results: self.results@.map_values(|result: TranscriptionResult| result@),
            finished: self.finished_jobs@.map_values(|name: String| name@),
        }
    }
}

impl TranscriptionService {
    /// A service without jobs that does not look for speech.
    pub fn new() -> (r: TranscriptionService)
        ensures
            r@ == ServiceView::empty(),
            r.vad_service is None,
    {
        let r = TranscriptionService {
            jobs: StringHashMap::new(),
            results: StringHashMap::new(),
            finished_jobs: VecDeque::new(),
            vad_service: None,
        };
        assert(r@ =~= ServiceView::empty());
        r
    }

    /// Makes the service look for speech before it transcribes.
    pub fn with_vad(self, vad_service: VadService) -> (r: TranscriptionService)
        ensures
            r@ == self@,
            r.vad_service == Some(vad_service),
    {
        TranscriptionService { vad_service: Some(vad_service), ..self }
    }

    /// Files a new job, unless there is one of that name.
    pub fn create_job(&mut self, filename: String) -> (r: Result<(), String>)
        ensures
            match r {
                Ok(_) => {
                    &&& !old(self)@.jobs.contains_key(filename@)
                    &&& final(self)@ == old(self)@.created(filename@)
                },
                Err(e) => {
                    &&& old(self)@.jobs.contains_key(filename@)
                    &&& e@ == "Job already exists"@
                    &&& *final(self) == *old(self)
                },
            },
            final(self).vad_service == old(self).vad_service,
    {
        if self.jobs.contains_key(filename.as_str()) {
            return Err("Job already exists".to_string());
        }
        let ghost before = self@;
        let job = TranscriptionJob {
            filename: filename.clone(),
            status: TranscriptionStatus::Pending,
            progress: Progress::Started,
            error: None,
        };
        self.jobs.insert(filename, job);
        assert(self@ =~= before.created(filename@));
        Ok(())
    }

    /// The job of this name.
    pub fn get_job_status(&self, filename: &str) -> (r: Option<TranscriptionJob>)
        ensures
            match r {
                Some(job) => self@.jobs.contains_key(filename@) && job@ == self@.jobs[filename@],
                None => !self@.jobs.contains_key(filename@),
            },
    {
        match self.jobs.get(filename) {
            Some(job) => Some(job.clone()),
            None => None,
        }
    }

    /// The result of the job of this name.
    pub fn get_result(&self, filename: &str) -> (r: Option<TranscriptionResult>)
        ensures
            match r {
                Some(result) => {
                    &&& self@.results.contains_key(filename@)
                    &&& result@ == self@.results[filename@]
                },
                None => !self@.results.contains_key(filename@),
            },
    {
        match self.results.get(filename) {
            Some(result) => Some(result.clone()),
            None => None,
        }
    }

    /// Replaces the job of this name by what `job` says of it.
    fn put_job(&mut self, filename: &str, job: TranscriptionJob)
        requires
            old(self)@.jobs.contains_key(filename@),
        ensures
            final(self)@ == old(self)@.with_job(filename@, job@),
            final(self).vad_service == old(self).vad_service,
    {
        let ghost before = self@;
        self.jobs.insert(filename.to_string(), job);
        assert(self@ =~= before.with_job(filename@, job@));
    }

    /// Notes that a job is being processed.
    pub fn begin_job(&mut self, filename: &str)
        ensures
            final(self)@ == old(self)@.started(filename@),
            final(self).vad_service == old(self).vad_service,
    {
        if let Some(job) = self.get_job_status(filename) {
            let next = TranscriptionJob {
                filename: job.filename,
                status: TranscriptionStatus::Processing,
                progress: Progress::Started,
                error: job.error,
            };
            self.put_job(filename, next);
        }
    }

    /// Notes how far a job has come.
    pub fn update_job_progress(&mut self, filename: &str, progress: Progress)
        ensures
            final(self)@ == old(self)@.progressed(filename@, progress),
            final(self).vad_service == old(self).vad_service,
    {
        if let Some(job) = self.get_job_status(filename) {
            let next = TranscriptionJob {
                filename: job.filename,
                status: job.status,
                progress,
                error: job.error,
            };
            self.put_job(filename, next);
        }
    }

    /// Ends a job with a result. Returns the names of the jobs that are forgotten for it, whose
    /// files can go.
    pub fn complete_job(&mut self, filename: &str, result: TranscriptionResult) -> (r: Vec<String>)
        ensures
            final(self)@ == old(self)@.completed(filename@, result@),
            final(self).vad_service == old(self).vad_service,
            r@.map_values(|name: String| name@) == old(self)@.evicted_by(filename@),
    {
        let ghost before = self@;
        if let Some(job) = self.get_job_status(filename) {
            let next = TranscriptionJob {
                filename: job.filename,
                status: TranscriptionStatus::Completed,
                progress: Progress::Finished,
                error: job.error,
            };
            self.put_job(filename, next);
        }
        let ghost done = self@;
        self.results.insert(filename.to_string(), result);
        assert(self@ =~= (ServiceView { results: done.results.insert(filename@, result@), ..done }));
        assert(self@ == before.answered(filename@, result@));
        self.record_finished_job(filename)
    }

    /// Ends a job with an error. Returns the names of the jobs that are forgotten for it, whose
    /// files can go.
    pub fn fail_job(&mut self, filename: &str, error: String) -> (r: Vec<String>)
        ensures
            final(self)@ == old(self)@.failed(filename@, error@),
            final(self).vad_service == old(self).vad_service,
            r@.map_values(|name: String| name@) == old(self)@.evicted_by(filename@),
    {
        let ghost before = self@;
        if let Some(job) = self.get_job_status(filename) {
            let next = TranscriptionJob {
                filename: job.filename,
                status: TranscriptionStatus::Failed,
                progress: job.progress,
                error: Some(error),
            };
            self.put_job(filename, next);
        }
        assert(self@ == before.given_up(filename@, error@));
        self.record_finished_job(filename)
    }

    /// Records that a job is over, and forgets the oldest jobs beyond the limit.
    pub fn record_finished_job(&mut self, filename: &str) -> (r: Vec<String>)
        ensures
            final(self)@ == old(self)@.recorded(filename@),
            final(self).vad_service == old(self).vad_service,
            r@.map_values(|name: String| name@) == old(self)@.evicted_by(filename@),
    {
        let ghost before = self@;
        let ghost names = before.finished.push(filename@);
        self.finished_jobs.push_back(filename.to_string());
        assert(self@.finished =~= names);
        let mut evicted: Vec<String> = Vec::new();
        assert(names.skip(0) =~= names);
        assert(names.take(0) =~= seq![]);
        while self.finished_jobs.len() > MAX_FINISHED_JOBS
            invariant
                self.jobs == old(self).jobs,
                self.results == old(self).results,
                self.vad_service == old(self).vad_service,
                evicted@.len() <= names.len(),
                evicted@.len() == 0 || names.len() - evicted@.len() >= MAX_FINISHED_JOBS,
                evicted@.map_values(|name: String| name@) == names.take(evicted@.len() as int),
                self.finished_jobs@.map_values(|name: String| name@) == names.skip(
                    evicted@.len() as int,
                ),
            decreases self.finished_jobs@.len(),
        {
            let ghost left = self.finished_jobs@;
            let ghost taken = evicted@;
            assert(left.map_values(|name: String| name@).len() == left.len());
            if let Some(name) = self.finished_jobs.pop_front() {
                evicted.push(name);
                proof {
                    assert(left.map_values(|name: String| name@)[0] == name@);
                    assert(names[taken.len() as int] == name@);
                    assert(evicted@.map_values(|name: String| name@) =~= taken.map_values(
                        |name: String| name@,
                    ).push(name@));
                    assert(names.take(taken.len() as int + 1) =~= names.take(taken.len() as int).push(
                        name@,
                    ));
                    assert(self.finished_jobs@.map_values(|name: String| name@)
                        =~= left.map_values(|name: String| name@).skip(1));
                    assert(names.skip(taken.len() as int).skip(1) =~= names.skip(
                        taken.len() as int + 1,
                    ));
                }
            }
        }
        let ghost gone = evicted@.map_values(|name: String| name@);
        proof {
            assert(self.finished_jobs@.map_values(|name: String| name@).len()
                == self.finished_jobs@.len());
            assert(gone.len() == evicted@.len());
            assert(gone =~= before.evicted_by(filename@));
            assert(gone.take(0).to_set() =~= Set::empty());
            assert(before.jobs.remove_keys(Set::empty()) =~= before.jobs);
            assert(before.results.remove_keys(Set::empty()) =~= before.results);
        }
        let mut i: usize = 0;
        while i < evicted.len()
            invariant
                i <= evicted@.len(),
                gone == evicted@.map_values(|name: String| name@),
                self.vad_service == old(self).vad_service,
                self@.finished == names.skip(gone.len() as int),
                self@.jobs == before.jobs.remove_keys(gone.take(i as int).to_set()),
                self@.results == before.results.remove_keys(gone.take(i as int).to_set()),
            decreases evicted.len() - i,
        {
            let ghost jobs = self@.jobs;
            let ghost results = self@.results;
            self.jobs.remove(evicted[i].as_str());
            self.results.remove(evicted[i].as_str());
            proof {
                let name = gone[i as int];
                assert(name == evicted@[i as int]@);
                assert(self@.jobs =~= jobs.remove(name));
                assert(self@.results =~= results.remove(name));
                assert(gone.take(i + 1) =~= gone.take(i as int).push(name));
                lemma_set_of_push(gone.take(i as int), name);
                assert(self@.jobs =~= before.jobs.remove_keys(gone.take(i + 1).to_set()));
                assert(self@.results =~= before.results.remove_keys(gone.take(i + 1).to_set()));
            }
            i = i + 1;
        }
        assert(gone.take(i as int) =~= gone);
        assert(self@ =~= before.recorded(filename@));
        evicted
    }
}

proof fn lemma_set_of_push(names: Seq<Seq<char>>, name: Seq<char>)
    ensures
        names.push(name).to_set() == names.to_set().insert(name),
{
    assert forall|x: Seq<char>| #[trigger]
        names.push(name).to_set().contains(x) == names.to_set().insert(name).contains(x) by {
        if names.contains(x) {
            let i = choose|i: int| 0 <= i < names.len() && names[i] == x;
            assert(names.push(name)[i] == x);
        }
        if x == name {
            assert(names.push(name)[names.len() as int] == x);
        }
        if names.push(name).contains(x) {
            let i = choose|i: int| 0 <= i < names.push(name).len() && names.push(name)[i] == x;
            if i < names.len() {
                assert(names[i] == x);
            }
        }
    }
    assert(names.push(name).to_set() =~= names.to_set().insert(name));
}

/// The name of the file that the audio of a job is stored in.
pub open spec fn audio_file(filename: Seq<char>) -> Seq<char> {
    filename + ".wav"@
}

/// The name of the file that the result of a job is stored in.
pub open spec fn result_file(filename: Seq<char>) -> Seq<char> {
    filename + ".json"@
}

/// The name of the file that the audio of a job is stored in.
pub fn audio_file_name(filename: &str) -> (r: String)
    ensures
        r@ == audio_file(filename@),
{
    let mut r = filename.to_string();
    r.append(".wav");
    r
}

/// The name of the file that the result of a job is stored in.
pub fn result_file_name(filename: &str) -> (r: String)
    ensures
        r@ == result_file(filename@),
{
    let mut r = filename.to_string();
    r.append(".json");
    r
}

/// No two jobs share a file, and no job stores its audio and its result in the same one.
pub proof fn law_files_are_distinct(a: Seq<char>, b: Seq<char>)
    ensures
        a != b ==> audio_file(a) != audio_file(b) && result_file(a) != result_file(b),
        audio_file(a) != result_file(b),
{
    reveal_strlit(".wav");
    reveal_strlit(".json");
    let wav_a = audio_file(a);
    let wav_b = audio_file(b);
    let json_a = result_file(a);
    let json_b = result_file(b);
    assert(wav_a.take(a.len() as int) =~= a && wav_b.take(b.len() as int) =~= b);
    assert(json_a.take(a.len() as int) =~= a && json_b.take(b.len() as int) =~= b);
    assert(wav_a.last() == 'v' && json_b.last() == 'n');
}

} // verus!
