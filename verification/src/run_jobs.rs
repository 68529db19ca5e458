//! The submitter's side of a run: what has come back for each job.
//!
//! A submitter sends its jobs over one connection and reads the outcomes as
//! they come, in any order and from any of the jobs. A bench that failed is
//! noted and the run goes on. The run is over when every job has completed,
//! and it fails as soon as one job fails or an outcome names a job that was
//! never sent.
use crate::orchestrator_protocol::{
    BenchComplete, BenchCompleteView, JobResponse, JobResponseView, JobResult as Outcome,
    JobResultView as OutcomeView,
};
use vstd::prelude::*;

verus! {

/// A bench that failed: its name and what the runner said.
#[derive(Debug, Clone, PartialEq, Eq)]
pub struct BenchFailure {
    pub bench_name: String,
    pub message: String,
}

/// A job that has been sent: its identifier and the machine type it asked
/// for.
#[derive(Debug, Clone, PartialEq, Eq)]
pub struct Submission {
    pub job_id: u128,
    pub machine_type: String,
}

/// What has come back for one job.
#[derive(Debug, Clone, PartialEq, Eq)]
pub struct JobResult {
    pub job_id: u128,
    pub machine_type: String,
    pub finished: bool,
    pub benches: Vec<BenchComplete>,
    pub failures: Vec<BenchFailure>,
}

/// How the run stands after an outcome.
#[derive(Debug, Clone, PartialEq, Eq)]
pub enum Progress {
    /// At least one job has not completed.
    Pending,
    /// Every job has completed.
    Finished,
    /// The run has failed, with this reason.
    Failed(String),
}

pub struct BenchFailureView {
    pub bench_name: Seq<char>,
    pub message: Seq<char>,
}

pub struct SubmissionView {
    pub job_id: u128,
    pub machine_type: Seq<char>,
}

pub struct JobResultView {
    pub job_id: u128,
    pub machine_type: Seq<char>,
    pub finished: bool,
    pub benches: Seq<BenchCompleteView>,
    pub failures: Seq<BenchFailureView>,
}

pub enum ProgressView {
    Pending,
    Finished,
    Failed(Seq<char>),
}

impl View for BenchFailure {
    type V = BenchFailureView;

    open spec fn view(&self) -> BenchFailureView {
        BenchFailureView { bench_name: self.bench_name@, message: self.message@ }
    }
}

impl View for Submission {
    type V = SubmissionView;

    open spec fn view(&self) -> SubmissionView {
        SubmissionView { job_id: self.job_id, machine_type: self.machine_type@ }
    }
}

/// The submissions of a list, each by its view.
pub open spec fn submissions_view(jobs: Seq<Submission>) -> Seq<SubmissionView> {
    Seq::new(jobs.len(), |i: int| jobs[i]@)
}

impl View for JobResult {
    type V = JobResultView;

    open spec fn view(&self) -> JobResultView {
        JobResultView {
            job_id: self.job_id,
            machine_type: self.machine_type@,
            finished: self.finished,
            benches: Seq::new(self.benches@.len(), |i: int| self.benches@[i]@),
            failures: Seq::new(self.failures@.len(), |i: int| self.failures@[i]@),
        }
    }
}

impl View for Progress {
    type V = ProgressView;

    open spec fn view(&self) -> ProgressView {
        match self {
            Progress::Pending => ProgressView::Pending,
            Progress::Finished => ProgressView::Finished,
            Progress::Failed(reason) => ProgressView::Failed(reason@),
        }
    }
}

/// The results of a list, each by its view.
pub open spec fn results_view(results: Seq<JobResult>) -> Seq<JobResultView> {
    Seq::new(results.len(), |i: int| results[i]@)
}

/// The place of the job `job_id` among `jobs`, or the number of jobs if it is
/// not among them.
pub open spec fn place_of(jobs: Seq<JobResultView>, job_id: u128) -> int
    decreases jobs.len(),
{
    if jobs.len() == 0 {
        0
    } else if jobs[0].job_id == job_id {
        0
    } else {
        1 + place_of(jobs.drop_first(), job_id)
    }
}

/// `place_of` names the first job with the identifier, and the number of jobs
/// only if none has it.
pub proof fn lemma_place_of(jobs: Seq<JobResultView>, job_id: u128)
    ensures
        0 <= place_of(jobs, job_id) <= jobs.len(),
        place_of(jobs, job_id) < jobs.len() ==> jobs[place_of(jobs, job_id)].job_id == job_id,
        forall|i: int| 0 <= i < place_of(jobs, job_id) ==> (#[trigger] jobs[i]).job_id != job_id,
    decreases jobs.len(),
{
    if jobs.len() > 0 && jobs[0].job_id != job_id {
        let rest = jobs.drop_first();
        lemma_place_of(rest, job_id);
        assert forall|i: int| 0 <= i < place_of(jobs, job_id) implies (#[trigger] jobs[i]).job_id
            != job_id by {
            if i > 0 {
                assert(jobs[i] == rest[i - 1]);
            }
        }
    }
}

/// Every job has completed.
pub open spec fn all_finished(jobs: Seq<JobResultView>) -> bool {
    forall|i: int| 0 <= i < jobs.len() ==> (#[trigger] jobs[i]).finished
}

/// What is said when an outcome names a job that was never sent.
pub open spec fn unknown_job_message(outcome: OutcomeView) -> Seq<char> {
    match outcome {
        OutcomeView::BenchComplete(_) => "BenchComplete contained unknown job_id"@,
        OutcomeView::BenchError { .. } => "BenchError contained unknown job_id"@,
        _ => "JobComplete contained unknown job_id"@,
    }
}

/// What is said when the connection closes before the run is over.
pub open spec fn closed_early_message() -> Seq<char> {
    "Connection was closed before all jobs were finished"@
}

/// How the run stands when these are the results so far.
pub open spec fn standing(jobs: Seq<JobResultView>) -> ProgressView {
    if all_finished(jobs) {
        ProgressView::Finished
    } else {
        ProgressView::Pending
    }
}

/// The results after `response` has come, and how the run stands then. The
/// failure of a job fails the run with the job's message. Any other outcome
/// must name a job of the run and is added to what that job has: a
/// measurement, the failure of one bench, or the completion of the job.
pub open spec fn received(jobs: Seq<JobResultView>, response: JobResponseView) -> (
    Seq<JobResultView>,
    ProgressView,
) {
    let at = place_of(jobs, response.job_id);
    match response.result {
        OutcomeView::JobError(message) => (jobs, ProgressView::Failed(message)),
        outcome => if at >= jobs.len() {
            (jobs, ProgressView::Failed(unknown_job_message(outcome)))
        } else {
            let job = jobs[at];
            let updated = match outcome {
                OutcomeView::BenchComplete(bench) => JobResultView {
                    benches: job.benches.push(bench),
                    ..job
                },
                OutcomeView::BenchError { bench_name, message } => JobResultView {
                    failures: job.failures.push(BenchFailureView { bench_name, message }),
                    ..job
                },
                _ => JobResultView { finished: true, ..job },
            };
            (jobs.update(at, updated), standing(jobs.update(at, updated)))
        },
    }
}

/// What the submitter knows of its jobs.
pub struct JobTracker {
    jobs: Vec<JobResult>,
}

impl View for JobTracker {
    type V = Seq<JobResultView>;

    closed spec fn view(&self) -> Seq<JobResultView> {
        results_view(self.jobs@)
    }
}

/// The first `n` of `jobs` without those whose identifier an earlier one has:
/// an identifier names one job, the first that was given with it.
pub open spec fn distinct_upto(jobs: Seq<SubmissionView>, n: int) -> Seq<SubmissionView>
    decreases n,
{
    if n <= 0 {
        Seq::empty()
    } else {
        let before = distinct_upto(jobs, n - 1);
        if exists|j: int| 0 <= j < n - 1 && (#[trigger] jobs[j]).job_id == jobs[n - 1].job_id {
            before
        } else {
            before.push(jobs[n - 1])
        }
    }
}

/// The result of a job that has been sent and not answered yet.
pub open spec fn unanswered_job(job: SubmissionView) -> JobResultView {
    JobResultView {
        job_id: job.job_id,
        machine_type: job.machine_type,
        finished: false,
        benches: Seq::empty(),
        failures: Seq::empty(),
    }
}

/// The results of a run that has just sent its jobs: one for each
/// identifier, nothing received.
pub open spec fn unanswered(jobs: Seq<SubmissionView>) -> Seq<JobResultView> {
    let distinct = distinct_upto(jobs, jobs.len() as int);
    Seq::new(distinct.len(), |i: int| unanswered_job(distinct[i]))
}

/// The identifiers that `distinct_upto` keeps are those that occur.
pub proof fn lemma_distinct_upto(jobs: Seq<SubmissionView>, n: int, id: u128)
    requires
        0 <= n <= jobs.len(),
    ensures
        (exists|k: int|
            0 <= k < distinct_upto(jobs, n).len() && (#[trigger] distinct_upto(jobs, n)[k]).job_id
                == id) <==> (exists|j: int| 0 <= j < n && (#[trigger] jobs[j]).job_id == id),
    decreases n,
{
    if n > 0 {
        lemma_distinct_upto(jobs, n - 1, id);
        let before = distinct_upto(jobs, n - 1);
        let now = distinct_upto(jobs, n);
        let last = jobs[n - 1];
        let repeated = exists|j: int| 0 <= j < n - 1 && (#[trigger] jobs[j]).job_id == last.job_id;
        if exists|k: int| 0 <= k < now.len() && (#[trigger] now[k]).job_id == id {
            let k = choose|k: int| 0 <= k < now.len() && (#[trigger] now[k]).job_id == id;
            if k < before.len() {
                assert(before[k].job_id == id);
                let j = choose|j: int| 0 <= j < n - 1 && (#[trigger] jobs[j]).job_id == id;
                assert(jobs[j].job_id == id);
            } else {
                assert(jobs[n - 1].job_id == id);
            }
        }
        if exists|j: int| 0 <= j < n && (#[trigger] jobs[j]).job_id == id {
            let j = choose|j: int| 0 <= j < n && (#[trigger] jobs[j]).job_id == id;
            if j < n - 1 {
                assert(jobs[j].job_id == id);
                let k = choose|k: int| 0 <= k < before.len() && (#[trigger] before[k]).job_id == id;
                assert(now[k].job_id == id);
            } else if repeated {
                lemma_distinct_upto(jobs, n - 1, last.job_id);
                let k = choose|k: int|
                    0 <= k < before.len() && (#[trigger] before[k]).job_id == last.job_id;
                assert(now[k].job_id == id);
            } else {
                assert(now[before.len() as int].job_id == id);
            }
        }
    }
}

impl JobTracker {
    /// The tracker of a run that has just sent `jobs`. An identifier that is
    /// given twice names one job, the first.
    pub fn new(jobs: &Vec<Submission>) -> (r: JobTracker)
        ensures
            r@ == unanswered(submissions_view(jobs@)),
    {
        let ghost given = submissions_view(jobs@);
        let mut tracker = JobTracker { jobs: Vec::new() };
        let mut i: usize = 0;
        while i < jobs.len()
            invariant
                i <= jobs.len(),
                given == submissions_view(jobs@),
                tracker@.len() == distinct_upto(given, i as int).len(),
                forall|k: int|
                    0 <= k < tracker@.len() ==> #[trigger] tracker@[k] == unanswered_job(
                        distinct_upto(given, i as int)[k],
                    ),
            decreases jobs.len() - i,
        {
            let job_id = jobs[i].job_id;
            let at = tracker.find(job_id);
            let ghost before = tracker@;
            let ghost distinct = distinct_upto(given, i as int);
            proof {
                lemma_distinct_upto(given, i as int, job_id);
                lemma_place_of(before, job_id);
                if at < before.len() {
                    assert(before[at as int].job_id == job_id);
                    assert(distinct[at as int].job_id == job_id);
                } else if exists|j: int| 0 <= j < i && (#[trigger] given[j]).job_id == job_id {
                    let k = choose|k: int|
                        0 <= k < distinct.len() && (#[trigger] distinct[k]).job_id == job_id;
                    assert(before[k].job_id == job_id);
                }
            }
            if at >= tracker.jobs.len() {
                let job = JobResult {
                    job_id,
                    machine_type: jobs[i].machine_type.clone(),
                    finished: false,
                    benches: Vec::new(),
                    failures: Vec::new(),
                };
                proof {
                    assert(job@.benches =~= Seq::empty());
                    assert(job@.failures =~= Seq::empty());
                }
                tracker.jobs.push(job);
                proof {
                    assert(tracker@ =~= before.push(job@));
                }
            }
            i += 1;
        }
        tracker
    }

    /// The number of jobs of the run.
    pub fn len(&self) -> (r: usize)
        ensures
            r == self@.len(),
    {
        self.jobs.len()
    }

    /// Whether every job has completed. A run without jobs is never over by
    /// an outcome, for none will come.
    pub fn all_finished(&self) -> (r: bool)
        ensures
            r == all_finished(self@),
    {
        let mut i: usize = 0;
        while i < self.jobs.len()
            invariant
                i <= self.jobs.len(),
                forall|j: int| 0 <= j < i ==> (#[trigger] self@[j]).finished,
            decreases self.jobs.len() - i,
        {
            if !self.jobs[i].finished {
                proof {
                    assert(!self@[i as int].finished);
                }
                return false;
            }
            i += 1;
        }
        true
    }

    fn find(&self, job_id: u128) -> (r: usize)
        ensures
            r == place_of(self@, job_id),
            r <= self.jobs.len(),
    {
        let mut i: usize = 0;
        while i < self.jobs.len()
            invariant
                i <= self.jobs.len(),
                forall|j: int| 0 <= j < i ==> (#[trigger] self@[j]).job_id != job_id,
            decreases self.jobs.len() - i,
        {
            if self.jobs[i].job_id == job_id {
                proof {
                    lemma_place_of(self@, job_id);
                    assert(self@[i as int].job_id == job_id);
                }
                return i;
            }
            i += 1;
        }
        proof {
            lemma_place_of(self@, job_id);
            let at = place_of(self@, job_id);
            if at < self@.len() {
                assert(self@[at].job_id == job_id);
            }
        }
        i
    }

    /// Takes one outcome from the connection and says how the run stands.
    pub fn on_response(&mut self, response: JobResponse) -> (r: Progress)
        ensures
            (final(self)@, r@) == received(old(self)@, response@),
    {
        let at = self.find(response.job_id);
        let ghost before = self@;
        match response.result {
            Outcome::JobError(message) => Progress::Failed(message),
            outcome => {
                if at >= self.jobs.len() {
                    let reason = match outcome {
                        Outcome::BenchComplete(_) => "BenchComplete contained unknown job_id",
                        Outcome::BenchError { .. } => "BenchError contained unknown job_id",
                        _ => "JobComplete contained unknown job_id",
                    };
                    return Progress::Failed(reason.to_owned());
                }
                let mut job = self.jobs.remove(at);
                let ghost old_job = job@;
                match outcome {
                    Outcome::BenchComplete(bench) => {
                        job.benches.push(bench);
                        proof {
                            assert(job@.benches =~= old_job.benches.push(bench@));
                        }
                    },
                    Outcome::BenchError { bench_name, message } => {
                        let failure = BenchFailure { bench_name, message };
                        job.failures.push(failure);
                        proof {
                            assert(job@.failures =~= old_job.failures.push(failure@));
                        }
                    },
                    _ => {
                        job.finished = true;
                    },
                }
                let ghost updated = job@;
                self.jobs.insert(at, job);
                proof {
                    assert(before[at as int] == old_job);
                    assert(self@ =~= before.update(at as int, updated));
                }
                if self.all_finished() {
                    Progress::Finished
                } else {
                    Progress::Pending
                }
            },
        }
    }

    /// What is said when the connection closes before the run is over.
    pub fn closed_early() -> (r: String)
        ensures
            r@ == closed_early_message(),
    {
        "Connection was closed before all jobs were finished".to_owned()
    }

    /// What has come back, job by job in the order the jobs were sent.
    pub fn into_results(self) -> (r: Vec<JobResult>)
        ensures
            results_view(r@) == self@,
    {
        self.jobs
    }
}

} // verus!
