//! Messages exchanged between a submitter and the orchestrator.
use vstd::prelude::*;

verus! {

/// One benchmark submission: a binary to run on runners of one machine type.
#[derive(Debug, Clone, PartialEq, Eq)]
pub struct JobRequest {
    pub auth_token: u128,
    pub job_id: u128,
    pub binary: Vec<u8>,
    pub machine_type: String,
}

/// One message of the stream that answers a `JobRequest`.
#[derive(Debug, Clone, PartialEq, Eq)]
pub struct JobResponse {
    pub job_id: u128,
    pub result: JobResult,
}

/// What happened to a job or to one of its benchmarks. `JobComplete` and
/// `JobError` are terminal: one of them closes the stream of a job.
#[derive(Debug, Clone, PartialEq, Eq)]
pub enum JobResult {
    BenchComplete(BenchComplete),
    BenchError { bench_name: String, message: String },
    JobComplete,
    JobError(String),
}

/// One measurement of one named benchmark. The wall time is a
/// single-precision number carried as its bit pattern.
#[derive(Debug, Clone, PartialEq, Eq)]
pub struct BenchComplete {
    pub bench_name: String,
    pub keys: Vec<(String, String)>,
    pub wall_time: u32,
}

pub struct JobRequestView {
    pub auth_token: u128,
    pub job_id: u128,
    pub binary: Seq<u8>,
    pub machine_type: Seq<char>,
}

pub struct BenchCompleteView {
    pub bench_name: Seq<char>,
    pub keys: Seq<(Seq<char>, Seq<char>)>,
    pub wall_time: u32,
}

pub enum JobResultView {
    BenchComplete(BenchCompleteView),
    BenchError { bench_name: Seq<char>, message: Seq<char> },
    JobComplete,
    JobError(Seq<char>),
}

pub struct JobResponseView {
    pub job_id: u128,
    pub result: JobResultView,
}

/// The entries of a key list, each side as a sequence of characters.
pub open spec fn keys_view(keys: Seq<(String, String)>) -> Seq<(Seq<char>, Seq<char>)> {
    Seq::new(keys.len(), |i: int| (keys[i].0@, keys[i].1@))
}

impl View for JobRequest {
    type V = JobRequestView;

    open spec fn view(&self) -> JobRequestView {
        JobRequestView {
            auth_token: self.auth_token,
            job_id: self.job_id,
            binary: self.binary@,
            machine_type: self.machine_type@,
        }
    }
}

impl View for BenchComplete {
    type V = BenchCompleteView;

    open spec fn view(&self) -> BenchCompleteView {
        BenchCompleteView {
            bench_name: self.bench_name@,
            keys: keys_view(self.keys@),
            wall_time: self.wall_time,
        }
    }
}

impl View for JobResult {
    type V = JobResultView;

    open spec fn view(&self) -> JobResultView {
        match self {
            JobResult::BenchComplete(complete) => JobResultView::BenchComplete(complete@),
            JobResult::BenchError { bench_name, message } => JobResultView::BenchError {
                bench_name: bench_name@,
                message: message@,
            },
            JobResult::JobComplete => JobResultView::JobComplete,
            JobResult::JobError(message) => JobResultView::JobError(message@),
        }
    }
}

impl View for JobResponse {
    type V = JobResponseView;

    open spec fn view(&self) -> JobResponseView {
        JobResponseView { job_id: self.job_id, result: self.result@ }
    }
}

impl JobResultView {
    /// Whether this outcome closes the stream of its job.
    pub open spec fn is_terminal(self) -> bool {
        self is JobComplete || self is JobError
    }
}

impl JobResult {
    /// Whether this outcome closes the stream of its job.
    pub fn is_terminal(&self) -> (r: bool)
        ensures
            r == self@.is_terminal(),
    {
        match self {
            JobResult::JobComplete => true,
            JobResult::JobError(_) => true,
            _ => false,
        }
    }
}

} // verus!
