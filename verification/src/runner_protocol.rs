//! Messages exchanged between the orchestrator and a runner.
use crate::text::strings_view;
use vstd::prelude::*;

verus! {

/// One unit of work for a runner: the binary under test and what to do with it.
#[derive(Debug, Clone, PartialEq, Eq)]
pub struct JobRequest {
    pub job_id: u128,
    pub binary: Vec<u8>,
    pub ty: JobRequestType,
}

/// What a runner is asked to do with the binary.
#[derive(Debug, Clone, PartialEq, Eq)]
pub enum JobRequestType {
    /// Run exactly the benchmark of this name.
    RunBench { bench_name: String },
    /// Report the names of the benchmarks the binary holds.
    ListBenches,
}

/// The answer of a runner. A runner sends one per request, after the
/// handshake that opens its connection.
#[derive(Debug, Clone, PartialEq, Eq)]
pub struct JobResponse {
    pub job_id: u128,
    pub ty: JobResponseType,
}

#[derive(Debug, Clone, PartialEq, Eq)]
pub enum JobResponseType {
    /// First message of a connection: the machine type the runner serves.
    Handshake { machine_type: String },
    RunBench(BenchComplete),
    ListBenches { bench_names: Vec<String> },
    Error(String),
}

/// The measurement of one benchmark run. The wall time is a single-precision
/// number; it is carried as its bit pattern and never interpreted here.
#[derive(Debug, Clone, Copy, PartialEq, Eq)]
pub struct BenchComplete {
    pub wall_time: u32,
}

pub enum JobRequestTypeView {
    RunBench { bench_name: Seq<char> },
    ListBenches,
}

pub struct JobRequestView {
    pub job_id: u128,
    pub binary: Seq<u8>,
    pub ty: JobRequestTypeView,
}

pub enum JobResponseTypeView {
    Handshake { machine_type: Seq<char> },
    RunBench(BenchComplete),
    ListBenches { bench_names: Seq<Seq<char>> },
    Error(Seq<char>),
}

pub struct JobResponseView {
    pub job_id: u128,
    pub ty: JobResponseTypeView,
}

impl View for JobRequestType {
    type V = JobRequestTypeView;

    open spec fn view(&self) -> JobRequestTypeView {
        match self {
            JobRequestType::RunBench { bench_name } => JobRequestTypeView::RunBench {
                bench_name: bench_name@,
            },
            JobRequestType::ListBenches => JobRequestTypeView::ListBenches,
        }
    }
}

impl View for JobRequest {
    type V = JobRequestView;

    open spec fn view(&self) -> JobRequestView {
        JobRequestView { job_id: self.job_id, binary: self.binary@, ty: self.ty@ }
    }
}

impl View for JobResponseType {
    type V = JobResponseTypeView;

    open spec fn view(&self) -> JobResponseTypeView {
        match self {
            JobResponseType::Handshake { machine_type } => JobResponseTypeView::Handshake {
                machine_type: machine_type@,
            },
            JobResponseType::RunBench(complete) => JobResponseTypeView::RunBench(*complete),
            JobResponseType::ListBenches { bench_names } => JobResponseTypeView::ListBenches {
                bench_names: strings_view(bench_names@),
            },
            JobResponseType::Error(message) => JobResponseTypeView::Error(message@),
        }
    }
}

impl View for JobResponse {
    type V = JobResponseView;

    open spec fn view(&self) -> JobResponseView {
        JobResponseView { job_id: self.job_id, ty: self.ty@ }
    }
}

impl JobResponseTypeView {
    /// What `get_run_bench` reports for a response that is not a measurement.
    pub open spec fn run_bench_refusal(self) -> Seq<char> {
        match self {
            JobResponseTypeView::RunBench(_) => Seq::empty(),
            JobResponseTypeView::ListBenches { .. } => "Unexpected response ListBenches"@,
            JobResponseTypeView::Handshake { .. } => "Unexpected handshake"@,
            JobResponseTypeView::Error(message) => message,
        }
    }

    /// What `get_list_benches` reports for a response that is not a list of names.
    pub open spec fn list_benches_refusal(self) -> Seq<char> {
        match self {
            JobResponseTypeView::ListBenches { .. } => Seq::empty(),
            JobResponseTypeView::RunBench(_) => "Unexpected response RunBench"@,
            JobResponseTypeView::Handshake { .. } => "Unexpected handshake"@,
            JobResponseTypeView::Error(message) => message,
        }
    }
}

impl JobResponseType {
    /// The measurement, if this is the answer to a run; otherwise the reason
    /// it is not: the runner's own message for an error, else a note on the
    /// kind of response that came instead.
    pub fn get_run_bench(&self) -> (r: Result<&BenchComplete, String>)
        ensures
            match r {
                Ok(complete) => self@ == JobResponseTypeView::RunBench(*complete),
                Err(message) => !(self@ is RunBench) && message@ == self@.run_bench_refusal(),
            },
    {
        match self {
            JobResponseType::RunBench(x) => Ok(x),
            JobResponseType::ListBenches { .. } => Err(
                "Unexpected response ListBenches".to_owned(),
            ),
            JobResponseType::Handshake { .. } => Err("Unexpected handshake".to_owned()),
            JobResponseType::Error(err) => Err(err.clone()),
        }
    }

    /// The bench names, if this is the answer to a listing; otherwise the
    /// reason it is not, as for `get_run_bench`.
    pub fn get_list_benches(&self) -> (r: Result<&Vec<String>, String>)
        ensures
            match r {
                Ok(names) => self@ == (JobResponseTypeView::ListBenches {
                    bench_names: strings_view(names@),
                }) && *self == (JobResponseType::ListBenches { bench_names: *names }),
                Err(message) => !(self@ is ListBenches) && message@
                    == self@.list_benches_refusal(),
            },
    {
        match self {
            JobResponseType::ListBenches { bench_names } => Ok(bench_names),
            JobResponseType::RunBench(_) => Err("Unexpected response RunBench".to_owned()),
            JobResponseType::Handshake { .. } => Err("Unexpected handshake".to_owned()),
            JobResponseType::Error(err) => Err(err.clone()),
        }
    }
}

} // verus!
