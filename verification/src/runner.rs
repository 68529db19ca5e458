//! The runner: what it does with one request, and how it keeps itself
//! connected to the orchestrator.
//!
//! A runner connects, says which machine type it serves, waits for exactly one
//! request, runs it, answers, and starts over with a new connection. Whenever
//! the connection cannot be made, or closes before a request has come, the
//! runner waits a fixed time and tries again. It never gives up.
use crate::bench_output::{
    bench_names, parse_bench_names, parse_wall_time_tokens, readings_view, select_wall_time,
    wall_time, wall_time_tokens, Reading, ReadingView,
};
use crate::cli::SandboxMode;
use crate::ids::{fresh_id, kind_bits, random_kind};
use crate::runner_protocol::{
    BenchComplete, JobRequest, JobRequestType, JobRequestTypeView, JobRequestView, JobResponse,
    JobResponseType, JobResponseTypeView, JobResponseView,
};
use crate::system::{args_view, run_sandboxed_binary, sandboxed, Invocation};
use crate::text::strings_view;
use vstd::prelude::*;

verus! {

/// The seconds a runner gives a connection attempt.
pub const CONNECT_TIMEOUT_SECONDS: u64 = 10;

/// The seconds a runner waits before it tries to connect again.
pub const RETRY_DELAY_SECONDS: u64 = 60;

/// The arguments that make a benchmark binary do what `ty` asks.
pub open spec fn bench_arguments_view(ty: JobRequestTypeView) -> Seq<Seq<char>> {
    match ty {
        JobRequestTypeView::ListBenches => seq!["--bench"@, "--list"@],
        JobRequestTypeView::RunBench { bench_name } => seq![
            "--bench"@,
            "--exact"@,
            bench_name,
            "--noplot"@,
            "--discard-baseline"@,
        ],
    }
}

/// The arguments that make a benchmark binary do what `ty` asks: list its
/// benches, or run the one bench of exactly this name, without plots and
/// without a comparison to earlier runs.
pub fn bench_arguments(ty: &JobRequestType) -> (r: Vec<String>)
    ensures
        strings_view(r@) == bench_arguments_view(ty@),
{
    let mut args: Vec<String> = Vec::new();
    args.push("--bench".to_owned());
    match ty {
        JobRequestType::ListBenches => {
            args.push("--list".to_owned());
        },
        JobRequestType::RunBench { bench_name } => {
            args.push("--exact".to_owned());
            args.push(bench_name.clone());
            args.push("--noplot".to_owned());
            args.push("--discard-baseline".to_owned());
        },
    }
    args
}

/// The command line that carries out `ty` on the binary at `binary_path`.
pub fn invocation(sandbox_mode: SandboxMode, binary_path: &str, ty: &JobRequestType) -> (r:
    Invocation)
    ensures
        r@ == sandboxed(sandbox_mode, binary_path@, bench_arguments_view(ty@)),
{
    let owned = bench_arguments(ty);
    let mut args: Vec<&str> = Vec::new();
    let mut i: usize = 0;
    while i < owned.len()
        invariant
            i <= owned.len(),
            args.len() == i,
            forall|j: int| 0 <= j < i ==> (#[trigger] args[j])@ == owned[j]@,
        decreases owned.len() - i,
    {
        args.push(owned[i].as_str());
        i += 1;
    }
    proof {
        assert(args_view(args@) =~= strings_view(owned@));
    }
    run_sandboxed_binary(sandbox_mode, binary_path, args.as_slice())
}

/// What a runner does next with a request whose command has run.
#[derive(Debug, Clone, PartialEq, Eq)]
pub enum Reply {
    /// Send this response.
    Done(JobResponse),
    /// Read these words as numbers, then call `finish_run_bench`.
    Numbers(Vec<String>),
}

pub enum ReplyView {
    Done(JobResponseView),
    Numbers(Seq<Seq<char>>),
}

impl View for Reply {
    type V = ReplyView;

    open spec fn view(&self) -> ReplyView {
        match self {
            Reply::Done(response) => ReplyView::Done(response@),
            Reply::Numbers(tokens) => ReplyView::Numbers(strings_view(tokens@)),
        }
    }
}

/// How the run of a command ended: with its output, or with the reason it
/// failed.
pub open spec fn run_view(run: Result<String, String>) -> Result<Seq<char>, Seq<char>> {
    match run {
        Ok(output) => Ok(output@),
        Err(message) => Err(message@),
    }
}

/// The response that reports `message` as the failure of the job `job_id`.
pub open spec fn failure(job_id: u128, message: Seq<char>) -> JobResponseView {
    JobResponseView { job_id, ty: JobResponseTypeView::Error(message) }
}

/// What follows from the run of the command of `request`. A command that
/// could not be started or did not succeed gives an error response with its
/// message. The output of a listing gives the names it lists. The output of a
/// run gives its wall-time words, still to be read as numbers, or an error
/// response that says what is wrong with the output.
pub open spec fn reply(request: JobRequestView, run: Result<Seq<char>, Seq<char>>) -> ReplyView {
    match run {
        Err(message) => ReplyView::Done(failure(request.job_id, message)),
        Ok(output) => match request.ty {
            JobRequestTypeView::ListBenches => ReplyView::Done(
                JobResponseView {
                    job_id: request.job_id,
                    ty: JobResponseTypeView::ListBenches { bench_names: bench_names(output) },
                },
            ),
            JobRequestTypeView::RunBench { .. } => match wall_time_tokens(output) {
                Ok(tokens) => ReplyView::Numbers(tokens),
                Err(e) => ReplyView::Done(failure(request.job_id, e.message())),
            },
        },
    }
}

/// The response to a run whose wall-time words have been read: the
/// measurement, or an error response that says which word is no number.
pub open spec fn finished(job_id: u128, readings: Seq<ReadingView>) -> JobResponseView {
    match wall_time(readings) {
        Ok(bits) => JobResponseView {
            job_id,
            ty: JobResponseTypeView::RunBench(BenchComplete { wall_time: bits }),
        },
        Err(e) => failure(job_id, e.message()),
    }
}

/// Takes the outcome of the command that was run for `request` and says what
/// the runner does next.
pub fn run_job_request(request: &JobRequest, run: &Result<String, String>) -> (r: Reply)
    ensures
        r@ == reply(request@, run_view(*run)),
{
    let job_id = request.job_id;
    match run {
        Err(message) => Reply::Done(
            JobResponse { job_id, ty: JobResponseType::Error(message.clone()) },
        ),
        Ok(output) => match &request.ty {
            JobRequestType::ListBenches => Reply::Done(
                JobResponse {
                    job_id,
                    ty: JobResponseType::ListBenches {
                        bench_names: parse_bench_names(output.as_str()),
                    },
                },
            ),
            JobRequestType::RunBench { .. } => match parse_wall_time_tokens(output.as_str()) {
                Ok(tokens) => Reply::Numbers(tokens),
                Err(e) => Reply::Done(
                    JobResponse { job_id, ty: JobResponseType::Error(e.message()) },
                ),
            },
        },
    }
}

/// Takes the wall-time words of a run together with the numbers they were
/// read as, and gives the response of the run.
pub fn finish_run_bench(job_id: u128, readings: &Vec<Reading>) -> (r: JobResponse)
    ensures
        r@ == finished(job_id, readings_view(readings@)),
{
    match select_wall_time(readings) {
        Ok(bits) => JobResponse {
            job_id,
            ty: JobResponseType::RunBench(BenchComplete { wall_time: bits }),
        },
        Err(e) => JobResponse { job_id, ty: JobResponseType::Error(e.message()) },
    }
}

/// Where a runner stands in its loop.
#[derive(Debug, Clone, Copy, PartialEq, Eq)]
pub enum AgentState {
    /// A connection attempt is under way.
    Connecting,
    /// Connected and introduced; no request has come yet.
    AwaitingRequest,
    /// The one request of this connection is being run.
    Executing,
    /// Waiting before the next connection attempt.
    Backoff,
}

/// What the caller reports to the runner's loop.
#[derive(Debug, Clone, PartialEq, Eq)]
pub enum AgentEvent {
    /// The connection attempt succeeded.
    Connected,
    /// The connection attempt failed or ran out of time.
    ConnectFailed,
    /// The orchestrator sent a request.
    RequestReceived(JobRequest),
    /// The connection closed.
    ConnectionClosed,
    /// The request has been run; this is its response.
    Executed(JobResponse),
    /// The wait is over.
    Waited,
}

/// What the runner's loop asks the caller to do.
#[derive(Debug, Clone, PartialEq, Eq)]
pub enum AgentAction {
    /// Try to connect to the orchestrator, for at most this long.
    Connect { timeout_seconds: u64 },
    /// Send this message over the connection.
    Send(JobResponse),
    /// Run this request and report its response.
    Execute(JobRequest),
    /// Wait this long and report back.
    Sleep { seconds: u64 },
}

pub enum AgentEventView {
    Connected,
    ConnectFailed,
    RequestReceived(JobRequestView),
    ConnectionClosed,
    Executed(JobResponseView),
    Waited,
}

pub enum AgentActionView {
    Connect { timeout_seconds: u64 },
    Send(JobResponseView),
    Execute(JobRequestView),
    Sleep { seconds: u64 },
}

impl View for AgentEvent {
    type V = AgentEventView;

    open spec fn view(&self) -> AgentEventView {
        match self {
            AgentEvent::Connected => AgentEventView::Connected,
            AgentEvent::ConnectFailed => AgentEventView::ConnectFailed,
            AgentEvent::RequestReceived(request) => AgentEventView::RequestReceived(request@),
            AgentEvent::ConnectionClosed => AgentEventView::ConnectionClosed,
            AgentEvent::Executed(response) => AgentEventView::Executed(response@),
            AgentEvent::Waited => AgentEventView::Waited,
        }
    }
}

impl View for AgentAction {
    type V = AgentActionView;

    open spec fn view(&self) -> AgentActionView {
        match self {
            AgentAction::Connect { timeout_seconds } => AgentActionView::Connect {
                timeout_seconds: *timeout_seconds,
            },
            AgentAction::Send(response) => AgentActionView::Send(response@),
            AgentAction::Execute(request) => AgentActionView::Execute(request@),
            AgentAction::Sleep { seconds } => AgentActionView::Sleep { seconds: *seconds },
        }
    }
}

/// The actions of a list, each by its view.
pub open spec fn agent_actions_view(actions: Seq<AgentAction>) -> Seq<AgentActionView> {
    Seq::new(actions.len(), |i: int| actions[i]@)
}

/// The connection attempt that opens every round of the loop.
pub open spec fn connect() -> AgentActionView {
    AgentActionView::Connect { timeout_seconds: CONNECT_TIMEOUT_SECONDS }
}

/// The wait that follows every failure.
pub open spec fn back_off() -> AgentActionView {
    AgentActionView::Sleep { seconds: RETRY_DELAY_SECONDS }
}

/// The message that introduces a runner of `machine_type`. Its identifier
/// names no job; `id` is any fresh one.
pub open spec fn handshake(machine_type: Seq<char>, id: u128) -> JobResponseView {
    JobResponseView { job_id: id, ty: JobResponseTypeView::Handshake { machine_type } }
}

/// The model of a runner's loop.
pub struct AgentView {
    pub machine_type: Seq<char>,
    pub state: AgentState,
}

impl AgentView {
    /// The transition of the loop on one event: the next state and the
    /// actions for the caller, in order. `id` is the identifier that a
    /// handshake carries, should this step send one. An event that does not
    /// fit the state changes nothing and asks for nothing.
    pub open spec fn step(self, event: AgentEventView, id: u128) -> (AgentView, Seq<AgentActionView>) {
        match (self.state, event) {
            (AgentState::Connecting, AgentEventView::Connected) => (
                AgentView { state: AgentState::AwaitingRequest, ..self },
                seq![AgentActionView::Send(handshake(self.machine_type, id))],
            ),
            (AgentState::Connecting, AgentEventView::ConnectFailed) => (
                AgentView { state: AgentState::Backoff, ..self },
                seq![back_off()],
            ),
            (AgentState::AwaitingRequest, AgentEventView::RequestReceived(request)) => (
                AgentView { state: AgentState::Executing, ..self },
                seq![AgentActionView::Execute(request)],
            ),
            (AgentState::AwaitingRequest, AgentEventView::ConnectionClosed) => (
                AgentView { state: AgentState::Backoff, ..self },
                seq![back_off()],
            ),
            (AgentState::Executing, AgentEventView::Executed(response)) => (
                AgentView { state: AgentState::Connecting, ..self },
                seq![AgentActionView::Send(response), connect()],
            ),
            (AgentState::Backoff, AgentEventView::Waited) => (
                AgentView { state: AgentState::Connecting, ..self },
                seq![connect()],
            ),
            _ => (self, Seq::empty()),
        }
    }
}

/// The loop of a runner.
pub struct Agent {
    machine_type: String,
    state: AgentState,
}

impl View for Agent {
    type V = AgentView;

    closed spec fn view(&self) -> AgentView {
        AgentView { machine_type: self.machine_type@, state: self.state }
    }
}

impl Agent {
    /// A runner of `machine_type` at the start of its loop, and its first
    /// action: a connection attempt.
    pub fn new(machine_type: String) -> (r: (Agent, Vec<AgentAction>))
        ensures
            r.0@ == (AgentView { machine_type: machine_type@, state: AgentState::Connecting }),
            agent_actions_view(r.1@) == seq![connect()],
    {
        let mut actions: Vec<AgentAction> = Vec::new();
        actions.push(AgentAction::Connect { timeout_seconds: CONNECT_TIMEOUT_SECONDS });
        (Agent { machine_type, state: AgentState::Connecting }, actions)
    }

    /// Where the loop stands.
    pub fn state(&self) -> (r: AgentState)
        ensures
            r == self@.state,
    {
        self.state
    }

    /// The machine type that the runner serves.
    pub fn machine_type(&self) -> (r: &String)
        ensures
            r@ == self@.machine_type,
    {
        &self.machine_type
    }

    /// Takes one event and returns what the caller is to do, in order, as the
    /// model's `step` has it. A handshake sent in this step carries `id`.
    pub fn advance(&mut self, event: AgentEvent, id: u128) -> (actions: Vec<AgentAction>)
        ensures
            (final(self)@, agent_actions_view(actions@)) == old(self)@.step(event@, id),
    {
        let mut actions: Vec<AgentAction> = Vec::new();
        match (self.state, event) {
            (AgentState::Connecting, AgentEvent::Connected) => {
                actions.push(
                    AgentAction::Send(
                        JobResponse {
                            job_id: id,
                            ty: JobResponseType::Handshake {
                                machine_type: self.machine_type.clone(),
                            },
                        },
                    ),
                );
                self.state = AgentState::AwaitingRequest;
            },
            (AgentState::Connecting, AgentEvent::ConnectFailed) => {
                actions.push(AgentAction::Sleep { seconds: RETRY_DELAY_SECONDS });
                self.state = AgentState::Backoff;
            },
            (AgentState::AwaitingRequest, AgentEvent::RequestReceived(request)) => {
                actions.push(AgentAction::Execute(request));
                self.state = AgentState::Executing;
            },
            (AgentState::AwaitingRequest, AgentEvent::ConnectionClosed) => {
                actions.push(AgentAction::Sleep { seconds: RETRY_DELAY_SECONDS });
                self.state = AgentState::Backoff;
            },
            (AgentState::Executing, AgentEvent::Executed(response)) => {
                actions.push(AgentAction::Send(response));
                actions.push(AgentAction::Connect { timeout_seconds: CONNECT_TIMEOUT_SECONDS });
                self.state = AgentState::Connecting;
            },
            (AgentState::Backoff, AgentEvent::Waited) => {
                actions.push(AgentAction::Connect { timeout_seconds: CONNECT_TIMEOUT_SECONDS });
                self.state = AgentState::Connecting;
            },
            _ => {},
        }
        actions
    }

    /// Takes one event and returns what the caller is to do, in order. The
    /// step is that of the model for some random identifier, which a
    /// handshake sent in this step carries.
    pub fn handle(&mut self, event: AgentEvent) -> (actions: Vec<AgentAction>)
        ensures
            exists|id: u128|
                kind_bits(id) == random_kind() && (final(self)@, agent_actions_view(actions@))
                    == #[trigger] old(self)@.step(event@, id),
    {
        let id = fresh_id();
        self.advance(event, id)
    }
}

/// A runner recovers from every failure by itself. A connection that cannot be
/// made, and a connection that closes before a request has come, both lead to
/// one wait of the fixed delay, and the end of the wait leads to the next
/// connection attempt.
pub proof fn law_agent_retries(agent: AgentView, id: u128)
    requires
        agent.state is Connecting || agent.state is AwaitingRequest,
    ensures
        ({
            let failure = if agent.state is Connecting {
                AgentEventView::ConnectFailed
            } else {
                AgentEventView::ConnectionClosed
            };
            let (waiting, first) = agent.step(failure, id);
            let (again, second) = waiting.step(AgentEventView::Waited, id);
            &&& first == seq![AgentActionView::Sleep { seconds: 60 }]
            &&& second == seq![AgentActionView::Connect { timeout_seconds: 10 }]
            &&& again.state is Connecting
            &&& again.machine_type == agent.machine_type
        }),
{
}

/// The loop of a runner has no end: in every state some event takes it on, and
/// within three such events the runner connects again.
pub proof fn law_agent_never_stops(
    agent: AgentView,
    request: JobRequestView,
    response: JobResponseView,
    id: u128,
)
    ensures
        ({
            let first = match agent.state {
                AgentState::Connecting => AgentEventView::Connected,
                AgentState::AwaitingRequest => AgentEventView::RequestReceived(request),
                AgentState::Executing => AgentEventView::Executed(response),
                AgentState::Backoff => AgentEventView::Waited,
            };
            let s1 = agent.step(first, id).0;
            let s2 = s1.step(AgentEventView::RequestReceived(request), id).0;
            let s3 = s2.step(AgentEventView::Executed(response), id).0;
            &&& agent.step(first, id).1.len() > 0
            &&& s1.state is Connecting || s2.state is Connecting || s3.state is Connecting
        }),
{
}

} // verus!
