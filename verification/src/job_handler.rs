//! The life cycle of one submitted job.
//!
//! A job is one binary. Once its token is accepted, the handler asks an
//! executor for the names of the benchmarks in the binary, then asks for one
//! run per name, and forwards every result as it comes. A benchmark that fails
//! is reported and the others go on; the stream of a job ends with exactly one
//! `JobComplete` or `JobError`.
//!
//! The handler does no waiting of its own. It is a transition function: the
//! caller performs the actions it returns (obtain an executor, send a request,
//! give the executor back, forward an outcome) and reports what happened as the
//! next event. Each request to a runner uses an executor of its own, so the
//! runs of one job may be in flight together and finish in any order.
use crate::orchestrator_protocol;
use crate::runner_protocol;
use crate::runner_protocol::JobResponseTypeView;
use vstd::prelude::*;

verus! {

/// Where one request to a runner stands.
#[derive(Debug, Clone, Copy, PartialEq, Eq)]
pub enum SlotStatus {
    /// An executor has been asked for and has not arrived yet.
    Acquiring,
    /// The request is with an executor and no response has come.
    Awaiting,
    /// The response has come.
    Done,
}

/// Names one request of a job: the listing, or the run of the bench at an index
/// of the list that the listing returned.
#[derive(Debug, Clone, Copy, PartialEq, Eq, Hash)]
pub enum Slot {
    List,
    Bench(usize),
}

/// The stage of a job whose token was accepted.
#[derive(Debug, Clone, Copy, PartialEq, Eq)]
pub enum Stage {
    /// The bench names have been asked for.
    Listing(SlotStatus),
    /// The names are known and at least one run is unfinished.
    Running,
    /// The terminal outcome has been emitted; nothing more will be.
    Terminal,
}

/// What the caller reports to the handler.
#[derive(Debug, Clone, PartialEq, Eq)]
pub enum Event {
    /// The executor asked for on behalf of `slot` is ready.
    Acquired { slot: Slot },
    /// The executor of `slot` answered.
    Response { slot: Slot, response: runner_protocol::JobResponse },
    /// The executor of `slot` went away before it answered.
    Lost { slot: Slot },
    /// No executor can be had for `slot`, now or later.
    Unavailable { slot: Slot },
}

/// What the handler asks the caller to do.
#[derive(Debug, Clone, PartialEq, Eq)]
pub enum Action {
    /// Obtain an executor for `slot`: a local execution permit, or a runner of
    /// the job's machine type.
    Acquire { slot: Slot },
    /// Send `request` to the executor of `slot`.
    Send { slot: Slot, request: runner_protocol::JobRequest },
    /// Give up the executor of `slot`. A remote runner is not offered to
    /// another request: it registers again by itself.
    Release { slot: Slot },
    /// Forward this message to the submitter.
    Emit(orchestrator_protocol::JobResponse),
}

pub enum EventView {
    Acquired { slot: Slot },
    Response { slot: Slot, response: runner_protocol::JobResponseView },
    Lost { slot: Slot },
    Unavailable { slot: Slot },
}

pub enum ActionView {
    Acquire { slot: Slot },
    Send { slot: Slot, request: runner_protocol::JobRequestView },
    Release { slot: Slot },
    Emit(orchestrator_protocol::JobResponseView),
}

impl View for Event {
    type V = EventView;

    open spec fn view(&self) -> EventView {
        match self {
            Event::Acquired { slot } => EventView::Acquired { slot: *slot },
            Event::Response { slot, response } => EventView::Response {
                slot: *slot,
                response: response@,
            },
            Event::Lost { slot } => EventView::Lost { slot: *slot },
            Event::Unavailable { slot } => EventView::Unavailable { slot: *slot },
        }
    }
}

impl View for Action {
    type V = ActionView;

    open spec fn view(&self) -> ActionView {
        match self {
            Action::Acquire { slot } => ActionView::Acquire { slot: *slot },
            Action::Send { slot, request } => ActionView::Send { slot: *slot, request: request@ },
            Action::Release { slot } => ActionView::Release { slot: *slot },
            Action::Emit(response) => ActionView::Emit(response@),
        }
    }
}

/// The actions of a list, each by its view.
pub open spec fn actions_view(actions: Seq<Action>) -> Seq<ActionView> {
    Seq::new(actions.len(), |i: int| actions[i]@)
}

impl ActionView {
    /// Whether this action forwards the outcome that closes the job's stream.
    pub open spec fn is_terminal_emit(self) -> bool {
        self matches ActionView::Emit(response) && response.result.is_terminal()
    }
}

/// One bench of a job in the model: its name and where its run stands.
pub struct BenchSlot {
    pub name: Seq<char>,
    pub status: SlotStatus,
}

/// The model of a job handler.
pub struct JobHandlerView {
    pub job_id: u128,
    pub binary: Seq<u8>,
    pub machine_type: Seq<char>,
    pub stage: Stage,
    pub benches: Seq<BenchSlot>,
}

/// The message of the outcome that rejects a job whose token is unknown.
pub open spec fn invalid_token_message() -> Seq<char> {
    "Invalid auth token"@
}

/// The message of the outcome that ends a job for which no executor can be
/// had.
pub open spec fn no_executor_message() -> Seq<char> {
    "No executor became available"@
}

/// The keys attached to every measurement that the handler forwards.
pub open spec fn wall_time_keys() -> Seq<(Seq<char>, Seq<char>)> {
    seq![("type"@, "walltime (ns)"@)]
}

/// The benches of a fresh list of names: every run still needs an executor.
pub open spec fn fresh_benches(names: Seq<Seq<char>>) -> Seq<BenchSlot> {
    Seq::new(names.len(), |i: int| BenchSlot { name: names[i], status: SlotStatus::Acquiring })
}

/// One `Acquire` per bench, in the order of the list.
pub open spec fn acquire_all(count: nat) -> Seq<ActionView> {
    Seq::new(count, |i: int| ActionView::Acquire { slot: Slot::Bench(i as usize) })
}

/// The number of the first `n` benches whose run has its response.
pub open spec fn finished_upto(benches: Seq<BenchSlot>, n: int) -> nat
    decreases n,
{
    if n <= 0 {
        0
    } else {
        finished_upto(benches, n - 1) + if benches[n - 1].status is Done {
            1nat
        } else {
            0nat
        }
    }
}

/// The number of benches whose run has its response.
pub open spec fn finished(benches: Seq<BenchSlot>) -> nat {
    finished_upto(benches, benches.len() as int)
}

impl JobHandlerView {
    /// Every run has its response.
    pub open spec fn all_done(self) -> bool {
        forall|i: int| 0 <= i < self.benches.len() ==> (#[trigger] self.benches[i]).status is Done
    }

    /// The stages are told apart by the benches: none while listing, and while
    /// running at least one without its response.
    pub open spec fn wf(self) -> bool {
        match self.stage {
            Stage::Listing(status) => self.benches.len() == 0 && !(status is Done),
            Stage::Running => self.benches.len() > 0 && !self.all_done(),
            Stage::Terminal => true,
        }
    }

    /// The status of the request that `slot` names, if the job has such a
    /// request at this stage.
    pub open spec fn status_of(self, slot: Slot) -> Option<SlotStatus> {
        match slot {
            Slot::List => match self.stage {
                Stage::Listing(status) => Some(status),
                _ => None,
            },
            Slot::Bench(i) => if self.stage is Running && i < self.benches.len() {
                Some(self.benches[i as int].status)
            } else {
                None
            },
        }
    }

    /// The same job with the request that `slot` names at `status`.
    pub open spec fn with_status(self, slot: Slot, status: SlotStatus) -> JobHandlerView {
        match slot {
            Slot::List => JobHandlerView { stage: Stage::Listing(status), ..self },
            Slot::Bench(i) => JobHandlerView {
                benches: self.benches.update(
                    i as int,
                    BenchSlot { name: self.benches[i as int].name, status },
                ),
                ..self
            },
        }
    }

    /// The request that goes to the executor of `slot`.
    pub open spec fn request_for(self, slot: Slot) -> runner_protocol::JobRequestView {
        runner_protocol::JobRequestView {
            job_id: self.job_id,
            binary: self.binary,
            ty: match slot {
                Slot::List => runner_protocol::JobRequestTypeView::ListBenches,
                Slot::Bench(i) => runner_protocol::JobRequestTypeView::RunBench {
                    bench_name: self.benches[i as int].name,
                },
            },
        }
    }

    /// The outcome that ends this job's stream.
    pub open spec fn terminal_emit(self, result: orchestrator_protocol::JobResultView) -> ActionView {
        ActionView::Emit(orchestrator_protocol::JobResponseView { job_id: self.job_id, result })
    }

    /// The answer to the listing has come. An error ends the job. An empty
    /// list completes it with no result. Otherwise every name gets a run.
    pub open spec fn listed(self, response: runner_protocol::JobResponseView) -> (
        JobHandlerView,
        Seq<ActionView>,
    ) {
        let release = ActionView::Release { slot: Slot::List };
        match response.ty {
            JobResponseTypeView::ListBenches { bench_names } => if bench_names.len() == 0 {
                (
                    JobHandlerView { stage: Stage::Terminal, ..self },
                    seq![release, self.terminal_emit(orchestrator_protocol::JobResultView::JobComplete)],
                )
            } else {
                (
                    JobHandlerView {
                        stage: Stage::Running,
                        benches: fresh_benches(bench_names),
                        ..self
                    },
                    seq![release] + acquire_all(bench_names.len()),
                )
            },
            other => (
                JobHandlerView { stage: Stage::Terminal, ..self },
                seq![
                    release,
                    self.terminal_emit(
                        orchestrator_protocol::JobResultView::JobError(other.list_benches_refusal()),
                    ),
                ],
            ),
        }
    }

    /// What is forwarded for the bench at `i` when `response` answers its run:
    /// the measurement, or the failure of this one bench.
    pub open spec fn bench_outcome(
        self,
        i: int,
        response: runner_protocol::JobResponseView,
    ) -> ActionView {
        let name = self.benches[i].name;
        ActionView::Emit(
            orchestrator_protocol::JobResponseView {
                job_id: response.job_id,
                result: match response.ty {
                    JobResponseTypeView::RunBench(complete) => orchestrator_protocol::JobResultView::BenchComplete(
                        orchestrator_protocol::BenchCompleteView {
                            bench_name: name,
                            keys: wall_time_keys(),
                            wall_time: complete.wall_time,
                        },
                    ),
                    other => orchestrator_protocol::JobResultView::BenchError {
                        bench_name: name,
                        message: other.run_bench_refusal(),
                    },
                },
            },
        )
    }

    /// The answer to the run of the bench at `i` has come. Its outcome is
    /// forwarded whatever it is; the job completes when it was the last.
    pub open spec fn measured(self, i: int, response: runner_protocol::JobResponseView) -> (
        JobHandlerView,
        Seq<ActionView>,
    ) {
        let marked = self.with_status(Slot::Bench(i as usize), SlotStatus::Done);
        let release = ActionView::Release { slot: Slot::Bench(i as usize) };
        let outcome = self.bench_outcome(i, response);
        if marked.all_done() {
            (
                JobHandlerView { stage: Stage::Terminal, ..marked },
                seq![
                    release,
                    outcome,
                    self.terminal_emit(orchestrator_protocol::JobResultView::JobComplete),
                ],
            )
        } else {
            (marked, seq![release, outcome])
        }
    }

    /// The transition of a job on one event: the next state and the actions
    /// for the caller, in order. An executor that arrives gets the request of
    /// its slot. An executor that is lost before it answered is replaced. A
    /// response is dealt with as `listed` and `measured` say. A request for
    /// which no executor can be had ends the job with a `JobError`. An event
    /// that does not fit the state of its slot changes nothing and asks for
    /// nothing.
    pub open spec fn step(self, event: EventView) -> (JobHandlerView, Seq<ActionView>) {
        match event {
            EventView::Acquired { slot } => if self.status_of(slot) == Some(SlotStatus::Acquiring) {
                (
                    self.with_status(slot, SlotStatus::Awaiting),
                    seq![ActionView::Send { slot, request: self.request_for(slot) }],
                )
            } else {
                (self, Seq::empty())
            },
            EventView::Lost { slot } => if self.status_of(slot) == Some(SlotStatus::Awaiting) {
                (self.with_status(slot, SlotStatus::Acquiring), seq![ActionView::Acquire { slot }])
            } else {
                (self, Seq::empty())
            },
            EventView::Response { slot, response } => if self.status_of(slot) == Some(
                SlotStatus::Awaiting,
            ) {
                match slot {
                    Slot::List => self.listed(response),
                    Slot::Bench(i) => self.measured(i as int, response),
                }
            } else {
                (self, Seq::empty())
            },
            EventView::Unavailable { slot } => if self.status_of(slot) == Some(
                SlotStatus::Acquiring,
            ) {
                (
                    JobHandlerView { stage: Stage::Terminal, ..self },
                    seq![
                        self.terminal_emit(
                            orchestrator_protocol::JobResultView::JobError(no_executor_message()),
                        ),
                    ],
                )
            } else {
                (self, Seq::empty())
            },
        }
    }

    /// The state of a job right after its request arrived: listing has been
    /// asked for, or the job is over because its token is unknown.
    pub open spec fn begin(request: orchestrator_protocol::JobRequestView, tokens: Seq<u128>) -> (
        JobHandlerView,
        Seq<ActionView>,
    ) {
        let accepted = tokens.contains(request.auth_token);
        let state = JobHandlerView {
            job_id: request.job_id,
            binary: request.binary,
            machine_type: request.machine_type,
            stage: if accepted {
                Stage::Listing(SlotStatus::Acquiring)
            } else {
                Stage::Terminal
            },
            benches: Seq::empty(),
        };
        if accepted {
            (state, seq![ActionView::Acquire { slot: Slot::List }])
        } else {
            (
                state,
                seq![
                    state.terminal_emit(
                        orchestrator_protocol::JobResultView::JobError(invalid_token_message()),
                    ),
                ],
            )
        }
    }

    /// All the actions that a run of events draws from the job, in order.
    pub open spec fn run(self, events: Seq<EventView>) -> Seq<ActionView>
        decreases events.len(),
    {
        if events.len() == 0 {
            Seq::empty()
        } else {
            let (next, actions) = self.step(events[0]);
            actions + next.run(events.drop_first())
        }
    }

    /// The state that a run of events leaves the job in.
    pub open spec fn after(self, events: Seq<EventView>) -> JobHandlerView
        decreases events.len(),
    {
        if events.len() == 0 {
            self
        } else {
            self.step(events[0]).0.after(events.drop_first())
        }
    }
}

/// The handler of one job.
pub struct JobHandler {
    job_id: u128,
    binary: Vec<u8>,
    machine_type: String,
    stage: Stage,
    names: Vec<String>,
    statuses: Vec<SlotStatus>,
}

impl View for JobHandler {
    type V = JobHandlerView;

    closed spec fn view(&self) -> JobHandlerView {
        JobHandlerView {
            job_id: self.job_id,
            binary: self.binary@,
            machine_type: self.machine_type@,
            stage: self.stage,
            benches: Seq::new(
                self.names.len() as nat,
                |i: int| BenchSlot { name: self.names[i]@, status: self.statuses[i] },
            ),
        }
    }
}

/// Whether `token` is one of `tokens`.
pub fn token_is_valid(tokens: &Vec<u128>, token: u128) -> (r: bool)
    ensures
        r == tokens@.contains(token),
{
    let mut i: usize = 0;
    while i < tokens.len()
        invariant
            i <= tokens.len(),
            forall|j: int| 0 <= j < i ==> tokens[j] != token,
        decreases tokens.len() - i,
    {
        if tokens[i] == token {
            return true;
        }
        i += 1;
    }
    false
}

impl JobHandler {
    /// The handler holds a name and a status for every bench, and its model is
    /// well formed.
    pub closed spec fn wf(&self) -> bool {
        &&& self.names.len() == self.statuses.len()
        &&& self@.wf()
    }

    /// Takes up a job. With a token that is not among `tokens` the job is over
    /// at once: the only action forwards `JobError("Invalid auth token")`, and
    /// no executor is asked for. Otherwise an executor is asked for the listing.
    pub fn start(request: orchestrator_protocol::JobRequest, tokens: &Vec<u128>) -> (r: (
        JobHandler,
        Vec<Action>,
    ))
        ensures
            r.0.wf(),
            (r.0@, actions_view(r.1@)) == JobHandlerView::begin(request@, tokens@),
    {
        let accepted = token_is_valid(tokens, request.auth_token);
        let job_id = request.job_id;
        let mut actions: Vec<Action> = Vec::new();
        let stage = if accepted {
            actions.push(Action::Acquire { slot: Slot::List });
            Stage::Listing(SlotStatus::Acquiring)
        } else {
            actions.push(
                Action::Emit(
                    orchestrator_protocol::JobResponse {
                        job_id,
                        result: orchestrator_protocol::JobResult::JobError(
                            "Invalid auth token".to_owned(),
                        ),
                    },
                ),
            );
            Stage::Terminal
        };
        let handler = JobHandler {
            job_id,
            binary: request.binary,
            machine_type: request.machine_type,
            stage,
            names: Vec::new(),
            statuses: Vec::new(),
        };
        proof {
            let expected = JobHandlerView::begin(request@, tokens@);
            assert(handler@.benches =~= expected.0.benches);
        }
        (handler, actions)
    }

    /// The identifier of the job.
    pub fn job_id(&self) -> (r: u128)
        ensures
            r == self@.job_id,
    {
        self.job_id
    }

    /// The machine type that the job's executors must have.
    pub fn machine_type(&self) -> (r: &String)
        ensures
            r@ == self@.machine_type,
    {
        &self.machine_type
    }

    /// The stage of the job.
    pub fn stage(&self) -> (r: Stage)
        ensures
            r == self@.stage,
    {
        self.stage
    }

    /// Whether the job's stream has ended.
    pub fn is_terminal(&self) -> (r: bool)
        ensures
            r == (self@.stage is Terminal),
    {
        match self.stage {
            Stage::Terminal => true,
            _ => false,
        }
    }

    /// The number of benches that the listing returned.
    pub fn bench_count(&self) -> (r: usize)
        ensures
            r == self@.benches.len(),
    {
        self.names.len()
    }

    /// The number of benches whose run has its response: with `bench_count`,
    /// how far the job has come.
    pub fn finished_count(&self) -> (r: usize)
        requires
            self.wf(),
        ensures
            r == finished(self@.benches),
            r <= self@.benches.len(),
    {
        let mut count: usize = 0;
        let mut i: usize = 0;
        while i < self.statuses.len()
            invariant
                i <= self.statuses.len(),
                self.names.len() == self.statuses.len(),
                count == finished_upto(self@.benches, i as int),
                count <= i,
            decreases self.statuses.len() - i,
        {
            match self.statuses[i] {
                SlotStatus::Done => {
                    count += 1;
                },
                _ => {},
            }
            i += 1;
        }
        count
    }

    /// The status of the request that `slot` names, if the job has such a
    /// request at this stage.
    pub fn status_of(&self, slot: Slot) -> (r: Option<SlotStatus>)
        requires
            self.wf(),
        ensures
            r == self@.status_of(slot),
    {
        match slot {
            Slot::List => match self.stage {
                Stage::Listing(status) => Some(status),
                _ => None,
            },
            Slot::Bench(i) => {
                let running = match self.stage {
                    Stage::Running => true,
                    _ => false,
                };
                if running && i < self.statuses.len() {
                    Some(self.statuses[i])
                } else {
                    None
                }
            },
        }
    }

    fn clone_binary(&self) -> (r: Vec<u8>)
        ensures
            r@ == self.binary@,
    {
        let mut copy: Vec<u8> = Vec::new();
        let mut i: usize = 0;
        while i < self.binary.len()
            invariant
                i <= self.binary.len(),
                copy@ == self.binary@.take(i as int),
            decreases self.binary.len() - i,
        {
            copy.push(self.binary[i]);
            i += 1;
        }
        copy
    }

    fn request_for(&self, slot: Slot) -> (r: runner_protocol::JobRequest)
        requires
            self.wf(),
            self@.status_of(slot) is Some,
        ensures
            r@ == self@.request_for(slot),
    {
        let ty = match slot {
            Slot::List => runner_protocol::JobRequestType::ListBenches,
            Slot::Bench(i) => runner_protocol::JobRequestType::RunBench {
                bench_name: self.names[i].clone(),
            },
        };
        runner_protocol::JobRequest { job_id: self.job_id, binary: self.clone_binary(), ty }
    }

    fn set_status(&mut self, slot: Slot, status: SlotStatus)
        requires
            old(self).names.len() == old(self).statuses.len(),
            old(self)@.status_of(slot) is Some,
        ensures
            final(self).names.len() == final(self).statuses.len(),
            final(self)@ == old(self)@.with_status(slot, status),
    {
        match slot {
            Slot::List => {
                self.stage = Stage::Listing(status);
            },
            Slot::Bench(i) => {
                self.statuses.set(i, status);
                proof {
                    assert(self@.benches =~= old(self)@.with_status(slot, status).benches);
                }
            },
        }
    }

    fn all_done(&self) -> (r: bool)
        requires
            self.names.len() == self.statuses.len(),
        ensures
            r == self@.all_done(),
    {
        let mut i: usize = 0;
        while i < self.statuses.len()
            invariant
                i <= self.statuses.len(),
                self.names.len() == self.statuses.len(),
                forall|j: int| 0 <= j < i ==> self.statuses[j] is Done,
            decreases self.statuses.len() - i,
        {
            match self.statuses[i] {
                SlotStatus::Done => {},
                _ => {
                    proof {
                        assert(!(self@.benches[i as int].status is Done));
                    }
                    return false;
                },
            }
            i += 1;
        }
        proof {
            assert forall|j: int| 0 <= j < self@.benches.len() implies (
            #[trigger] self@.benches[j]).status is Done by {
                assert(self.statuses[j] is Done);
            }
        }
        true
    }

    fn complete(&self) -> (r: Action)
        ensures
            r@ == self@.terminal_emit(orchestrator_protocol::JobResultView::JobComplete),
    {
        Action::Emit(
            orchestrator_protocol::JobResponse {
                job_id: self.job_id,
                result: orchestrator_protocol::JobResult::JobComplete,
            },
        )
    }

    fn fail(&self, message: String) -> (r: Action)
        ensures
            r@ == self@.terminal_emit(orchestrator_protocol::JobResultView::JobError(message@)),
    {
        Action::Emit(
            orchestrator_protocol::JobResponse {
                job_id: self.job_id,
                result: orchestrator_protocol::JobResult::JobError(message),
            },
        )
    }

    fn on_listed(&mut self, response: runner_protocol::JobResponse) -> (actions: Vec<Action>)
        requires
            old(self).wf(),
            old(self)@.status_of(Slot::List) == Some(SlotStatus::Awaiting),
        ensures
            final(self).wf(),
            (final(self)@, actions_view(actions@)) == old(self)@.listed(response@),
    {
        let ghost expected = self@.listed(response@);
        let mut actions: Vec<Action> = Vec::new();
        actions.push(Action::Release { slot: Slot::List });
        match response.ty.get_list_benches() {
            Err(message) => {
                actions.push(self.fail(message));
                self.stage = Stage::Terminal;
            },
            Ok(bench_names) => {
                if bench_names.len() == 0 {
                    actions.push(self.complete());
                    self.stage = Stage::Terminal;
                } else {
                    let ghost names = crate::text::strings_view(bench_names@);
                    let mut i: usize = 0;
                    while i < bench_names.len()
                        invariant
                            i <= bench_names.len(),
                            self.names.len() == i,
                            self.statuses.len() == i,
                            actions.len() == i + 1,
                            names == crate::text::strings_view(bench_names@),
                            actions[0]@ == (ActionView::Release { slot: Slot::List }),
                            forall|j: int| 0 <= j < i ==> (#[trigger] self.names[j])@ == names[j],
                            forall|j: int| 0 <= j < i ==> (#[trigger] self.statuses[j]) is Acquiring,
                            forall|k: int|
                                1 <= k <= i ==> (#[trigger] actions[k])@ == (ActionView::Acquire {
                                    slot: Slot::Bench((k - 1) as usize),
                                }),
                            self.job_id == old(self).job_id,
                            self.binary == old(self).binary,
                            self.machine_type == old(self).machine_type,
                        decreases bench_names.len() - i,
                    {
                        self.names.push(bench_names[i].clone());
                        self.statuses.push(SlotStatus::Acquiring);
                        actions.push(Action::Acquire { slot: Slot::Bench(i) });
                        i += 1;
                    }
                    self.stage = Stage::Running;
                    proof {
                        assert(self@.benches =~= expected.0.benches);
                        assert(!(self@.benches[0].status is Done));
                    }
                }
            },
        }
        actions
    }

    fn bench_outcome(&self, i: usize, response: runner_protocol::JobResponse) -> (r: Action)
        requires
            self.wf(),
            i < self@.benches.len(),
        ensures
            r@ == self@.bench_outcome(i as int, response@),
    {
        let result = match response.ty.get_run_bench() {
            Ok(complete) => {
                let mut keys: Vec<(String, String)> = Vec::new();
                keys.push(("type".to_owned(), "walltime (ns)".to_owned()));
                proof {
                    assert(orchestrator_protocol::keys_view(keys@) =~= wall_time_keys());
                }
                orchestrator_protocol::JobResult::BenchComplete(
                    orchestrator_protocol::BenchComplete {
                        bench_name: self.names[i].clone(),
                        keys,
                        wall_time: complete.wall_time,
                    },
                )
            },
            Err(message) => orchestrator_protocol::JobResult::BenchError {
                bench_name: self.names[i].clone(),
                message,
            },
        };
        Action::Emit(orchestrator_protocol::JobResponse { job_id: response.job_id, result })
    }

    fn on_measured(&mut self, i: usize, response: runner_protocol::JobResponse) -> (actions: Vec<
        Action,
    >)
        requires
            old(self).wf(),
            old(self)@.status_of(Slot::Bench(i)) == Some(SlotStatus::Awaiting),
        ensures
            final(self).wf(),
            (final(self)@, actions_view(actions@)) == old(self)@.measured(i as int, response@),
    {
        let mut actions: Vec<Action> = Vec::new();
        actions.push(Action::Release { slot: Slot::Bench(i) });
        actions.push(self.bench_outcome(i, response));
        self.set_status(Slot::Bench(i), SlotStatus::Done);
        if self.all_done() {
            actions.push(self.complete());
            self.stage = Stage::Terminal;
        }
        actions
    }

    /// Takes one event and returns what the caller is to do, in order. The
    /// new state and the actions are those of the model's `step`.
    pub fn handle(&mut self, event: Event) -> (actions: Vec<Action>)
        requires
            old(self).wf(),
        ensures
            final(self).wf(),
            (final(self)@, actions_view(actions@)) == old(self)@.step(event@),
    {
        match event {
            Event::Acquired { slot } => {
                let mut actions: Vec<Action> = Vec::new();
                match self.status_of(slot) {
                    Some(SlotStatus::Acquiring) => {
                        let request = self.request_for(slot);
                        self.set_status(slot, SlotStatus::Awaiting);
                        actions.push(Action::Send { slot, request });
                        proof {
                            lemma_status_keeps_wf(old(self)@, slot, SlotStatus::Awaiting);
                        }
                    },
                    _ => {},
                }
                actions
            },
            Event::Lost { slot } => {
                let mut actions: Vec<Action> = Vec::new();
                match self.status_of(slot) {
                    Some(SlotStatus::Awaiting) => {
                        self.set_status(slot, SlotStatus::Acquiring);
                        actions.push(Action::Acquire { slot });
                        proof {
                            lemma_status_keeps_wf(old(self)@, slot, SlotStatus::Acquiring);
                        }
                    },
                    _ => {},
                }
                actions
            },
            Event::Response { slot, response } => {
                match self.status_of(slot) {
                    Some(SlotStatus::Awaiting) => match slot {
                        Slot::List => self.on_listed(response),
                        Slot::Bench(i) => self.on_measured(i, response),
                    },
                    _ => {
                        let actions: Vec<Action> = Vec::new();
                        actions
                    },
                }
            },
            Event::Unavailable { slot } => {
                let mut actions: Vec<Action> = Vec::new();
                match self.status_of(slot) {
                    Some(SlotStatus::Acquiring) => {
                        actions.push(self.fail("No executor became available".to_owned()));
                        self.stage = Stage::Terminal;
                    },
                    _ => {},
                }
                actions
            },
        }
    }
}

/// Moving an unanswered request between `Acquiring` and `Awaiting` keeps the
/// state well formed.
pub proof fn lemma_status_keeps_wf(state: JobHandlerView, slot: Slot, status: SlotStatus)
    requires
        state.wf(),
        state.status_of(slot) is Some,
        !(state.status_of(slot)->0 is Done),
        !(status is Done),
    ensures
        state.with_status(slot, status).wf(),
{
    let next = state.with_status(slot, status);
    match slot {
        Slot::List => {},
        Slot::Bench(i) => {
            assert(!(next.benches[i as int].status is Done));
        },
    }
}

} // verus!
