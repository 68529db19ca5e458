use ussal::job_handler::{Action, Event, JobHandler, Slot, SlotStatus, Stage};
use ussal::orchestrator_protocol::{BenchComplete, JobRequest, JobResponse, JobResult};
use ussal::runner_protocol;

const TOKEN: u128 = 0x2d58efc6_6c95_47c5_968d_55aa923b4cc9;
const JOB: u128 = 7;

fn submission(auth_token: u128) -> JobRequest {
    JobRequest { auth_token, job_id: JOB, binary: vec![1, 2, 3], machine_type: "x86".to_owned() }
}

fn list_request() -> runner_protocol::JobRequest {
    runner_protocol::JobRequest {
        job_id: JOB,
        binary: vec![1, 2, 3],
        ty: runner_protocol::JobRequestType::ListBenches,
    }
}

fn run_request(name: &str) -> runner_protocol::JobRequest {
    runner_protocol::JobRequest {
        job_id: JOB,
        binary: vec![1, 2, 3],
        ty: runner_protocol::JobRequestType::RunBench { bench_name: name.to_owned() },
    }
}

fn answer(ty: runner_protocol::JobResponseType) -> runner_protocol::JobResponse {
    runner_protocol::JobResponse { job_id: JOB, ty }
}

fn names(list: &[&str]) -> runner_protocol::JobResponseType {
    runner_protocol::JobResponseType::ListBenches {
        bench_names: list.iter().map(|name| name.to_string()).collect(),
    }
}

fn measured(wall_time: u32) -> runner_protocol::JobResponseType {
    runner_protocol::JobResponseType::RunBench(runner_protocol::BenchComplete { wall_time })
}

fn emit(result: JobResult) -> Action {
    Action::Emit(JobResponse { job_id: JOB, result })
}

fn complete(name: &str, wall_time: u32) -> JobResult {
    JobResult::BenchComplete(BenchComplete {
        bench_name: name.to_owned(),
        keys: vec![("type".to_owned(), "walltime (ns)".to_owned())],
        wall_time,
    })
}

/// Plays the part of the caller with an executor that answers each request
/// with what `execute` returns, one request at a time in the order asked.
fn drive(
    request: JobRequest,
    tokens: &Vec<u128>,
    execute: &dyn Fn(&runner_protocol::JobRequest) -> runner_protocol::JobResponseType,
) -> (Vec<JobResponse>, Vec<runner_protocol::JobRequest>, JobHandler) {
    let (mut handler, first) = JobHandler::start(request, tokens);
    let mut todo: std::collections::VecDeque<Action> = first.into();
    let mut emitted = vec![];
    let mut sent = vec![];
    while let Some(action) = todo.pop_front() {
        match action {
            Action::Acquire { slot } => todo.extend(handler.handle(Event::Acquired { slot })),
            Action::Send { slot, request } => {
                let response = answer(execute(&request));
                sent.push(request);
                todo.extend(handler.handle(Event::Response { slot, response }));
            }
            Action::Release { .. } => {}
            Action::Emit(response) => emitted.push(response),
        }
    }
    (emitted, sent, handler)
}

#[test]
fn test_invalid_auth_key() {
    let unknown: u128 = 0xdeaddead_dead_dead_dead_deaddeaddead;
    let (handler, actions) = JobHandler::start(submission(unknown), &vec![TOKEN]);
    assert_eq!(actions, vec![emit(JobResult::JobError("Invalid auth token".to_owned()))]);
    assert_eq!(handler.stage(), Stage::Terminal);
    assert!(handler.is_terminal());
}

#[test]
fn unknown_token_runs_no_bench_whatever_is_reported() {
    let (mut handler, _) = JobHandler::start(submission(1), &vec![]);
    let events = vec![
        Event::Acquired { slot: Slot::List },
        Event::Response { slot: Slot::List, response: answer(names(&["foo"])) },
        Event::Acquired { slot: Slot::Bench(0) },
        Event::Response { slot: Slot::Bench(0), response: answer(measured(1)) },
        Event::Lost { slot: Slot::List },
    ];
    for event in events {
        assert_eq!(handler.handle(event), vec![]);
        assert_eq!(handler.stage(), Stage::Terminal);
    }
}

#[test]
fn accepted_job_asks_for_an_executor_first() {
    let (handler, actions) = JobHandler::start(submission(TOKEN), &vec![5, TOKEN]);
    assert_eq!(actions, vec![Action::Acquire { slot: Slot::List }]);
    assert_eq!(handler.stage(), Stage::Listing(SlotStatus::Acquiring));
    assert_eq!(handler.job_id(), JOB);
    assert_eq!(handler.machine_type(), "x86");
    assert_eq!(handler.bench_count(), 0);
    assert_eq!(handler.status_of(Slot::List), Some(SlotStatus::Acquiring));
    assert_eq!(handler.status_of(Slot::Bench(0)), None);
}

#[test]
fn test_success() {
    let (emitted, sent, handler) =
        drive(submission(TOKEN), &vec![TOKEN], &|request| match &request.ty {
            runner_protocol::JobRequestType::ListBenches => names(&["foo", "bar"]),
            runner_protocol::JobRequestType::RunBench { bench_name } => {
                measured(if bench_name == "foo" { 11 } else { 22 })
            }
        });
    assert_eq!(sent, vec![list_request(), run_request("foo"), run_request("bar")]);
    assert_eq!(
        emitted,
        vec![
            JobResponse { job_id: JOB, result: complete("foo", 11) },
            JobResponse { job_id: JOB, result: complete("bar", 22) },
            JobResponse { job_id: JOB, result: JobResult::JobComplete },
        ]
    );
    assert!(handler.is_terminal());
}

#[test]
fn one_failing_bench_does_not_end_the_job() {
    let (emitted, _, handler) =
        drive(submission(TOKEN), &vec![TOKEN], &|request| match &request.ty {
            runner_protocol::JobRequestType::ListBenches => names(&["foo", "bar"]),
            runner_protocol::JobRequestType::RunBench { bench_name } => {
                if bench_name == "bar" {
                    runner_protocol::JobResponseType::Error("bar exploded".to_owned())
                } else {
                    measured(11)
                }
            }
        });
    assert_eq!(
        emitted,
        vec![
            JobResponse { job_id: JOB, result: complete("foo", 11) },
            JobResponse {
                job_id: JOB,
                result: JobResult::BenchError {
                    bench_name: "bar".to_owned(),
                    message: "bar exploded".to_owned(),
                },
            },
            JobResponse { job_id: JOB, result: JobResult::JobComplete },
        ]
    );
    assert!(handler.is_terminal());
}

#[test]
fn failed_listing_ends_the_job_with_its_message() {
    let (emitted, sent, handler) = drive(submission(TOKEN), &vec![TOKEN], &|_| {
        runner_protocol::JobResponseType::Error("no such file".to_owned())
    });
    assert_eq!(sent, vec![list_request()]);
    assert_eq!(
        emitted,
        vec![JobResponse { job_id: JOB, result: JobResult::JobError("no such file".to_owned()) }]
    );
    assert!(handler.is_terminal());
}

#[test]
fn empty_listing_completes_the_job_without_results() {
    let (emitted, sent, _) = drive(submission(TOKEN), &vec![TOKEN], &|_| names(&[]));
    assert_eq!(sent, vec![list_request()]);
    assert_eq!(emitted, vec![JobResponse { job_id: JOB, result: JobResult::JobComplete }]);
}

#[test]
fn wrong_kind_of_answer_to_the_listing_is_a_job_error() {
    let (emitted, _, _) = drive(submission(TOKEN), &vec![TOKEN], &|_| measured(3));
    assert_eq!(
        emitted,
        vec![JobResponse {
            job_id: JOB,
            result: JobResult::JobError("Unexpected response RunBench".to_owned()),
        }]
    );
    let (emitted, _, _) = drive(submission(TOKEN), &vec![TOKEN], &|_| {
        runner_protocol::JobResponseType::Handshake { machine_type: "x86".to_owned() }
    });
    assert_eq!(
        emitted,
        vec![JobResponse {
            job_id: JOB,
            result: JobResult::JobError("Unexpected handshake".to_owned()),
        }]
    );
}

#[test]
fn wrong_kind_of_answer_to_a_run_is_a_bench_error() {
    let (emitted, _, _) = drive(submission(TOKEN), &vec![TOKEN], &|request| match &request.ty {
        runner_protocol::JobRequestType::ListBenches => names(&["foo"]),
        runner_protocol::JobRequestType::RunBench { .. } => names(&["again"]),
    });
    assert_eq!(
        emitted,
        vec![
            JobResponse {
                job_id: JOB,
                result: JobResult::BenchError {
                    bench_name: "foo".to_owned(),
                    message: "Unexpected response ListBenches".to_owned(),
                },
            },
            JobResponse { job_id: JOB, result: JobResult::JobComplete },
        ]
    );
}

#[test]
fn listing_releases_its_executor_and_asks_for_one_per_bench() {
    let (mut handler, _) = JobHandler::start(submission(TOKEN), &vec![TOKEN]);
    assert_eq!(
        handler.handle(Event::Acquired { slot: Slot::List }),
        vec![Action::Send { slot: Slot::List, request: list_request() }]
    );
    assert_eq!(handler.stage(), Stage::Listing(SlotStatus::Awaiting));
    assert_eq!(
        handler.handle(Event::Response { slot: Slot::List, response: answer(names(&["a", "b", "c"])) }),
        vec![
            Action::Release { slot: Slot::List },
            Action::Acquire { slot: Slot::Bench(0) },
            Action::Acquire { slot: Slot::Bench(1) },
            Action::Acquire { slot: Slot::Bench(2) },
        ]
    );
    assert_eq!(handler.stage(), Stage::Running);
    assert_eq!(handler.bench_count(), 3);
    assert_eq!(handler.status_of(Slot::Bench(2)), Some(SlotStatus::Acquiring));
    assert_eq!(handler.status_of(Slot::Bench(3)), None);
    assert_eq!(handler.status_of(Slot::List), None);
}

#[test]
fn runs_may_finish_in_any_order_and_completion_comes_last() {
    let (mut handler, _) = JobHandler::start(submission(TOKEN), &vec![TOKEN]);
    handler.handle(Event::Acquired { slot: Slot::List });
    handler.handle(Event::Response { slot: Slot::List, response: answer(names(&["foo", "bar"])) });
    assert_eq!(
        handler.handle(Event::Acquired { slot: Slot::Bench(1) }),
        vec![Action::Send { slot: Slot::Bench(1), request: run_request("bar") }]
    );
    assert_eq!(
        handler.handle(Event::Acquired { slot: Slot::Bench(0) }),
        vec![Action::Send { slot: Slot::Bench(0), request: run_request("foo") }]
    );
    assert_eq!(
        handler.handle(Event::Response { slot: Slot::Bench(1), response: answer(measured(22)) }),
        vec![Action::Release { slot: Slot::Bench(1) }, emit(complete("bar", 22))]
    );
    assert_eq!(handler.stage(), Stage::Running);
    assert_eq!(handler.status_of(Slot::Bench(1)), Some(SlotStatus::Done));
    assert_eq!(
        handler.handle(Event::Response { slot: Slot::Bench(0), response: answer(measured(11)) }),
        vec![
            Action::Release { slot: Slot::Bench(0) },
            emit(complete("foo", 11)),
            emit(JobResult::JobComplete),
        ]
    );
    assert_eq!(handler.stage(), Stage::Terminal);
}

#[test]
fn lost_executor_is_replaced_and_the_request_sent_again() {
    let (mut handler, _) = JobHandler::start(submission(TOKEN), &vec![TOKEN]);
    handler.handle(Event::Acquired { slot: Slot::List });
    assert_eq!(
        handler.handle(Event::Lost { slot: Slot::List }),
        vec![Action::Acquire { slot: Slot::List }]
    );
    assert_eq!(handler.stage(), Stage::Listing(SlotStatus::Acquiring));
    assert_eq!(
        handler.handle(Event::Acquired { slot: Slot::List }),
        vec![Action::Send { slot: Slot::List, request: list_request() }]
    );
    handler.handle(Event::Response { slot: Slot::List, response: answer(names(&["foo"])) });
    handler.handle(Event::Acquired { slot: Slot::Bench(0) });
    assert_eq!(
        handler.handle(Event::Lost { slot: Slot::Bench(0) }),
        vec![Action::Acquire { slot: Slot::Bench(0) }]
    );
    assert_eq!(handler.status_of(Slot::Bench(0)), Some(SlotStatus::Acquiring));
}

#[test]
fn events_that_do_not_fit_are_ignored() {
    let (mut handler, _) = JobHandler::start(submission(TOKEN), &vec![TOKEN]);
    // No response can come before the request was sent.
    assert_eq!(
        handler.handle(Event::Response { slot: Slot::List, response: answer(names(&["foo"])) }),
        vec![]
    );
    assert_eq!(handler.handle(Event::Lost { slot: Slot::List }), vec![]);
    assert_eq!(handler.handle(Event::Acquired { slot: Slot::Bench(0) }), vec![]);
    assert_eq!(handler.stage(), Stage::Listing(SlotStatus::Acquiring));
    handler.handle(Event::Acquired { slot: Slot::List });
    // An executor arrives only once per request.
    assert_eq!(handler.handle(Event::Acquired { slot: Slot::List }), vec![]);
    handler.handle(Event::Response { slot: Slot::List, response: answer(names(&["foo"])) });
    handler.handle(Event::Acquired { slot: Slot::Bench(0) });
    handler.handle(Event::Response { slot: Slot::Bench(0), response: answer(measured(1)) });
    // The job is over: a second answer to the same run changes nothing.
    assert_eq!(
        handler.handle(Event::Response { slot: Slot::Bench(0), response: answer(measured(2)) }),
        vec![]
    );
    assert_eq!(handler.handle(Event::Acquired { slot: Slot::Bench(7) }), vec![]);
}

#[test]
fn bench_outcome_carries_the_identifier_of_the_runners_answer() {
    let (mut handler, _) = JobHandler::start(submission(TOKEN), &vec![TOKEN]);
    handler.handle(Event::Acquired { slot: Slot::List });
    handler.handle(Event::Response { slot: Slot::List, response: answer(names(&["foo", "bar"])) });
    handler.handle(Event::Acquired { slot: Slot::Bench(0) });
    let actions = handler.handle(Event::Response {
        slot: Slot::Bench(0),
        response: runner_protocol::JobResponse { job_id: 99, ty: measured(5) },
    });
    assert_eq!(
        actions,
        vec![
            Action::Release { slot: Slot::Bench(0) },
            Action::Emit(JobResponse { job_id: 99, result: complete("foo", 5) }),
        ]
    );
}

#[test]
fn token_check_looks_at_every_token() {
    assert!(ussal::job_handler::token_is_valid(&vec![1, 2, 3], 3));
    assert!(ussal::job_handler::token_is_valid(&vec![1, 2, 3], 1));
    assert!(!ussal::job_handler::token_is_valid(&vec![1, 2, 3], 4));
    assert!(!ussal::job_handler::token_is_valid(&vec![], 0));
}

#[test]
fn job_without_an_executor_ends_with_an_error() {
    let (mut handler, _) = JobHandler::start(submission(TOKEN), &vec![TOKEN]);
    assert_eq!(
        handler.handle(Event::Unavailable { slot: Slot::List }),
        vec![emit(JobResult::JobError("No executor became available".to_owned()))]
    );
    assert!(handler.is_terminal());

    let (mut handler, _) = JobHandler::start(submission(TOKEN), &vec![TOKEN]);
    handler.handle(Event::Acquired { slot: Slot::List });
    // The listing has its executor: the report does not fit and is ignored.
    assert_eq!(handler.handle(Event::Unavailable { slot: Slot::List }), vec![]);
    handler.handle(Event::Response { slot: Slot::List, response: answer(names(&["foo", "bar"])) });
    handler.handle(Event::Acquired { slot: Slot::Bench(0) });
    assert_eq!(
        handler.handle(Event::Unavailable { slot: Slot::Bench(1) }),
        vec![emit(JobResult::JobError("No executor became available".to_owned()))]
    );
    assert!(handler.is_terminal());
    assert_eq!(
        handler.handle(Event::Response { slot: Slot::Bench(0), response: answer(measured(1)) }),
        vec![]
    );
}

#[test]
fn progress_counts_the_finished_benches() {
    let (mut handler, _) = JobHandler::start(submission(TOKEN), &vec![TOKEN]);
    assert_eq!(handler.finished_count(), 0);
    handler.handle(Event::Acquired { slot: Slot::List });
    handler.handle(Event::Response { slot: Slot::List, response: answer(names(&["a", "b", "c"])) });
    assert_eq!((handler.finished_count(), handler.bench_count()), (0, 3));
    handler.handle(Event::Acquired { slot: Slot::Bench(2) });
    handler.handle(Event::Response { slot: Slot::Bench(2), response: answer(measured(1)) });
    assert_eq!((handler.finished_count(), handler.bench_count()), (1, 3));
    handler.handle(Event::Acquired { slot: Slot::Bench(0) });
    handler.handle(Event::Response {
        slot: Slot::Bench(0),
        response: answer(runner_protocol::JobResponseType::Error("x".to_owned())),
    });
    assert_eq!((handler.finished_count(), handler.bench_count()), (2, 3));
    handler.handle(Event::Acquired { slot: Slot::Bench(1) });
    handler.handle(Event::Response { slot: Slot::Bench(1), response: answer(measured(1)) });
    assert_eq!((handler.finished_count(), handler.bench_count()), (3, 3));
    assert!(handler.is_terminal());
}
