//! What holds of every job, whatever its executors do and in whatever order
//! their answers come.
use crate::job_handler::{
    acquire_all, finished, finished_upto, fresh_benches, invalid_token_message,
    lemma_status_keeps_wf, ActionView, BenchSlot, EventView, JobHandlerView, Slot, SlotStatus,
};
use crate::orchestrator_protocol;
use crate::runner_protocol;
use vstd::prelude::*;

verus! {

/// One step of a well-formed job leaves it well formed. A job that is over
/// stays as it is and asks for nothing. A terminal outcome is the last action
/// of its step and puts the job in the terminal stage, and a step that ends
/// the job forwards a terminal outcome.
pub proof fn law_step(state: JobHandlerView, event: EventView)
    requires
        state.wf(),
    ensures
        state.step(event).0.wf(),
        state.step(event).0.job_id == state.job_id,
        state.stage is Terminal ==> state.step(event) == (state, Seq::<ActionView>::empty()),
        forall|k: int|
            0 <= k < state.step(event).1.len() && (#[trigger] state.step(event).1[k]).is_terminal_emit()
                ==> k == state.step(event).1.len() - 1 && state.step(event).0.stage is Terminal,
        state.step(event).0.stage is Terminal && !(state.stage is Terminal) ==> state.step(
            event,
        ).1.len() > 0 && state.step(event).1.last().is_terminal_emit(),
{
    let (next, actions) = state.step(event);
    match event {
        EventView::Acquired { slot } => {
            if state.status_of(slot) == Some(SlotStatus::Acquiring) {
                lemma_status_keeps_wf(state, slot, SlotStatus::Awaiting);
            }
        },
        EventView::Lost { slot } => {
            if state.status_of(slot) == Some(SlotStatus::Awaiting) {
                lemma_status_keeps_wf(state, slot, SlotStatus::Acquiring);
            }
        },
        EventView::Unavailable { slot } => {},
        EventView::Response { slot, response } => {
            if state.status_of(slot) == Some(SlotStatus::Awaiting) {
                match slot {
                    Slot::List => {
                        match response.ty {
                            runner_protocol::JobResponseTypeView::ListBenches { bench_names } => {
                                if bench_names.len() > 0 {
                                    assert(!(next.benches[0].status is Done));
                                    assert forall|k: int|
                                        0 <= k < actions.len() implies !(
                                    #[trigger] actions[k]).is_terminal_emit() by {
                                        if k > 0 {
                                            assert(actions[k] is Acquire);
                                        }
                                    }
                                }
                            },
                            _ => {},
                        }
                    },
                    Slot::Bench(i) => {
                        let outcome = state.bench_outcome(i as int, response);
                        assert(!outcome.is_terminal_emit());
                    },
                }
            }
        },
    }
}

/// The stream of a job ends with its terminal outcome: over any run of events,
/// an action that forwards `JobComplete` or `JobError` is the last action of
/// the whole run, so there is at most one; a run that takes the job to its
/// terminal stage ends with one; and a job that is over draws no action at all.
pub proof fn law_terminal_outcome_is_last(state: JobHandlerView, events: Seq<EventView>)
    requires
        state.wf(),
    ensures
        state.after(events).wf(),
        state.stage is Terminal ==> state.run(events).len() == 0 && state.after(events) == state,
        forall|k: int|
            0 <= k < state.run(events).len() && (#[trigger] state.run(events)[k]).is_terminal_emit()
                ==> k == state.run(events).len() - 1 && state.after(events).stage is Terminal,
        state.after(events).stage is Terminal && !(state.stage is Terminal) ==> state.run(
            events,
        ).len() > 0 && state.run(events).last().is_terminal_emit(),
    decreases events.len(),
{
    if events.len() > 0 {
        let (next, actions) = state.step(events[0]);
        let rest = next.run(events.drop_first());
        law_step(state, events[0]);
        law_terminal_outcome_is_last(next, events.drop_first());
        assert(state.run(events) == actions + rest);
        assert forall|k: int|
            0 <= k < state.run(events).len() && (
            #[trigger] state.run(events)[k]).is_terminal_emit() implies k == state.run(events).len()
            - 1 && state.after(events).stage is Terminal by {
            if k < actions.len() {
                assert(actions[k].is_terminal_emit());
            } else {
                assert(rest[k - actions.len()].is_terminal_emit());
            }
        }
    }
}

/// A job whose token is unknown is answered with `JobError("Invalid auth
/// token")` and nothing else, whatever is reported afterwards: no executor is
/// asked for, and nothing is sent to a runner.
pub proof fn law_unknown_token_is_rejected(
    request: orchestrator_protocol::JobRequestView,
    tokens: Seq<u128>,
    events: Seq<EventView>,
)
    requires
        !tokens.contains(request.auth_token),
    ensures
        JobHandlerView::begin(request, tokens).1 == seq![
            ActionView::Emit(
                orchestrator_protocol::JobResponseView {
                    job_id: request.job_id,
                    result: orchestrator_protocol::JobResultView::JobError(invalid_token_message()),
                },
            ),
        ],
        JobHandlerView::begin(request, tokens).0.run(events).len() == 0,
{
    law_terminal_outcome_is_last(JobHandlerView::begin(request, tokens).0, events);
}

/// The whole stream of a job, from its arrival on: a terminal outcome is its
/// last action, so `JobComplete` or `JobError` is forwarded at most once and
/// nothing follows it.
pub proof fn law_one_terminal_outcome(
    request: orchestrator_protocol::JobRequestView,
    tokens: Seq<u128>,
    events: Seq<EventView>,
)
    ensures
        ({
            let (state, first) = JobHandlerView::begin(request, tokens);
            let stream = first + state.run(events);
            &&& forall|k: int|
                0 <= k < stream.len() && (#[trigger] stream[k]).is_terminal_emit() ==> k
                    == stream.len() - 1
            &&& state.after(events).stage is Terminal ==> stream.last().is_terminal_emit()
        }),
{
    let (state, first) = JobHandlerView::begin(request, tokens);
    let rest = state.run(events);
    let stream = first + rest;
    law_terminal_outcome_is_last(state, events);
    assert forall|k: int| 0 <= k < stream.len() && (#[trigger] stream[k]).is_terminal_emit() implies k
        == stream.len() - 1 by {
        if k >= first.len() {
            assert(rest[k - first.len()].is_terminal_emit());
        }
    }
}

/// The failure of one bench does not end the job: while another run is
/// unfinished, the answer to a run is forwarded as that bench's own outcome,
/// the job stays in its running stage, and no terminal outcome is forwarded.
pub proof fn law_bench_failure_is_isolated(
    state: JobHandlerView,
    i: usize,
    other: usize,
    response: runner_protocol::JobResponseView,
)
    requires
        state.wf(),
        state.status_of(Slot::Bench(i)) == Some(SlotStatus::Awaiting),
        other != i,
        other < state.benches.len(),
        !(state.benches[other as int].status is Done),
    ensures
        ({
            let (next, actions) = state.step(EventView::Response { slot: Slot::Bench(i), response });
            &&& next.stage is Running
            &&& actions == seq![
                ActionView::Release { slot: Slot::Bench(i) },
                state.bench_outcome(i as int, response),
            ]
            &&& !state.bench_outcome(i as int, response).is_terminal_emit()
            &&& !(response.ty is RunBench) ==> state.bench_outcome(i as int, response)
                == ActionView::Emit(
                orchestrator_protocol::JobResponseView {
                    job_id: response.job_id,
                    result: orchestrator_protocol::JobResultView::BenchError {
                        bench_name: state.benches[i as int].name,
                        message: response.ty.run_bench_refusal(),
                    },
                },
            )
        }),
{
    let marked = state.with_status(Slot::Bench(i), SlotStatus::Done);
    assert(!(marked.benches[other as int].status is Done));
}

/// Whether this action forwards the outcome of one bench: its measurement or
/// its failure.
pub open spec fn is_bench_outcome(action: ActionView) -> bool {
    action matches ActionView::Emit(response) && (response.result is BenchComplete
        || response.result is BenchError)
}

/// The number of actions among `actions` that forward the outcome of a bench.
pub open spec fn bench_outcomes(actions: Seq<ActionView>) -> nat
    decreases actions.len(),
{
    if actions.len() == 0 {
        0
    } else {
        bench_outcomes(actions.drop_last()) + if is_bench_outcome(actions.last()) {
            1nat
        } else {
            0nat
        }
    }
}

proof fn lemma_outcomes_of_sum(a: Seq<ActionView>, b: Seq<ActionView>)
    ensures
        bench_outcomes(a + b) == bench_outcomes(a) + bench_outcomes(b),
    decreases b.len(),
{
    if b.len() > 0 {
        lemma_outcomes_of_sum(a, b.drop_last());
        assert((a + b).drop_last() =~= a + b.drop_last());
    }
}

proof fn lemma_outcomes_of_one(action: ActionView)
    ensures
        bench_outcomes(seq![action]) == if is_bench_outcome(action) {
            1nat
        } else {
            0nat
        },
{
    let one = seq![action];
    assert(bench_outcomes(one.drop_last()) == 0);
    assert(one.last() == action);
}

proof fn lemma_no_outcomes(actions: Seq<ActionView>)
    requires
        forall|k: int| 0 <= k < actions.len() ==> !is_bench_outcome(#[trigger] actions[k]),
    ensures
        bench_outcomes(actions) == 0,
    decreases actions.len(),
{
    if actions.len() > 0 {
        let shorter = actions.drop_last();
        assert forall|k: int| 0 <= k < shorter.len() implies !is_bench_outcome(
            #[trigger] shorter[k],
        ) by {
            assert(shorter[k] == actions[k]);
        }
        lemma_no_outcomes(shorter);
    }
}

proof fn lemma_finished_same(a: Seq<BenchSlot>, b: Seq<BenchSlot>, n: int)
    requires
        n <= a.len() == b.len(),
        forall|k: int| 0 <= k < n ==> ((#[trigger] a[k]).status is Done) == (b[k].status is Done),
    ensures
        finished_upto(a, n) == finished_upto(b, n),
    decreases n,
{
    if n > 0 {
        lemma_finished_same(a, b, n - 1);
    }
}

proof fn lemma_finished_marked(benches: Seq<BenchSlot>, i: int, n: int)
    requires
        0 <= i < benches.len(),
        0 <= n <= benches.len(),
        !(benches[i].status is Done),
    ensures
        finished_upto(
            benches.update(i, BenchSlot { name: benches[i].name, status: SlotStatus::Done }),
            n,
        ) == finished_upto(benches, n) + if i < n {
            1nat
        } else {
            0nat
        },
    decreases n,
{
    if n > 0 {
        lemma_finished_marked(benches, i, n - 1);
    }
}

proof fn lemma_all_done_is_all_finished(benches: Seq<BenchSlot>, n: int)
    requires
        0 <= n <= benches.len(),
        forall|k: int| 0 <= k < benches.len() ==> (#[trigger] benches[k]).status is Done,
    ensures
        finished_upto(benches, n) == n,
    decreases n,
{
    if n > 0 {
        lemma_all_done_is_all_finished(benches, n - 1);
    }
}

proof fn lemma_none_finished(benches: Seq<BenchSlot>, n: int)
    requires
        0 <= n <= benches.len(),
        forall|k: int| 0 <= k < benches.len() ==> !((#[trigger] benches[k]).status is Done),
    ensures
        finished_upto(benches, n) == 0,
    decreases n,
{
    if n > 0 {
        lemma_none_finished(benches, n - 1);
    }
}

/// One step forwards the outcome of a bench exactly when it takes the answer
/// to that bench's run: the outcomes it forwards are as many as the benches
/// that it finishes. A step that forwards `JobComplete` leaves no bench
/// unfinished.
pub proof fn law_step_outcomes(state: JobHandlerView, event: EventView)
    requires
        state.wf(),
    ensures
        ({
            let (next, actions) = state.step(event);
            &&& finished(next.benches) == finished(state.benches) + bench_outcomes(actions)
            &&& actions.len() > 0 && actions.last() == state.terminal_emit(
                orchestrator_protocol::JobResultView::JobComplete,
            ) ==> next.all_done()
        }),
{
    let (next, actions) = state.step(event);
    match event {
        EventView::Acquired { slot } => {
            if state.status_of(slot) == Some(SlotStatus::Acquiring) {
                lemma_outcomes_of_one(actions[0]);
                lemma_finished_same(state.benches, next.benches, state.benches.len() as int);
            } else {
                lemma_no_outcomes(actions);
            }
        },
        EventView::Lost { slot } => {
            if state.status_of(slot) == Some(SlotStatus::Awaiting) {
                lemma_outcomes_of_one(actions[0]);
                lemma_finished_same(state.benches, next.benches, state.benches.len() as int);
            } else {
                lemma_no_outcomes(actions);
            }
        },
        EventView::Unavailable { slot } => {
            lemma_no_outcomes(actions);
        },
        EventView::Response { slot, response } => {
            if state.status_of(slot) == Some(SlotStatus::Awaiting) {
                match slot {
                    Slot::List => {
                        assert forall|k: int| 0 <= k < actions.len() implies !is_bench_outcome(
                            #[trigger] actions[k],
                        ) by {
                            match response.ty {
                                runner_protocol::JobResponseTypeView::ListBenches {
                                    bench_names,
                                } => {
                                    if bench_names.len() > 0 && k > 0 {
                                        assert(actions[k] == acquire_all(bench_names.len())[k - 1]);
                                    }
                                },
                                _ => {},
                            }
                        }
                        lemma_no_outcomes(actions);
                        match response.ty {
                            runner_protocol::JobResponseTypeView::ListBenches { bench_names } => {
                                if bench_names.len() > 0 {
                                    lemma_none_finished(
                                        fresh_benches(bench_names),
                                        bench_names.len() as int,
                                    );
                                    assert(actions.last() == acquire_all(bench_names.len()).last());
                                }
                            },
                            _ => {},
                        }
                    },
                    Slot::Bench(i) => {
                        let release = ActionView::Release { slot: Slot::Bench(i) };
                        let outcome = state.bench_outcome(i as int, response);
                        let marked = state.with_status(Slot::Bench(i), SlotStatus::Done);
                        lemma_finished_marked(state.benches, i as int, state.benches.len() as int);
                        lemma_outcomes_of_one(release);
                        lemma_outcomes_of_one(outcome);
                        lemma_outcomes_of_sum(seq![release], seq![outcome]);
                        assert(seq![release] + seq![outcome] =~= seq![release, outcome]);
                        if marked.all_done() {
                            let done = state.terminal_emit(
                                orchestrator_protocol::JobResultView::JobComplete,
                            );
                            lemma_outcomes_of_one(done);
                            lemma_outcomes_of_sum(seq![release, outcome], seq![done]);
                            assert(seq![release, outcome] + seq![done] =~= actions);
                        }
                    },
                }
            } else {
                lemma_no_outcomes(actions);
            }
        },
    }
}

/// Every bench gets its one outcome. Over the whole stream of a job, from its
/// arrival on, the outcomes of benches that have been forwarded are as many as
/// the benches that are finished; and when the stream ends with
/// `JobComplete`, every bench that the listing named is finished, so there is
/// one outcome for each.
pub proof fn law_one_outcome_per_bench(
    request: orchestrator_protocol::JobRequestView,
    tokens: Seq<u128>,
    events: Seq<EventView>,
)
    ensures
        ({
            let (state, first) = JobHandlerView::begin(request, tokens);
            let stream = first + state.run(events);
            let end = state.after(events);
            &&& bench_outcomes(stream) == finished(end.benches)
            &&& stream.last() == state.terminal_emit(
                orchestrator_protocol::JobResultView::JobComplete,
            ) ==> bench_outcomes(stream) == end.benches.len()
        }),
{
    let (state, first) = JobHandlerView::begin(request, tokens);
    lemma_run_outcomes(state, events);
    lemma_outcomes_of_sum(first, state.run(events));
    lemma_outcomes_of_one(first[0]);
    let stream = first + state.run(events);
    let end = state.after(events);
    if stream.last() == state.terminal_emit(orchestrator_protocol::JobResultView::JobComplete) {
        assert(state.run(events).len() > 0);
        assert(stream.last() == state.run(events).last());
        lemma_all_done_is_all_finished(end.benches, end.benches.len() as int);
    }
}

proof fn lemma_run_outcomes(state: JobHandlerView, events: Seq<EventView>)
    requires
        state.wf(),
    ensures
        finished(state.after(events).benches) == finished(state.benches) + bench_outcomes(
            state.run(events),
        ),
        state.run(events).len() > 0 && state.run(events).last() == state.terminal_emit(
            orchestrator_protocol::JobResultView::JobComplete,
        ) ==> state.after(events).all_done(),
    decreases events.len(),
{
    if events.len() > 0 {
        let (next, actions) = state.step(events[0]);
        let tail = events.drop_first();
        let rest = next.run(tail);
        law_step(state, events[0]);
        law_step_outcomes(state, events[0]);
        lemma_run_outcomes(next, tail);
        lemma_outcomes_of_sum(actions, rest);
        law_terminal_outcome_is_last(next, tail);
        let done = state.terminal_emit(orchestrator_protocol::JobResultView::JobComplete);
        if state.run(events).len() > 0 && state.run(events).last() == done {
            if rest.len() > 0 {
                assert(state.run(events).last() == rest.last());
            } else {
                assert(actions.last().is_terminal_emit());
            }
        }
    }
}

} // verus!
