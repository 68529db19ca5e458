//! What holds of every assignment that the connection assigner makes.
use crate::connection_assigner::{
    first_waiting, lemma_connection_arrived_keeps_wf, lemma_first_waiting, lemma_first_waiting_is,
    lemma_request_arrived_keeps_wf, none_waiting, Assignment, AssignerView, Waiting,
};
use vstd::prelude::*;

verus! {

/// A connection is paired only with a request of its own machine type. When a
/// connection of one type arrives and is assigned, the request it goes to
/// waited with that very type; and when no request of the type waits, the
/// connection is assigned to none, whatever else waits.
pub proof fn law_connection_serves_its_type(state: AssignerView, machine_type: Seq<char>)
    requires
        state.wf(),
    ensures
        match state.connection_arrived(machine_type).1.assignment {
            Some(a) => {
                &&& a.connection == state.next_ticket
                &&& exists|i: int|
                    0 <= i < state.requests.len() && (#[trigger] state.requests[i]).ticket
                        == a.request
                &&& forall|i: int|
                    0 <= i < state.requests.len() && (#[trigger] state.requests[i]).ticket
                        == a.request ==> state.requests[i].machine_type == machine_type
            },
            None => none_waiting(state.requests, machine_type),
        },
        none_waiting(state.requests, machine_type) ==> state.connection_arrived(
            machine_type,
        ).1.assignment is None,
{
    lemma_first_waiting(state.requests, machine_type);
    match first_waiting(state.requests, machine_type) {
        Some(q) => {
            assert(state.requests[q].ticket == state.connection_arrived(
                machine_type,
            ).1.assignment->0.request);
            assert forall|i: int|
                0 <= i < state.requests.len() && (#[trigger] state.requests[i]).ticket
                    == state.requests[q].ticket implies state.requests[i].machine_type
                == machine_type by {
                if i < q {
                    assert(state.requests[i].ticket < state.requests[q].ticket);
                } else if q < i {
                    assert(state.requests[q].ticket < state.requests[i].ticket);
                }
            }
        },
        None => {},
    }
}

/// A request is paired only with a connection of its own machine type: the
/// mirror of `law_connection_serves_its_type` for the arrival of a request.
pub proof fn law_request_takes_its_type(state: AssignerView, machine_type: Seq<char>)
    requires
        state.wf(),
    ensures
        match state.request_arrived(machine_type).1.assignment {
            Some(a) => {
                &&& a.request == state.next_ticket
                &&& exists|i: int|
                    0 <= i < state.connections.len() && (#[trigger] state.connections[i]).ticket
                        == a.connection
                &&& forall|i: int|
                    0 <= i < state.connections.len() && (#[trigger] state.connections[i]).ticket
                        == a.connection ==> state.connections[i].machine_type == machine_type
            },
            None => none_waiting(state.connections, machine_type),
        },
        none_waiting(state.connections, machine_type) ==> state.request_arrived(
            machine_type,
        ).1.assignment is None,
{
    lemma_first_waiting(state.connections, machine_type);
    match first_waiting(state.connections, machine_type) {
        Some(c) => {
            assert(state.connections[c].ticket == state.request_arrived(
                machine_type,
            ).1.assignment->0.connection);
            assert forall|i: int|
                0 <= i < state.connections.len() && (#[trigger] state.connections[i]).ticket
                    == state.connections[c].ticket implies state.connections[i].machine_type
                == machine_type by {
                if i < c {
                    assert(state.connections[i].ticket < state.connections[c].ticket);
                } else if c < i {
                    assert(state.connections[c].ticket < state.connections[i].ticket);
                }
            }
        },
        None => {},
    }
}

/// First come, first served. When a connection arrives while requests of its
/// machine type wait, it goes to the one that arrived first: no waiting
/// request of the type has an older ticket than the one that is served, and
/// the others keep their places.
pub proof fn law_earliest_request_is_served(state: AssignerView, machine_type: Seq<char>)
    requires
        state.wf(),
        !none_waiting(state.requests, machine_type),
    ensures
        state.connection_arrived(machine_type).1.assignment is Some,
        forall|i: int|
            0 <= i < state.requests.len() && (#[trigger] state.requests[i]).machine_type
                == machine_type ==> state.connection_arrived(machine_type).1.assignment->0.request
                <= state.requests[i].ticket,
        state.connection_arrived(machine_type).0.connections == state.connections,
{
    lemma_first_waiting(state.requests, machine_type);
    match first_waiting(state.requests, machine_type) {
        Some(q) => {
            assert forall|i: int|
                0 <= i < state.requests.len() && (#[trigger] state.requests[i]).machine_type
                    == machine_type implies state.requests[q].ticket
                <= state.requests[i].ticket by {
                if i < q {
                    assert(state.requests.take(q)[i] == state.requests[i]);
                }
            }
        },
        None => {},
    }
}

/// Whoever is assigned waits no longer. After an arrival that completed a
/// pair, neither list holds the ticket of the connection or of the request of
/// that pair: a connection is with the assigner or with a job, never with both.
pub proof fn law_assigned_pair_waits_no_longer(
    state: AssignerView,
    machine_type: Seq<char>,
    as_request: bool,
)
    requires
        state.wf(),
        state.next_ticket < u64::MAX,
    ensures
        ({
            let (next, arrival) = if as_request {
                state.request_arrived(machine_type)
            } else {
                state.connection_arrived(machine_type)
            };
            arrival.assignment matches Some(a) ==> {
                &&& forall|i: int|
                    0 <= i < next.connections.len() ==> (#[trigger] next.connections[i]).ticket
                        != a.connection
                &&& forall|i: int|
                    0 <= i < next.requests.len() ==> (#[trigger] next.requests[i]).ticket
                        != a.request
            }
        }),
{
    lemma_first_waiting(state.requests, machine_type);
    lemma_first_waiting(state.connections, machine_type);
    if as_request {
        let next = state.request_arrived(machine_type).0;
        match first_waiting(state.connections, machine_type) {
            Some(c) => {
                assert forall|i: int| 0 <= i < next.connections.len() implies (
                #[trigger] next.connections[i]).ticket != state.connections[c].ticket by {
                    if i < c {
                        assert(state.connections[i].ticket < state.connections[c].ticket);
                    } else {
                        assert(state.connections[c].ticket < state.connections[i + 1].ticket);
                    }
                }
            },
            None => {},
        }
    } else {
        let next = state.connection_arrived(machine_type).0;
        match first_waiting(state.requests, machine_type) {
            Some(q) => {
                assert forall|i: int| 0 <= i < next.requests.len() implies (
                #[trigger] next.requests[i]).ticket != state.requests[q].ticket by {
                    if i < q {
                        assert(state.requests[i].ticket < state.requests[q].ticket);
                    } else {
                        assert(state.requests[q].ticket < state.requests[i + 1].ticket);
                    }
                }
            },
            None => {},
        }
    }
}

/// Two requests of one machine type arrive, the first before the second, while
/// nobody of that type waits; then a connection of the type arrives. The
/// connection goes to the first request, and the second goes on waiting.
pub proof fn law_first_request_gets_the_connection(state: AssignerView, machine_type: Seq<char>)
    requires
        state.wf(),
        state.next_ticket < u64::MAX - 2,
        none_waiting(state.requests, machine_type),
        none_waiting(state.connections, machine_type),
    ensures
        ({
            let (s1, first) = state.request_arrived(machine_type);
            let (s2, second) = s1.request_arrived(machine_type);
            let (s3, connection) = s2.connection_arrived(machine_type);
            &&& first.assignment is None
            &&& second.assignment is None
            &&& first.ticket < second.ticket
            &&& connection.assignment == Some(
                Assignment { connection: connection.ticket, request: first.ticket },
            )
            &&& s3.requests == state.requests.push(
                Waiting { ticket: second.ticket, machine_type },
            )
            &&& s3.connections == state.connections
            &&& s3.wf()
        }),
{
    let s1 = state.request_arrived(machine_type).0;
    let s2 = s1.request_arrived(machine_type).0;
    lemma_first_waiting(state.connections, machine_type);
    lemma_request_arrived_keeps_wf(state, machine_type);
    lemma_first_waiting(s1.connections, machine_type);
    lemma_request_arrived_keeps_wf(s1, machine_type);
    lemma_connection_arrived_keeps_wf(s2, machine_type);
    let place = state.requests.len() as int;
    assert(s2.requests[place].machine_type == machine_type);
    assert forall|j: int| 0 <= j < s2.requests.take(place).len() implies (#[trigger] s2.requests.take(
        place,
    )[j]).machine_type != machine_type by {
        assert(s2.requests.take(place)[j] == state.requests[j]);
    }
    lemma_first_waiting_is(s2.requests, machine_type, place);
}

} // verus!
