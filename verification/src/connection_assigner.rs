//! Pairs waiting requests for a runner with waiting runner connections.
//!
//! The assigner owns two lists, in order of arrival: requests that wait for a
//! runner of some machine type, and connections of runners that wait for work.
//! Whatever arrives is appended to its list and then matched against the other
//! list. A pair matches when the machine types are equal. Among the requests of
//! one machine type the one that arrived first is served first.
//!
//! The channels behind a request and a connection stay with the caller. The
//! assigner gives every arrival a ticket and speaks of tickets only; the caller
//! keeps the channel under the ticket and hands the connection over when an
//! `Assignment` names the pair.
use vstd::prelude::*;

verus! {

/// A runner connection that waits for work.
#[derive(Debug, Clone, PartialEq, Eq)]
pub struct Connection {
    pub ticket: u64,
    pub machine_type: String,
}

/// A request that waits for a runner connection.
#[derive(Debug, Clone, PartialEq, Eq)]
pub struct Request {
    pub ticket: u64,
    pub machine_type: String,
}

/// The connection with ticket `connection` goes to the request with ticket
/// `request`. Both have left their waiting lists.
#[derive(Debug, Clone, Copy, PartialEq, Eq)]
pub struct Assignment {
    pub connection: u64,
    pub request: u64,
}

/// What the assigner answers to an arrival: the ticket it gave, and the pair
/// that the arrival completed, if it completed one.
#[derive(Debug, Clone, Copy, PartialEq, Eq)]
pub struct Arrival {
    pub ticket: u64,
    pub assignment: Option<Assignment>,
}

/// A waiting request or connection in the model.
pub struct Waiting {
    pub ticket: u64,
    pub machine_type: Seq<char>,
}

impl View for Connection {
    type V = Waiting;

    open spec fn view(&self) -> Waiting {
        Waiting { ticket: self.ticket, machine_type: self.machine_type@ }
    }
}

impl View for Request {
    type V = Waiting;

    open spec fn view(&self) -> Waiting {
        Waiting { ticket: self.ticket, machine_type: self.machine_type@ }
    }
}

/// The connections of a list, each by its view.
pub open spec fn connections_view(connections: Seq<Connection>) -> Seq<Waiting> {
    Seq::new(connections.len(), |i: int| connections[i]@)
}

/// The requests of a list, each by its view.
pub open spec fn requests_view(requests: Seq<Request>) -> Seq<Waiting> {
    Seq::new(requests.len(), |i: int| requests[i]@)
}

/// The place of the first entry of `list` with this machine type.
pub open spec fn first_waiting(list: Seq<Waiting>, machine_type: Seq<char>) -> Option<int>
    decreases list.len(),
{
    if list.len() == 0 {
        None
    } else if list[0].machine_type == machine_type {
        Some(0)
    } else {
        match first_waiting(list.drop_first(), machine_type) {
            Some(i) => Some(i + 1),
            None => None,
        }
    }
}

/// No entry of `list` has this machine type.
pub open spec fn none_waiting(list: Seq<Waiting>, machine_type: Seq<char>) -> bool {
    forall|i: int| 0 <= i < list.len() ==> (#[trigger] list[i]).machine_type != machine_type
}

/// The entry at `i` is the first of `list` with this machine type.
pub open spec fn is_first_waiting(list: Seq<Waiting>, machine_type: Seq<char>, i: int) -> bool {
    &&& 0 <= i < list.len()
    &&& list[i].machine_type == machine_type
    &&& none_waiting(list.take(i), machine_type)
}

/// The connection at `c` and the request at `r` have one machine type.
pub open spec fn is_match(connections: Seq<Waiting>, requests: Seq<Waiting>, c: int, r: int) -> bool {
    &&& 0 <= c < connections.len()
    &&& 0 <= r < requests.len()
    &&& connections[c].machine_type == requests[r].machine_type
}

/// No connection of the one list matches a request of the other.
pub open spec fn no_match(connections: Seq<Waiting>, requests: Seq<Waiting>) -> bool {
    forall|c: int, r: int| !is_match(connections, requests, c, r)
}

/// The tickets of `list` grow from entry to entry and stay under `bound`: the
/// list is in order of arrival and holds no entry twice.
pub open spec fn in_arrival_order(list: Seq<Waiting>, bound: u64) -> bool {
    &&& forall|i: int, j: int|
        0 <= i < j < list.len() ==> (#[trigger] list[i]).ticket < (#[trigger] list[j]).ticket
    &&& forall|i: int| 0 <= i < list.len() ==> (#[trigger] list[i]).ticket < bound
}

/// `first_waiting` finds the first entry of the machine type: the entry it
/// names has the type and none before it has; it names none only if no entry
/// has the type.
pub proof fn lemma_first_waiting(list: Seq<Waiting>, machine_type: Seq<char>)
    ensures
        match first_waiting(list, machine_type) {
            Some(i) => is_first_waiting(list, machine_type, i),
            None => none_waiting(list, machine_type),
        },
    decreases list.len(),
{
    if list.len() > 0 && list[0].machine_type != machine_type {
        let rest = list.drop_first();
        lemma_first_waiting(rest, machine_type);
        match first_waiting(rest, machine_type) {
            Some(i) => {
                assert forall|j: int| 0 <= j < list.take(i + 1).len() implies (
                #[trigger] list.take(i + 1)[j]).machine_type != machine_type by {
                    if j > 0 {
                        assert(list.take(i + 1)[j] == rest.take(i)[j - 1]);
                    }
                }
            },
            None => {
                assert forall|j: int| 0 <= j < list.len() implies (#[trigger] list[j]).machine_type
                    != machine_type by {
                    if j > 0 {
                        assert(list[j] == rest[j - 1]);
                    }
                }
            },
        }
    }
}

/// There is one first entry of a machine type: whatever place is the first
/// with the type is the place that `first_waiting` names.
pub proof fn lemma_first_waiting_is(list: Seq<Waiting>, machine_type: Seq<char>, i: int)
    requires
        is_first_waiting(list, machine_type, i),
    ensures
        first_waiting(list, machine_type) == Some(i),
{
    lemma_first_waiting(list, machine_type);
    match first_waiting(list, machine_type) {
        Some(k) => {
            if k < i {
                assert(list.take(i)[k] == list[k]);
            } else if i < k {
                assert(list.take(k)[i] == list[i]);
            }
        },
        None => {},
    }
}

/// The first pair, in the order of the connections and then of the requests,
/// of a connection and a request of one machine type.
pub fn find_match(connections: &[Connection], requests: &[Request]) -> (r: Option<(usize, usize)>)
    ensures
        match r {
            Some((c, q)) => {
                &&& is_match(connections_view(connections@), requests_view(requests@), c as int, q as int)
                &&& forall|c2: int, q2: int|
                    is_match(connections_view(connections@), requests_view(requests@), c2, q2) ==> c
                        < c2 || (c == c2 && q <= q2)
            },
            None => no_match(connections_view(connections@), requests_view(requests@)),
        },
{
    let ghost cs = connections_view(connections@);
    let ghost rs = requests_view(requests@);
    let mut connection_i: usize = 0;
    while connection_i < connections.len()
        invariant
            connection_i <= connections.len(),
            cs == connections_view(connections@),
            rs == requests_view(requests@),
            forall|c2: int, q2: int| 0 <= c2 < connection_i ==> !is_match(cs, rs, c2, q2),
        decreases connections.len() - connection_i,
    {
        let mut request_i: usize = 0;
        while request_i < requests.len()
            invariant
                connection_i < connections.len(),
                request_i <= requests.len(),
                cs == connections_view(connections@),
                rs == requests_view(requests@),
                forall|c2: int, q2: int| 0 <= c2 < connection_i ==> !is_match(cs, rs, c2, q2),
                forall|q2: int| 0 <= q2 < request_i ==> !is_match(cs, rs, connection_i as int, q2),
            decreases requests.len() - request_i,
        {
            if requests[request_i].machine_type == connections[connection_i].machine_type {
                return Some((connection_i, request_i));
            }
            request_i += 1;
        }
        connection_i += 1;
    }
    None
}

/// The model of the assigner: who waits, in order of arrival, and the ticket
/// that the next arrival gets.
pub struct AssignerView {
    pub requests: Seq<Waiting>,
    pub connections: Seq<Waiting>,
    pub next_ticket: u64,
}

impl AssignerView {
    /// Both lists are in order of arrival, and no waiting connection matches
    /// a waiting request: every pair that could be served has been.
    pub open spec fn wf(self) -> bool {
        &&& in_arrival_order(self.requests, self.next_ticket)
        &&& in_arrival_order(self.connections, self.next_ticket)
        &&& no_match(self.connections, self.requests)
    }

    /// A request for a runner of `machine_type` arrives. It takes the first
    /// waiting connection of that type, or waits behind the other requests.
    pub open spec fn request_arrived(self, machine_type: Seq<char>) -> (AssignerView, Arrival) {
        let ticket = self.next_ticket;
        let next_ticket = (ticket + 1) as u64;
        match first_waiting(self.connections, machine_type) {
            Some(c) => (
                AssignerView { connections: self.connections.remove(c), next_ticket, ..self },
                Arrival {
                    ticket,
                    assignment: Some(
                        Assignment { connection: self.connections[c].ticket, request: ticket },
                    ),
                },
            ),
            None => (
                AssignerView {
                    requests: self.requests.push(Waiting { ticket, machine_type }),
                    next_ticket,
                    ..self
                },
                Arrival { ticket, assignment: None },
            ),
        }
    }

    /// A connection of a runner of `machine_type` arrives. It goes to the
    /// first waiting request of that type, or waits behind the other
    /// connections.
    pub open spec fn connection_arrived(self, machine_type: Seq<char>) -> (AssignerView, Arrival) {
        let ticket = self.next_ticket;
        let next_ticket = (ticket + 1) as u64;
        match first_waiting(self.requests, machine_type) {
            Some(r) => (
                AssignerView { requests: self.requests.remove(r), next_ticket, ..self },
                Arrival {
                    ticket,
                    assignment: Some(
                        Assignment { connection: ticket, request: self.requests[r].ticket },
                    ),
                },
            ),
            None => (
                AssignerView {
                    connections: self.connections.push(Waiting { ticket, machine_type }),
                    next_ticket,
                    ..self
                },
                Arrival { ticket, assignment: None },
            ),
        }
    }
}

/// The assigner. One task owns it; requests and connections reach it as
/// arrivals and leave it as assignments.
pub struct Assigner {
    waiting_requests: Vec<Request>,
    waiting_connections: Vec<Connection>,
    next_ticket: u64,
}

impl View for Assigner {
    type V = AssignerView;

    closed spec fn view(&self) -> AssignerView {
        AssignerView {
            requests: requests_view(self.waiting_requests@),
            connections: connections_view(self.waiting_connections@),
            next_ticket: self.next_ticket,
        }
    }
}

impl Assigner {
    /// The model of the assigner is well formed.
    pub open spec fn wf(&self) -> bool {
        self@.wf()
    }

    /// An assigner with nobody waiting.
    pub fn new() -> (r: Assigner)
        ensures
            r.wf(),
            r@ == (AssignerView { requests: Seq::empty(), connections: Seq::empty(), next_ticket: 0 }),
    {
        let r = Assigner {
            waiting_requests: Vec::new(),
            waiting_connections: Vec::new(),
            next_ticket: 0,
        };
        proof {
            assert(r@.requests =~= Seq::empty());
            assert(r@.connections =~= Seq::empty());
        }
        r
    }

    /// The number of requests that wait.
    pub fn waiting_requests(&self) -> (r: usize)
        ensures
            r == self@.requests.len(),
    {
        self.waiting_requests.len()
    }

    /// The number of connections that wait.
    pub fn waiting_connections(&self) -> (r: usize)
        ensures
            r == self@.connections.len(),
    {
        self.waiting_connections.len()
    }

    /// Resolves the one pair that the last arrival may have completed.
    fn resolve(&mut self) -> (r: Option<Assignment>)
        ensures
            match r {
                Some(a) => exists|c: int, q: int|
                    {
                        &&& is_match(old(self)@.connections, old(self)@.requests, c, q)
                        &&& forall|c2: int, q2: int|
                            is_match(old(self)@.connections, old(self)@.requests, c2, q2) ==> c < c2
                                || (c == c2 && q <= q2)
                        &&& a.connection == old(self)@.connections[c].ticket
                        &&& a.request == old(self)@.requests[q].ticket
                        &&& final(self)@.connections == old(self)@.connections.remove(c)
                        &&& final(self)@.requests == old(self)@.requests.remove(q)
                    },
                None => no_match(old(self)@.connections, old(self)@.requests) && final(self)@ == old(
                    self,
                )@,
            },
            final(self).next_ticket == old(self).next_ticket,
    {
        match find_match(self.waiting_connections.as_slice(), self.waiting_requests.as_slice()) {
            Some((connection_i, request_i)) => {
                let connection = self.waiting_connections.remove(connection_i);
                let request = self.waiting_requests.remove(request_i);
                proof {
                    assert(is_match(
                        old(self)@.connections,
                        old(self)@.requests,
                        connection_i as int,
                        request_i as int,
                    ));
                }
                Some(Assignment { connection: connection.ticket, request: request.ticket })
            },
            None => None,
        }
    }

    /// A request for a runner of `machine_type` arrives. The answer is that
    /// of the model. `None` is returned, and nothing changes, only when the
    /// tickets have run out.
    pub fn request_arrived(&mut self, machine_type: String) -> (r: Option<Arrival>)
        requires
            old(self).wf(),
        ensures
            final(self).wf(),
            match r {
                Some(arrival) => old(self)@.next_ticket < u64::MAX && (final(self)@, arrival) == old(
                    self,
                )@.request_arrived(machine_type@),
                None => old(self)@.next_ticket == u64::MAX && final(self)@ == old(self)@,
            },
    {
        if self.next_ticket == u64::MAX {
            return None;
        }
        let ticket = self.next_ticket;
        let ghost before = self@;
        let ghost kind = machine_type@;
        self.next_ticket = ticket + 1;
        self.waiting_requests.push(Request { ticket, machine_type });
        let ghost pushed = self@;
        proof {
            assert(pushed.requests =~= before.requests.push(Waiting { ticket, machine_type: kind }));
            lemma_first_waiting(before.connections, kind);
        }
        let assignment = self.resolve();
        proof {
            let last = before.requests.len() as int;
            match assignment {
                Some(a) => {
                    let (c, q) = choose|c: int, q: int|
                        {
                            &&& is_match(pushed.connections, pushed.requests, c, q)
                            &&& forall|c2: int, q2: int|
                                is_match(pushed.connections, pushed.requests, c2, q2) ==> c < c2 || (c
                                    == c2 && q <= q2)
                            &&& a.connection == pushed.connections[c].ticket
                            &&& a.request == pushed.requests[q].ticket
                            &&& self@.connections == pushed.connections.remove(c)
                            &&& self@.requests == pushed.requests.remove(q)
                        };
                    if q < last {
                        assert(is_match(before.connections, before.requests, c, q));
                    }
                    assert(q == last);
                    assert forall|j: int| 0 <= j < before.connections.take(c).len() implies (
                    #[trigger] before.connections.take(c)[j]).machine_type != kind by {
                        if before.connections[j].machine_type == kind {
                            assert(is_match(pushed.connections, pushed.requests, j, last));
                        }
                    }
                    lemma_first_waiting_is(before.connections, kind, c);
                    assert(pushed.requests.remove(last) =~= before.requests);
                },
                None => {
                    assert forall|j: int| 0 <= j < before.connections.len() implies (
                    #[trigger] before.connections[j]).machine_type != kind by {
                        assert(!is_match(pushed.connections, pushed.requests, j, last));
                    }
                },
            }
            lemma_request_arrived_keeps_wf(before, kind);
        }
        Some(Arrival { ticket, assignment })
    }

    /// A connection of a runner of `machine_type` arrives. The answer is that
    /// of the model. `None` is returned, and nothing changes, only when the
    /// tickets have run out.
    pub fn connection_arrived(&mut self, machine_type: String) -> (r: Option<Arrival>)
        requires
            old(self).wf(),
        ensures
            final(self).wf(),
            match r {
                Some(arrival) => old(self)@.next_ticket < u64::MAX && (final(self)@, arrival) == old(
                    self,
                )@.connection_arrived(machine_type@),
                None => old(self)@.next_ticket == u64::MAX && final(self)@ == old(self)@,
            },
    {
        if self.next_ticket == u64::MAX {
            return None;
        }
        let ticket = self.next_ticket;
        let ghost before = self@;
        let ghost kind = machine_type@;
        self.next_ticket = ticket + 1;
        self.waiting_connections.push(Connection { ticket, machine_type });
        let ghost pushed = self@;
        proof {
            assert(pushed.connections =~= before.connections.push(
                Waiting { ticket, machine_type: kind },
            ));
            lemma_first_waiting(before.requests, kind);
        }
        let assignment = self.resolve();
        proof {
            let last = before.connections.len() as int;
            match assignment {
                Some(a) => {
                    let (c, q) = choose|c: int, q: int|
                        {
                            &&& is_match(pushed.connections, pushed.requests, c, q)
                            &&& forall|c2: int, q2: int|
                                is_match(pushed.connections, pushed.requests, c2, q2) ==> c < c2 || (c
                                    == c2 && q <= q2)
                            &&& a.connection == pushed.connections[c].ticket
                            &&& a.request == pushed.requests[q].ticket
                            &&& self@.connections == pushed.connections.remove(c)
                            &&& self@.requests == pushed.requests.remove(q)
                        };
                    if c < last {
                        assert(is_match(before.connections, before.requests, c, q));
                    }
                    assert(c == last);
                    assert forall|j: int| 0 <= j < before.requests.take(q).len() implies (
                    #[trigger] before.requests.take(q)[j]).machine_type != kind by {
                        if before.requests[j].machine_type == kind {
                            assert(is_match(pushed.connections, pushed.requests, last, j));
                        }
                    }
                    lemma_first_waiting_is(before.requests, kind, q);
                    assert(pushed.connections.remove(last) =~= before.connections);
                },
                None => {
                    assert forall|j: int| 0 <= j < before.requests.len() implies (
                    #[trigger] before.requests[j]).machine_type != kind by {
                        assert(!is_match(pushed.connections, pushed.requests, last, j));
                    }
                },
            }
            lemma_connection_arrived_keeps_wf(before, kind);
        }
        Some(Arrival { ticket, assignment })
    }

    /// An assigned connection could not be handed over: the request it was
    /// for is gone. The request is forgotten, and the connection arrives once
    /// more, as `connection_arrived` has it.
    pub fn delivery_failed(&mut self, machine_type: String) -> (r: Option<Arrival>)
        requires
            old(self).wf(),
        ensures
            final(self).wf(),
            match r {
                Some(arrival) => old(self)@.next_ticket < u64::MAX && (final(self)@, arrival) == old(
                    self,
                )@.connection_arrived(machine_type@),
                None => old(self)@.next_ticket == u64::MAX && final(self)@ == old(self)@,
            },
    {
        self.connection_arrived(machine_type)
    }
}

/// Which of the two inputs of the assigner may still bring an arrival. The
/// assigner has work as long as one of them may; it ends when both are closed
/// for good.
#[derive(Debug, Clone, Copy, PartialEq, Eq)]
pub struct Inputs {
    pub requests: bool,
    pub connections: bool,
}

impl Inputs {
    /// Both inputs open.
    pub fn new() -> (r: Inputs)
        ensures
            r == (Inputs { requests: true, connections: true }),
    {
        Inputs { requests: true, connections: true }
    }

    /// No more requests will arrive.
    pub fn requests_closed(&mut self)
        ensures
            *final(self) == (Inputs { requests: false, ..*old(self) }),
    {
        self.requests = false;
    }

    /// No more connections will arrive.
    pub fn connections_closed(&mut self)
        ensures
            *final(self) == (Inputs { connections: false, ..*old(self) }),
    {
        self.connections = false;
    }

    /// Whether nothing more can arrive.
    pub fn exhausted(&self) -> (r: bool)
        ensures
            r == (!self.requests && !self.connections),
    {
        !self.requests && !self.connections
    }
}

/// The arrival of a request leaves the assigner well formed: the lists stay
/// in order of arrival, and no pair that could be served is left waiting.
pub proof fn lemma_request_arrived_keeps_wf(state: AssignerView, machine_type: Seq<char>)
    requires
        state.wf(),
        state.next_ticket < u64::MAX,
    ensures
        state.request_arrived(machine_type).0.wf(),
{
    let next = state.request_arrived(machine_type).0;
    lemma_first_waiting(state.connections, machine_type);
    match first_waiting(state.connections, machine_type) {
        Some(c) => {
            lemma_removal_keeps_order(state.connections, c, next.next_ticket);
            assert forall|c2: int, q2: int| !is_match(next.connections, next.requests, c2, q2) by {
                if is_match(next.connections, next.requests, c2, q2) {
                    let c3 = if c2 < c {
                        c2
                    } else {
                        c2 + 1
                    };
                    assert(is_match(state.connections, state.requests, c3, q2));
                }
            }
        },
        None => {
            assert forall|c2: int, q2: int| !is_match(next.connections, next.requests, c2, q2) by {
                if is_match(next.connections, next.requests, c2, q2) {
                    if q2 < state.requests.len() {
                        assert(is_match(state.connections, state.requests, c2, q2));
                    }
                }
            }
        },
    }
}

/// The arrival of a connection leaves the assigner well formed: the lists
/// stay in order of arrival, and no pair that could be served is left waiting.
pub proof fn lemma_connection_arrived_keeps_wf(state: AssignerView, machine_type: Seq<char>)
    requires
        state.wf(),
        state.next_ticket < u64::MAX,
    ensures
        state.connection_arrived(machine_type).0.wf(),
{
    let next = state.connection_arrived(machine_type).0;
    lemma_first_waiting(state.requests, machine_type);
    match first_waiting(state.requests, machine_type) {
        Some(q) => {
            lemma_removal_keeps_order(state.requests, q, next.next_ticket);
            assert forall|c2: int, q2: int| !is_match(next.connections, next.requests, c2, q2) by {
                if is_match(next.connections, next.requests, c2, q2) {
                    let q3 = if q2 < q {
                        q2
                    } else {
                        q2 + 1
                    };
                    assert(is_match(state.connections, state.requests, c2, q3));
                }
            }
        },
        None => {
            assert forall|c2: int, q2: int| !is_match(next.connections, next.requests, c2, q2) by {
                if is_match(next.connections, next.requests, c2, q2) {
                    if c2 < state.connections.len() {
                        assert(is_match(state.connections, state.requests, c2, q2));
                    }
                }
            }
        },
    }
}

/// A list in arrival order stays so when an entry leaves it, under any bound
/// that is no smaller.
proof fn lemma_removal_keeps_order(list: Seq<Waiting>, i: int, bound: u64)
    requires
        0 <= i < list.len(),
        exists|b: u64| b <= bound && in_arrival_order(list, b),
    ensures
        in_arrival_order(list.remove(i), bound),
{
    let removed = list.remove(i);
    assert forall|a: int, b: int| 0 <= a < b < removed.len() implies (#[trigger] removed[a]).ticket < (
    #[trigger] removed[b]).ticket by {
        let a2 = if a < i {
            a
        } else {
            a + 1
        };
        let b2 = if b < i {
            b
        } else {
            b + 1
        };
        assert(list[a2].ticket < list[b2].ticket);
    }
    assert forall|a: int| 0 <= a < removed.len() implies (#[trigger] removed[a]).ticket < bound by {
        let a2 = if a < i {
            a
        } else {
            a + 1
        };
        assert(list[a2].ticket < bound);
    }
}

} // verus!
