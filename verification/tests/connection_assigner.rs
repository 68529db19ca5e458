use ussal::connection_assigner::{find_match, Arrival, Assigner, Assignment, Connection, Request};

fn connection(ticket: u64, machine_type: &str) -> Connection {
    Connection { ticket, machine_type: machine_type.to_owned() }
}

fn request(ticket: u64, machine_type: &str) -> Request {
    Request { ticket, machine_type: machine_type.to_owned() }
}

#[test]
fn find_match_on_empty_lists_finds_nothing() {
    assert_eq!(find_match(&[], &[]), None);
    assert_eq!(find_match(&[connection(0, "x")], &[]), None);
    assert_eq!(find_match(&[], &[request(0, "x")]), None);
}

#[test]
fn find_match_prefers_the_first_connection_then_the_first_request() {
    let connections = vec![connection(0, "arm"), connection(1, "x86"), connection(2, "x86")];
    let requests = vec![request(3, "riscv"), request(4, "x86"), request(5, "x86"), request(6, "arm")];
    // The first connection that has any partner wins, though its partner is the last request.
    assert_eq!(find_match(&connections, &requests), Some((0, 3)));
    // Without the arm request the first x86 connection takes the first x86 request.
    assert_eq!(find_match(&connections, &requests[..3]), Some((1, 1)));
}

#[test]
fn find_match_never_joins_different_machine_types() {
    let connections = vec![connection(0, "x")];
    let requests = vec![request(1, "y"), request(2, "X"), request(3, "x ")];
    assert_eq!(find_match(&connections, &requests), None);
}

#[test]
fn new_assigner_has_nobody_waiting() {
    let assigner = Assigner::new();
    assert_eq!(assigner.waiting_requests(), 0);
    assert_eq!(assigner.waiting_connections(), 0);
}

#[test]
fn tickets_count_up_from_zero_over_both_kinds_of_arrival() {
    let mut assigner = Assigner::new();
    assert_eq!(
        assigner.request_arrived("a".to_owned()),
        Some(Arrival { ticket: 0, assignment: None })
    );
    assert_eq!(
        assigner.connection_arrived("b".to_owned()),
        Some(Arrival { ticket: 1, assignment: None })
    );
    assert_eq!(
        assigner.request_arrived("c".to_owned()),
        Some(Arrival { ticket: 2, assignment: None })
    );
    assert_eq!(assigner.waiting_requests(), 2);
    assert_eq!(assigner.waiting_connections(), 1);
}

#[test]
fn connection_goes_to_the_request_that_arrived_first() {
    let mut assigner = Assigner::new();
    let r1 = assigner.request_arrived("x86".to_owned()).unwrap();
    let r2 = assigner.request_arrived("x86".to_owned()).unwrap();
    assert_eq!(r1.assignment, None);
    assert_eq!(r2.assignment, None);
    let c = assigner.connection_arrived("x86".to_owned()).unwrap();
    assert_eq!(c.ticket, 2);
    assert_eq!(c.assignment, Some(Assignment { connection: c.ticket, request: r1.ticket }));
    assert_eq!(assigner.waiting_requests(), 1);
    assert_eq!(assigner.waiting_connections(), 0);
    // The second request is served by the next connection.
    let c2 = assigner.connection_arrived("x86".to_owned()).unwrap();
    assert_eq!(c2.assignment, Some(Assignment { connection: c2.ticket, request: r2.ticket }));
    assert_eq!(assigner.waiting_requests(), 0);
}

#[test]
fn request_takes_the_connection_that_arrived_first() {
    let mut assigner = Assigner::new();
    let c1 = assigner.connection_arrived("arm".to_owned()).unwrap();
    let c2 = assigner.connection_arrived("arm".to_owned()).unwrap();
    let r = assigner.request_arrived("arm".to_owned()).unwrap();
    assert_eq!(r.assignment, Some(Assignment { connection: c1.ticket, request: r.ticket }));
    let r2 = assigner.request_arrived("arm".to_owned()).unwrap();
    assert_eq!(r2.assignment, Some(Assignment { connection: c2.ticket, request: r2.ticket }));
    assert_eq!(assigner.waiting_connections(), 0);
    assert_eq!(assigner.waiting_requests(), 0);
}

#[test]
fn connection_of_one_type_leaves_requests_of_another_waiting() {
    let mut assigner = Assigner::new();
    let waiting = assigner.request_arrived("y".to_owned()).unwrap();
    let c = assigner.connection_arrived("x".to_owned()).unwrap();
    assert_eq!(c.assignment, None);
    assert_eq!(assigner.waiting_requests(), 1);
    assert_eq!(assigner.waiting_connections(), 1);
    // Each is served once its own type arrives.
    let y = assigner.connection_arrived("y".to_owned()).unwrap();
    assert_eq!(y.assignment, Some(Assignment { connection: y.ticket, request: waiting.ticket }));
    let x = assigner.request_arrived("x".to_owned()).unwrap();
    assert_eq!(x.assignment, Some(Assignment { connection: c.ticket, request: x.ticket }));
    assert_eq!(assigner.waiting_requests(), 0);
    assert_eq!(assigner.waiting_connections(), 0);
}

#[test]
fn a_later_request_of_another_type_does_not_jump_the_queue() {
    let mut assigner = Assigner::new();
    let first = assigner.request_arrived("x86".to_owned()).unwrap();
    let other = assigner.request_arrived("arm".to_owned()).unwrap();
    let second = assigner.request_arrived("x86".to_owned()).unwrap();
    let arm = assigner.connection_arrived("arm".to_owned()).unwrap();
    assert_eq!(arm.assignment.unwrap().request, other.ticket);
    let a = assigner.connection_arrived("x86".to_owned()).unwrap();
    assert_eq!(a.assignment.unwrap().request, first.ticket);
    let b = assigner.connection_arrived("x86".to_owned()).unwrap();
    assert_eq!(b.assignment.unwrap().request, second.ticket);
}

#[test]
fn machine_types_are_compared_character_by_character() {
    let mut assigner = Assigner::new();
    assigner.request_arrived("größe-ü".to_owned()).unwrap();
    assert_eq!(assigner.connection_arrived("grösse-ü".to_owned()).unwrap().assignment, None);
    let hit = assigner.connection_arrived("größe-ü".to_owned()).unwrap();
    assert_eq!(hit.assignment, Some(Assignment { connection: 2, request: 0 }));
}

#[test]
fn assigner_ends_when_both_inputs_are_closed() {
    let mut inputs = ussal::connection_assigner::Inputs::new();
    assert!(!inputs.exhausted());
    inputs.connections_closed();
    assert!(inputs.requests);
    assert!(!inputs.connections);
    assert!(!inputs.exhausted());
    inputs.requests_closed();
    assert!(inputs.exhausted());
    inputs.requests_closed();
    assert!(inputs.exhausted());
}

#[test]
fn connection_whose_request_is_gone_arrives_once_more() {
    let mut assigner = Assigner::new();
    let gone = assigner.request_arrived("x86".to_owned()).unwrap();
    let waiting = assigner.request_arrived("x86".to_owned()).unwrap();
    let c = assigner.connection_arrived("x86".to_owned()).unwrap();
    assert_eq!(c.assignment.unwrap().request, gone.ticket);
    let again = assigner.delivery_failed("x86".to_owned()).unwrap();
    assert_eq!(again.ticket, 3);
    assert_eq!(again.assignment, Some(Assignment { connection: 3, request: waiting.ticket }));
    let alone = assigner.delivery_failed("x86".to_owned()).unwrap();
    assert_eq!(alone.assignment, None);
    assert_eq!(assigner.waiting_connections(), 1);
}
