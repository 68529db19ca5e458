use ussal::orchestrator_protocol::{BenchComplete, JobResponse, JobResult as Outcome};
use ussal::run_jobs::{BenchFailure, JobResult, JobTracker, Progress, Submission};

fn bench(name: &str, wall_time: u32) -> BenchComplete {
    BenchComplete { bench_name: name.to_owned(), keys: vec![], wall_time }
}

fn jobs(ids: &[u128]) -> Vec<Submission> {
    ids.iter().map(|id| Submission { job_id: *id, machine_type: format!("m{id}") }).collect()
}

fn response(job_id: u128, result: Outcome) -> JobResponse {
    JobResponse { job_id, result }
}

#[test]
fn new_tracker_waits_for_every_job() {
    let tracker = JobTracker::new(&jobs(&[3, 1]));
    assert_eq!(tracker.len(), 2);
    assert!(!tracker.all_finished());
    assert_eq!(
        tracker.into_results(),
        vec![
            JobResult { job_id: 3, machine_type: "m3".to_owned(), finished: false, benches: vec![], failures: vec![] },
            JobResult { job_id: 1, machine_type: "m1".to_owned(), finished: false, benches: vec![], failures: vec![] },
        ]
    );
}

#[test]
fn run_is_over_when_every_job_has_completed() {
    let mut tracker = JobTracker::new(&jobs(&[1, 2]));
    assert_eq!(tracker.on_response(response(2, Outcome::BenchComplete(bench("b", 5)))), Progress::Pending);
    assert_eq!(tracker.on_response(response(1, Outcome::BenchComplete(bench("a", 4)))), Progress::Pending);
    assert_eq!(tracker.on_response(response(2, Outcome::JobComplete)), Progress::Pending);
    assert_eq!(tracker.on_response(response(1, Outcome::BenchComplete(bench("c", 6)))), Progress::Pending);
    assert_eq!(tracker.on_response(response(1, Outcome::JobComplete)), Progress::Finished);
    assert!(tracker.all_finished());
    assert_eq!(
        tracker.into_results(),
        vec![
            JobResult { job_id: 1, machine_type: "m1".to_owned(), finished: true, benches: vec![bench("a", 4), bench("c", 6)], failures: vec![] },
            JobResult { job_id: 2, machine_type: "m2".to_owned(), finished: true, benches: vec![bench("b", 5)], failures: vec![] },
        ]
    );
}

#[test]
fn failed_bench_is_noted_and_the_run_goes_on() {
    let mut tracker = JobTracker::new(&jobs(&[1]));
    let failed = Outcome::BenchError { bench_name: "bar".to_owned(), message: "boom".to_owned() };
    assert_eq!(tracker.on_response(response(1, failed)), Progress::Pending);
    assert_eq!(tracker.on_response(response(1, Outcome::BenchComplete(bench("foo", 1)))), Progress::Pending);
    assert_eq!(tracker.on_response(response(1, Outcome::JobComplete)), Progress::Finished);
    assert_eq!(
        tracker.into_results(),
        vec![JobResult {
            job_id: 1,
            machine_type: "m1".to_owned(),
            finished: true,
            benches: vec![bench("foo", 1)],
            failures: vec![BenchFailure { bench_name: "bar".to_owned(), message: "boom".to_owned() }],
        }]
    );
}

#[test]
fn failed_job_fails_the_run_with_its_message() {
    let mut tracker = JobTracker::new(&jobs(&[1, 2]));
    assert_eq!(
        tracker.on_response(response(2, Outcome::JobError("Invalid auth token".to_owned()))),
        Progress::Failed("Invalid auth token".to_owned())
    );
    // Also when the job is not one of the run.
    assert_eq!(
        tracker.on_response(response(9, Outcome::JobError("x".to_owned()))),
        Progress::Failed("x".to_owned())
    );
    assert_eq!(tracker.into_results(), JobTracker::new(&jobs(&[1, 2])).into_results());
}

#[test]
fn outcome_of_an_unknown_job_fails_the_run() {
    let mut tracker = JobTracker::new(&jobs(&[1]));
    assert_eq!(
        tracker.on_response(response(2, Outcome::BenchComplete(bench("a", 1)))),
        Progress::Failed("BenchComplete contained unknown job_id".to_owned())
    );
    assert_eq!(
        tracker.on_response(response(2, Outcome::JobComplete)),
        Progress::Failed("JobComplete contained unknown job_id".to_owned())
    );
    let failed = Outcome::BenchError { bench_name: "b".to_owned(), message: "m".to_owned() };
    assert_eq!(
        tracker.on_response(response(2, failed)),
        Progress::Failed("BenchError contained unknown job_id".to_owned())
    );
    assert!(!tracker.all_finished());
}

#[test]
fn connection_closed_early_has_its_message() {
    assert_eq!(JobTracker::closed_early(), "Connection was closed before all jobs were finished");
}

#[test]
fn identifier_given_twice_names_one_job() {
    let mut tracker = JobTracker::new(&jobs(&[4, 7, 4, 4, 7]));
    assert_eq!(tracker.len(), 2);
    assert_eq!(tracker.on_response(response(4, Outcome::JobComplete)), Progress::Pending);
    assert_eq!(tracker.on_response(response(7, Outcome::JobComplete)), Progress::Finished);
    let results = tracker.into_results();
    assert_eq!(results.len(), 2);
    assert_eq!(results[0].job_id, 4);
    assert_eq!(results[1].job_id, 7);
    let twice = vec![
        Submission { job_id: 1, machine_type: "first".to_owned() },
        Submission { job_id: 1, machine_type: "second".to_owned() },
    ];
    assert_eq!(JobTracker::new(&twice).into_results()[0].machine_type, "first");
}

#[test]
fn run_without_jobs_has_nothing_to_wait_for() {
    let tracker = JobTracker::new(&jobs(&[]));
    assert_eq!(tracker.len(), 0);
    assert!(tracker.all_finished());
}
