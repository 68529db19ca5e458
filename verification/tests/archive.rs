use ussal::archive::{benches_of, set_key, Bench, BenchArchive, BenchMeasurement};
use ussal::orchestrator_protocol::BenchComplete;
use ussal::run_jobs::JobResult;

fn keys(list: &[(&str, &str)]) -> Vec<(String, String)> {
    list.iter().map(|(key, value)| (key.to_string(), value.to_string())).collect()
}

fn bench(name: &str, key_list: &[(&str, &str)], values: &[u32]) -> Bench {
    Bench {
        name: name.to_owned(),
        keys: keys(key_list),
        measurements: values.iter().map(|value| BenchMeasurement { value: *value }).collect(),
    }
}

#[test]
fn new_archive_holds_what_it_is_given() {
    let archive = BenchArchive::new("Benches".to_owned(), vec![bench("a", &[], &[1])]);
    assert_eq!(archive.title, "Benches");
    assert_eq!(archive.benches, vec![bench("a", &[], &[1])]);
}

#[test]
fn reset_with_the_first_identifier_changes_nothing() {
    let mut archive = BenchArchive::new("t".to_owned(), vec![bench("a", &[], &[1])]);
    let before = archive.clone();
    archive.reset_if_mismatch(0);
    assert_eq!(archive, before);
}

#[test]
fn reset_with_a_new_identifier_forgets_the_benches_once() {
    let mut archive = BenchArchive::new("t".to_owned(), vec![bench("a", &[], &[1])]);
    archive.reset_if_mismatch(3);
    assert_eq!(archive.benches, vec![]);
    assert_eq!(archive.title, "t");
    archive.benches.push(bench("b", &[], &[2]));
    archive.reset_if_mismatch(3);
    assert_eq!(archive.benches, vec![bench("b", &[], &[2])]);
    archive.reset_if_mismatch(0);
    assert_eq!(archive.benches, vec![]);
}

#[test]
fn measurements_join_the_bench_of_the_same_name_and_keys() {
    let walltime = [("type", "walltime (ns)"), ("machine", "x86")];
    let mut archive = BenchArchive::new(
        "t".to_owned(),
        vec![bench("foo", &[("type", "instructions")], &[1]), bench("foo", &walltime, &[2, 3])],
    );
    let new = BenchArchive::new(
        "later".to_owned(),
        vec![bench("foo", &[("machine", "x86"), ("type", "walltime (ns)")], &[4, 5])],
    );
    archive.insert(new);
    assert_eq!(archive.title, "t");
    assert_eq!(
        archive.benches,
        vec![bench("foo", &[("type", "instructions")], &[1]), bench("foo", &walltime, &[2, 3, 4, 5])]
    );
}

#[test]
fn measurements_of_an_unknown_bench_are_not_taken() {
    let mut archive = BenchArchive::new("t".to_owned(), vec![bench("foo", &[("k", "v")], &[1])]);
    let new = BenchArchive::new(
        "t".to_owned(),
        vec![
            bench("bar", &[("k", "v")], &[2]),
            bench("foo", &[("k", "w")], &[3]),
            bench("foo", &[], &[4]),
            bench("foo", &[("k", "v"), ("l", "v")], &[5]),
            bench("foo", &[("k", "v")], &[6]),
        ],
    );
    archive.insert(new);
    assert_eq!(archive.benches, vec![bench("foo", &[("k", "v")], &[1, 6])]);
}

#[test]
fn of_two_equal_benches_the_first_takes_the_measurements() {
    let mut archive =
        BenchArchive::new("t".to_owned(), vec![bench("foo", &[], &[1]), bench("foo", &[], &[2])]);
    archive.insert(BenchArchive::new("t".to_owned(), vec![bench("foo", &[], &[3]), bench("foo", &[], &[4])]));
    assert_eq!(archive.benches, vec![bench("foo", &[], &[1, 3, 4]), bench("foo", &[], &[2])]);
}

#[test]
fn same_bench_looks_at_name_and_keys_only() {
    let a = bench("foo", &[("a", "1"), ("b", "2")], &[1]);
    assert!(a.is_same_bench(&bench("foo", &[("b", "2"), ("a", "1")], &[])));
    assert!(!a.is_same_bench(&bench("fo", &[("a", "1"), ("b", "2")], &[1])));
    assert!(!a.is_same_bench(&bench("foo", &[("a", "1")], &[1])));
    assert!(!bench("foo", &[("a", "1")], &[1]).is_same_bench(&a));
    assert!(!a.is_same_bench(&bench("foo", &[("a", "2"), ("b", "1")], &[1])));
}

#[test]
fn machine_type_joins_the_keys_of_a_measurement() {
    assert_eq!(set_key(&vec![], "machine", &"x86".to_owned()), keys(&[("machine", "x86")]));
    assert_eq!(
        set_key(&keys(&[("type", "walltime (ns)")]), "machine", &"x86".to_owned()),
        keys(&[("type", "walltime (ns)"), ("machine", "x86")])
    );
    assert_eq!(
        set_key(&keys(&[("a", "1"), ("machine", "old"), ("b", "2")]), "machine", &"new".to_owned()),
        keys(&[("a", "1"), ("machine", "new"), ("b", "2")])
    );
    assert_eq!(
        set_key(&keys(&[("machine", "one"), ("machine", "two")]), "machine", &"new".to_owned()),
        keys(&[("machine", "new"), ("machine", "two")])
    );

    let complete = |name: &str, wall_time: u32| BenchComplete {
        bench_name: name.to_owned(),
        keys: keys(&[("type", "walltime (ns)")]),
        wall_time,
    };
    assert_eq!(
        Bench::from_complete(&complete("foo", 7), &"arm".to_owned()),
        bench("foo", &[("type", "walltime (ns)"), ("machine", "arm")], &[7])
    );
    let results = vec![
        JobResult {
            job_id: 1,
            machine_type: "x86".to_owned(),
            finished: true,
            benches: vec![complete("foo", 1), complete("bar", 2)],
            failures: vec![],
        },
        JobResult { job_id: 2, machine_type: "arm".to_owned(), finished: true, benches: vec![], failures: vec![] },
        JobResult {
            job_id: 3,
            machine_type: "arm".to_owned(),
            finished: true,
            benches: vec![complete("foo", 3)],
            failures: vec![],
        },
    ];
    assert_eq!(
        benches_of(&results),
        vec![
            bench("foo", &[("type", "walltime (ns)"), ("machine", "x86")], &[1]),
            bench("bar", &[("type", "walltime (ns)"), ("machine", "x86")], &[2]),
            bench("foo", &[("type", "walltime (ns)"), ("machine", "arm")], &[3]),
        ]
    );
    assert_eq!(benches_of(&vec![]), vec![]);
}

#[test]
fn archive_keeps_what_it_was_written_with() {
    let archive = BenchArchive::from_parts(2, 9, "t".to_owned(), vec![bench("a", &[], &[1])]);
    assert_eq!(archive.version(), 2);
    assert_eq!(archive.reset_id(), 9);
    let mut same = archive.clone();
    same.reset_if_mismatch(9);
    assert_eq!(same, archive);
    let fresh = BenchArchive::new("t".to_owned(), vec![]);
    assert_eq!((fresh.version(), fresh.reset_id()), (0, 0));
    let mut reset = archive.clone();
    reset.reset_if_mismatch(10);
    assert_eq!(reset.reset_id(), 10);
    assert_eq!(reset.version(), 2);
}
