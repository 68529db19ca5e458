//! The record of measurements over time.
//!
//! An archive holds benches. A bench is known by its name together with its
//! keys, which say what kind of measurement it holds and where it was taken;
//! the order of the keys does not matter. Measurements of a later run are added
//! to the bench of the same name and keys.
use crate::orchestrator_protocol::{keys_view, BenchComplete, BenchCompleteView};
use crate::run_jobs::{results_view, JobResult, JobResultView};
use vstd::prelude::*;

verus! {

/// One measured value: a single-precision number, carried as its bit pattern.
#[derive(Debug, Clone, Copy, PartialEq, Eq)]
pub struct BenchMeasurement {
    pub value: u32,
}

/// The measurements of one bench under one set of keys.
#[derive(Debug, Clone, PartialEq, Eq)]
pub struct Bench {
    pub name: String,
    /// What the measurements are of and where they were taken: pairs of key
    /// and value, no key twice.
    pub keys: Vec<(String, String)>,
    pub measurements: Vec<BenchMeasurement>,
}

/// The benches of a project with all their measurements so far.
#[derive(Debug, Clone, PartialEq, Eq)]
pub struct BenchArchive {
    version: u32,
    reset_id: u32,
    pub title: String,
    pub benches: Vec<Bench>,
}

pub struct BenchView {
    pub name: Seq<char>,
    pub keys: Seq<(Seq<char>, Seq<char>)>,
    pub measurements: Seq<BenchMeasurement>,
}

pub struct BenchArchiveView {
    pub version: u32,
    pub reset_id: u32,
    pub title: Seq<char>,
    pub benches: Seq<BenchView>,
}

impl View for Bench {
    type V = BenchView;

    open spec fn view(&self) -> BenchView {
        BenchView { name: self.name@, keys: keys_view(self.keys@), measurements: self.measurements@ }
    }
}

/// The benches of a list, each by its view.
pub open spec fn benches_view(benches: Seq<Bench>) -> Seq<BenchView> {
    Seq::new(benches.len(), |i: int| benches[i]@)
}

impl View for BenchArchive {
    type V = BenchArchiveView;

    closed spec fn view(&self) -> BenchArchiveView {
        BenchArchiveView {
            version: self.version,
            reset_id: self.reset_id,
            title: self.title@,
            benches: benches_view(self.benches@),
        }
    }
}

/// Every entry of `a` is an entry of `b`.
pub open spec fn covered(a: Seq<(Seq<char>, Seq<char>)>, b: Seq<(Seq<char>, Seq<char>)>) -> bool {
    forall|i: int| 0 <= i < a.len() ==> b.contains(#[trigger] a[i])
}

/// The two lists hold the same entries, in whatever order.
pub open spec fn same_entries(a: Seq<(Seq<char>, Seq<char>)>, b: Seq<(Seq<char>, Seq<char>)>) -> bool {
    covered(a, b) && covered(b, a)
}

/// The two are measurements of the same bench: the names are equal and the
/// keys hold the same entries.
pub open spec fn same_bench(a: BenchView, b: BenchView) -> bool {
    a.name == b.name && same_entries(a.keys, b.keys)
}

/// The place of the first of `benches` that is the same bench as `new`, or
/// the number of benches if none is.
pub open spec fn place_of_bench(benches: Seq<BenchView>, new: BenchView) -> int
    decreases benches.len(),
{
    if benches.len() == 0 {
        0
    } else if same_bench(benches[0], new) {
        0
    } else {
        1 + place_of_bench(benches.drop_first(), new)
    }
}

/// `place_of_bench` names the first bench that is the same, and the number of
/// benches only if none is.
pub proof fn lemma_place_of_bench(benches: Seq<BenchView>, new: BenchView)
    ensures
        0 <= place_of_bench(benches, new) <= benches.len(),
        place_of_bench(benches, new) < benches.len() ==> same_bench(
            benches[place_of_bench(benches, new)],
            new,
        ),
        forall|i: int|
            0 <= i < place_of_bench(benches, new) ==> !same_bench(#[trigger] benches[i], new),
    decreases benches.len(),
{
    if benches.len() > 0 && !same_bench(benches[0], new) {
        let rest = benches.drop_first();
        lemma_place_of_bench(rest, new);
        assert forall|i: int| 0 <= i < place_of_bench(benches, new) implies !same_bench(
            #[trigger] benches[i],
            new,
        ) by {
            if i > 0 {
                assert(benches[i] == rest[i - 1]);
            }
        }
    }
}

/// The benches after the measurements of `new` have been added to the bench
/// they belong to. Measurements of a bench that the archive does not hold are
/// not taken.
pub open spec fn absorbed(benches: Seq<BenchView>, new: BenchView) -> Seq<BenchView> {
    let at = place_of_bench(benches, new);
    if at >= benches.len() {
        benches
    } else {
        benches.update(
            at,
            BenchView { measurements: benches[at].measurements + new.measurements, ..benches[at] },
        )
    }
}

/// The benches after the first `n` of `news` have been absorbed, one after
/// the other.
pub open spec fn absorbed_upto(benches: Seq<BenchView>, news: Seq<BenchView>, n: int) -> Seq<
    BenchView,
>
    decreases n,
{
    if n <= 0 {
        benches
    } else {
        absorbed(absorbed_upto(benches, news, n - 1), news[n - 1])
    }
}

impl BenchArchiveView {
    /// The archive that `reset_if_mismatch` leaves.
    pub open spec fn reset(self, reset_id: u32) -> BenchArchiveView {
        if reset_id != self.reset_id {
            BenchArchiveView { benches: Seq::empty(), reset_id, ..self }
        } else {
            self
        }
    }

    /// The archive that `insert` leaves.
    pub open spec fn inserted(self, new_archive: BenchArchiveView) -> BenchArchiveView {
        BenchArchiveView {
            benches: absorbed_upto(
                self.benches,
                new_archive.benches,
                new_archive.benches.len() as int,
            ),
            ..self
        }
    }
}

/// Whether `entry` is among `list`.
fn holds_entry(list: &Vec<(String, String)>, entry: &(String, String)) -> (r: bool)
    ensures
        r == keys_view(list@).contains((entry.0@, entry.1@)),
{
    let mut i: usize = 0;
    while i < list.len()
        invariant
            i <= list.len(),
            forall|j: int| 0 <= j < i ==> keys_view(list@)[j] != (entry.0@, entry.1@),
        decreases list.len() - i,
    {
        if list[i].0 == entry.0 && list[i].1 == entry.1 {
            proof {
                assert(keys_view(list@)[i as int] == (entry.0@, entry.1@));
            }
            return true;
        }
        i += 1;
    }
    false
}

/// Whether every entry of `a` is an entry of `b`.
fn is_covered(a: &Vec<(String, String)>, b: &Vec<(String, String)>) -> (r: bool)
    ensures
        r == covered(keys_view(a@), keys_view(b@)),
{
    let mut i: usize = 0;
    while i < a.len()
        invariant
            i <= a.len(),
            forall|j: int| 0 <= j < i ==> keys_view(b@).contains(#[trigger] keys_view(a@)[j]),
        decreases a.len() - i,
    {
        if !holds_entry(b, &a[i]) {
            proof {
                assert(!keys_view(b@).contains(keys_view(a@)[i as int]));
            }
            return false;
        }
        i += 1;
    }
    true
}

impl Bench {
    /// Whether the two are measurements of the same bench.
    pub fn is_same_bench(&self, other: &Bench) -> (r: bool)
        ensures
            r == same_bench(self@, other@),
    {
        self.name == other.name && is_covered(&self.keys, &other.keys) && is_covered(
            &other.keys,
            &self.keys,
        )
    }
}

impl BenchArchive {
    /// An archive with these benches, in its first version and never reset.
    pub fn new(name: String, benches: Vec<Bench>) -> (r: BenchArchive)
        ensures
            r@ == (BenchArchiveView {
                version: 0,
                reset_id: 0,
                title: name@,
                benches: benches_view(benches@),
            }),
    {
        BenchArchive { version: 0, reset_id: 0, title: name, benches }
    }

    /// An archive as it was when it was written: in this version, last reset
    /// with `reset_id`.
    pub fn from_parts(version: u32, reset_id: u32, title: String, benches: Vec<Bench>) -> (r:
        BenchArchive)
        ensures
            r@ == (BenchArchiveView {
                version,
                reset_id,
                title: title@,
                benches: benches_view(benches@),
            }),
    {
        BenchArchive { version, reset_id, title, benches }
    }

    /// The version of the archive's layout.
    pub fn version(&self) -> (r: u32)
        ensures
            r == self@.version,
    {
        self.version
    }

    /// What the archive was last reset with.
    pub fn reset_id(&self) -> (r: u32)
        ensures
            r == self@.reset_id,
    {
        self.reset_id
    }

    /// Forgets every bench if `reset_id` is not the one the archive was last
    /// reset with, and remembers the new one. With the same one nothing
    /// changes.
    pub fn reset_if_mismatch(&mut self, reset_id: u32)
        ensures
            final(self)@ == old(self)@.reset(reset_id),
    {
        if reset_id != self.reset_id {
            self.benches.clear();
            self.reset_id = reset_id;
            proof {
                assert(self@.benches =~= Seq::empty());
            }
        }
    }

    fn find(&self, new: &Bench) -> (r: usize)
        ensures
            r == place_of_bench(self@.benches, new@),
            r <= self.benches.len(),
    {
        let mut i: usize = 0;
        while i < self.benches.len()
            invariant
                i <= self.benches.len(),
                forall|j: int| 0 <= j < i ==> !same_bench(#[trigger] self@.benches[j], new@),
            decreases self.benches.len() - i,
        {
            if self.benches[i].is_same_bench(new) {
                proof {
                    lemma_place_of_bench(self@.benches, new@);
                    assert(same_bench(self@.benches[i as int], new@));
                }
                return i;
            }
            i += 1;
        }
        proof {
            lemma_place_of_bench(self@.benches, new@);
            let at = place_of_bench(self@.benches, new@);
            if at < self@.benches.len() {
                assert(same_bench(self@.benches[at], new@));
            }
        }
        i
    }

    fn absorb(&mut self, new: &Bench)
        ensures
            final(self)@ == (BenchArchiveView {
                benches: absorbed(old(self)@.benches, new@),
                ..old(self)@
            }),
    {
        let at = self.find(new);
        if at < self.benches.len() {
            let ghost before = self@.benches;
            let mut bench = self.benches.remove(at);
            let ghost old_bench = bench@;
            let mut i: usize = 0;
            while i < new.measurements.len()
                invariant
                    i <= new.measurements.len(),
                    bench.name@ == old_bench.name,
                    keys_view(bench.keys@) == old_bench.keys,
                    bench.measurements@ == old_bench.measurements + new.measurements@.take(i as int),
                decreases new.measurements.len() - i,
            {
                bench.measurements.push(new.measurements[i]);
                i += 1;
            }
            proof {
                assert(new.measurements@.take(i as int) =~= new.measurements@);
            }
            let ghost updated = bench@;
            self.benches.insert(at, bench);
            proof {
                assert(before[at as int] == old_bench);
                assert(self@.benches =~= before.update(at as int, updated));
            }
        }
    }

    /// Adds the measurements of `new_archive` to the benches they belong to,
    /// bench after bench. A bench of `new_archive` that this archive does not
    /// hold is not taken.
    pub fn insert(&mut self, new_archive: BenchArchive)
        ensures
            final(self)@ == old(self)@.inserted(new_archive@),
    {
        let ghost news = new_archive@.benches;
        let mut i: usize = 0;
        while i < new_archive.benches.len()
            invariant
                i <= new_archive.benches.len(),
                news == new_archive@.benches,
                self@ == (BenchArchiveView {
                    benches: absorbed_upto(old(self)@.benches, news, i as int),
                    ..old(self)@
                }),
            decreases new_archive.benches.len() - i,
        {
            self.absorb(&new_archive.benches[i]);
            i += 1;
        }
    }
}

/// The key under which a bench records the machine type it ran on.
pub open spec fn machine_key() -> Seq<char> {
    "machine"@
}

/// The place of the first entry of `keys` with the key `key`, or the number
/// of entries if none has it.
pub open spec fn place_of_key(keys: Seq<(Seq<char>, Seq<char>)>, key: Seq<char>) -> int
    decreases keys.len(),
{
    if keys.len() == 0 {
        0
    } else if keys[0].0 == key {
        0
    } else {
        1 + place_of_key(keys.drop_first(), key)
    }
}

/// `place_of_key` names the first entry with the key, and the number of
/// entries only if none has it.
pub proof fn lemma_place_of_key(keys: Seq<(Seq<char>, Seq<char>)>, key: Seq<char>)
    ensures
        0 <= place_of_key(keys, key) <= keys.len(),
        place_of_key(keys, key) < keys.len() ==> keys[place_of_key(keys, key)].0 == key,
        forall|i: int| 0 <= i < place_of_key(keys, key) ==> (#[trigger] keys[i]).0 != key,
    decreases keys.len(),
{
    if keys.len() > 0 && keys[0].0 != key {
        let rest = keys.drop_first();
        lemma_place_of_key(rest, key);
        assert forall|i: int| 0 <= i < place_of_key(keys, key) implies (#[trigger] keys[i]).0
            != key by {
            if i > 0 {
                assert(keys[i] == rest[i - 1]);
            }
        }
    }
}

/// The keys with `value` under `key`: in the place of the entry that had the
/// key, or at the end if none had it.
pub open spec fn with_key(
    keys: Seq<(Seq<char>, Seq<char>)>,
    key: Seq<char>,
    value: Seq<char>,
) -> Seq<(Seq<char>, Seq<char>)> {
    let at = place_of_key(keys, key);
    if at >= keys.len() {
        keys.push((key, value))
    } else {
        keys.update(at, (key, value))
    }
}

/// The bench that one measurement of a run on `machine_type` opens: named as
/// the measurement, under its keys and the machine type, with this one
/// measurement.
pub open spec fn bench_of(complete: BenchCompleteView, machine_type: Seq<char>) -> BenchView {
    BenchView {
        name: complete.bench_name,
        keys: with_key(complete.keys, machine_key(), machine_type),
        measurements: seq![BenchMeasurement { value: complete.wall_time }],
    }
}

/// The benches of the measurements of one job, in the order they came.
pub open spec fn benches_of_job(job: JobResultView) -> Seq<BenchView> {
    Seq::new(job.benches.len(), |i: int| bench_of(job.benches[i], job.machine_type))
}

/// The benches of the first `n` jobs, job after job.
pub open spec fn benches_upto(jobs: Seq<JobResultView>, n: int) -> Seq<BenchView>
    decreases n,
{
    if n <= 0 {
        Seq::empty()
    } else {
        benches_upto(jobs, n - 1) + benches_of_job(jobs[n - 1])
    }
}

/// The keys with `value` under `key`.
pub fn set_key(keys: &Vec<(String, String)>, key: &str, value: &String) -> (r: Vec<(String, String)>)
    ensures
        keys_view(r@) == with_key(keys_view(keys@), key@, value@),
{
    let ghost old_keys = keys_view(keys@);
    let wanted = key.to_owned();
    let mut out: Vec<(String, String)> = Vec::new();
    let mut replaced = false;
    let mut i: usize = 0;
    while i < keys.len()
        invariant
            i <= keys.len(),
            old_keys == keys_view(keys@),
            wanted@ == key@,
            replaced ==> place_of_key(old_keys, key@) < i && keys_view(out@) == with_key(
                old_keys,
                key@,
                value@,
            ).take(i as int),
            !replaced ==> keys_view(out@) == old_keys.take(i as int) && forall|j: int|
                0 <= j < i ==> (#[trigger] old_keys[j]).0 != key@,
        decreases keys.len() - i,
    {
        let ghost before = keys_view(out@);
        proof {
            lemma_place_of_key(old_keys, key@);
        }
        if !replaced && keys[i].0 == wanted {
            out.push((key.to_owned(), value.clone()));
            replaced = true;
            proof {
                assert(old_keys[i as int].0 == key@);
                assert(place_of_key(old_keys, key@) == i);
                assert(keys_view(out@) =~= before.push((key@, value@)));
            }
        } else {
            out.push((keys[i].0.clone(), keys[i].1.clone()));
            proof {
                if !replaced {
                    assert(old_keys[i as int].0 != key@);
                }
            }
        }
        i += 1;
    }
    proof {
        lemma_place_of_key(old_keys, key@);
        assert(old_keys.take(i as int) =~= old_keys);
    }
    if !replaced {
        out.push((key.to_owned(), value.clone()));
        proof {
            let at = place_of_key(old_keys, key@);
            if at < old_keys.len() {
                assert(old_keys[at].0 == key@);
            }
        }
    }
    out
}

impl Bench {
    /// The bench that one measurement of a run on `machine_type` opens.
    pub fn from_complete(complete: &BenchComplete, machine_type: &String) -> (r: Bench)
        ensures
            r@ == bench_of(complete@, machine_type@),
    {
        let mut measurements: Vec<BenchMeasurement> = Vec::new();
        measurements.push(BenchMeasurement { value: complete.wall_time });
        Bench {
            name: complete.bench_name.clone(),
            keys: set_key(&complete.keys, "machine", machine_type),
            measurements,
        }
    }
}

/// The benches of what a run brought back: one for every measurement, job
/// after job, each under the machine type of its job.
pub fn benches_of(results: &Vec<JobResult>) -> (r: Vec<Bench>)
    ensures
        benches_view(r@) == benches_upto(results_view(results@), results.len() as int),
{
    let ghost jobs = results_view(results@);
    let mut benches: Vec<Bench> = Vec::new();
    let mut i: usize = 0;
    while i < results.len()
        invariant
            i <= results.len(),
            jobs == results_view(results@),
            benches_view(benches@) == benches_upto(jobs, i as int),
        decreases results.len() - i,
    {
        let job = &results[i];
        let ghost before = benches_view(benches@);
        let mut k: usize = 0;
        while k < job.benches.len()
            invariant
                k <= job.benches.len(),
                i < results.len(),
                job == results[i as int],
                jobs == results_view(results@),
                benches_view(benches@) == before + benches_of_job(jobs[i as int]).take(k as int),
            decreases job.benches.len() - k,
        {
            let ghost so_far = benches_view(benches@);
            let bench = Bench::from_complete(&job.benches[k], &job.machine_type);
            benches.push(bench);
            proof {
                assert(benches_view(benches@) =~= so_far.push(bench@));
                assert(benches_of_job(jobs[i as int])[k as int] == bench@);
            }
            k += 1;
        }
        i += 1;
    }
    benches
}

} // verus!
