//! The scheduler: a catalog of jobs, each with the time it fires next.

use vstd::prelude::*;

use crate::cron::{is_schedule, next_fire, next_fire_after, validate};
use crate::job::{Job, JobView, LoadError};

verus! {

/// The mathematical value of a catalog entry.
pub struct EntryView {
    pub job: JobView,
    pub next_fire: Option<i64>,
}

/// A job of the catalog with the time it fires next, in milliseconds since
/// the Unix epoch. An entry without such a time never fires again.
pub struct ScheduleEntry {
    job: Job,
    next_fire: Option<i64>,
}

impl View for ScheduleEntry {
    type V = EntryView;

    closed spec fn view(&self) -> EntryView {
        EntryView { job: self.job@, next_fire: self.next_fire }
    }
}

impl ScheduleEntry {
    /// The job.
    pub fn job(&self) -> (job: &Job)
        ensures
            job@ == self@.job,
    {
        &self.job
    }

    /// The time the job fires next.
    pub fn next_fire(&self) -> (next: Option<i64>)
        ensures
            next == self@.next_fire,
    {
        self.next_fire
    }

    /// Whether the job's fire time has passed at `now`.
    pub fn is_due(&self, now: i64) -> (due: bool)
        ensures
            due == is_due(self@, now),
    {
        match self.next_fire {
            Some(t) => t <= now,
            None => false,
        }
    }

    /// How long after `now` the job fires, in milliseconds; `None` if it
    /// has no fire time.
    pub fn wait(&self, now: i64) -> (wait: Option<u64>)
        ensures
            wait is Some <==> self@.next_fire is Some,
            wait matches Some(w) ==> waits(self@, now, w as int),
    {
        match self.next_fire {
            Some(t) => Some(
                if t <= now {
                    0
                } else {
                    ((t as i128) - (now as i128)) as u64
                },
            ),
            None => None,
        }
    }
}

/// The values of a sequence of entries.
pub open spec fn entry_views(entries: Seq<ScheduleEntry>) -> Seq<EntryView> {
    entries.map_values(|e: ScheduleEntry| e@)
}

/// Whether a job can be taken into the catalog, and if not, why.
pub open spec fn admission(job: JobView) -> Result<(), LoadError> {
    if job.name.len() == 0 {
        Err(LoadError::UnnamedJob)
    } else if !is_schedule(job.cron) {
        Err(LoadError::BadSchedule)
    } else {
        Ok(())
    }
}

/// The catalog after an attempt to add `job` at the time `now`: with the
/// job at its end if it is admitted, unchanged if it is not.
pub open spec fn with_job(catalog: Seq<EntryView>, job: JobView, now: i64) -> Seq<EntryView> {
    if admission(job) is Ok {
        catalog.push(EntryView { job, next_fire: next_fire(job.cron, now) })
    } else {
        catalog
    }
}

/// Whether an entry's fire time has passed at `now`.
pub open spec fn is_due(entry: EntryView, now: i64) -> bool {
    entry.next_fire matches Some(t) && t <= now
}

/// The indices of the entries that are due at `now`, in catalog order.
pub open spec fn due_indices(catalog: Seq<EntryView>, now: i64) -> Seq<usize>
    decreases catalog.len(),
{
    if catalog.len() == 0 {
        Seq::empty()
    } else {
        let before = due_indices(catalog.drop_last(), now);
        if is_due(catalog.last(), now) {
            before.push((catalog.len() - 1) as usize)
        } else {
            before
        }
    }
}

/// An entry after a tick at `now`: a due entry gets the next fire time of
/// its schedule after `now`, any other entry stays as it is.
pub open spec fn ticked(entry: EntryView, now: i64) -> EntryView {
    if is_due(entry, now) {
        EntryView { job: entry.job, next_fire: next_fire(entry.job.cron, now) }
    } else {
        entry
    }
}

/// The catalog after a tick at `now`.
pub open spec fn after_tick(catalog: Seq<EntryView>, now: i64) -> Seq<EntryView> {
    catalog.map_values(|e: EntryView| ticked(e, now))
}

/// How long after `now` an entry with the fire time `at` fires, in
/// milliseconds; zero if the time has passed.
pub open spec fn wait(at: i64, now: i64) -> int {
    if at <= now {
        0
    } else {
        at - now
    }
}

/// The least wait of the entries that have a fire time; `None` if none has.
pub open spec fn least_wait(catalog: Seq<EntryView>, now: i64) -> Option<int>
    decreases catalog.len(),
{
    if catalog.len() == 0 {
        None
    } else {
        let before = least_wait(catalog.drop_last(), now);
        match (before, catalog.last().next_fire) {
            (None, None) => None,
            (Some(w), None) => Some(w),
            (None, Some(t)) => Some(wait(t, now)),
            (Some(w), Some(t)) => Some(if wait(t, now) < w { wait(t, now) } else { w }),
        }
    }
}

/// Whether the entry has a fire time and waits exactly `w` for it.
pub open spec fn waits(entry: EntryView, now: i64, w: int) -> bool {
    entry.next_fire matches Some(t) && wait(t, now) == w
}

/// Whether the entry, if it has a fire time, waits `w` or longer for it.
pub open spec fn waits_at_least(entry: EntryView, now: i64, w: int) -> bool {
    entry.next_fire matches Some(t) ==> w <= wait(t, now)
}

/// The least wait is the wait of some entry, and no entry that has a fire
/// time waits less. There is none exactly when no entry has a fire time.
pub proof fn lemma_least_wait_is_minimum(catalog: Seq<EntryView>, now: i64)
    ensures
        least_wait(catalog, now) is None <==> forall|i: int|
            0 <= i < catalog.len() ==> (#[trigger] catalog[i]).next_fire is None,
        least_wait(catalog, now) matches Some(w) ==> {
            &&& exists|i: int| 0 <= i < catalog.len() && waits(#[trigger] catalog[i], now, w)
            &&& forall|i: int|
                0 <= i < catalog.len() ==> waits_at_least(#[trigger] catalog[i], now, w)
        },
    decreases catalog.len(),
{
    if catalog.len() > 0 {
        let front = catalog.drop_last();
        let last = catalog.len() - 1;
        lemma_least_wait_is_minimum(front, now);
        assert forall|i: int| 0 <= i < last implies front[i] == catalog[i] by {}
        if let Some(w) = least_wait(catalog, now) {
            if !waits(catalog[last], now, w) {
                let i = choose|i: int| 0 <= i < front.len() && waits(#[trigger] front[i], now, w);
                assert(waits(catalog[i], now, w));
            }
        }
    }
}

/// When no entry is due, as after a tick, the least wait is longer than
/// nothing: the runner sleeps before it looks again.
pub proof fn lemma_wait_after_tick(catalog: Seq<EntryView>, now: i64)
    requires
        forall|i: int| 0 <= i < catalog.len() ==> !is_due(#[trigger] catalog[i], now),
    ensures
        least_wait(catalog, now) matches Some(w) ==> w > 0,
{
    lemma_least_wait_is_minimum(catalog, now);
    if let Some(w) = least_wait(catalog, now) {
        let i = choose|i: int| 0 <= i < catalog.len() && waits(#[trigger] catalog[i], now, w);
        assert(!is_due(catalog[i], now));
    }
}

/// A job that is refused does not keep a later job out: after a refused
/// job, a job that can be admitted is taken into the catalog as if the
/// refused one had never been offered.
pub proof fn lemma_refused_job_is_skipped(
    catalog: Seq<EntryView>,
    refused: JobView,
    admitted: JobView,
    first: i64,
    second: i64,
)
    requires
        admission(refused) is Err,
        admission(admitted) is Ok,
    ensures
        with_job(catalog, refused, first) == catalog,
        with_job(with_job(catalog, refused, first), admitted, second) == catalog.push(
            EntryView { job: admitted, next_fire: next_fire(admitted.cron, second) },
        ),
{
}

/// The due indices are exactly the indices of the due entries, each once
/// and in rising order.
pub proof fn lemma_due_indices(catalog: Seq<EntryView>, now: i64)
    requires
        catalog.len() <= usize::MAX,
    ensures
        forall|k: int|
            0 <= k < due_indices(catalog, now).len() ==> (#[trigger] due_indices(catalog, now)[k])
                < catalog.len() && is_due(catalog[due_indices(catalog, now)[k] as int], now),
        forall|j: int, k: int|
            0 <= j < k < due_indices(catalog, now).len() ==> due_indices(catalog, now)[j]
                < due_indices(catalog, now)[k],
        forall|i: int|
            0 <= i < catalog.len() && is_due(#[trigger] catalog[i], now) ==> due_indices(
                catalog,
                now,
            ).contains(i as usize),
    decreases catalog.len(),
{
    if catalog.len() > 0 {
        let front = catalog.drop_last();
        let last = catalog.len() - 1;
        let due = due_indices(catalog, now);
        let before = due_indices(front, now);
        lemma_due_indices(front, now);
        assert forall|i: int| 0 <= i < last implies front[i] == catalog[i] by {}
        assert forall|k: int| 0 <= k < before.len() implies due[k] == before[k] by {}
        assert forall|i: int| 0 <= i < catalog.len() && is_due(
            #[trigger] catalog[i],
            now,
        ) implies due.contains(i as usize) by {
            if i < last {
                let k = choose|k: int| 0 <= k < before.len() && before[k] == i as usize;
                assert(due[k] == i as usize);
            } else {
                assert(due[due.len() - 1] == i as usize);
            }
        }
    }
}

/// The catalog of scheduled jobs.
pub struct Scheduler {
    entries: Vec<ScheduleEntry>,
}

impl View for Scheduler {
    type V = Seq<EntryView>;

    closed spec fn view(&self) -> Seq<EntryView> {
        entry_views(self.entries@)
    }
}

impl Scheduler {
    /// An empty catalog.
    pub fn new() -> (scheduler: Scheduler)
        ensures
            scheduler@ == Seq::<EntryView>::empty(),
    {
        Scheduler { entries: Vec::new() }
    }

    /// The number of jobs in the catalog.
    pub fn len(&self) -> (n: usize)
        ensures
            n == self@.len(),
    {
        self.entries.len()
    }

    /// Whether the catalog holds no job.
    pub fn is_empty(&self) -> (empty: bool)
        ensures
            empty == (self@.len() == 0),
    {
        self.entries.len() == 0
    }

    /// The entry with the given index.
    pub fn entry(&self, index: usize) -> (entry: Option<&ScheduleEntry>)
        ensures
            index < self@.len() ==> (entry matches Some(e) && e@ == self@[index as int]),
            index >= self@.len() ==> entry is None,
    {
        if index < self.entries.len() {
            Some(&self.entries[index])
        } else {
            None
        }
    }

    /// Takes `job` into the catalog with a fire time that the caller has
    /// decided. Nothing is asked of the job.
    pub fn add_entry(&mut self, job: Job, next_fire: Option<i64>)
        ensures
            final(self)@ == old(self)@.push(EntryView { job: job@, next_fire }),
    {
        self.entries.push(ScheduleEntry { job, next_fire });
    }

    /// Sets the time at which the job with the given index fires next;
    /// `None` keeps it from firing. An index beyond the catalog changes
    /// nothing.
    pub fn reschedule(&mut self, index: usize, next_fire: Option<i64>)
        ensures
            index < old(self)@.len() ==> final(self)@ == old(self)@.update(
                index as int,
                EntryView { job: old(self)@[index as int].job, next_fire },
            ),
            index >= old(self)@.len() ==> final(self)@ == old(self)@,
    {
        if index < self.entries.len() {
            let ghost before = self@;
            self.entries[index].next_fire = next_fire;
            assert(self@ =~= before.update(
                index as int,
                EntryView { job: before[index as int].job, next_fire },
            ));
        }
    }

    /// Takes `job` into the catalog, with the first fire time of its
    /// schedule after `now`. A job without a name, or whose schedule is not
    /// an accepted cron expression, is refused and the catalog stays as it
    /// was.
    pub fn add_job(&mut self, job: Job, now: i64) -> (added: Result<(), LoadError>)
        ensures
            added == admission(job@),
            final(self)@ == with_job(old(self)@, job@, now),
    {
        if job.name().unicode_len() == 0 {
            return Err(LoadError::UnnamedJob);
        }
        if !validate(job.cron()) {
            return Err(LoadError::BadSchedule);
        }
        let next = next_fire_after(job.cron(), now);
        self.add_entry(job, next);
        Ok(())
    }

    /// Finds the jobs whose fire time has passed at `now` and gives each of
    /// them its next fire time after `now`. Returns their indices in catalog
    /// order: these are the jobs to run now. Afterwards no job is due at
    /// `now` any more.
    pub fn tick(&mut self, now: i64) -> (due: Vec<usize>)
        ensures
            due@ == due_indices(old(self)@, now),
            final(self)@ == after_tick(old(self)@, now),
            forall|i: int| 0 <= i < final(self)@.len() ==> !is_due(#[trigger] final(self)@[i], now),
    {
        let mut due: Vec<usize> = Vec::new();
        let ghost before = self@;
        let n = self.entries.len();
        let mut i: usize = 0;
        while i < n
            invariant
                i <= n,
                n == self.entries.len(),
                before.len() == n,
                self@.len() == n,
                due@ == due_indices(before.take(i as int), now),
                forall|k: int| 0 <= k < i ==> self@[k] == ticked(#[trigger] before[k], now),
                forall|k: int| i <= k < n ==> self@[k] == #[trigger] before[k],
                forall|k: int| 0 <= k < i ==> !is_due(#[trigger] self@[k], now),
            decreases n - i,
        {
            assert(before.take(i + 1).drop_last() == before.take(i as int));
            if self.entries[i].is_due(now) {
                let next = next_fire_after(self.entries[i].job.cron(), now);
                self.reschedule(i, next);
                assert(self.entries@.len() == self@.len());
                due.push(i);
            }
            i += 1;
        }
        assert(before.take(n as int) == before);
        due
    }

    /// How long to sleep after `now` until the next job fires, in
    /// milliseconds: the least wait over the jobs that have a fire time.
    /// `None` if no job has one.
    pub fn time_until_next_fire(&self, now: i64) -> (sleep: Option<u64>)
        ensures
            sleep is Some <==> least_wait(self@, now) is Some,
            sleep matches Some(d) ==> least_wait(self@, now) == Some(d as int),
    {
        let mut least: Option<u64> = None;
        let mut i: usize = 0;
        while i < self.entries.len()
            invariant
                i <= self.entries.len(),
                least is Some <==> least_wait(self@.take(i as int), now) is Some,
                least matches Some(d) ==> least_wait(self@.take(i as int), now) == Some(d as int),
            decreases self.entries.len() - i,
        {
            assert(self@.take(i + 1).drop_last() == self@.take(i as int));
            match self.entries[i].wait(now) {
                Some(w) => {
                    least = match least {
                        Some(d) => Some(if w < d { w } else { d }),
                        None => Some(w),
                    };
                },
                None => {},
            }
            i += 1;
        }
        assert(self@.take(self.entries.len() as int) == self@);
        least
    }
}

} // verus!
