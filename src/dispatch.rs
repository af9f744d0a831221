//! Bounded dispatch of jobs to workers, as a state machine: the caller asks
//! which job to start next, reports each job's end, and collects exactly one
//! outcome per job once all have finished.
use vstd::prelude::*;
use crate::status::JobResult;

verus! {

/// Where one job stands.
#[derive(Clone, Copy, Debug, PartialEq, Eq, Structural)]
pub enum JobState {
    Queued,
    Running,
    Finished(bool),
}

/// `x` is running (`running`), or finished (`!running`).
pub open spec fn in_class(x: JobState, running: bool) -> bool {
    if running {
        x is Running
    } else {
        x is Finished
    }
}

/// How many states of `s` are running (`running`), or finished (`!running`).
pub open spec fn count_class(s: Seq<JobState>, running: bool) -> nat
    decreases s.len(),
{
    if s.len() == 0 {
        0
    } else {
        count_class(s.drop_last(), running) + if in_class(s.last(), running) {
            1nat
        } else {
            0nat
        }
    }
}

/// How many jobs are executing.
pub open spec fn running_count(s: Seq<JobState>) -> nat {
    count_class(s, true)
}

/// How many jobs have finished.
pub open spec fn finished_count(s: Seq<JobState>) -> nat {
    count_class(s, false)
}

/// Every job has finished.
pub open spec fn all_finished(s: Seq<JobState>) -> bool {
    forall|i: int| 0 <= i < s.len() ==> #[trigger] s[i] is Finished
}

/// Some job is still waiting.
pub open spec fn has_queued(s: Seq<JobState>) -> bool {
    exists|i: int| 0 <= i < s.len() && #[trigger] s[i] is Queued
}

/// The smaller of two sizes.
pub open spec fn min_nat(a: nat, b: nat) -> nat {
    if a <= b {
        a
    } else {
        b
    }
}

proof fn lemma_count_bound(s: Seq<JobState>, running: bool)
    ensures
        count_class(s, running) <= s.len(),
        count_class(s, running) == s.len() <==> forall|i: int|
            0 <= i < s.len() ==> in_class(#[trigger] s[i], running),
    decreases s.len(),
{
    if s.len() > 0 {
        let rest = s.drop_last();
        lemma_count_bound(rest, running);
        if forall|i: int| 0 <= i < s.len() ==> in_class(#[trigger] s[i], running) {
            assert forall|i: int| 0 <= i < rest.len() implies in_class(#[trigger] rest[i], running) by {
                assert(rest[i] == s[i]);
            }
        }
        if count_class(s, running) == s.len() {
            assert forall|i: int| 0 <= i < s.len() implies in_class(#[trigger] s[i], running) by {
                if i < rest.len() {
                    assert(rest[i] == s[i]);
                }
            }
        }
    }
}

proof fn lemma_count_update(s: Seq<JobState>, i: int, v: JobState, running: bool)
    requires
        0 <= i < s.len(),
    ensures
        count_class(s.update(i, v), running) + (if in_class(s[i], running) { 1int } else { 0int })
            == count_class(s, running) + (if in_class(v, running) { 1int } else { 0int }),
    decreases s.len(),
{
    let t = s.update(i, v);
    if i == s.len() - 1 {
        assert(t.drop_last() =~= s.drop_last());
    } else {
        assert(t.drop_last() =~= s.drop_last().update(i, v));
        lemma_count_update(s.drop_last(), i, v, running);
    }
}

/// Hands out jobs `0..total` in order to at most `min(concurrency, total)`
/// workers at a time, and records one outcome per job. No job is retried and
/// none is cancelled by another's failure.
pub struct Dispatcher {
    concurrency: usize,
    workers: usize,
    next: usize,
    running: usize,
    finished: usize,
    states: Vec<JobState>,
}

/// The size of the worker pool: `min(concurrency, jobs)`, so that no worker
/// idles for want of a job and `concurrency` is never exceeded.
pub fn worker_count(concurrency: usize, jobs: usize) -> (r: usize)
    ensures
        r as nat == min_nat(concurrency as nat, jobs as nat),
{
    if concurrency <= jobs {
        concurrency
    } else {
        jobs
    }
}

/// The number of workers used when none is asked for.
pub fn default_concurrency() -> (r: usize)
    ensures
        r == 1,
{
    1
}

impl Dispatcher {
    /// The state of each job.
    pub closed spec fn states_spec(&self) -> Seq<JobState> {
        self.states@
    }

    /// The concurrency that the dispatcher was made with.
    pub closed spec fn concurrency_spec(&self) -> nat {
        self.concurrency as nat
    }

    /// The number of workers: `min(concurrency, total)`.
    pub closed spec fn workers_spec(&self) -> nat {
        self.workers as nat
    }

    /// The dispatcher's internal bookkeeping is consistent.
    pub closed spec fn wf(&self) -> bool {
        let s = self.states@;
        &&& self.concurrency >= 1
        &&& self.workers as nat == min_nat(self.concurrency as nat, s.len())
        &&& self.next <= s.len()
        &&& forall|i: int| 0 <= i < s.len() ==> (i < self.next <==> !(#[trigger] s[i] is Queued))
        &&& self.running as nat == running_count(s)
        &&& self.finished as nat == finished_count(s)
        &&& self.running <= self.workers
    }

    /// A dispatcher for `total` jobs, all queued, on `min(concurrency, total)`
    /// workers.
    pub fn new(concurrency: usize, total: usize) -> (r: Self)
        requires
            concurrency >= 1,
        ensures
            r.wf(),
            r.states_spec() == Seq::new(total as nat, |i: int| JobState::Queued),
            r.concurrency_spec() == concurrency,
            r.workers_spec() == min_nat(concurrency as nat, total as nat),
    {
        let mut states: Vec<JobState> = Vec::new();
        let mut i: usize = 0;
        while i < total
            invariant
                i <= total,
                states@ == Seq::new(i as nat, |k: int| JobState::Queued),
            decreases total - i,
        {
            states.push(JobState::Queued);
            assert(states@ =~= Seq::new(i as nat + 1, |k: int| JobState::Queued));
            i = i + 1;
        }
        let r = Dispatcher {
            concurrency,
            workers: worker_count(concurrency, total),
            next: 0,
            running: 0,
            finished: 0,
            states,
        };
        proof {
            lemma_zero_counts(states@);
        }
        r
    }

    /// The number of jobs.
    pub fn total(&self) -> (r: usize)
        ensures
            r == self.states_spec().len(),
    {
        self.states.len()
    }

    /// The number of workers.
    pub fn workers(&self) -> (r: usize)
        requires
            self.wf(),
        ensures
            r == self.workers_spec(),
    {
        self.workers
    }

    /// The number of jobs executing now.
    pub fn running(&self) -> (r: usize)
        requires
            self.wf(),
        ensures
            r == running_count(self.states_spec()),
    {
        self.running
    }

    /// Starts the first queued job if a worker is free, and returns its index;
    /// returns `None`, changing nothing, when every worker is busy or no job
    /// is left to start.
    pub fn start_next(&mut self) -> (r: Option<usize>)
        requires
            old(self).wf(),
        ensures
            final(self).wf(),
            final(self).concurrency_spec() == old(self).concurrency_spec(),
            final(self).workers_spec() == old(self).workers_spec(),
            r is Some <==> (running_count(old(self).states_spec()) < old(self).workers_spec()
                && has_queued(old(self).states_spec())),
            match r {
                Some(i) => {
                    &&& i < old(self).states_spec().len()
                    &&& old(self).states_spec()[i as int] is Queued
                    &&& forall|k: int| 0 <= k < i ==> !(#[trigger] old(self).states_spec()[k] is Queued)
                    &&& final(self).states_spec() == old(self).states_spec().update(i as int, JobState::Running)
                },
                None => final(self).states_spec() == old(self).states_spec(),
            },
    {
        if self.running < self.workers && self.next < self.states.len() {
            let i = self.next;
            proof {
                lemma_count_update(self.states@, i as int, JobState::Running, true);
                lemma_count_update(self.states@, i as int, JobState::Running, false);
            }
            self.states.set(i, JobState::Running);
            self.next = i + 1;
            self.running = self.running + 1;
            Some(i)
        } else {
            proof {
                if self.running < self.workers && has_queued(self.states@) {
                    let k = choose|k: int| 0 <= k < self.states@.len() && #[trigger] self.states@[k] is Queued;
                }
            }
            None
        }
    }

    /// Whether job `job` is executing, so that its end can be recorded.
    pub fn is_running(&self, job: usize) -> (r: bool)
        ensures
            r == (job < self.states_spec().len() && self.states_spec()[job as int] is Running),
    {
        job < self.states.len() && match self.states[job] {
            JobState::Running => true,
            _ => false,
        }
    }

    /// Records that the executing job `job` ended, with `success`.
    pub fn finish(&mut self, job: usize, success: bool)
        requires
            old(self).wf(),
            job < old(self).states_spec().len(),
            old(self).states_spec()[job as int] is Running,
        ensures
            final(self).wf(),
            final(self).concurrency_spec() == old(self).concurrency_spec(),
            final(self).workers_spec() == old(self).workers_spec(),
            final(self).states_spec() == old(self).states_spec().update(job as int, JobState::Finished(success)),
    {
        let ghost n = self.states.len();
        proof {
            lemma_count_update(self.states@, job as int, JobState::Finished(success), true);
            lemma_count_update(self.states@, job as int, JobState::Finished(success), false);
            lemma_count_bound(self.states@, false);
            assert(!in_class(self.states@[job as int], false));
            assert(self.finished < n);
        }
        self.states.set(job, JobState::Finished(success));
        self.running = self.running - 1;
        self.finished = self.finished + 1;
    }

    /// Whether every job has finished.
    pub fn is_done(&self) -> (r: bool)
        requires
            self.wf(),
        ensures
            r == all_finished(self.states_spec()),
    {
        proof {
            lemma_count_bound(self.states@, false);
        }
        self.finished == self.states.len()
    }

    /// One result per job, in job order, once every job has finished;
    /// `packages[i]` names job `i`.
    pub fn results(&self, packages: &Vec<String>) -> (r: Vec<JobResult>)
        requires
            self.wf(),
            all_finished(self.states_spec()),
            packages@.len() == self.states_spec().len(),
        ensures
            r@.len() == self.states_spec().len(),
            forall|i: int| 0 <= i < r@.len() ==> (#[trigger] r@[i]).package@ == packages@[i]@
                && self.states_spec()[i] == JobState::Finished(r@[i].success),
    {
        let mut out: Vec<JobResult> = Vec::new();
        let mut i: usize = 0;
        while i < self.states.len()
            invariant
                i <= self.states@.len(),
                packages@.len() == self.states@.len(),
                all_finished(self.states@),
                out@.len() == i,
                forall|k: int| 0 <= k < i ==> (#[trigger] out@[k]).package@ == packages@[k]@
                    && self.states@[k] == JobState::Finished(out@[k].success),
            decreases self.states@.len() - i,
        {
            let success = match self.states[i] {
                JobState::Finished(b) => b,
                _ => false,
            };
            out.push(JobResult { package: packages[i].clone(), success });
            i = i + 1;
        }
        out
    }
}

proof fn lemma_zero_counts(s: Seq<JobState>)
    requires
        forall|i: int| 0 <= i < s.len() ==> #[trigger] s[i] is Queued,
    ensures
        running_count(s) == 0,
        finished_count(s) == 0,
    decreases s.len(),
{
    if s.len() > 0 {
        let rest = s.drop_last();
        assert forall|i: int| 0 <= i < rest.len() implies #[trigger] rest[i] is Queued by {
            assert(rest[i] == s[i]);
        }
        lemma_zero_counts(rest);
    }
}

/// At every step of a dispatch, fewer than `min(concurrency, total)` jobs are
/// executing at once, or exactly that many.
pub proof fn lemma_concurrency_bound(d: Dispatcher)
    requires
        d.wf(),
    ensures
        running_count(d.states_spec()) <= min_nat(d.concurrency_spec(), d.states_spec().len()),
{
}

/// Once a dispatch is done it yields exactly one result per job.
pub proof fn lemma_one_result_per_job(d: Dispatcher)
    requires
        d.wf(),
        all_finished(d.states_spec()),
    ensures
        finished_count(d.states_spec()) == d.states_spec().len(),
        running_count(d.states_spec()) == 0,
{
    lemma_count_bound(d.states_spec(), false);
    lemma_zero_running(d.states_spec());
}

proof fn lemma_zero_running(s: Seq<JobState>)
    requires
        all_finished(s),
    ensures
        running_count(s) == 0,
    decreases s.len(),
{
    if s.len() > 0 {
        let rest = s.drop_last();
        assert forall|i: int| 0 <= i < rest.len() implies #[trigger] rest[i] is Finished by {
            assert(rest[i] == s[i]);
        }
        lemma_zero_running(rest);
    }
}

} // verus!
