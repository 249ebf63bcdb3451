//! The fetch orchestrator: a job queue drained by workers under a global
//! concurrency budget. Failed attempts are routed by the strategy: the
//! worker-pool-retry strategy puts the job back at the tail of the queue, the
//! bounded-pool strategy drops it. The network calls themselves happen outside;
//! the driver reports each event here and performs what comes back.
//!
//! The state of a run is modelled by `RunState`, and every operation is one
//! transition `next(state, step)`. The laws at the end hold of every state that a
//! run can reach.

use std::collections::VecDeque;
use vstd::prelude::*;
use vstd::multiset::Multiset;

use crate::request::choose_one;

verus! {

broadcast use vstd::seq_lib::group_to_multiset_ensures;

/// How failed attempts are handled.
#[derive(Debug, Clone, Copy, PartialEq, Eq, Structural)]
pub enum Strategy {
    /// A fixed request set; a failed attempt is terminal for its job.
    BoundedPool,
    /// Long-lived workers; a failed attempt goes back to the tail of the queue.
    WorkerPoolRetry,
}

/// One job held by one worker.
#[derive(Debug, Clone, Copy, PartialEq, Eq, Structural)]
pub struct Attempt {
    pub worker: usize,
    pub job: usize,
}

/// What a worker that asks for work gets.
#[derive(Debug, Clone, Copy, PartialEq, Eq, Structural)]
pub enum Pull {
    /// The job (an index into the run's request list) now held by the worker.
    Job(usize),
    /// Nothing to take now, but attempts in flight may still return jobs.
    Wait,
    /// The run is over for this worker.
    Exit,
}

/// What became of a finished attempt.
#[derive(Debug, Clone, Copy, PartialEq, Eq, Structural)]
pub enum Completion {
    /// Fetched successfully: its response goes on to extraction.
    Delivered(usize),
    /// Failed and put back at the tail of the queue.
    Requeued(usize),
    /// Failed, and the strategy does not retry.
    Dropped(usize),
}

/// Configuration errors detected before any request is sent.
#[derive(Debug, Clone, Copy, PartialEq, Eq, Structural)]
pub enum SetupError {
    /// The concurrency budget is zero.
    ZeroBudget,
    /// There is nothing to fetch.
    NoQueries,
    /// Proxy mode was asked for without proxies.
    NoProxies,
    /// No worker was asked for.
    NoWorkers,
}

/// The abstract state of a run.
pub struct RunState {
    pub strategy: Strategy,
    /// The concurrency budget: at most this many network calls in flight.
    pub limit: nat,
    /// Number of jobs submitted; the jobs are `0 .. jobs`.
    pub jobs: nat,
    /// The job queue, head first.
    pub pending: Seq<usize>,
    /// Pulled by a worker, waiting for a permit.
    pub waiting: Seq<Attempt>,
    /// Holding a permit: the network call is in flight.
    pub fetching: Seq<Attempt>,
    pub succeeded: Seq<usize>,
    pub failed: Seq<usize>,
    /// The proxy of each worker (empty when the strategy uses none).
    pub proxies: Seq<String>,
    pub cancelled: bool,
}

/// One event of a run.
pub enum Step {
    Pull(usize),
    Acquire(int),
    Finish(int, bool),
    Cancel,
}

pub open spec fn held(attempts: Seq<Attempt>) -> Multiset<usize> {
    attempts.map_values(|a: Attempt| a.job).to_multiset()
}

pub open spec fn job_range(n: nat) -> Seq<usize> {
    Seq::new(n, |i: int| i as usize)
}

/// Every job of the run, once each.
pub open spec fn all_jobs(n: nat) -> Multiset<usize> {
    job_range(n).to_multiset()
}

/// Where every job is: queued, held, or finished one way or the other.
pub open spec fn accounted(s: RunState) -> Multiset<usize> {
    s.pending.to_multiset().add(held(s.waiting)).add(held(s.fetching)).add(
        s.succeeded.to_multiset(),
    ).add(s.failed.to_multiset())
}

pub open spec fn consistent(s: RunState) -> bool {
    &&& s.limit > 0
    &&& s.fetching.len() <= s.limit
    &&& accounted(s) == all_jobs(s.jobs)
    &&& s.strategy == Strategy::WorkerPoolRetry ==> s.failed.len() == 0
}

/// Nothing is queued and nothing is held.
pub open spec fn drained(s: RunState) -> bool {
    s.pending.len() == 0 && s.waiting.len() == 0 && s.fetching.len() == 0
}

pub open spec fn initial(strategy: Strategy, limit: nat, jobs: nat, proxies: Seq<String>) -> RunState {
    RunState {
        strategy,
        limit,
        jobs,
        pending: job_range(jobs),
        waiting: Seq::empty(),
        fetching: Seq::empty(),
        succeeded: Seq::empty(),
        failed: Seq::empty(),
        proxies,
        cancelled: false,
    }
}

/// The transition that one event causes. An event that does not apply leaves
/// the state as it is.
pub open spec fn next(s: RunState, step: Step) -> RunState {
    match step {
        Step::Pull(worker) => {
            if s.cancelled || s.pending.len() == 0 {
                s
            } else {
                RunState {
                    pending: s.pending.drop_first(),
                    waiting: s.waiting.push(Attempt { worker, job: s.pending[0] }),
                    ..s
                }
            }
        },
        Step::Acquire(i) => {
            if 0 <= i < s.waiting.len() && s.fetching.len() < s.limit {
                RunState {
                    waiting: s.waiting.remove(i),
                    fetching: s.fetching.push(s.waiting[i]),
                    ..s
                }
            } else {
                s
            }
        },
        Step::Finish(i, ok) => {
            if 0 <= i < s.fetching.len() {
                let job = s.fetching[i].job;
                if ok {
                    RunState {
                        fetching: s.fetching.remove(i),
                        succeeded: s.succeeded.push(job),
                        ..s
                    }
                } else if s.strategy == Strategy::WorkerPoolRetry {
                    RunState { fetching: s.fetching.remove(i), pending: s.pending.push(job), ..s }
                } else {
                    RunState { fetching: s.fetching.remove(i), failed: s.failed.push(job), ..s }
                }
            } else {
                s
            }
        },
        Step::Cancel => RunState { cancelled: true, ..s },
    }
}

/// A sequence of states in which each follows from the one before by one event.
pub open spec fn is_trace(t: Seq<RunState>) -> bool {
    forall|i: int| 0 <= i < t.len() - 1 ==> follows(#[trigger] t[i], t[i + 1])
}

/// `b` follows from `a` by one event.
pub open spec fn follows(a: RunState, b: RunState) -> bool {
    exists|step: Step| b == next(a, step)
}

proof fn lemma_held_push(a: Seq<Attempt>, x: Attempt)
    ensures
        held(a.push(x)) == held(a).insert(x.job),
{
    assert(a.push(x).map_values(|a: Attempt| a.job) =~= a.map_values(|a: Attempt| a.job).push(x.job));
}

proof fn lemma_held_remove(a: Seq<Attempt>, i: int)
    requires
        0 <= i < a.len(),
    ensures
        held(a.remove(i)) == held(a).remove(a[i].job),
{
    let m = a.map_values(|a: Attempt| a.job);
    assert(a.remove(i).map_values(|a: Attempt| a.job) =~= m.remove(i));
}

proof fn lemma_drop_first_multiset(s: Seq<usize>)
    requires
        s.len() > 0,
    ensures
        s.drop_first().to_multiset() == s.to_multiset().remove(s[0]),
{
    assert(s.drop_first() =~= s.remove(0));
}

/// Every event keeps a run consistent.
pub proof fn lemma_next_keeps_consistent(s: RunState, step: Step)
    requires
        consistent(s),
    ensures
        consistent(next(s, step)),
        next(s, step).limit == s.limit,
        next(s, step).jobs == s.jobs,
        next(s, step).strategy == s.strategy,
        next(s, step).proxies == s.proxies,
{
    let t = next(s, step);
    match step {
        Step::Pull(worker) => {
            if !(s.cancelled || s.pending.len() == 0) {
                lemma_drop_first_multiset(s.pending);
                lemma_held_push(s.waiting, Attempt { worker, job: s.pending[0] });
                assert(s.pending.to_multiset().count(s.pending[0]) > 0);
                assert(accounted(t) =~= accounted(s));
            }
        },
        Step::Acquire(i) => {
            if 0 <= i < s.waiting.len() && s.fetching.len() < s.limit {
                lemma_held_remove(s.waiting, i);
                lemma_held_push(s.fetching, s.waiting[i]);
                assert(s.waiting.map_values(|a: Attempt| a.job)[i] == s.waiting[i].job);
                assert(held(s.waiting).count(s.waiting[i].job) > 0);
                assert(accounted(t) =~= accounted(s));
            }
        },
        Step::Finish(i, ok) => {
            if 0 <= i < s.fetching.len() {
                let job = s.fetching[i].job;
                lemma_held_remove(s.fetching, i);
                assert(s.fetching.map_values(|a: Attempt| a.job)[i] == job);
                assert(held(s.fetching).count(job) > 0);
                assert(accounted(t) =~= accounted(s));
            }
        },
        Step::Cancel => {
            assert(accounted(t) =~= accounted(s));
        },
    }
}

/// The concurrency ceiling: in every state that a run reaches from its start,
/// the number of network calls in flight is at most the budget.
pub proof fn lemma_concurrency_ceiling(t: Seq<RunState>, strategy: Strategy, limit: nat, jobs: nat, proxies: Seq<String>)
    requires
        limit > 0,
        t.len() > 0,
        t[0] == initial(strategy, limit, jobs, proxies),
        is_trace(t),
    ensures
        forall|i: int| 0 <= i < t.len() ==> #[trigger] t[i].fetching.len() <= limit,
{
    lemma_trace_keeps_consistent(t, strategy, limit, jobs, proxies);
}

/// Every state of a trace from a start stays consistent and keeps the budget, the job
/// count and the proxies of the start.
pub proof fn lemma_trace_keeps_consistent(t: Seq<RunState>, strategy: Strategy, limit: nat, jobs: nat, proxies: Seq<String>)
    requires
        limit > 0,
        t.len() > 0,
        t[0] == initial(strategy, limit, jobs, proxies),
        is_trace(t),
    ensures
        forall|i: int|
            0 <= i < t.len() ==> {
                &&& consistent(#[trigger] t[i])
                &&& t[i].limit == limit
                &&& t[i].jobs == jobs
                &&& t[i].strategy == strategy
                &&& t[i].proxies == proxies
            },
    decreases t.len(),
{
    if t.len() == 1 {
        assert(accounted(t[0]) =~= all_jobs(jobs));
    } else {
        let u = t.drop_last();
        assert(is_trace(u)) by {
            assert forall|i: int| 0 <= i < u.len() - 1 implies follows(#[trigger] u[i], u[i + 1]) by {
                assert(u[i] == t[i] && u[i + 1] == t[i + 1]);
                assert(follows(t[i], t[i + 1]));
            }
        }
        lemma_trace_keeps_consistent(u, strategy, limit, jobs, proxies);
        let k = t.len() - 2;
        assert(u[k] == t[k]);
        assert(follows(t[k], t[k + 1]));
        let step = choose|step: Step| t[k + 1] == next(t[k], step);
        lemma_next_keeps_consistent(t[k], step);
        assert forall|i: int| 0 <= i < t.len() implies {
            &&& consistent(#[trigger] t[i])
            &&& t[i].limit == limit
            &&& t[i].jobs == jobs
            &&& t[i].strategy == strategy
            &&& t[i].proxies == proxies
        } by {
            if i < t.len() - 1 {
                assert(u[i] == t[i]);
            }
        }
    }
}

/// Worker isolation: no event ever changes the proxy of a worker.
pub proof fn lemma_workers_keep_proxies(t: Seq<RunState>, strategy: Strategy, limit: nat, jobs: nat, proxies: Seq<String>)
    requires
        limit > 0,
        t.len() > 0,
        t[0] == initial(strategy, limit, jobs, proxies),
        is_trace(t),
    ensures
        forall|i: int, w: int| 0 <= i < t.len() && 0 <= w < proxies.len() ==> #[trigger] t[i].proxies[w] == proxies[w],
{
    lemma_trace_keeps_consistent(t, strategy, limit, jobs, proxies);
}

/// Retry conservation: under the retry strategy a failed attempt puts its job
/// back at the tail of the queue, and no job is lost.
pub proof fn lemma_failed_attempt_requeued(s: RunState, i: int)
    requires
        consistent(s),
        s.strategy == Strategy::WorkerPoolRetry,
        0 <= i < s.fetching.len(),
    ensures
        next(s, Step::Finish(i, false)).pending == s.pending.push(s.fetching[i].job),
        next(s, Step::Finish(i, false)).succeeded == s.succeeded,
        accounted(next(s, Step::Finish(i, false))) == all_jobs(s.jobs),
{
    lemma_next_keeps_consistent(s, Step::Finish(i, false));
}

/// Retry conservation: a retry run is drained only once every submitted job has
/// succeeded, each exactly once.
pub proof fn lemma_drained_run_succeeded(s: RunState)
    requires
        consistent(s),
        s.strategy == Strategy::WorkerPoolRetry,
        drained(s),
    ensures
        s.succeeded.to_multiset() == all_jobs(s.jobs),
{
    assert(s.pending.to_multiset() =~= Multiset::empty());
    assert(s.waiting.map_values(|a: Attempt| a.job) =~= Seq::<usize>::empty());
    assert(s.fetching.map_values(|a: Attempt| a.job) =~= Seq::<usize>::empty());
    assert(s.failed =~= Seq::<usize>::empty());
    assert(accounted(s) =~= s.succeeded.to_multiset());
}

/// Termination: in any state that a run reaches, once nothing is queued or held,
/// every submitted job has reached exactly one terminal outcome; under the retry
/// strategy that outcome is a success. `pull` answers `Exit` to a run that is not
/// cancelled only in such a state.
pub proof fn lemma_drained_trace_complete(t: Seq<RunState>, strategy: Strategy, limit: nat, jobs: nat, proxies: Seq<String>, i: int)
    requires
        limit > 0,
        t.len() > 0,
        t[0] == initial(strategy, limit, jobs, proxies),
        is_trace(t),
        0 <= i < t.len(),
        drained(t[i]),
    ensures
        t[i].succeeded.to_multiset().add(t[i].failed.to_multiset()) == all_jobs(jobs),
        strategy == Strategy::WorkerPoolRetry ==> t[i].succeeded.to_multiset() == all_jobs(jobs),
{
    lemma_trace_keeps_consistent(t, strategy, limit, jobs, proxies);
    let s = t[i];
    assert(s.pending.to_multiset() =~= Multiset::empty());
    assert(s.waiting.map_values(|a: Attempt| a.job) =~= Seq::<usize>::empty());
    assert(s.fetching.map_values(|a: Attempt| a.job) =~= Seq::<usize>::empty());
    assert(accounted(s) =~= s.succeeded.to_multiset().add(s.failed.to_multiset()));
    if strategy == Strategy::WorkerPoolRetry {
        lemma_drained_run_succeeded(s);
    }
}

/// The orchestrator of one run.
pub struct Orchestrator {
    strategy: Strategy,
    limit: usize,
    jobs: usize,
    pending: VecDeque<usize>,
    waiting: Vec<Attempt>,
    fetching: Vec<Attempt>,
    proxies: Vec<String>,
    cancelled: bool,
    succeeded: Ghost<Seq<usize>>,
    failed: Ghost<Seq<usize>>,
}

impl Orchestrator {
    pub closed spec fn view(&self) -> RunState {
        RunState {
            strategy: self.strategy,
            limit: self.limit as nat,
            jobs: self.jobs as nat,
            pending: self.pending@,
            waiting: self.waiting@,
            fetching: self.fetching@,
            succeeded: self.succeeded@,
            failed: self.failed@,
            proxies: self.proxies@,
            cancelled: self.cancelled,
        }
    }

    pub open spec fn wf(&self) -> bool {
        consistent(self@)
    }

    /// A run of `jobs` requests under a budget of `limit` calls in flight, with
    /// the given proxy for each worker.
    pub fn new(strategy: Strategy, limit: usize, jobs: usize, proxies: Vec<String>) -> (r: Result<
        Orchestrator,
        SetupError,
    >)
        ensures
            r is Err <==> limit == 0,
            r is Err ==> r->Err_0 == SetupError::ZeroBudget,
            r is Ok ==> r->Ok_0@ == initial(strategy, limit as nat, jobs as nat, proxies@),
            r is Ok ==> r->Ok_0.wf(),
    {
        if limit == 0 {
            return Err(SetupError::ZeroBudget);
        }
        let mut pending: VecDeque<usize> = VecDeque::new();
        let mut i: usize = 0;
        while i < jobs
            invariant
                i <= jobs,
                pending@ == job_range(i as nat),
            decreases jobs - i,
        {
            pending.push_back(i);
            i = i + 1;
            assert(pending@ =~= job_range(i as nat));
        }
        let r = Orchestrator {
            strategy,
            limit,
            jobs,
            pending,
            waiting: Vec::new(),
            fetching: Vec::new(),
            proxies,
            cancelled: false,
            succeeded: Ghost(Seq::empty()),
            failed: Ghost(Seq::empty()),
        };
        proof {
            assert(r@.waiting =~= Seq::<Attempt>::empty());
            assert(r@.fetching =~= Seq::<Attempt>::empty());
            assert(r@ == initial(strategy, limit as nat, jobs as nat, proxies@));
            assert(accounted(r@) =~= all_jobs(jobs as nat));
        }
        Ok(r)
    }

    /// A retry run with `workers` workers, each bound for its whole life to one
    /// proxy drawn at random from `pool`.
    pub fn with_proxy_pool(limit: usize, jobs: usize, pool: &Vec<String>, workers: usize) -> (r: Result<
        Orchestrator,
        SetupError,
    >)
        ensures
            r == Err::<Orchestrator, SetupError>(SetupError::ZeroBudget) <==> limit == 0,
            r == Err::<Orchestrator, SetupError>(SetupError::NoProxies) <==> limit > 0 && pool@.len() == 0,
            r == Err::<Orchestrator, SetupError>(SetupError::NoWorkers) <==> limit > 0 && pool@.len() > 0 && workers == 0,
            limit > 0 && pool@.len() > 0 && workers > 0 ==> r is Ok,
            r is Ok ==> {
                &&& r->Ok_0.wf()
                &&& r->Ok_0@.strategy == Strategy::WorkerPoolRetry
                &&& r->Ok_0@.limit == limit
                &&& r->Ok_0@.jobs == jobs
                &&& r->Ok_0@.pending == job_range(jobs as nat)
                &&& r->Ok_0@.proxies.len() == workers
                &&& forall|w: int| 0 <= w < workers ==> pool@.contains(#[trigger] r->Ok_0@.proxies[w])
            },
    {
        if limit == 0 {
            return Err(SetupError::ZeroBudget);
        }
        if pool.len() == 0 {
            return Err(SetupError::NoProxies);
        }
        if workers == 0 {
            return Err(SetupError::NoWorkers);
        }
        let mut proxies: Vec<String> = Vec::new();
        let mut w: usize = 0;
        while w < workers
            invariant
                w <= workers,
                pool@.len() > 0,
                proxies@.len() == w,
                forall|k: int| 0 <= k < w ==> pool@.contains(#[trigger] proxies@[k]),
            decreases workers - w,
        {
            match choose_one(pool) {
                Some(p) => {
                    proxies.push(p.clone());
                },
                None => {
                    proxies.push(pool[0].clone());
                },
            }
            w = w + 1;
        }
        Orchestrator::new(Strategy::WorkerPoolRetry, limit, jobs, proxies)
    }

    /// The proxy bound to a worker.
    pub fn proxy_of(&self, worker: usize) -> (r: Option<&String>)
        ensures
            worker < self@.proxies.len() ==> r == Some(&self@.proxies[worker as int]),
            worker >= self@.proxies.len() ==> r is None,
    {
        if worker < self.proxies.len() {
            Some(&self.proxies[worker])
        } else {
            None
        }
    }

    /// Number of network calls in flight.
    pub fn in_flight(&self) -> (r: usize)
        ensures
            r == self@.fetching.len(),
    {
        self.fetching.len()
    }

    pub fn is_drained(&self) -> (r: bool)
        ensures
            r == drained(self@),
    {
        self.pending.len() == 0 && self.waiting.len() == 0 && self.fetching.len() == 0
    }

    /// Stops the run: from now on no worker takes a job.
    pub fn cancel(&mut self)
        requires
            old(self).wf(),
        ensures
            final(self).wf(),
            final(self)@ == next(old(self)@, Step::Cancel),
    {
        self.cancelled = true;
        proof {
            lemma_next_keeps_consistent(old(self)@, Step::Cancel);
            assert(self@ == next(old(self)@, Step::Cancel));
        }
    }

    /// A worker asks for work: it takes the head of the queue, or waits while
    /// attempts in flight may still return jobs, or exits once the run is
    /// cancelled or drained.
    pub fn pull(&mut self, worker: usize) -> (r: Pull)
        requires
            old(self).wf(),
        ensures
            final(self).wf(),
            final(self)@ == next(old(self)@, Step::Pull(worker)),
            r == (if old(self)@.cancelled {
                Pull::Exit
            } else if old(self)@.pending.len() > 0 {
                Pull::Job(old(self)@.pending[0])
            } else if drained(old(self)@) {
                Pull::Exit
            } else {
                Pull::Wait
            }),
    {
        proof {
            lemma_next_keeps_consistent(self@, Step::Pull(worker));
        }
        if self.cancelled {
            return Pull::Exit;
        }
        match self.pending.pop_front() {
            Some(job) => {
                self.waiting.push(Attempt { worker, job });
                proof {
                    assert(self.pending@ =~= old(self)@.pending.drop_first());
                    assert(self@ =~= next(old(self)@, Step::Pull(worker)));
                }
                Pull::Job(job)
            },
            None => {
                if self.waiting.len() == 0 && self.fetching.len() == 0 {
                    Pull::Exit
                } else {
                    Pull::Wait
                }
            },
        }
    }

    /// A worker holding a pulled job asks for a permit. It gets one when fewer
    /// calls than the budget are in flight; its attempt is then in flight.
    pub fn acquire(&mut self, worker: usize) -> (r: bool)
        requires
            old(self).wf(),
        ensures
            final(self).wf(),
            r ==> exists|i: int|
                0 <= i < old(self)@.waiting.len() && old(self)@.waiting[i].worker == worker
                    && final(self)@ == next(old(self)@, Step::Acquire(i)),
            !r ==> final(self)@ == old(self)@,
            r <==> (old(self)@.fetching.len() < old(self)@.limit && exists|i: int|
                0 <= i < old(self)@.waiting.len() && old(self)@.waiting[i].worker == worker),
    {
        if self.fetching.len() >= self.limit {
            return false;
        }
        let mut i: usize = 0;
        while i < self.waiting.len()
            invariant
                self == old(self),
                self.wf(),
                self.fetching.len() < self.limit,
                i <= self.waiting.len(),
                forall|k: int| 0 <= k < i ==> (#[trigger] self.waiting@[k]).worker != worker,
            decreases self.waiting.len() - i,
        {
            if self.waiting[i].worker == worker {
                proof {
                    lemma_next_keeps_consistent(self@, Step::Acquire(i as int));
                }
                let a = self.waiting.remove(i);
                self.fetching.push(a);
                proof {
                    assert(self@ =~= next(old(self)@, Step::Acquire(i as int)));
                }
                return true;
            }
            i = i + 1;
        }
        false
    }

    /// A worker reports how its call went. The permit is released; a success is
    /// delivered, a failure is requeued or dropped according to the strategy.
    pub fn finish(&mut self, worker: usize, success: bool) -> (r: Option<Completion>)
        requires
            old(self).wf(),
        ensures
            final(self).wf(),
            r is None <==> forall|i: int| 0 <= i < old(self)@.fetching.len() ==> (#[trigger] old(self)@.fetching[i]).worker != worker,
            r is None ==> final(self)@ == old(self)@,
            r is Some ==> exists|i: int|
                0 <= i < old(self)@.fetching.len() && old(self)@.fetching[i].worker == worker
                    && final(self)@ == next(old(self)@, Step::Finish(i, success))
                    && r == Some(if success {
                        Completion::Delivered(old(self)@.fetching[i].job)
                    } else if old(self)@.strategy == Strategy::WorkerPoolRetry {
                        Completion::Requeued(old(self)@.fetching[i].job)
                    } else {
                        Completion::Dropped(old(self)@.fetching[i].job)
                    }),
    {
        let mut i: usize = 0;
        while i < self.fetching.len()
            invariant
                self == old(self),
                self.wf(),
                i <= self.fetching.len(),
                forall|k: int| 0 <= k < i ==> (#[trigger] self.fetching@[k]).worker != worker,
            decreases self.fetching.len() - i,
        {
            if self.fetching[i].worker == worker {
                proof {
                    lemma_next_keeps_consistent(self@, Step::Finish(i as int, success));
                }
                let a = self.fetching.remove(i);
                let done = if success {
                    self.succeeded = Ghost(self.succeeded@.push(a.job));
                    Completion::Delivered(a.job)
                } else if self.strategy == Strategy::WorkerPoolRetry {
                    self.pending.push_back(a.job);
                    Completion::Requeued(a.job)
                } else {
                    self.failed = Ghost(self.failed@.push(a.job));
                    Completion::Dropped(a.job)
                };
                proof {
                    assert(self@ =~= next(old(self)@, Step::Finish(i as int, success)));
                }
                return Some(done);
            }
            i = i + 1;
        }
        None
    }
}

} // verus!
