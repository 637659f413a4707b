//! The batch orchestrator: a counting permit pool over the URLs of one batch,
//! and the tally of their outcomes.
//!
//! A [`Batch`] is driven from outside. Once the destination directory has been
//! prepared, [`Batch::next_start`] hands out the index of the next URL to fetch
//! whenever a permit is free, and [`Batch::complete`] takes back the permit with
//! the outcome of that fetch. URLs are started in input order and may complete
//! in any order. At no point are more fetches running than the limit allows,
//! and once the batch is complete every URL has been counted exactly once.
use vstd::prelude::*;
use crate::fetch::{FetchError, FetchOutcome};

verus! {

/// Where one URL of a batch stands.
#[derive(Debug, Clone, Copy, PartialEq, Eq, Structural)]
pub enum TaskState {
    Pending,
    Running,
    Succeeded,
    Failed,
}

/// Where the batch as a whole stands.
#[derive(Debug, Clone, Copy, PartialEq, Eq, Structural)]
pub enum Phase {
    /// The destination directory has not been prepared yet.
    NotStarted,
    /// Fetches may be started.
    Running,
    /// The destination directory could not be prepared: nothing is fetched.
    Aborted,
}

/// Why a batch cannot run.
#[derive(Debug)]
pub enum BatchError {
    /// A concurrency limit of 0 is rejected.
    ZeroLimit,
    /// The destination directory could not be created.
    Setup(String),
}

/// A URL whose fetch failed, and why.
#[derive(Debug)]
pub struct FailedFetch {
    pub url: String,
    pub detail: FetchError,
}

/// The tally of a batch.
#[derive(Debug)]
pub struct BatchReport {
    pub succeeded: usize,
    pub failed: usize,
    pub failures: Vec<FailedFetch>,
}

/// How many entries of `s` are `t`.
pub open spec fn count(s: Seq<TaskState>, t: TaskState) -> nat
    decreases s.len(),
{
    if s.len() == 0 {
        0
    } else {
        count(s.drop_last(), t) + if s.last() == t {
            1nat
        } else {
            0nat
        }
    }
}

/// The abstract state of a batch.
pub struct BatchView {
    pub limit: nat,
    pub phase: Phase,
    /// One entry per URL, in input order.
    pub tasks: Seq<TaskState>,
    /// The index of the next URL to start.
    pub next: nat,
    /// The failures so far, in the order they completed.
    pub failures: Seq<FailedFetch>,
}

impl BatchView {
    pub open spec fn in_flight(self) -> nat {
        count(self.tasks, TaskState::Running)
    }

    pub open spec fn succeeded(self) -> nat {
        count(self.tasks, TaskState::Succeeded)
    }

    pub open spec fn failed(self) -> nat {
        count(self.tasks, TaskState::Failed)
    }

    /// Every URL has been started and none is still running.
    pub open spec fn is_complete(self) -> bool {
        self.phase == Phase::Running && self.next == self.tasks.len() && self.in_flight() == 0
    }
}

/// One batch of fetches, scheduled under a concurrency limit.
pub struct Batch {
    limit: usize,
    phase: Phase,
    tasks: Vec<TaskState>,
    next: usize,
    in_flight: usize,
    succeeded: usize,
    failed: usize,
    failures: Vec<FailedFetch>,
}

impl View for Batch {
    type V = BatchView;

    closed spec fn view(&self) -> BatchView {
        BatchView {
            limit: self.limit as nat,
            phase: self.phase,
            tasks: self.tasks@,
            next: self.next as nat,
            failures: self.failures@,
        }
    }
}

proof fn lemma_count_partition(s: Seq<TaskState>)
    ensures
        count(s, TaskState::Pending) + count(s, TaskState::Running) + count(s, TaskState::Succeeded)
            + count(s, TaskState::Failed) == s.len(),
    decreases s.len(),
{
    if s.len() > 0 {
        lemma_count_partition(s.drop_last());
    }
}

proof fn lemma_count_absent(s: Seq<TaskState>, t: TaskState)
    requires
        forall|i: int| 0 <= i < s.len() ==> s[i] != t,
    ensures
        count(s, t) == 0,
    decreases s.len(),
{
    if s.len() > 0 {
        assert(s[s.len() - 1] == s.last());
        assert forall|i: int| 0 <= i < s.drop_last().len() implies s.drop_last()[i] != t by {
            assert(s[i] == s.drop_last()[i]);
        }
        lemma_count_absent(s.drop_last(), t);
    }
}

proof fn lemma_count_pending_suffix(s: Seq<TaskState>, k: int)
    requires
        0 <= k <= s.len(),
        forall|i: int| 0 <= i < k ==> s[i] != TaskState::Pending,
        forall|i: int| k <= i < s.len() ==> s[i] == TaskState::Pending,
    ensures
        count(s, TaskState::Pending) + k == s.len(),
    decreases s.len(),
{
    if s.len() > 0 {
        let d = s.drop_last();
        assert(s[s.len() - 1] == s.last());
        if k == s.len() {
            assert forall|i: int| 0 <= i < d.len() implies d[i] != TaskState::Pending by {
                assert(d[i] == s[i]);
            }
            lemma_count_absent(s, TaskState::Pending);
        } else {
            assert forall|i: int| 0 <= i < k implies d[i] != TaskState::Pending by {
                assert(d[i] == s[i]);
            }
            assert forall|i: int| k <= i < d.len() implies d[i] == TaskState::Pending by {
                assert(d[i] == s[i]);
            }
            lemma_count_pending_suffix(d, k);
        }
    }
}

proof fn lemma_count_update(s: Seq<TaskState>, i: int, v: TaskState, t: TaskState)
    requires
        0 <= i < s.len(),
    ensures
        count(s.update(i, v), t) + (if s[i] == t {
            1int
        } else {
            0int
        }) == count(s, t) + (if v == t {
            1int
        } else {
            0int
        }),
    decreases s.len(),
{
    let u = s.update(i, v);
    if i == s.len() - 1 {
        assert(u.drop_last() =~= s.drop_last());
    } else {
        assert(u.drop_last() =~= s.drop_last().update(i, v));
        lemma_count_update(s.drop_last(), i, v, t);
    }
}

impl Batch {
    /// The batch's internal invariant.
    pub closed spec fn wf(&self) -> bool {
        &&& self.limit >= 1
        &&& self.next <= self.tasks@.len()
        &&& forall|i: int| 0 <= i < self.next ==> self.tasks@[i] != TaskState::Pending
        &&& forall|i: int|
            self.next <= i < self.tasks@.len() ==> self.tasks@[i] == TaskState::Pending
        &&& self.in_flight == count(self.tasks@, TaskState::Running)
        &&& self.succeeded == count(self.tasks@, TaskState::Succeeded)
        &&& self.failed == count(self.tasks@, TaskState::Failed)
        &&& self.in_flight <= self.limit
        &&& self.phase != Phase::Running ==> self.next == 0
        &&& self.failures@.len() == self.failed
    }

    /// A batch of `total` URLs that runs at most `limit` fetches at once.
    /// A limit of 0 is rejected.
    pub fn new(total: usize, limit: usize) -> (r: Result<Batch, BatchError>)
        ensures
            limit == 0 <==> r is Err,
            match r {
                Ok(b) => {
                    &&& b.wf()
                    &&& b@.limit == limit
                    &&& b@.phase == Phase::NotStarted
                    &&& b@.tasks == Seq::new(total as nat, |i: int| TaskState::Pending)
                    &&& b@.next == 0
                    &&& b@.failures.len() == 0
                    &&& b@.in_flight() == 0
                    &&& b@.succeeded() == 0
                    &&& b@.failed() == 0
                },
                Err(e) => e is ZeroLimit,
            },
    {
        if limit == 0 {
            return Err(BatchError::ZeroLimit);
        }
        let mut tasks: Vec<TaskState> = Vec::new();
        let mut i: usize = 0;
        while i < total
            invariant
                i <= total,
                tasks@ == Seq::new(i as nat, |j: int| TaskState::Pending),
            decreases total - i,
        {
            tasks.push(TaskState::Pending);
            i = i + 1;
            assert(tasks@ =~= Seq::new(i as nat, |j: int| TaskState::Pending));
        }
        proof {
            lemma_count_absent(tasks@, TaskState::Running);
            lemma_count_absent(tasks@, TaskState::Succeeded);
            lemma_count_absent(tasks@, TaskState::Failed);
        }
        Ok(
            Batch {
                limit,
                phase: Phase::NotStarted,
                tasks,
                next: 0,
                in_flight: 0,
                succeeded: 0,
                failed: 0,
                failures: Vec::new(),
            },
        )
    }

    /// Records how preparing the destination directory went. On success the
    /// batch starts running; on failure it is aborted and no fetch will start.
    pub fn setup_done(&mut self, result: Result<(), String>) -> (r: Result<(), BatchError>)
        requires
            old(self).wf(),
            old(self)@.phase == Phase::NotStarted,
        ensures
            final(self).wf(),
            final(self)@ == (BatchView {
                phase: if result is Ok {
                    Phase::Running
                } else {
                    Phase::Aborted
                },
                ..old(self)@
            }),
            match result {
                Ok(()) => r is Ok,
                Err(e) => r == Err::<(), BatchError>(BatchError::Setup(e)),
            },
    {
        match result {
            Ok(()) => {
                self.phase = Phase::Running;
                Ok(())
            },
            Err(e) => {
                self.phase = Phase::Aborted;
                Err(BatchError::Setup(e))
            },
        }
    }

    /// Takes a permit for the next URL, if the batch is running, a permit is
    /// free, and a URL is left to start; gives that URL's index.
    pub fn next_start(&mut self) -> (r: Option<usize>)
        requires
            old(self).wf(),
        ensures
            final(self).wf(),
            r is Some <==> (old(self)@.phase == Phase::Running && old(self)@.in_flight()
                < old(self)@.limit && old(self)@.next < old(self)@.tasks.len()),
            match r {
                Some(i) => {
                    &&& i == old(self)@.next
                    &&& final(self)@ == (BatchView {
                        tasks: old(self)@.tasks.update(i as int, TaskState::Running),
                        next: old(self)@.next + 1,
                        ..old(self)@
                    })
                    &&& final(self)@.in_flight() == old(self)@.in_flight() + 1
                    &&& final(self)@.succeeded() == old(self)@.succeeded()
                    &&& final(self)@.failed() == old(self)@.failed()
                },
                None => final(self)@ == old(self)@,
            },
    {
        if !(self.phase == Phase::Running) || self.in_flight >= self.limit || self.next
            >= self.tasks.len() {
            return None;
        }
        let i = self.next;
        proof {
            lemma_count_update(self.tasks@, i as int, TaskState::Running, TaskState::Running);
            lemma_count_update(self.tasks@, i as int, TaskState::Running, TaskState::Succeeded);
            lemma_count_update(self.tasks@, i as int, TaskState::Running, TaskState::Failed);
        }
        self.tasks.set(i, TaskState::Running);
        self.next = i + 1;
        self.in_flight = self.in_flight + 1;
        Some(i)
    }

    /// Gives back the permit of running URL `index`, with the outcome of its fetch.
    pub fn complete(&mut self, index: usize, outcome: FetchOutcome)
        requires
            old(self).wf(),
            index < old(self)@.tasks.len(),
            old(self)@.tasks[index as int] == TaskState::Running,
        ensures
            final(self).wf(),
            final(self)@ == (BatchView {
                tasks: old(self)@.tasks.update(
                    index as int,
                    if outcome is Success {
                        TaskState::Succeeded
                    } else {
                        TaskState::Failed
                    },
                ),
                failures: match outcome {
                    FetchOutcome::Success { .. } => old(self)@.failures,
                    FetchOutcome::Failure { url, detail } => old(self)@.failures.push(
                        FailedFetch { url, detail },
                    ),
                },
                ..old(self)@
            }),
            final(self)@.in_flight() + 1 == old(self)@.in_flight(),
            final(self)@.succeeded() == old(self)@.succeeded() + if outcome is Success {
                1int
            } else {
                0int
            },
            final(self)@.failed() == old(self)@.failed() + if outcome is Success {
                0int
            } else {
                1int
            },
    {
        let total: usize = self.tasks.len();
        proof {
            lemma_count_partition(self.tasks@);
            lemma_count_update(self.tasks@, index as int, TaskState::Pending, TaskState::Running);
            assert(index < self.next);
            assert(self.succeeded + self.failed + self.in_flight <= total);
        }
        match outcome {
            FetchOutcome::Success { .. } => {
                proof {
                    lemma_count_update(self.tasks@, index as int, TaskState::Succeeded, TaskState::Running);
                    lemma_count_update(self.tasks@, index as int, TaskState::Succeeded, TaskState::Succeeded);
                    lemma_count_update(self.tasks@, index as int, TaskState::Succeeded, TaskState::Failed);
                }
                self.tasks.set(index, TaskState::Succeeded);
                self.succeeded = self.succeeded + 1;
            },
            FetchOutcome::Failure { url, detail } => {
                proof {
                    lemma_count_update(self.tasks@, index as int, TaskState::Failed, TaskState::Running);
                    lemma_count_update(self.tasks@, index as int, TaskState::Failed, TaskState::Succeeded);
                    lemma_count_update(self.tasks@, index as int, TaskState::Failed, TaskState::Failed);
                }
                self.tasks.set(index, TaskState::Failed);
                self.failed = self.failed + 1;
                self.failures.push(FailedFetch { url, detail });
            },
        }
        self.in_flight = self.in_flight - 1;
    }

    /// Whether every URL has been started and none is still running.
    pub fn is_complete(&self) -> (r: bool)
        requires
            self.wf(),
        ensures
            r == self@.is_complete(),
    {
        self.phase == Phase::Running && self.next == self.tasks.len() && self.in_flight == 0
    }

    /// How many fetches are running now.
    pub fn in_flight(&self) -> (r: usize)
        requires
            self.wf(),
        ensures
            r == self@.in_flight(),
    {
        self.in_flight
    }

    /// The most fetches that may run at once.
    pub fn limit(&self) -> (r: usize)
        ensures
            r == self@.limit,
    {
        self.limit
    }

    /// How many fetches have succeeded so far.
    pub fn succeeded(&self) -> (r: usize)
        requires
            self.wf(),
        ensures
            r == self@.succeeded(),
    {
        self.succeeded
    }

    /// How many fetches have failed so far.
    pub fn failed(&self) -> (r: usize)
        requires
            self.wf(),
        ensures
            r == self@.failed(),
    {
        self.failed
    }

    /// The tally of the batch so far, with its failures.
    pub fn into_report(self) -> (r: BatchReport)
        requires
            self.wf(),
        ensures
            r.succeeded == self@.succeeded(),
            r.failed == self@.failed(),
            r.failures@ == self@.failures,
    {
        BatchReport { succeeded: self.succeeded, failed: self.failed, failures: self.failures }
    }
}

/// However a batch has been driven, no more fetches are running than its limit.
pub proof fn lemma_in_flight_within_limit(b: &Batch)
    requires
        b.wf(),
    ensures
        b@.in_flight() <= b@.limit,
        b@.limit >= 1,
{
}

/// Once a batch is complete, every URL has been counted exactly once: as a
/// success or as a failure, and each failure is listed.
pub proof fn lemma_complete_accounts_for_all(b: &Batch)
    requires
        b.wf(),
        b@.is_complete(),
    ensures
        b@.succeeded() + b@.failed() == b@.tasks.len(),
        b@.failures.len() == b@.failed(),
{
    lemma_count_partition(b.tasks@);
    lemma_count_absent(b.tasks@, TaskState::Pending);
}

/// At every point of a batch, each URL is in exactly one state: not started
/// yet, running, succeeded or failed. The URLs not started yet are exactly
/// those from the next index on.
pub proof fn lemma_every_url_accounted_once(b: &Batch)
    requires
        b.wf(),
    ensures
        count(b@.tasks, TaskState::Pending) + b@.in_flight() + b@.succeeded() + b@.failed()
            == b@.tasks.len(),
        count(b@.tasks, TaskState::Pending) + b@.next == b@.tasks.len(),
{
    lemma_count_partition(b.tasks@);
    lemma_count_pending_suffix(b.tasks@, b.next as int);
}

/// A running batch that is not complete can always move on: either
/// [`Batch::next_start`] hands out a URL, or a fetch is running whose
/// completion can be awaited. So a driver that alternates the two reaches
/// completion, where every URL has been counted.
pub proof fn lemma_incomplete_batch_can_progress(b: &Batch)
    requires
        b.wf(),
        b@.phase == Phase::Running,
        !b@.is_complete(),
    ensures
        (b@.in_flight() < b@.limit && b@.next < b@.tasks.len()) || b@.in_flight() > 0,
{
}

/// A batch whose destination directory could not be prepared has started no
/// fetch, and never starts one (see [`Batch::next_start`]).
pub proof fn lemma_aborted_batch_fetches_nothing(b: &Batch)
    requires
        b.wf(),
        b@.phase == Phase::Aborted,
    ensures
        forall|i: int| 0 <= i < b@.tasks.len() ==> b@.tasks[i] == TaskState::Pending,
        b@.in_flight() == 0,
        b@.succeeded() + b@.failed() == 0,
{
    lemma_count_absent(b.tasks@, TaskState::Running);
    lemma_count_absent(b.tasks@, TaskState::Succeeded);
    lemma_count_absent(b.tasks@, TaskState::Failed);
}

} // verus!
