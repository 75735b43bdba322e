//! Bounded concurrency: which of a fixed number of tasks may start, so that
//! no more than a set number run at a time.

use vstd::prelude::*;

verus! {

/// What to do next with the tasks of a pool.
#[derive(Clone, Copy, Debug, PartialEq, Eq, Structural)]
pub enum PoolStep {
    /// Start the task with this number.
    Launch(usize),
    /// Start nothing until a task has ended.
    Wait,
    /// Every task has ended.
    Done,
}

/// What happens to a pool: it is asked what to do next, or it is told
/// that a task has ended.
pub enum PoolEvent {
    Next,
    Complete,
}

/// Where a pool stands: of the tasks `0..total`, of which at most `limit`
/// may run at a time, the first `launched` have been started, and
/// `finished` of those have ended.
pub struct PoolState {
    pub total: nat,
    pub limit: nat,
    pub launched: nat,
    pub finished: nat,
}

impl PoolState {
    /// How many tasks are running.
    pub open spec fn in_flight(self) -> int {
        self.launched - self.finished
    }

    /// Whether one more task may start: one is left, and fewer than the
    /// limit are running.
    pub open spec fn may_launch(self) -> bool {
        self.launched < self.total && self.in_flight() < self.limit
    }

    /// Whether the counts fit together and no more tasks run than the
    /// limit allows.
    pub open spec fn bounded(self) -> bool {
        &&& self.finished <= self.launched <= self.total
        &&& self.in_flight() <= self.limit
    }
}

/// A pool none of whose tasks has started.
pub open spec fn pool_start(total: nat, limit: nat) -> PoolState {
    PoolState { total, limit, launched: 0, finished: 0 }
}

/// The pool after one event. Asked what to do next, it starts a task
/// where one may start; told that a task has ended, it counts one more as
/// ended where one is running. Else it stays as it is.
pub open spec fn pool_step(s: PoolState, event: PoolEvent) -> PoolState {
    match event {
        PoolEvent::Next => if s.may_launch() {
            PoolState { launched: s.launched + 1, ..s }
        } else {
            s
        },
        PoolEvent::Complete => if s.in_flight() > 0 {
            PoolState { finished: s.finished + 1, ..s }
        } else {
            s
        },
    }
}

/// The pool after a run of events.
pub open spec fn pool_after(total: nat, limit: nat, events: Seq<PoolEvent>) -> PoolState
    decreases events.len(),
{
    if events.len() == 0 {
        pool_start(total, limit)
    } else {
        pool_step(pool_after(total, limit, events.drop_last()), events.last())
    }
}

/// Whatever happens to a pool, and in whatever order, never do more of
/// its tasks run than its limit allows, and none ends that did not start.
pub proof fn lemma_pool_stays_bounded(total: nat, limit: nat, events: Seq<PoolEvent>)
    ensures
        pool_after(total, limit, events).bounded(),
        pool_after(total, limit, events).in_flight() <= limit,
        pool_after(total, limit, events).total == total,
        pool_after(total, limit, events).limit == limit,
    decreases events.len(),
{
    if events.len() > 0 {
        lemma_pool_stays_bounded(total, limit, events.drop_last());
    }
}

/// The tasks of one fan-out, of which a bounded number run at a time.
#[derive(Debug)]
pub struct BoundedPool {
    total: usize,
    limit: usize,
    launched: usize,
    finished: usize,
}

impl View for BoundedPool {
    type V = PoolState;

    closed spec fn view(&self) -> PoolState {
        PoolState {
            total: self.total as nat,
            limit: self.limit as nat,
            launched: self.launched as nat,
            finished: self.finished as nat,
        }
    }
}

impl BoundedPool {
    #[verifier::type_invariant]
    spec fn valid(&self) -> bool {
        self@.bounded()
    }

    /// A pool of `total` tasks none of which has started.
    pub fn new(total: usize, limit: usize) -> (r: BoundedPool)
        ensures
            r@ == pool_start(total as nat, limit as nat),
    {
        BoundedPool { total, limit, launched: 0, finished: 0 }
    }

    /// Says what to do next. The next task starts where one is left and
    /// fewer than the limit are running; else the pool waits while tasks
    /// are left or running; else it is done. With a limit of 0 nothing
    /// ever starts.
    pub fn next(&mut self) -> (step: PoolStep)
        ensures
            final(self)@ == pool_step(old(self)@, PoolEvent::Next),
            final(self)@.bounded(),
            step == if old(self)@.may_launch() {
                PoolStep::Launch(old(self)@.launched as usize)
            } else if old(self)@.finished < old(self)@.total {
                PoolStep::Wait
            } else {
                PoolStep::Done
            },
    {
        proof {
            use_type_invariant(&*self);
        }
        if self.launched < self.total && self.launched - self.finished < self.limit {
            let index: usize = self.launched;
            self.launched = self.launched + 1;
            PoolStep::Launch(index)
        } else if self.finished < self.total {
            PoolStep::Wait
        } else {
            PoolStep::Done
        }
    }

    /// Takes note that one running task has ended. Where none is running
    /// the pool stays as it is and the answer is `false`.
    pub fn complete(&mut self) -> (ended: bool)
        ensures
            final(self)@ == pool_step(old(self)@, PoolEvent::Complete),
            final(self)@.bounded(),
            ended == (old(self)@.in_flight() > 0),
    {
        proof {
            use_type_invariant(&*self);
        }
        if self.finished < self.launched {
            self.finished = self.finished + 1;
            true
        } else {
            false
        }
    }

    /// How many tasks are running: never more than the limit allows,
    /// whatever was asked of the pool before.
    pub fn running(&self) -> (r: usize)
        ensures
            r == self@.in_flight(),
            r <= self@.limit,
    {
        proof {
            use_type_invariant(self);
        }
        self.launched - self.finished
    }

    /// How many tasks have not ended.
    pub fn remaining(&self) -> (r: usize)
        ensures
            r == self@.total - self@.finished,
    {
        proof {
            use_type_invariant(self);
        }
        self.total - self.finished
    }

    /// How many tasks may run at a time.
    pub fn limit(&self) -> (r: usize)
        ensures
            r == self@.limit,
    {
        self.limit
    }
}

} // verus!
