//! The queue of reads that wait for a thread.
//!
//! The queue is bounded. A job that finds no place is handed back, so that the reader is told to
//! come again.

use std::collections::VecDeque;

use vstd::prelude::*;

verus! {

/// The jobs that wait, the first to come first.
pub struct WorkerPool<J> {
    pub jobs: VecDeque<J>,
    pub workers: usize,
    pub queue_depth: usize,
    /// No job is taken on any more.
    pub stopping: bool,
}

/// What a thread does next.
pub enum WorkerStep<J> {
    Run(J),
    /// Sleep until there is a job or the pool stops.
    Wait,
    Exit,
}

/// What happens in the life of a pool: a job is submitted, a thread takes a step, the pool stops.
pub enum PoolEvent<J> {
    Submitted { job: J, answer: Result<(), J> },
    Stepped(WorkerStep<J>),
    ShutDown,
}

/// The jobs that were taken on, in the order in which they came.
pub open spec fn accepted<J>(events: Seq<PoolEvent<J>>) -> Seq<J>
    decreases events.len(),
{
    if events.len() == 0 {
        Seq::empty()
    } else {
        let before = accepted(events.drop_last());
        match events.last() {
            PoolEvent::Submitted { job, answer: Ok(_) } => before.push(job),
            _ => before,
        }
    }
}

/// The jobs that threads were given, in the order in which they were.
pub open spec fn run<J>(events: Seq<PoolEvent<J>>) -> Seq<J>
    decreases events.len(),
{
    if events.len() == 0 {
        Seq::empty()
    } else {
        let before = run(events.drop_last());
        match events.last() {
            PoolEvent::Stepped(WorkerStep::Run(job)) => before.push(job),
            _ => before,
        }
    }
}

impl<J> WorkerPool<J> {
    pub open spec fn wf(&self) -> bool {
        &&& self.workers > 0
        &&& self.queue_depth > 0
        &&& self.jobs@.len() <= self.queue_depth
    }

    /// `after` and `answer` are what submitting `job` makes of `self`.
    pub open spec fn submits_to(&self, after: Self, job: J, answer: Result<(), J>) -> bool {
        &&& after.stopping == self.stopping
        &&& if self.stopping || self.jobs@.len() == self.queue_depth {
            answer == Err::<(), J>(job) && after.jobs@ == self.jobs@
        } else {
            answer == Ok::<(), J>(()) && after.jobs@ == self.jobs@.push(job)
        }
    }

    /// `after` is what an event makes of `self`.
    pub open spec fn lives_on(&self, after: Self, event: PoolEvent<J>) -> bool {
        match event {
            PoolEvent::Submitted { job, answer } => self.submits_to(after, job, answer),
            PoolEvent::Stepped(step) => self.steps_to(after, step),
            PoolEvent::ShutDown => after.stopping && after.jobs == self.jobs,
        }
    }

    /// `after` and `step` are what a thread's step makes of `self`.
    pub open spec fn steps_to(&self, after: Self, step: WorkerStep<J>) -> bool {
        &&& after.stopping == self.stopping
        &&& if self.jobs@.len() > 0 {
            step == WorkerStep::Run(self.jobs@[0]) && after.jobs@ == self.jobs@.drop_first()
        } else {
            after.jobs@ == self.jobs@ && step == if self.stopping {
                WorkerStep::<J>::Exit
            } else {
                WorkerStep::<J>::Wait
            }
        }
    }

    pub fn new(workers: usize, queue_depth: usize) -> (r: Self)
        requires
            workers > 0,
            queue_depth > 0,
        ensures
            r.wf(),
            r.workers == workers,
            r.queue_depth == queue_depth,
            r.jobs@.len() == 0,
            !r.stopping,
    {
        WorkerPool { jobs: VecDeque::new(), workers, queue_depth, stopping: false }
    }

    pub fn workers(&self) -> (r: usize)
        ensures
            r == self.workers,
    {
        self.workers
    }

    pub fn queue_depth(&self) -> (r: usize)
        ensures
            r == self.queue_depth,
    {
        self.queue_depth
    }

    /// Whether the pool stops; a job in hand may want to know.
    pub fn stopping_flag(&self) -> (r: bool)
        ensures
            r == self.stopping,
    {
        self.stopping
    }

    /// Queues a job, or hands it back where the queue is full or the pool stops.
    pub fn try_submit(&mut self, job: J) -> (r: Result<(), J>)
        requires
            old(self).wf(),
        ensures
            final(self).wf(),
            final(self).workers == old(self).workers,
            final(self).queue_depth == old(self).queue_depth,
            old(self).submits_to(*final(self), job, r),
    {
        if self.stopping || self.jobs.len() >= self.queue_depth {
            return Err(job);
        }
        self.jobs.push_back(job);
        Ok(())
    }

    /// The next step of a thread. A pool that stops still runs what is queued.
    pub fn worker_step(&mut self) -> (r: WorkerStep<J>)
        requires
            old(self).wf(),
        ensures
            final(self).wf(),
            final(self).workers == old(self).workers,
            final(self).queue_depth == old(self).queue_depth,
            old(self).steps_to(*final(self), r),
    {
        match self.jobs.pop_front() {
            Some(job) => WorkerStep::Run(job),
            None => if self.stopping {
                WorkerStep::Exit
            } else {
                WorkerStep::Wait
            },
        }
    }

    /// Stops the pool. What is queued stays queued.
    pub fn shutdown(&mut self)
        requires
            old(self).wf(),
        ensures
            final(self).wf(),
            final(self).stopping,
            final(self).jobs == old(self).jobs,
            final(self).workers == old(self).workers,
            final(self).queue_depth == old(self).queue_depth,
    {
        self.stopping = true;
    }
}

/// Over the life of a pool that began empty, each job that was taken on was given to a thread
/// once, in the order in which they came, or still waits; so once a thread is told to exit, all
/// were.
pub proof fn accepted_jobs_run_once<J>(pools: Seq<WorkerPool<J>>, events: Seq<PoolEvent<J>>)
    requires
        pools.len() == events.len() + 1,
        pools[0].jobs@.len() == 0,
        forall|i: int|
            0 <= i < events.len() ==> (#[trigger] pools[i]).lives_on(pools[i + 1], events[i]),
    ensures
        accepted(events) == run(events) + pools.last().jobs@,
        events.len() > 0 && events.last() == PoolEvent::Stepped(WorkerStep::<J>::Exit) ==> accepted(
            events,
        ) == run(events),
    decreases events.len(),
{
    if events.len() == 0 {
        assert(accepted(events) =~= run(events) + pools.last().jobs@);
    } else {
        let n = events.len() - 1;
        let earlier = pools.drop_last();
        let past = events.drop_last();
        assert forall|i: int| 0 <= i < past.len() implies (#[trigger] earlier[i]).lives_on(
            earlier[i + 1],
            past[i],
        ) by {
            assert(pools[i].lives_on(pools[i + 1], events[i]));
        }
        accepted_jobs_run_once(earlier, past);
        let before = pools[n];
        let after = pools[n + 1];
        assert(before.lives_on(after, events[n]));
        match events[n] {
            PoolEvent::Submitted { job, answer } => {
                assert((run(past) + before.jobs@).push(job) =~= run(past) + before.jobs@.push(job));
            },
            PoolEvent::Stepped(step) => {
                if before.jobs@.len() > 0 {
                    assert(run(past) + before.jobs@ =~= run(past).push(before.jobs@[0])
                        + before.jobs@.drop_first());
                } else {
                    assert(run(past) + before.jobs@ =~= run(past));
                }
            },
            PoolEvent::ShutDown => {},
        }
    }
}

/// A pool that stops runs every queued job, in the order in which they came, and exits only
/// then.
pub proof fn queued_jobs_are_run<J>(pools: Seq<WorkerPool<J>>, steps: Seq<WorkerStep<J>>)
    requires
        pools.len() == steps.len() + 1,
        pools[0].stopping,
        forall|i: int|
            0 <= i < steps.len() ==> (#[trigger] pools[i]).steps_to(pools[i + 1], steps[i]),
    ensures
        forall|i: int|
            0 <= i < steps.len() ==> #[trigger] steps[i] == if i < pools[0].jobs@.len() {
                WorkerStep::Run(pools[0].jobs@[i])
            } else {
                WorkerStep::<J>::Exit
            },
{
    assert forall|i: int| 0 <= i < steps.len() implies #[trigger] steps[i] == if i
        < pools[0].jobs@.len() {
        WorkerStep::Run(pools[0].jobs@[i])
    } else {
        WorkerStep::<J>::Exit
    } by {
        after_some_steps(pools, steps, i);
        assert(pools[i].steps_to(pools[i + 1], steps[i]));
    }
}

proof fn after_some_steps<J>(pools: Seq<WorkerPool<J>>, steps: Seq<WorkerStep<J>>, n: int)
    requires
        pools.len() == steps.len() + 1,
        pools[0].stopping,
        forall|i: int|
            0 <= i < steps.len() ==> (#[trigger] pools[i]).steps_to(pools[i + 1], steps[i]),
        0 <= n <= steps.len(),
    ensures
        pools[n].stopping,
        pools[n].jobs@ == if n <= pools[0].jobs@.len() {
            pools[0].jobs@.skip(n)
        } else {
            Seq::empty()
        },
    decreases n,
{
    if n == 0 {
        assert(pools[0].jobs@.skip(0) =~= pools[0].jobs@);
    } else {
        after_some_steps(pools, steps, n - 1);
        assert(pools[n - 1].steps_to(pools[n], steps[n - 1]));
        if n <= pools[0].jobs@.len() {
            assert(pools[0].jobs@.skip(n - 1).drop_first() =~= pools[0].jobs@.skip(n));
        } else if n - 1 == pools[0].jobs@.len() {
            assert(pools[0].jobs@.skip(n - 1) =~= Seq::empty());
        }
    }
}

/// A pool takes a job on exactly where it has room and does not stop; a job that it does not take on
/// comes back as it was, and the others wait as before. A thread waits or ends only where no job is
/// left, and ends only where the pool stops.
pub proof fn pool_with_room_takes_the_job<J>(
    before: WorkerPool<J>,
    after: WorkerPool<J>,
    job: J,
    answer: Result<(), J>,
    left: WorkerPool<J>,
    step: WorkerStep<J>,
)
    requires
        before.wf(),
        before.submits_to(after, job, answer),
        after.steps_to(left, step),
    ensures
        answer is Ok <==> !before.stopping && before.jobs@.len() < before.queue_depth,
        answer is Ok ==> after.jobs@.len() == before.jobs@.len() + 1 && after.jobs@.last() == job,
        answer is Err ==> answer == Err::<(), J>(job) && after.jobs@ == before.jobs@,
        forall|i: int| 0 <= i < before.jobs@.len() ==> after.jobs@[i] == #[trigger] before.jobs@[i],
        step is Run <==> after.jobs@.len() > 0,
        step matches WorkerStep::Run(next) ==> next == after.jobs@[0] && left.jobs@.len()
            == after.jobs@.len() - 1,
        step is Exit <==> after.jobs@.len() == 0 && after.stopping,
        before.jobs@.len() == 0 && answer is Ok ==> step == WorkerStep::Run(job),
{
}

} // verus!
