//! The pool: owner of the queue's sending half and of the fixed worker
//! roster; admission of the configuration, submission, and the teardown
//! handshake.

use vstd::prelude::*;

use crate::protocol::ControlMessage;
use crate::protocol::Task;
use crate::protocol::WorkerAction;
use crate::protocol::tasks_of;
use crate::protocol::worker_step;
use crate::worker::Worker;
use crate::worker::WorkerState;

verus! {

/// Why the pool could not be built.
#[derive(Clone, Copy, PartialEq, Eq, Structural, Debug)]
pub enum PoolError {
    /// A pool of zero workers would make every submission stall with no
    /// consumer, so construction refuses it.
    InvalidConfiguration,
}

/// A fixed-size worker pool: the sending half of the shared FIFO queue and
/// the roster of workers, fixed in size for the pool's whole lifetime.
pub struct ThreadPool {
    /// The shared FIFO queue, front at index zero.  The pool enqueues at
    /// the back; workers dequeue at the front, one at a time.
    pub queue: Vec<ControlMessage>,
    /// The roster: worker `i` carries identifier `i`.  No worker is added
    /// or removed after construction.
    pub workers: Vec<Worker>,
}

impl ThreadPool {
    /// The pool's invariant while it accepts submissions: at least one
    /// worker, identifiers sequential from zero, every worker in its
    /// receive loop, and nothing but tasks on the queue.
    pub open spec fn wf(self) -> bool {
        &&& self.workers@.len() >= 1
        &&& forall|i: int|
            0 <= i < self.workers@.len() ==> (#[trigger] self.workers@[i]).id == i
        &&& forall|i: int|
            0 <= i < self.workers@.len() ==> (#[trigger] self.workers@[i]).state is Running
        &&& forall|i: int| 0 <= i < self.queue@.len() ==> (#[trigger] self.queue@[i]) is NewTask
    }

    /// The number of workers the pool was configured with.
    pub open spec fn size(self) -> nat {
        self.workers@.len()
    }

    /// Build a pool of `size` workers sharing one queue.
    ///
    /// Fails with [`PoolError::InvalidConfiguration`], before any worker
    /// exists, exactly when `size == 0`; otherwise the pool starts with an
    /// empty queue and workers `0 .. size`, all in their receive loops.
    pub fn new(size: usize) -> (r: Result<ThreadPool, PoolError>)
        ensures
            size == 0 <==> r is Err,
            r is Err ==> r == Result::<ThreadPool, PoolError>::Err(
                PoolError::InvalidConfiguration,
            ),
            r is Ok ==> {
                let p = r->Ok_0;
                &&& p.wf()
                &&& p.size() == size
                &&& p.queue@.len() == 0
            },
    {
        if size == 0 {
            return Err(PoolError::InvalidConfiguration);
        }
        let mut workers: Vec<Worker> = Vec::new();
        let mut id: usize = 0;
        while id < size
            invariant
                id <= size,
                workers@.len() == id,
                forall|i: int| 0 <= i < id ==> (#[trigger] workers@[i]).id == i,
                forall|i: int| 0 <= i < id ==> (#[trigger] workers@[i]).state is Running,
            decreases size - id,
        {
            workers.push(Worker::new(id));
            id = id + 1;
        }
        Ok(ThreadPool { queue: Vec::new(), workers })
    }

    /// Submit one task: wrap it as a `NewTask` and enqueue it at the back
    /// of the shared queue.  Never blocks, never fails: the queue is
    /// unbounded and the pool keeps its workers alive until teardown.
    /// The roster is untouched.
    pub fn execute(&mut self, task: Task)
        requires
            old(self).wf(),
        ensures
            final(self).wf(),
            final(self).queue@ == old(self).queue@.push(ControlMessage::NewTask(task)),
            tasks_of(final(self).queue@) == tasks_of(old(self).queue@).push(task),
            final(self).workers@ == old(self).workers@,
    {
        self.queue.push(ControlMessage::NewTask(task));
        proof {
            crate::protocol::lemma_tasks_of_push_task(old(self).queue@, task);
        }
    }

    /// Teardown's first step: enqueue one `Terminate` per worker, in
    /// roster order, behind everything already on the queue.  Exactly
    /// `size` signals are sent, and the roster is untouched.
    pub fn send_terminates(&mut self)
        ensures
            final(self).queue@ == old(self).queue@ + crate::protocol::terminate_seq(
                old(self).workers@.len(),
            ),
            final(self).workers@ == old(self).workers@,
    {
        let ghost q0 = self.queue@;
        let ghost ws0 = self.workers@;
        let n = self.workers.len();
        let mut i: usize = 0;
        proof {
            assert(self.queue@ =~= q0 + crate::protocol::terminate_seq(0));
        }
        while i < n
            invariant
                i <= n,
                self.queue@ == q0 + crate::protocol::terminate_seq(i as nat),
                self.workers@ == ws0,
            decreases n - i,
        {
            self.queue.push(ControlMessage::Terminate);
            i = i + 1;
            proof {
                assert(self.queue@ =~= q0 + crate::protocol::terminate_seq(i as nat));
            }
        }
    }

    /// The workers' collective consumption of the queue, as observed by
    /// the caller that waits for it: messages leave the queue one at a
    /// time, front first; each task is begun exactly once, in queue order;
    /// each `Terminate` moves exactly one running worker out of its loop.
    /// With one `Terminate` on the queue per running worker, and every
    /// `Terminate` behind every task, the queue drains completely and
    /// every worker ends `Terminated`.
    pub fn run_workers(&mut self) -> (executed: Vec<Task>)
        requires
            forall|i: int|
                0 <= i < old(self).workers@.len() ==> (#[trigger] old(self).workers@[i]).state is Running,
            crate::protocol::terminates_last(old(self).queue@),
            crate::protocol::terminate_count(old(self).queue@) == old(self).workers@.len(),
        ensures
            executed@ == tasks_of(old(self).queue@),
            final(self).queue@.len() == 0,
            final(self).workers@.len() == old(self).workers@.len(),
            forall|i: int|
                0 <= i < old(self).workers@.len() ==> (#[trigger] final(self).workers@[i]).state is Terminated
                    && final(self).workers@[i].id == old(self).workers@[i].id,
    {
        let ghost q0 = self.queue@;
        let ghost ws0 = self.workers@;
        let n = self.workers.len();
        let mut executed: Vec<Task> = Vec::new();
        let mut terminated: usize = 0;
        proof {
            assert(executed@ + tasks_of(self.queue@) =~= tasks_of(q0));
        }
        while self.queue.len() > 0
            invariant
                self.workers@.len() == n,
                ws0.len() == n,
                terminated <= n,
                executed@ + tasks_of(self.queue@) == tasks_of(q0),
                crate::protocol::terminates_last(self.queue@),
                crate::protocol::terminate_count(self.queue@) + terminated == n,
                forall|i: int|
                    0 <= i < terminated ==> (#[trigger] self.workers@[i]).state is Terminated
                        && self.workers@[i].id == ws0[i].id,
                forall|i: int| terminated <= i < n ==> (#[trigger] self.workers@[i]) == ws0[i],
            decreases self.queue@.len(),
        {
            let ghost qb = self.queue@;
            let msg = self.queue.remove(0);
            proof {
                assert(self.queue@ =~= qb.drop_first());
                crate::protocol::lemma_terminates_last_drop_first(qb);
            }
            match worker_step(msg) {
                WorkerAction::Run(t) => {
                    executed.push(t);
                    proof {
                        assert(tasks_of(qb) == seq![t] + tasks_of(self.queue@));
                        assert(executed@ + tasks_of(self.queue@) =~= tasks_of(q0));
                    }
                },
                WorkerAction::Exit => {
                    proof {
                        assert(crate::protocol::terminate_count(qb) == 1
                            + crate::protocol::terminate_count(self.queue@));
                    }
                    let wid = self.workers[terminated].id;
                    self.workers[terminated] = Worker {
                        id: wid,
                        state: WorkerState::Terminated,
                    };
                    terminated = terminated + 1;
                },
            }
        }
        proof {
            assert(tasks_of(self.queue@) =~= Seq::<Task>::empty());
            assert(executed@ =~= tasks_of(q0));
        }
        executed
    }

    /// Teardown's last step: join every worker's execution handle, in
    /// roster order.  Every handle is joined exactly once: each join
    /// demands a `Terminated` worker and leaves it `Joined`, a state no
    /// operation of the pool leaves again.
    pub fn join_all(&mut self)
        requires
            forall|i: int|
                0 <= i < old(self).workers@.len() ==> (#[trigger] old(self).workers@[i]).state is Terminated,
        ensures
            final(self).queue@ == old(self).queue@,
            final(self).workers@.len() == old(self).workers@.len(),
            forall|i: int|
                0 <= i < old(self).workers@.len() ==> (#[trigger] final(self).workers@[i]).state is Joined
                    && final(self).workers@[i].id == old(self).workers@[i].id,
    {
        let ghost q0 = self.queue@;
        let ghost ws0 = self.workers@;
        let n = self.workers.len();
        let mut i: usize = 0;
        while i < n
            invariant
                i <= n,
                self.workers@.len() == n,
                ws0.len() == n,
                self.queue@ == q0,
                forall|k: int| 0 <= k < ws0.len() ==> (#[trigger] ws0[k]).state is Terminated,
                forall|k: int|
                    0 <= k < i ==> (#[trigger] self.workers@[k]).state is Joined
                        && self.workers@[k].id == ws0[k].id,
                forall|k: int| i <= k < n ==> (#[trigger] self.workers@[k]) == ws0[k],
            decreases n - i,
        {
            let w = self.workers[i];
            self.workers[i] = w.join();
            i = i + 1;
        }
    }

    /// Teardown, the pool's only blocking operation: broadcast one
    /// `Terminate` per worker, wait while the workers drain the queue,
    /// then join every worker's handle in roster order.  When it returns,
    /// every task that was ever submitted has been begun exactly once, in
    /// submission order; the queue is empty; and every one of the pool's
    /// workers — exactly as many as it was built with — has exited and
    /// been joined exactly once.
    pub fn teardown(&mut self) -> (executed: Vec<Task>)
        requires
            old(self).wf(),
        ensures
            executed@ == tasks_of(old(self).queue@),
            final(self).queue@.len() == 0,
            final(self).workers@.len() == old(self).workers@.len(),
            forall|i: int|
                0 <= i < old(self).workers@.len() ==> (#[trigger] final(self).workers@[i]).state is Joined
                    && final(self).workers@[i].id == old(self).workers@[i].id,
    {
        let ghost q0 = self.queue@;
        let ghost n = self.workers@.len();
        self.send_terminates();
        proof {
            crate::protocol::lemma_append_terminates(q0, n);
        }
        let executed = self.run_workers();
        self.join_all();
        executed
    }
}

/// The queue a fresh pool holds after submitting the tasks `ts`, in order:
/// each submission pushes its `NewTask` at the back.
pub open spec fn submit_seq(q: Seq<ControlMessage>, ts: Seq<Task>) -> Seq<ControlMessage>
    decreases ts.len(),
{
    if ts.len() == 0 {
        q
    } else {
        submit_seq(q.push(ControlMessage::NewTask(ts[0])), ts.drop_first())
    }
}

/// Submissions only append tasks: after submitting `ts` on top of queue
/// `q`, the queue carries the tasks of `q` followed by `ts`.
pub proof fn lemma_tasks_of_submit_seq(q: Seq<ControlMessage>, ts: Seq<Task>)
    ensures
        tasks_of(submit_seq(q, ts)) == tasks_of(q) + ts,
    decreases ts.len(),
{
    if ts.len() == 0 {
        assert(tasks_of(q) + ts =~= tasks_of(q));
    } else {
        crate::protocol::lemma_tasks_of_push_task(q, ts[0]);
        lemma_tasks_of_submit_seq(q.push(ControlMessage::NewTask(ts[0])), ts.drop_first());
        assert(tasks_of(q).push(ts[0]) + ts.drop_first() =~= tasks_of(q) + ts);
    }
}

/// Every submitted task runs exactly once, in submission order: for any
/// finite sequence of tasks submitted to a fresh pool, the queue carries
/// exactly those tasks, and [`ThreadPool::teardown`] promises to return
/// exactly the carried tasks as the executed list while joining every
/// worker before it unblocks its caller.
pub proof fn lemma_submitted_tasks_run_exactly_once(ts: Seq<Task>)
    ensures
        tasks_of(submit_seq(Seq::empty(), ts)) == ts,
{
    lemma_tasks_of_submit_seq(Seq::empty(), ts);
    assert(tasks_of(Seq::<ControlMessage>::empty()) + ts =~= ts);
}

} // verus!
