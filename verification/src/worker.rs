//! A worker: a stable identifier and the lifecycle of its execution
//! handle.  The handle's three states make the one-shot join an enforced
//! invariant: only a `Terminated` worker can be joined, and a `Joined`
//! worker never changes again.

use vstd::prelude::*;

verus! {

/// Lifecycle of a worker's execution handle.
#[derive(Clone, Copy, PartialEq, Eq, Structural, Debug)]
pub enum WorkerState {
    /// In its receive loop (or running a task pulled from the queue).
    Running,
    /// Observed `Terminate` and exited its loop; the handle is joinable.
    Terminated,
    /// The handle has been joined; it is never accessed again.
    Joined,
}

/// One worker of the pool's fixed roster.
#[derive(Clone, Copy, PartialEq, Eq, Structural, Debug)]
pub struct Worker {
    /// Stable identifier, unique within a pool, assigned at construction.
    pub id: usize,
    /// Where the worker's execution handle stands in its lifecycle.
    pub state: WorkerState,
}

impl Worker {
    /// A freshly spawned worker enters its receive loop at once.
    pub fn new(id: usize) -> (w: Worker)
        ensures
            w.id == id,
            w.state is Running,
    {
        Worker { id, state: WorkerState::Running }
    }

    /// Join the worker's execution handle.  Only a worker that has exited
    /// its loop can be joined, and joining consumes the handle for good:
    /// a `Joined` worker cannot be joined a second time.
    pub fn join(self) -> (w: Worker)
        requires
            self.state is Terminated,
        ensures
            w.id == self.id,
            w.state is Joined,
    {
        Worker { id: self.id, state: WorkerState::Joined }
    }
}

} // verus!
