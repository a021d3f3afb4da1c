//! The task / control-message protocol: the units that flow through the
//! pool's single shared FIFO queue, and the branch a worker takes on each
//! message it pulls.

use vstd::prelude::*;

verus! {

/// One submitted unit of work.  A task is identified by a caller-chosen
/// number; the pool promises that each submitted task is dequeued and begun
/// exactly once, in submission order.
#[derive(Clone, Copy, PartialEq, Eq, Structural, Debug)]
pub struct Task {
    pub id: u64,
}

/// The protocol unit on the shared queue: either a new task to run, or a
/// signal telling the worker that receives it to exit its loop.
#[derive(Clone, Copy, PartialEq, Eq, Structural, Debug)]
pub enum ControlMessage {
    NewTask(Task),
    Terminate,
}

/// What a worker does right after pulling one message: run the task it was
/// handed, or exit its receive loop.
#[derive(Clone, Copy, PartialEq, Eq, Structural, Debug)]
pub enum WorkerAction {
    Run(Task),
    Exit,
}

/// The branch at the heart of the worker loop: a `NewTask` is run and the
/// loop continues, a `Terminate` ends the loop.
pub fn worker_step(msg: ControlMessage) -> (action: WorkerAction)
    ensures
        match msg {
            ControlMessage::NewTask(t) => action == WorkerAction::Run(t),
            ControlMessage::Terminate => action == WorkerAction::Exit,
        },
{
    match msg {
        ControlMessage::NewTask(t) => WorkerAction::Run(t),
        ControlMessage::Terminate => WorkerAction::Exit,
    }
}

/// The tasks carried by a queue, in queue order; `Terminate` signals carry
/// no work.
pub open spec fn tasks_of(q: Seq<ControlMessage>) -> Seq<Task>
    decreases q.len(),
{
    if q.len() == 0 {
        Seq::empty()
    } else {
        match q[0] {
            ControlMessage::NewTask(t) => seq![t] + tasks_of(q.drop_first()),
            ControlMessage::Terminate => tasks_of(q.drop_first()),
        }
    }
}

/// How many `Terminate` signals a queue carries.
pub open spec fn terminate_count(q: Seq<ControlMessage>) -> nat
    decreases q.len(),
{
    if q.len() == 0 {
        0
    } else {
        (if q[0] is Terminate {
            1nat
        } else {
            0nat
        }) + terminate_count(q.drop_first())
    }
}

/// Once a `Terminate` appears in the queue, everything after it is a
/// `Terminate` too: the shape teardown leaves the queue in.
pub open spec fn terminates_last(q: Seq<ControlMessage>) -> bool {
    forall|i: int, j: int|
        0 <= i < j < q.len() && q[i] is Terminate ==> q[j] is Terminate
}

/// A run of `k` `Terminate` signals: what teardown appends to the queue.
pub open spec fn terminate_seq(k: nat) -> Seq<ControlMessage> {
    Seq::new(k, |i: int| ControlMessage::Terminate)
}

/// Appending a task to the queue appends it to the carried tasks.
pub proof fn lemma_tasks_of_push_task(q: Seq<ControlMessage>, t: Task)
    ensures
        tasks_of(q.push(ControlMessage::NewTask(t))) == tasks_of(q).push(t),
    decreases q.len(),
{
    let s = q.push(ControlMessage::NewTask(t));
    assert(s.len() == q.len() + 1);
    if q.len() == 0 {
        assert(s[0] == ControlMessage::NewTask(t));
        assert(s.drop_first() =~= Seq::<ControlMessage>::empty());
        assert(tasks_of(s) == seq![t] + tasks_of(s.drop_first()));
        assert(tasks_of(s) =~= tasks_of(q).push(t));
    } else {
        assert(s[0] == q[0]);
        assert(s.drop_first() =~= q.drop_first().push(ControlMessage::NewTask(t)));
        lemma_tasks_of_push_task(q.drop_first(), t);
        assert(tasks_of(s) =~= tasks_of(q).push(t));
    }
}

/// Appending a `Terminate` leaves the carried tasks unchanged.
pub proof fn lemma_tasks_of_push_terminate(q: Seq<ControlMessage>)
    ensures
        tasks_of(q.push(ControlMessage::Terminate)) == tasks_of(q),
    decreases q.len(),
{
    let s = q.push(ControlMessage::Terminate);
    assert(s.len() == q.len() + 1);
    if q.len() == 0 {
        assert(s[0] == ControlMessage::Terminate);
        assert(s.drop_first() =~= Seq::<ControlMessage>::empty());
        assert(tasks_of(s) == tasks_of(s.drop_first()));
    } else {
        assert(s[0] == q[0]);
        assert(s.drop_first() =~= q.drop_first().push(ControlMessage::Terminate));
        lemma_tasks_of_push_terminate(q.drop_first());
        assert(tasks_of(s) =~= tasks_of(q));
    }
}

/// Appending a message raises the `Terminate` tally by one exactly when the
/// message is a `Terminate`.
pub proof fn lemma_terminate_count_push(q: Seq<ControlMessage>, m: ControlMessage)
    ensures
        terminate_count(q.push(m)) == terminate_count(q) + (if m is Terminate {
            1nat
        } else {
            0nat
        }),
    decreases q.len(),
{
    let s = q.push(m);
    assert(s.len() == q.len() + 1);
    if q.len() == 0 {
        assert(s[0] == m);
        assert(s.drop_first() =~= Seq::<ControlMessage>::empty());
        assert(terminate_count(s.drop_first()) == 0);
    } else {
        assert(s[0] == q[0]);
        assert(s.drop_first() =~= q.drop_first().push(m));
        lemma_terminate_count_push(q.drop_first(), m);
    }
}

/// A queue of tasks alone carries no `Terminate`.
pub proof fn lemma_terminate_count_all_tasks(q: Seq<ControlMessage>)
    requires
        forall|i: int| 0 <= i < q.len() ==> (#[trigger] q[i]) is NewTask,
    ensures
        terminate_count(q) == 0,
    decreases q.len(),
{
    if q.len() > 0 {
        assert(forall|i: int|
            0 <= i < q.drop_first().len() ==> (#[trigger] q.drop_first()[i]) is NewTask);
        lemma_terminate_count_all_tasks(q.drop_first());
    }
}

/// A queue of tasks followed by `k` `Terminate` signals: it carries exactly
/// the tasks, exactly `k` `Terminate`s, and all its `Terminate`s last.
pub proof fn lemma_append_terminates(q: Seq<ControlMessage>, k: nat)
    requires
        forall|i: int| 0 <= i < q.len() ==> (#[trigger] q[i]) is NewTask,
    ensures
        tasks_of(q + terminate_seq(k)) == tasks_of(q),
        terminate_count(q + terminate_seq(k)) == k,
        terminates_last(q + terminate_seq(k)),
    decreases k,
{
    if k == 0 {
        assert(q + terminate_seq(0) =~= q);
        lemma_terminate_count_all_tasks(q);
        assert(terminates_last(q));
    } else {
        lemma_append_terminates(q, (k - 1) as nat);
        assert(q + terminate_seq(k) =~= (q + terminate_seq((k - 1) as nat)).push(
            ControlMessage::Terminate,
        ));
        lemma_tasks_of_push_terminate(q + terminate_seq((k - 1) as nat));
        lemma_terminate_count_push(q + terminate_seq((k - 1) as nat), ControlMessage::Terminate);
        assert(terminates_last(q + terminate_seq(k)));
    }
}

/// Dropping the front message preserves the `Terminate`s-last shape.
pub proof fn lemma_terminates_last_drop_first(q: Seq<ControlMessage>)
    requires
        q.len() > 0,
        terminates_last(q),
    ensures
        terminates_last(q.drop_first()),
{
    assert forall|i: int, j: int|
        0 <= i < j < q.drop_first().len() && q.drop_first()[i] is Terminate implies q.drop_first()[j] is Terminate by {
        assert(q[i + 1] is Terminate);
    }
}

} // verus!
