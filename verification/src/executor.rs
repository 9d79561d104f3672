//! The table of tasks that the worker threads share, and what a worker does with a task.
//!
//! A task moves between the table, where it is kept while it waits, the ready queue, and the
//! worker that polls it. The functions here decide; the caller owns the queue and the threads,
//! and sends, polls and notifies as it is told.

use crate::slots::{lemma_insert_wf, lemma_remove_wf, lemma_update_wf, Slots, MAX_SLOTS};
use crate::task_slab;
use slab::Slab;
use vstd::prelude::*;

verus! {

/// A task is a toplevel future that is driven by the executor.
#[derive(Clone, Copy, Debug, PartialEq, Eq, Structural)]
pub struct Task {
    /// The key of the task in the table.
    pub id: usize,
    /// The number under which the owner of the executor keeps the future.
    pub future: usize,
}

/// The current state of a task in the executor.
#[derive(Clone, Copy, Debug, PartialEq, Eq, Structural)]
pub enum TaskState {
    /// The task waits to be woken; it is in no queue and on no thread.
    Waiting(Task),
    /// The task is in the ready queue or on a thread.
    Executing,
    /// As `Executing`, and the task has signalled that it is ready to be executed again
    /// immediately.
    ScheduledAgain,
}

/// What polling the future of a task gave.
#[derive(Clone, Copy, Debug, PartialEq, Eq, Structural)]
pub enum TaskPoll {
    Ready,
    Pending,
}

/// What a worker does next.
#[derive(Clone, Copy, Debug, PartialEq, Eq, Structural)]
pub enum WorkerAction {
    /// Poll the future of the task.
    Poll(Task),
    /// Put the task on the ready queue, then receive the next one.
    Send(Task),
    /// Tell everyone who waits for the executor that it has no tasks left, then receive the next
    /// task.
    NotifyDone,
    /// Receive the next task from the ready queue.
    Receive,
    /// Leave the loop.
    Stop,
}

/// The state of a task after a wakeup.
pub open spec fn woken(state: TaskState) -> TaskState {
    match state {
        TaskState::Waiting(_) => TaskState::Executing,
        _ => TaskState::ScheduledAgain,
    }
}

/// The task that a wakeup puts on the ready queue.
pub open spec fn released(state: TaskState) -> Option<Task> {
    match state {
        TaskState::Waiting(task) => Some(task),
        _ => None,
    }
}

/// The state of `task` after a poll that left it pending.
pub open spec fn parked(state: TaskState, task: Task) -> TaskState {
    match state {
        TaskState::ScheduledAgain => TaskState::Executing,
        _ => TaskState::Waiting(task),
    }
}

/// The task that goes back to the ready queue after a poll that left `task` pending.
pub open spec fn requeued(state: TaskState, task: Task) -> Option<Task> {
    match state {
        TaskState::ScheduledAgain => Some(task),
        _ => None,
    }
}

/// A waiting task is kept under its own id.
pub open spec fn table_wf(table: Slots<TaskState>) -> bool {
    &&& table.wf()
    &&& forall|k: usize| #[trigger]
        table.contains(k) ==> (table.live[k] matches TaskState::Waiting(task) ==> task.id == k)
}

/// Whether `task` can be in the ready queue or on a worker: it is in the table, and not as a
/// waiting one.
pub open spec fn in_flight(table: Slots<TaskState>, task: Task) -> bool {
    table.contains(task.id) && !(table.live[task.id] is Waiting)
}

/// A new task that does not wait keeps the table well formed.
pub(crate) proof fn lemma_table_insert(table: Slots<TaskState>)
    requires
        table_wf(table),
        table.has_room(),
    ensures
        !table.contains(table.next_key()),
        table_wf(table.insert(TaskState::Executing)),
{
    lemma_insert_wf(table, TaskState::Executing);
    let new = table.insert(TaskState::Executing);
    assert forall|k: usize| #[trigger] new.contains(k) implies (
    new.live[k] matches TaskState::Waiting(task) ==> task.id == k) by {
        assert(k != table.next_key() ==> table.contains(k));
    }
}

/// A new state for a task keeps the table well formed, where it is not that of a waiting task
/// with another id.
pub(crate) proof fn lemma_table_update(table: Slots<TaskState>, id: usize, state: TaskState)
    requires
        table_wf(table),
        table.contains(id),
        state matches TaskState::Waiting(task) ==> task.id == id,
    ensures
        table_wf(table.update(id, state)),
        table.update(id, state).live.dom() == table.live.dom(),
{
    lemma_update_wf(table, id, state);
    let new = table.update(id, state);
    assert forall|k: usize| #[trigger] new.contains(k) implies (
    new.live[k] matches TaskState::Waiting(task) ==> task.id == k) by {
        assert(table.contains(k));
    }
}

/// Taking a task out keeps the table well formed.
pub(crate) proof fn lemma_table_remove(table: Slots<TaskState>, id: usize)
    requires
        table_wf(table),
        table.contains(id),
    ensures
        table_wf(table.remove(id)),
{
    lemma_remove_wf(table, id);
    let new = table.remove(id);
    assert forall|k: usize| #[trigger] new.contains(k) implies (
    new.live[k] matches TaskState::Waiting(task) ==> task.id == k) by {
        assert(table.contains(k));
    }
}

/// The tasks of an executor.
pub struct ExecutorInner {
    tasks: Slab<TaskState>,
}

impl View for ExecutorInner {
    type V = Slots<TaskState>;

    /// The state of each task, under its id.
    closed spec fn view(&self) -> Slots<TaskState> {
        task_slab::task_slots(self.tasks)
    }
}

impl ExecutorInner {
    /// The table of tasks is well formed.
    pub open spec fn wf(&self) -> bool {
        table_wf(self@)
    }

    /// An executor without tasks.
    pub fn new() -> (executor: ExecutorInner)
        ensures
            executor.wf(),
            executor@ == Slots::<TaskState>::empty(),
    {
        ExecutorInner { tasks: task_slab::new() }
    }

    /// Whether one more task fits.
    pub fn has_room(&self) -> (room: bool)
        ensures
            room == self@.has_room(),
    {
        task_slab::len(&self.tasks) < MAX_SLOTS
    }

    /// The state of a task, if the executor has it.
    pub fn state(&self, task_id: usize) -> (state: Option<TaskState>)
        ensures
            state == (if self@.contains(task_id) {
                Some(self@.live[task_id])
            } else {
                None
            }),
    {
        match task_slab::get(&self.tasks, task_id) {
            Some(state) => Some(*state),
            None => None,
        }
    }

    /// Create a new toplevel task and immediately schedule it for execution: the task returned
    /// goes on the ready queue.
    pub fn spawn(&mut self, future: usize) -> (task: Task)
        requires
            old(self).wf(),
            old(self)@.has_room(),
        ensures
            final(self).wf(),
            !old(self)@.contains(task.id),
            task == (Task { id: old(self)@.next_key(), future }),
            final(self)@ == old(self)@.insert(TaskState::Executing),
    {
        proof {
            lemma_table_insert(self@);
        }
        let id: usize = task_slab::insert(&mut self.tasks, TaskState::Executing);
        Task { id, future }
    }

    /// Schedule a known task for execution: the task returned, if any, goes on the ready queue. If
    /// it is currently executing, it will be scheduled again immediately upon completion.
    pub fn wakeup(&mut self, task_id: usize) -> (ready: Option<Task>)
        requires
            old(self).wf(),
            old(self)@.contains(task_id),
        ensures
            final(self).wf(),
            ready == released(old(self)@.live[task_id]),
            final(self)@ == old(self)@.update(task_id, woken(old(self)@.live[task_id])),
    {
        proof {
            lemma_table_update(self@, task_id, woken(self@.live[task_id]));
        }
        match task_slab::get_mut(&mut self.tasks, task_id) {
            Some(state) => match *state {
                TaskState::Waiting(task) => {
                    *state = TaskState::Executing;
                    Some(task)
                },
                _ => {
                    *state = TaskState::ScheduledAgain;
                    None
                },
            },
            None => None,
        }
    }

    /// Whether there are no more tasks in this executor: what is waited for until it holds.
    pub fn is_done(&self) -> (done: bool)
        ensures
            done == (self@.live == Map::<usize, TaskState>::empty()),
    {
        task_slab::is_empty(&self.tasks)
    }

    /// A polled task has completed: it leaves the table. Returns whether it was the last one.
    pub fn complete(&mut self, task: Task) -> (done: bool)
        requires
            old(self).wf(),
            old(self)@.contains(task.id),
        ensures
            final(self).wf(),
            final(self)@ == old(self)@.remove(task.id),
            done == (final(self)@.live == Map::<usize, TaskState>::empty()),
    {
        proof {
            lemma_table_remove(self@, task.id);
        }
        task_slab::remove(&mut self.tasks, task.id);
        task_slab::is_empty(&self.tasks)
    }

    /// A polled task is pending: it waits in the table, unless it was woken in the meantime. Then
    /// it is returned and goes back on the ready queue.
    pub fn suspend(&mut self, task: Task) -> (ready: Option<Task>)
        requires
            old(self).wf(),
            in_flight(old(self)@, task),
        ensures
            final(self).wf(),
            ready == requeued(old(self)@.live[task.id], task),
            final(self)@ == old(self)@.update(task.id, parked(old(self)@.live[task.id], task)),
    {
        proof {
            lemma_table_update(self@, task.id, parked(self@.live[task.id], task));
        }
        match task_slab::get_mut(&mut self.tasks, task.id) {
            Some(state) => match *state {
                TaskState::ScheduledAgain => {
                    *state = TaskState::Executing;
                    Some(task)
                },
                _ => {
                    *state = TaskState::Waiting(task);
                    None
                },
            },
            None => None,
        }
    }

    /// The waker of a task.
    pub fn get_waker(task_id: usize) -> (waker: Waker)
        ensures
            waker == (Waker { task_id }),
    {
        Waker { task_id }
    }
}

/// Wakes one task of an executor.
#[derive(Clone, Copy, Debug, PartialEq, Eq, Structural)]
pub struct Waker {
    pub task_id: usize,
}

impl Waker {
    /// Wake the task, where its executor is still there. The task returned, if any, goes on the
    /// ready queue.
    pub fn wake(&self, executor: Option<&mut ExecutorInner>) -> (ready: Option<Task>)
        requires
            executor matches Some(e) ==> e.wf() && e@.contains(self.task_id),
        ensures
            match executor {
                Some(e) => {
                    &&& final(e).wf()
                    &&& ready == released(e@.live[self.task_id])
                    &&& final(e)@ == e@.update(self.task_id, woken(e@.live[self.task_id]))
                },
                None => ready is None,
            },
    {
        match executor {
            Some(e) => e.wakeup(self.task_id),
            None => None,
        }
    }
}

/// Spawn a toplevel task with the current executor of the thread, where it is still there. The
/// task returned, if any, goes on the ready queue.
pub fn spawn(current: Option<&mut ExecutorInner>, future: usize) -> (task: Option<Task>)
    requires
        current matches Some(e) ==> e.wf() && e@.has_room(),
    ensures
        match current {
            Some(e) => {
                &&& final(e).wf()
                &&& task == Some(Task { id: e@.next_key(), future })
                &&& !e@.contains(e@.next_key())
                &&& final(e)@ == e@.insert(TaskState::Executing)
            },
            None => task is None,
        },
{
    match current {
        Some(e) => Some(e.spawn(future)),
        None => None,
    }
}

/// What a worker does with what it received: a task, or, where the queue has been closed, nothing.
pub fn after_receive(received: Option<Task>) -> (action: WorkerAction)
    ensures
        action == (match received {
            Some(task) => WorkerAction::Poll(task),
            None => WorkerAction::Stop,
        }),
{
    match received {
        Some(task) => WorkerAction::Poll(task),
        None => WorkerAction::Stop,
    }
}

/// What a worker does after polling `task`. Where the executor is gone it stops.
pub fn after_poll(executor: Option<&mut ExecutorInner>, task: Task, poll: TaskPoll) -> (action:
    WorkerAction)
    requires
        executor matches Some(e) ==> e.wf() && match poll {
            TaskPoll::Ready => e@.contains(task.id),
            TaskPoll::Pending => in_flight(e@, task),
        },
    ensures
        match executor {
            None => action is Stop,
            Some(e) => final(e).wf() && match poll {
                TaskPoll::Ready => {
                    &&& final(e)@ == e@.remove(task.id)
                    &&& action == if final(e)@.live == Map::<usize, TaskState>::empty() {
                        WorkerAction::NotifyDone
                    } else {
                        WorkerAction::Receive
                    }
                },
                TaskPoll::Pending => {
                    &&& final(e)@ == e@.update(task.id, parked(e@.live[task.id], task))
                    &&& action == match requeued(e@.live[task.id], task) {
                        Some(t) => WorkerAction::Send(t),
                        None => WorkerAction::Receive,
                    }
                },
            },
        },
{
    match executor {
        None => WorkerAction::Stop,
        Some(e) => match poll {
            TaskPoll::Ready => if e.complete(task) {
                WorkerAction::NotifyDone
            } else {
                WorkerAction::Receive
            },
            TaskPoll::Pending => match e.suspend(task) {
                Some(t) => WorkerAction::Send(t),
                None => WorkerAction::Receive,
            },
        },
    }
}

} // verus!
