//! What the operations of an executor do, call by call, and how calls follow each other.
//!
//! `call_ensures(f, arguments, result)` says that a call of `f` with these arguments can give this
//! result. Where an argument is a mutable reference `e`, `*e` is the value before the call and
//! `*final(e)` the value after it.

use crate::executor::{
    after_poll, after_receive, spawn, ExecutorInner, Task, TaskPoll, TaskState, Waker, WorkerAction,
};
use crate::schedule::{Schedule, Step};
use vstd::prelude::*;

verus! {

/// A new executor has no tasks, and has given out no id.
pub proof fn law_new_executor_is_empty(made: ExecutorInner)
    requires
        call_ensures(ExecutorInner::new, (), made),
    ensures
        forall|id: usize| !#[trigger] made@.live.dom().contains(id),
        made@.vacant.len() == 0,
        made.wf(),
{
}

/// There is room as long as the storage of the table can double.
pub proof fn law_room_for_tasks(executor: &ExecutorInner, room: bool)
    requires
        call_ensures(ExecutorInner::has_room, (executor,), room),
    ensures
        room <==> executor@.live.len() < usize::MAX / 128,
{
}

/// The state that is reported of a task is the one in the table, and there is none of a task that
/// is not in it.
pub proof fn law_state_is_reported(executor: &ExecutorInner, id: usize, state: Option<TaskState>)
    requires
        call_ensures(ExecutorInner::state, (executor, id), state),
    ensures
        state is Some <==> executor@.live.dom().contains(id),
        state is Some ==> executor@.live[id] == state->0,
{
}

/// A spawned task has the future that it was spawned for and an id that no other task has: the one
/// released last, or else the smallest one that was never given out. It is about to be executed,
/// and is not marked to run again. No other task changes.
pub proof fn law_spawned_task_is_new(executor: &mut ExecutorInner, future: usize, task: Task)
    requires
        old(executor).wf(),
        old(executor)@.live.len() < usize::MAX / 128,
        call_ensures(ExecutorInner::spawn, (executor, future), task),
    ensures
        task.future == future,
        !old(executor)@.live.dom().contains(task.id),
        final(executor)@.live == old(executor)@.live.insert(task.id, TaskState::Executing),
        old(executor)@.vacant.len() == 0 ==> {
            &&& task.id == old(executor)@.live.len()
            &&& forall|id: usize| id < task.id ==> #[trigger] old(executor)@.live.dom().contains(id)
            &&& final(executor)@.vacant.len() == 0
        },
        old(executor)@.vacant.len() > 0 ==> {
            old(executor)@.vacant == seq![task.id] + final(executor)@.vacant
        },
        final(executor).wf(),
{
    if old(executor)@.vacant.len() > 0 {
        assert(old(executor)@.vacant =~= seq![task.id] + final(executor)@.vacant);
    } else {
        assert forall|id: usize| id < task.id implies #[trigger] old(executor)@.live.dom().contains(
            id,
        ) by {
            assert(!old(executor)@.vacant.contains(id));
        }
    }
}

/// A wakeup puts a waiting task, and only a waiting one, on the ready queue, and it is executing
/// then. Any other task is marked to run again. No other task changes.
pub proof fn law_wakeup_schedules_the_task(
    executor: &mut ExecutorInner,
    id: usize,
    ready: Option<Task>,
)
    requires
        old(executor)@.live.dom().contains(id),
        call_ensures(ExecutorInner::wakeup, (executor, id), ready),
    ensures
        forall|task: Task|
            old(executor)@.live[id] == TaskState::Waiting(task) <==> ready == Some(task),
        ready is Some ==> final(executor)@.live == old(executor)@.live.insert(
            id,
            TaskState::Executing,
        ),
        ready is None ==> final(executor)@.live == old(executor)@.live.insert(
            id,
            TaskState::ScheduledAgain,
        ),
        final(executor)@.live.dom() == old(executor)@.live.dom(),
        final(executor)@.vacant == old(executor)@.vacant,
{
    assert(final(executor)@.live.dom() =~= old(executor)@.live.dom());
}

/// A pending task that was not woken during its poll waits in the table and goes on no queue. One
/// that was woken goes on the ready queue and executes, and is no longer marked. No other task
/// changes.
pub proof fn law_pending_task_waits_unless_woken(
    executor: &mut ExecutorInner,
    task: Task,
    ready: Option<Task>,
)
    requires
        old(executor)@.live.dom().contains(task.id),
        call_ensures(ExecutorInner::suspend, (executor, task), ready),
    ensures
        old(executor)@.live[task.id] is Executing ==> {
            &&& ready is None
            &&& final(executor)@.live == old(executor)@.live.insert(
                task.id,
                TaskState::Waiting(task),
            )
        },
        old(executor)@.live[task.id] is ScheduledAgain ==> {
            &&& ready == Some(task)
            &&& final(executor)@.live == old(executor)@.live.insert(task.id, TaskState::Executing)
        },
        final(executor)@.live.dom() == old(executor)@.live.dom(),
        final(executor)@.vacant == old(executor)@.vacant,
{
    assert(final(executor)@.live.dom() =~= old(executor)@.live.dom());
}

/// A completed task leaves the table, and its id is the next one to be given out. No other task
/// changes. The executor is done if, and only if, no task is left.
pub proof fn law_completed_task_is_gone(executor: &mut ExecutorInner, task: Task, done: bool)
    requires
        old(executor)@.live.dom().contains(task.id),
        call_ensures(ExecutorInner::complete, (executor, task), done),
    ensures
        final(executor)@.live == old(executor)@.live.remove(task.id),
        final(executor)@.vacant == seq![task.id] + old(executor)@.vacant,
        done <==> forall|id: usize| !#[trigger] final(executor)@.live.dom().contains(id),
{
    let left = final(executor)@.live;
    if forall|id: usize| !#[trigger] left.dom().contains(id) {
        assert(left =~= Map::<usize, TaskState>::empty());
    }
}

/// The executor is done if, and only if, it has no task.
pub proof fn law_done_without_tasks(executor: &ExecutorInner, done: bool)
    requires
        call_ensures(ExecutorInner::is_done, (executor,), done),
    ensures
        done <==> forall|id: usize| !#[trigger] executor@.live.dom().contains(id),
{
    if forall|id: usize| !#[trigger] executor@.live.dom().contains(id) {
        assert(executor@.live =~= Map::<usize, TaskState>::empty());
    }
}

/// A task that was left pending and then is woken comes back as it was: the same task goes on the
/// ready queue, and the table is what it was before.
pub proof fn law_wakeup_undoes_suspend(
    before: &mut ExecutorInner,
    task: Task,
    parked: Option<Task>,
    after: &mut ExecutorInner,
    ready: Option<Task>,
)
    requires
        old(before)@.live.dom().contains(task.id),
        old(before)@.live[task.id] is Executing,
        call_ensures(ExecutorInner::suspend, (before, task), parked),
        old(after)@ == final(before)@,
        call_ensures(ExecutorInner::wakeup, (after, task.id), ready),
    ensures
        parked is None,
        ready == Some(task),
        final(after)@ == old(before)@,
{
    assert(final(after)@.live =~= old(before)@.live);
}

/// A task that is woken during its poll and then left pending goes back on the ready queue, once,
/// however often it was woken, and the table is what it was old(before).
pub proof fn law_wakeup_during_poll_is_kept(
    first: &mut ExecutorInner,
    second: &mut ExecutorInner,
    third: &mut ExecutorInner,
    task: Task,
    woken: Option<Task>,
    again: Option<Task>,
    ready: Option<Task>,
)
    requires
        old(first)@.live.dom().contains(task.id),
        old(first)@.live[task.id] is Executing,
        call_ensures(ExecutorInner::wakeup, (first, task.id), woken),
        old(second)@ == final(first)@,
        call_ensures(ExecutorInner::wakeup, (second, task.id), again),
        old(third)@ == final(first)@ || old(third)@ == final(second)@,
        call_ensures(ExecutorInner::suspend, (third, task), ready),
    ensures
        woken is None,
        again is None,
        ready == Some(task),
        final(third)@ == old(first)@,
{
    assert(final(third)@.live =~= old(first)@.live);
}

/// The id of a task that has completed is given to the next task that is spawned, and to that one
/// alone.
pub proof fn law_released_id_is_given_out_next(
    before: &mut ExecutorInner,
    task: Task,
    done: bool,
    after: &mut ExecutorInner,
    future: usize,
    next: Task,
)
    requires
        old(before).wf(),
        old(before)@.live.dom().contains(task.id),
        call_ensures(ExecutorInner::complete, (before, task), done),
        old(after)@ == final(before)@,
        call_ensures(ExecutorInner::spawn, (after, future), next),
    ensures
        next == (Task { id: task.id, future }),
        final(after)@.live == old(before)@.live.insert(task.id, TaskState::Executing),
        final(after)@.vacant == old(before)@.vacant,
{
    assert(final(after)@.live =~= old(before)@.live.insert(task.id, TaskState::Executing));
    assert(final(after)@.vacant =~= old(before)@.vacant);
}

/// The waker of a task wakes that task, as `wakeup` does, and nothing where the executor is gone.
pub proof fn law_waker_wakes_its_task(
    id: usize,
    waker: Waker,
    executor: &mut ExecutorInner,
    ready: Option<Task>,
    gone: Option<Task>,
)
    requires
        call_ensures(ExecutorInner::get_waker, (id,), waker),
        old(executor)@.live.dom().contains(id),
        call_ensures(Waker::wake, (&waker, Some(executor)), ready),
        call_ensures(Waker::wake, (&waker, None::<&mut ExecutorInner>), gone),
    ensures
        forall|task: Task|
            old(executor)@.live[id] == TaskState::Waiting(task) <==> ready == Some(task),
        ready is Some ==> final(executor)@.live == old(executor)@.live.insert(
            id,
            TaskState::Executing,
        ),
        ready is None ==> final(executor)@.live == old(executor)@.live.insert(
            id,
            TaskState::ScheduledAgain,
        ),
        final(executor)@.vacant == old(executor)@.vacant,
        gone is None,
{
}

/// To spawn with the current executor is to spawn with that executor. Where it is gone there is no
/// task.
pub proof fn law_spawn_uses_the_current_executor(
    current: &mut ExecutorInner,
    executor: &mut ExecutorInner,
    future: usize,
    spawned: Option<Task>,
    task: Task,
    gone: Option<Task>,
)
    requires
        old(current)@ == old(executor)@,
        call_ensures(spawn, (Some(current), future), spawned),
        call_ensures(ExecutorInner::spawn, (executor, future), task),
        call_ensures(spawn, (None::<&mut ExecutorInner>, future), gone),
    ensures
        spawned == Some(task),
        final(current)@ == final(executor)@,
        gone is None,
{
}

/// A worker polls every task that it receives, and stops when, and only when, the queue was
/// closed.
pub proof fn law_received_task_is_polled(received: Option<Task>, action: WorkerAction)
    requires
        call_ensures(after_receive, (received,), action),
    ensures
        forall|task: Task| received == Some(task) <==> action == WorkerAction::Poll(task),
        received is None <==> action is Stop,
{
}

/// After a poll a worker stops if, and only if, the executor is gone.
pub proof fn law_worker_stops_with_its_executor(
    executor: &mut ExecutorInner,
    task: Task,
    poll: TaskPoll,
    action: WorkerAction,
    gone: WorkerAction,
)
    requires
        call_ensures(after_poll, (Some(executor), task, poll), action),
        call_ensures(after_poll, (None::<&mut ExecutorInner>, task, poll), gone),
    ensures
        !(action is Stop),
        !(action is Poll),
        gone is Stop,
{
}

/// After a poll that completed a task the worker takes it out of the table, and notifies everyone
/// who waits if, and only if, no task is left. It sends nothing.
pub proof fn law_worker_drops_completed_task(
    executor: &mut ExecutorInner,
    task: Task,
    action: WorkerAction,
)
    requires
        old(executor)@.live.dom().contains(task.id),
        call_ensures(after_poll, (Some(executor), task, TaskPoll::Ready), action),
    ensures
        final(executor)@.live == old(executor)@.live.remove(task.id),
        final(executor)@.vacant == seq![task.id] + old(executor)@.vacant,
        action is NotifyDone || action is Receive,
        action is NotifyDone <==> forall|id: usize|
            !#[trigger] final(executor)@.live.dom().contains(id),
{
    let left = final(executor)@.live;
    if forall|id: usize| !#[trigger] left.dom().contains(id) {
        assert(left =~= Map::<usize, TaskState>::empty());
    }
}

/// After a poll that left a task pending the worker sends it back to the queue if, and only if, it
/// was woken during the poll. Otherwise the task waits in the table, and the worker receives the
/// next one.
pub proof fn law_worker_parks_pending_task(
    executor: &mut ExecutorInner,
    task: Task,
    action: WorkerAction,
)
    requires
        old(executor)@.live.dom().contains(task.id),
        !(old(executor)@.live[task.id] is Waiting),
        call_ensures(after_poll, (Some(executor), task, TaskPoll::Pending), action),
    ensures
        old(executor)@.live[task.id] is Executing ==> {
            &&& action is Receive
            &&& final(executor)@.live == old(executor)@.live.insert(
                task.id,
                TaskState::Waiting(task),
            )
        },
        old(executor)@.live[task.id] is ScheduledAgain ==> {
            &&& action == WorkerAction::Send(task)
            &&& final(executor)@.live == old(executor)@.live.insert(task.id, TaskState::Executing)
        },
        final(executor)@.vacant == old(executor)@.vacant,
{
}

/// What each operation does to the table and sends to the queue is what the step of the schedule
/// of its name does, so that what holds of the steps holds of the operations.
pub proof fn law_operations_are_steps(
    s: Schedule,
    executor: &mut ExecutorInner,
    future: usize,
    spawned: Task,
    task: Task,
    ready: Option<Task>,
    done: bool,
)
    requires
        s.table == old(executor)@,
    ensures
        call_ensures(ExecutorInner::spawn, (executor, future), spawned) ==> {
            let t = s.after(Step::Spawn(future));
            &&& t.table == final(executor)@
            &&& t.ready == s.ready.push(spawned)
            &&& t.spawned == s.spawned.insert(spawned.id, spawned)
            &&& t.running == s.running
        },
        call_ensures(ExecutorInner::wakeup, (executor, task.id), ready) ==> {
            let t = s.after(Step::Wake(task.id));
            &&& t.table == final(executor)@
            &&& t.ready == (if ready is Some {
                s.ready.push(ready->0)
            } else {
                s.ready
            })
            &&& t.spawned == s.spawned
            &&& t.running == s.running
        },
        call_ensures(ExecutorInner::suspend, (executor, task), ready) ==> {
            let t = s.after(Step::Suspend(task));
            &&& t.table == final(executor)@
            &&& t.ready == (if ready is Some {
                s.ready.push(ready->0)
            } else {
                s.ready
            })
            &&& t.spawned == s.spawned
            &&& t.running == s.running.remove(task)
        },
        call_ensures(ExecutorInner::complete, (executor, task), done) ==> {
            let t = s.after(Step::Complete(task));
            &&& t.table == final(executor)@
            &&& t.ready == s.ready
            &&& t.spawned == s.spawned.remove(task.id)
            &&& t.running == s.running.remove(task)
        },
{
}

/// An executor is well formed if its table is and every waiting task is kept under its own id.
pub proof fn law_well_formed_executor(executor: &ExecutorInner)
    ensures
        executor.wf() <==> {
            &&& executor@.wf()
            &&& forall|id: usize| #[trigger]
                executor@.live.dom().contains(id) && executor@.live[id] is Waiting
                    ==> executor@.live[id]->Waiting_0.id == id
        },
{
    if executor@.wf() && forall|id: usize| #[trigger]
        executor@.live.dom().contains(id) && executor@.live[id] is Waiting
            ==> executor@.live[id]->Waiting_0.id == id {
        assert forall|id: usize| #[trigger] executor@.contains(id) implies (
        executor@.live[id] matches TaskState::Waiting(task) ==> task.id == id) by {
            assert(executor@.live.dom().contains(id));
        }
    }
    if executor.wf() {
        assert forall|id: usize| #[trigger]
            executor@.live.dom().contains(id) && executor@.live[id] is Waiting
            implies executor@.live[id]->Waiting_0.id == id by {
            assert(executor@.contains(id));
        }
    }
}

/// Every well formed executor can spawn a task, as long as there is room, can wake and complete
/// every task that it has, and can suspend every one that does not wait. Nothing is asked where
/// the executor is gone.
pub proof fn law_every_known_task_is_accepted(
    executor: &mut ExecutorInner,
    task: Task,
    future: usize,
    poll: TaskPoll,
)
    requires
        old(executor).wf(),
    ensures
        old(executor)@.live.len() < usize::MAX / 128 ==> {
            &&& call_requires(ExecutorInner::spawn, (executor, future))
            &&& call_requires(spawn, (Some(executor), future))
        },
        old(executor)@.live.dom().contains(task.id) ==> {
            &&& call_requires(ExecutorInner::wakeup, (executor, task.id))
            &&& call_requires(Waker::wake, (&Waker { task_id: task.id }, Some(executor)))
            &&& call_requires(ExecutorInner::complete, (executor, task))
            &&& call_requires(after_poll, (Some(executor), task, TaskPoll::Ready))
            &&& old(executor)@.live[task.id] is Waiting || {
                &&& call_requires(ExecutorInner::suspend, (executor, task))
                &&& call_requires(after_poll, (Some(executor), task, TaskPoll::Pending))
            }
        },
        call_requires(spawn, (None::<&mut ExecutorInner>, future)),
        call_requires(
            Waker::wake,
            (&Waker { task_id: task.id }, None::<&mut ExecutorInner>),
        ),
        call_requires(after_poll, (None::<&mut ExecutorInner>, task, poll)),
{
}

/// Every operation keeps an executor well formed.
pub proof fn law_operations_keep_executor_well_formed(
    executor: &mut ExecutorInner,
    task: Task,
    ready: Option<Task>,
    done: bool,
    poll: TaskPoll,
    action: WorkerAction,
)
    requires
        call_ensures(ExecutorInner::wakeup, (executor, task.id), ready) || call_ensures(
            ExecutorInner::suspend,
            (executor, task),
            ready,
        ) || call_ensures(ExecutorInner::complete, (executor, task), done) || call_ensures(
            Waker::wake,
            (&Waker { task_id: task.id }, Some(executor)),
            ready,
        ) || call_ensures(spawn, (Some(executor), task.future), ready) || call_ensures(
            after_poll,
            (Some(executor), task, poll),
            action,
        ),
    ensures
        final(executor).wf(),
{
}

} // verus!
