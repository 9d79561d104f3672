//! What holds of an executor as a whole: its table, its ready queue and its workers together.
//!
//! Each step that changes any of the three is described with the functions that the contracts of
//! `executor` use, and an invariant is shown to hold after every sequence of such steps.

use crate::executor::{
    lemma_table_insert, lemma_table_remove, lemma_table_update, in_flight, parked, released,
    requeued, table_wf, woken, Task, TaskState,
};
use crate::slots::Slots;
use vstd::prelude::*;

verus! {

/// An executor, its ready queue and its workers at one moment.
#[verifier::ext_equal]
pub struct Schedule {
    /// The table of tasks.
    pub table: Slots<TaskState>,
    /// The ready queue, the next task first.
    pub ready: Seq<Task>,
    /// The tasks that workers have received and not yet handed back.
    pub running: Set<Task>,
    /// Each task that has not completed, as it was spawned, under its id.
    pub spawned: Map<usize, Task>,
}

/// What can happen to an executor.
pub enum Step {
    /// A task is spawned for the future with this number.
    Spawn(usize),
    /// The task with this id is woken.
    Wake(usize),
    /// A worker receives a task.
    Receive,
    /// A worker has polled the task, which is pending.
    Suspend(Task),
    /// A worker has polled the task, which has completed.
    Complete(Task),
}

/// The queue with `task` added, if there is one.
pub open spec fn queued(ready: Seq<Task>, task: Option<Task>) -> Seq<Task> {
    match task {
        Some(t) => ready.push(t),
        None => ready,
    }
}

/// How often a worker receives a task in `steps`.
pub open spec fn receives(steps: Seq<Step>) -> nat
    decreases steps.len(),
{
    if steps.len() == 0 {
        0
    } else {
        receives(steps.drop_last()) + if steps.last() is Receive {
            1nat
        } else {
            0nat
        }
    }
}

impl Schedule {
    /// Nothing spawned yet.
    pub open spec fn start() -> Schedule {
        Schedule {
            table: Slots::empty(),
            ready: Seq::empty(),
            running: Set::empty(),
            spawned: Map::empty(),
        }
    }

    /// Whether `step` can happen now.
    pub open spec fn enabled(self, step: Step) -> bool {
        match step {
            Step::Spawn(_) => self.table.has_room(),
            Step::Wake(id) => self.table.contains(id),
            Step::Receive => self.ready.len() > 0,
            Step::Suspend(task) => self.running.contains(task),
            Step::Complete(task) => self.running.contains(task),
        }
    }

    /// What `step` makes of this.
    pub open spec fn after(self, step: Step) -> Schedule {
        match step {
            Step::Spawn(future) => {
                let task = Task { id: self.table.next_key(), future };
                Schedule {
                    table: self.table.insert(TaskState::Executing),
                    ready: self.ready.push(task),
                    running: self.running,
                    spawned: self.spawned.insert(task.id, task),
                }
            },
            Step::Wake(id) => Schedule {
                table: self.table.update(id, woken(self.table.live[id])),
                ready: queued(self.ready, released(self.table.live[id])),
                running: self.running,
                spawned: self.spawned,
            },
            Step::Receive => Schedule {
                table: self.table,
                ready: self.ready.skip(1),
                running: self.running.insert(self.ready[0]),
                spawned: self.spawned,
            },
            Step::Suspend(task) => Schedule {
                table: self.table.update(task.id, parked(self.table.live[task.id], task)),
                ready: queued(self.ready, requeued(self.table.live[task.id], task)),
                running: self.running.remove(task),
                spawned: self.spawned,
            },
            Step::Complete(task) => Schedule {
                table: self.table.remove(task.id),
                ready: self.ready,
                running: self.running.remove(task),
                spawned: self.spawned.remove(task.id),
            },
        }
    }

    /// Whether `steps` can happen one after the other.
    pub open spec fn enabled_all(self, steps: Seq<Step>) -> bool
        decreases steps.len(),
    {
        steps.len() == 0 || {
            &&& self.enabled_all(steps.drop_last())
            &&& self.after_all(steps.drop_last()).enabled(steps.last())
        }
    }

    /// What `steps` make of this, one after the other.
    pub open spec fn after_all(self, steps: Seq<Step>) -> Schedule
        decreases steps.len(),
    {
        if steps.len() == 0 {
            self
        } else {
            self.after_all(steps.drop_last()).after(steps.last())
        }
    }

    /// The task with this id is in the ready queue.
    pub open spec fn is_ready(self, id: usize) -> bool {
        exists|i: int| 0 <= i < self.ready.len() && (#[trigger] self.ready[i]).id == id
    }

    /// A worker has the task with this id.
    pub open spec fn is_running(self, id: usize) -> bool {
        exists|task: Task| #[trigger] self.running.contains(task) && task.id == id
    }

    /// The task with this id waits in the table.
    pub open spec fn is_waiting(self, id: usize) -> bool {
        self.table.contains(id) && self.table.live[id] is Waiting
    }

    /// The task with this id is to be polled, even if a worker polls it now: it is in the ready
    /// queue, or on a worker and marked to run again.
    pub open spec fn is_owed(self, id: usize) -> bool {
        self.is_ready(id) || self.is_running(id) && self.table.live[id] is ScheduledAgain
    }

    /// With one of `steps` a worker receives the task with this id, and so begins to poll it.
    pub open spec fn begins_poll(self, steps: Seq<Step>, id: usize) -> bool
        decreases steps.len(),
    {
        steps.len() > 0 && {
            ||| self.begins_poll(steps.drop_last(), id)
            ||| steps.last() is Receive && self.after_all(steps.drop_last()).ready[0].id == id
        }
    }

    /// Every task that has not completed is in exactly one place, as it was spawned: it waits in
    /// the table, or it is once in the ready queue, or it is on one worker.
    pub open spec fn inv(self) -> bool {
        &&& table_wf(self.table)
        &&& self.spawned.dom() == self.table.live.dom()
        &&& forall|k: usize| #[trigger] self.table.contains(k) ==> self.spawned[k].id == k
        &&& forall|k: usize| #[trigger]
            self.table.contains(k) ==> match self.table.live[k] {
                TaskState::Waiting(task) => task == self.spawned[k],
                _ => self.is_ready(k) || self.is_running(k),
            }
        &&& forall|i: int| #![trigger self.ready[i]]
            0 <= i < self.ready.len() ==> {
                &&& in_flight(self.table, self.ready[i])
                &&& self.ready[i] == self.spawned[self.ready[i].id]
                &&& !self.is_running(self.ready[i].id)
            }
        &&& forall|i: int, j: int| #![trigger self.ready[i], self.ready[j]]
            0 <= i < j < self.ready.len() ==> self.ready[i].id != self.ready[j].id
        &&& forall|task: Task| #[trigger]
            self.running.contains(task) ==> {
                &&& in_flight(self.table, task)
                &&& task == self.spawned[task.id]
            }
    }
}

/// The schedule of a new executor satisfies the invariant.
pub proof fn law_start()
    ensures
        Schedule::start().inv(),
{
    let s = Schedule::start();
    assert(s.spawned.dom() =~= s.table.live.dom());
    assert forall|k: usize| !s.table.contains(k) && !s.table.vacant.contains(k) by {}
}

/// Every step keeps the invariant.
pub proof fn law_step(s: Schedule, step: Step)
    requires
        s.inv(),
        s.enabled(step),
    ensures
        s.after(step).inv(),
{
    match step {
        Step::Spawn(future) => lemma_spawn(s, future),
        Step::Wake(id) => lemma_wake(s, id),
        Step::Receive => lemma_receive(s),
        Step::Suspend(task) => lemma_suspend(s, task),
        Step::Complete(task) => lemma_complete(s, task),
    }
}

proof fn lemma_spawn(s: Schedule, future: usize)
    requires
        s.inv(),
        s.enabled(Step::Spawn(future)),
    ensures
        s.after(Step::Spawn(future)).inv(),
{
    let t = s.after(Step::Spawn(future));
    let id = s.table.next_key();
    lemma_table_insert(s.table);
    assert(t.spawned.dom() =~= t.table.live.dom());
    assert(t.ready[s.ready.len() as int].id == id);
    assert forall|k: usize| s.is_ready(k) implies t.is_ready(k) by {
        let i = choose|i: int| 0 <= i < s.ready.len() && (#[trigger] s.ready[i]).id == k;
        assert(t.ready[i].id == k);
    }
    assert forall|k: usize| #[trigger] t.table.contains(k) implies (match t.table.live[k] {
        TaskState::Waiting(task) => task == t.spawned[k],
        _ => t.is_ready(k) || t.is_running(k),
    }) && t.spawned[k].id == k by {
        if k != id {
            assert(s.table.contains(k));
            if s.is_running(k) {
                let u = choose|u: Task| #[trigger] s.running.contains(u) && u.id == k;
                assert(t.running.contains(u));
            }
        }
    }
    assert forall|i: int| #![trigger t.ready[i]] 0 <= i < t.ready.len() implies {
        &&& in_flight(t.table, t.ready[i])
        &&& t.ready[i] == t.spawned[t.ready[i].id]
        &&& !t.is_running(t.ready[i].id)
    } by {
        if i < s.ready.len() {
            assert(t.ready[i] == s.ready[i]);
        }
    }
}

proof fn lemma_wake(s: Schedule, id: usize)
    requires
        s.inv(),
        s.enabled(Step::Wake(id)),
    ensures
        s.after(Step::Wake(id)).inv(),
{
    let t = s.after(Step::Wake(id));
    lemma_table_update(s.table, id, woken(s.table.live[id]));
    assert forall|k: usize| s.is_ready(k) implies t.is_ready(k) by {
        let i = choose|i: int| 0 <= i < s.ready.len() && (#[trigger] s.ready[i]).id == k;
        assert(t.ready[i].id == k);
    }
    if s.table.live[id] is Waiting {
        assert(t.ready[s.ready.len() as int].id == id);
        assert(t.ready[s.ready.len() as int] == s.spawned[id]);
        assert(!s.is_running(id));
    }
    assert forall|k: usize| #[trigger] t.table.contains(k) implies (match t.table.live[k] {
        TaskState::Waiting(task) => task == t.spawned[k],
        _ => t.is_ready(k) || t.is_running(k),
    }) && t.spawned[k].id == k by {
        assert(s.table.contains(k));
        if s.is_running(k) {
            let u = choose|u: Task| #[trigger] s.running.contains(u) && u.id == k;
            assert(t.running.contains(u));
        }
    }
    assert forall|i: int| #![trigger t.ready[i]] 0 <= i < t.ready.len() implies {
        &&& in_flight(t.table, t.ready[i])
        &&& t.ready[i] == t.spawned[t.ready[i].id]
        &&& !t.is_running(t.ready[i].id)
    } by {
        if i < s.ready.len() {
            assert(t.ready[i] == s.ready[i]);
        }
    }
}

proof fn lemma_receive(s: Schedule)
    requires
        s.inv(),
        s.enabled(Step::Receive),
    ensures
        s.after(Step::Receive).inv(),
{
    let t = s.after(Step::Receive);
    let first = s.ready[0];
    assert(t.running.contains(first));
    assert forall|k: usize| #[trigger] t.table.contains(k) implies (match t.table.live[k] {
        TaskState::Waiting(task) => task == t.spawned[k],
        _ => t.is_ready(k) || t.is_running(k),
    }) by {
        assert(s.table.contains(k));
        if s.is_ready(k) && k != first.id {
            let i = choose|i: int| 0 <= i < s.ready.len() && (#[trigger] s.ready[i]).id == k;
            assert(t.ready[i - 1].id == k);
        }
        if s.is_running(k) {
            let task = choose|task: Task| #[trigger] s.running.contains(task) && task.id == k;
            assert(t.running.contains(task));
        }
    }
    assert forall|i: int| #![trigger t.ready[i]] 0 <= i < t.ready.len() implies {
        &&& in_flight(t.table, t.ready[i])
        &&& t.ready[i] == t.spawned[t.ready[i].id]
        &&& !t.is_running(t.ready[i].id)
    } by {
        assert(t.ready[i] == s.ready[i + 1]);
        if t.is_running(t.ready[i].id) {
            let task = choose|task: Task| #[trigger]
                t.running.contains(task) && task.id == t.ready[i].id;
            assert(s.running.contains(task) || task == first);
        }
    }
}

proof fn lemma_suspend(s: Schedule, task: Task)
    requires
        s.inv(),
        s.enabled(Step::Suspend(task)),
    ensures
        s.after(Step::Suspend(task)).inv(),
{
    let t = s.after(Step::Suspend(task));
    lemma_table_update(s.table, task.id, parked(s.table.live[task.id], task));
    assert(s.is_running(task.id));
    assert forall|k: usize| s.is_ready(k) implies t.is_ready(k) by {
        let i = choose|i: int| 0 <= i < s.ready.len() && (#[trigger] s.ready[i]).id == k;
        assert(t.ready[i].id == k);
    }
    assert forall|k: usize| t.is_running(k) implies s.is_running(k) && k != task.id by {
        let u = choose|u: Task| #[trigger] t.running.contains(u) && u.id == k;
        assert(s.running.contains(u));
    }
    if s.table.live[task.id] is ScheduledAgain {
        assert(t.ready[s.ready.len() as int] == task);
    }
    assert forall|k: usize| #[trigger] t.table.contains(k) implies (match t.table.live[k] {
        TaskState::Waiting(u) => u == t.spawned[k],
        _ => t.is_ready(k) || t.is_running(k),
    }) && t.spawned[k].id == k by {
        assert(s.table.contains(k));
        if k != task.id && s.is_running(k) {
            let u = choose|u: Task| #[trigger] s.running.contains(u) && u.id == k;
            assert(t.running.contains(u));
        }
    }
    assert forall|i: int| #![trigger t.ready[i]] 0 <= i < t.ready.len() implies {
        &&& in_flight(t.table, t.ready[i])
        &&& t.ready[i] == t.spawned[t.ready[i].id]
        &&& !t.is_running(t.ready[i].id)
    } by {
        if i < s.ready.len() {
            assert(t.ready[i] == s.ready[i]);
        }
    }
    assert forall|u: Task| #[trigger] t.running.contains(u) implies {
        &&& in_flight(t.table, u)
        &&& u == t.spawned[u.id]
    } by {
        assert(s.running.contains(u));
        assert(t.is_running(u.id));
    }
}

proof fn lemma_complete(s: Schedule, task: Task)
    requires
        s.inv(),
        s.enabled(Step::Complete(task)),
    ensures
        s.after(Step::Complete(task)).inv(),
{
    let t = s.after(Step::Complete(task));
    lemma_table_remove(s.table, task.id);
    assert(t.spawned.dom() =~= t.table.live.dom());
    assert(s.is_running(task.id));
    assert forall|k: usize| t.is_running(k) implies s.is_running(k) && k != task.id by {
        let u = choose|u: Task| #[trigger] t.running.contains(u) && u.id == k;
        assert(s.running.contains(u));
    }
    assert forall|k: usize| #[trigger] t.table.contains(k) implies (match t.table.live[k] {
        TaskState::Waiting(u) => u == t.spawned[k],
        _ => t.is_ready(k) || t.is_running(k),
    }) && t.spawned[k].id == k by {
        assert(s.table.contains(k));
        if s.is_ready(k) {
            let i = choose|i: int| 0 <= i < s.ready.len() && (#[trigger] s.ready[i]).id == k;
            assert(t.ready[i].id == k);
        }
        if s.is_running(k) {
            let u = choose|u: Task| #[trigger] s.running.contains(u) && u.id == k;
            assert(t.running.contains(u));
        }
    }
    assert forall|i: int| #![trigger t.ready[i]] 0 <= i < t.ready.len() implies {
        &&& in_flight(t.table, t.ready[i])
        &&& t.ready[i] == t.spawned[t.ready[i].id]
        &&& !t.is_running(t.ready[i].id)
    } by {
        assert(t.ready[i] == s.ready[i]);
    }
    assert forall|u: Task| #[trigger] t.running.contains(u) implies {
        &&& in_flight(t.table, u)
        &&& u == t.spawned[u.id]
    } by {
        assert(s.running.contains(u));
        assert(t.is_running(u.id));
    }
}

/// Whatever steps happen, they keep the invariant.
pub proof fn law_steps(s: Schedule, steps: Seq<Step>)
    requires
        s.inv(),
        s.enabled_all(steps),
    ensures
        s.after_all(steps).inv(),
    decreases steps.len(),
{
    if steps.len() > 0 {
        law_steps(s, steps.drop_last());
        law_step(s.after_all(steps.drop_last()), steps.last());
    }
}

/// Whatever happens to a new executor, the invariant holds.
pub proof fn law_always(steps: Seq<Step>)
    requires
        Schedule::start().enabled_all(steps),
    ensures
        Schedule::start().after_all(steps).inv(),
{
    law_start();
    law_steps(Schedule::start(), steps);
}

/// A task that has not completed is in exactly one of three places: waiting in the table, in the
/// ready queue, or on a worker. There are no tasks in the queue or on a worker but these.
pub proof fn law_one_place(s: Schedule, id: usize)
    requires
        s.inv(),
    ensures
        s.table.contains(id) <==> s.is_waiting(id) || s.is_ready(id) || s.is_running(id),
        !(s.is_waiting(id) && s.is_ready(id)),
        !(s.is_waiting(id) && s.is_running(id)),
        !(s.is_ready(id) && s.is_running(id)),
{
    if s.is_ready(id) {
        let i = choose|i: int| 0 <= i < s.ready.len() && (#[trigger] s.ready[i]).id == id;
        assert(in_flight(s.table, s.ready[i]));
    }
    if s.is_running(id) {
        let task = choose|task: Task| #[trigger] s.running.contains(task) && task.id == id;
        assert(in_flight(s.table, task));
    }
}

/// A task is never twice in the ready queue, and never on two workers.
pub proof fn law_no_second_copy(s: Schedule)
    requires
        s.inv(),
    ensures
        forall|i: int, j: int| #![trigger s.ready[i], s.ready[j]]
            0 <= i < j < s.ready.len() ==> s.ready[i].id != s.ready[j].id,
        forall|t: Task, u: Task| #[trigger]
            s.running.contains(t) && #[trigger] s.running.contains(u) && t.id == u.id ==> t == u,
{
}

/// A task that a worker has polled is in the table and does not wait there, so that it can be
/// completed or suspended.
pub proof fn law_polled_task_is_known(s: Schedule, task: Task)
    requires
        s.inv(),
        s.running.contains(task),
    ensures
        in_flight(s.table, task),
{
}

/// A wakeup is not lost: after it the task is in the ready queue, or on a worker and marked to run
/// again.
pub proof fn law_wakeup_is_not_lost(s: Schedule, id: usize)
    requires
        s.inv(),
        s.enabled(Step::Wake(id)),
    ensures
        ({
            let t = s.after(Step::Wake(id));
            t.is_ready(id) || t.is_running(id) && t.table.live[id] is ScheduledAgain
        }),
{
    let t = s.after(Step::Wake(id));
    law_step(s, Step::Wake(id));
    assert(t.table.contains(id));
    if s.table.live[id] is Waiting {
        assert(t.ready[s.ready.len() as int].id == id);
    }
}

/// A task that is marked to run again stays marked until its poll is over, and then goes to the
/// end of the ready queue if it has not completed.
pub proof fn law_marked_task_runs_again(s: Schedule, step: Step, task: Task)
    requires
        s.inv(),
        s.enabled(step),
        s.running.contains(task),
        s.table.live[task.id] is ScheduledAgain,
    ensures
        step == Step::Suspend(task) ==> s.after(step).ready == s.ready.push(task),
        step != Step::Suspend(task) && step != Step::Complete(task) ==> {
            &&& s.after(step).running.contains(task)
            &&& s.after(step).table.live[task.id] is ScheduledAgain
        },
{
    match step {
        Step::Spawn(_) => lemma_table_insert(s.table),
        _ => {},
    }
}

/// A task waits until it is woken: nothing else moves it, or changes its state.
pub proof fn law_waits_until_woken(s: Schedule, step: Step, id: usize)
    requires
        s.inv(),
        s.enabled(step),
        s.is_waiting(id),
        step != Step::Wake(id),
    ensures
        s.after(step).is_waiting(id),
        s.after(step).table.live[id] == s.table.live[id],
{
    match step {
        Step::Spawn(_) => lemma_table_insert(s.table),
        _ => {},
    }
}

/// A task that was not woken during its poll and is left pending waits then, and the ready queue
/// is what it was. One that was woken goes to the end of the queue, and does not wait.
pub proof fn law_pending_task_waits(s: Schedule, task: Task)
    requires
        s.inv(),
        s.running.contains(task),
    ensures
        ({
            let t = s.after(Step::Suspend(task));
            &&& !t.running.contains(task)
            &&& s.table.live[task.id] is Executing ==> {
                &&& t.ready == s.ready
                &&& t.is_waiting(task.id)
                &&& t.table.live[task.id] == TaskState::Waiting(task)
            }
            &&& s.table.live[task.id] is ScheduledAgain ==> {
                &&& t.ready == s.ready.push(task)
                &&& !t.is_waiting(task.id)
            }
        }),
{
}

/// Between two polls of a pending task there is a wakeup of it: a task that was not woken during
/// its poll and is left pending is not polled again by steps that do not wake it.
pub proof fn law_wakeup_between_two_polls(s: Schedule, task: Task, steps: Seq<Step>)
    requires
        s.inv(),
        s.running.contains(task),
        s.table.live[task.id] is Executing,
        s.after(Step::Suspend(task)).enabled_all(steps),
        s.after(Step::Suspend(task)).begins_poll(steps, task.id),
    ensures
        steps.contains(Step::Wake(task.id)),
{
    law_step(s, Step::Suspend(task));
    law_pending_task_waits(s, task);
    if !steps.contains(Step::Wake(task.id)) {
        law_no_poll_without_wakeup(s.after(Step::Suspend(task)), steps, task.id);
    }
}

/// A task is marked to run again by a wakeup alone, and a step changes the state of no other task
/// than the one that it is about.
pub proof fn law_step_is_about_one_task(s: Schedule, step: Step, id: usize)
    requires
        s.inv(),
        s.enabled(step),
        s.table.contains(id),
        step != Step::Wake(id),
        step != Step::Suspend(s.spawned[id]),
        step != Step::Complete(s.spawned[id]),
    ensures
        s.after(step).table.contains(id),
        s.after(step).table.live[id] == s.table.live[id],
{
    match step {
        Step::Spawn(_) => lemma_table_insert(s.table),
        Step::Suspend(task) => {
            assert(task == s.spawned[task.id]);
        },
        Step::Complete(task) => {
            assert(task == s.spawned[task.id]);
        },
        _ => {},
    }
}

/// A waiting task that nobody wakes is not polled, whatever else happens: it still waits.
pub proof fn law_no_poll_without_wakeup(s: Schedule, steps: Seq<Step>, id: usize)
    requires
        s.inv(),
        s.enabled_all(steps),
        s.is_waiting(id),
        !steps.contains(Step::Wake(id)),
    ensures
        !s.begins_poll(steps, id),
        s.after_all(steps).is_waiting(id),
        s.after_all(steps).table.live[id] == s.table.live[id],
    decreases steps.len(),
{
    if steps.len() > 0 {
        let init = steps.drop_last();
        let t = s.after_all(init);
        assert forall|i: int| 0 <= i < init.len() implies init[i] != Step::Wake(id) by {
            assert(steps.contains(steps[i]));
        }
        assert(steps.contains(steps[steps.len() - 1]));
        law_no_poll_without_wakeup(s, init, id);
        law_steps(s, init);
        law_waits_until_woken(t, steps.last(), id);
        if steps.last() is Receive {
            assert(in_flight(t.table, t.ready[0]));
        }
    }
}

/// A task that is to be polled stays so until a poll of it begins or the poll in progress
/// completes it.
pub proof fn law_owed_poll_is_not_forgotten(s: Schedule, steps: Seq<Step>, id: usize)
    requires
        s.inv(),
        s.enabled_all(steps),
        s.is_owed(id),
        !s.begins_poll(steps, id),
        !steps.contains(Step::Complete(s.spawned[id])),
    ensures
        s.after_all(steps).is_owed(id),
        s.after_all(steps).spawned[id] == s.spawned[id],
    decreases steps.len(),
{
    if steps.len() > 0 {
        let init = steps.drop_last();
        let t = s.after_all(init);
        let u = s.after_all(steps);
        let done = Step::Complete(s.spawned[id]);
        assert forall|i: int| 0 <= i < init.len() implies init[i] != done by {
            assert(steps.contains(steps[i]));
        }
        assert(steps.contains(steps[steps.len() - 1]));
        law_owed_poll_is_not_forgotten(s, init, id);
        law_steps(s, init);
        law_one_place(t, id);
        law_task_stays(t, steps.last(), id);
        if t.is_ready(id) {
            let i = choose|i: int| 0 <= i < t.ready.len() && (#[trigger] t.ready[i]).id == id;
            if steps.last() is Receive {
                assert(u.ready[i - 1].id == id);
            } else {
                assert(u.ready[i].id == id);
            }
        } else {
            let task = choose|task: Task| #[trigger] t.running.contains(task) && task.id == id;
            assert(task == s.spawned[id]);
            law_marked_task_runs_again(t, steps.last(), task);
            if steps.last() == Step::Suspend(task) {
                assert(u.ready[t.ready.len() as int].id == id);
            } else {
                assert(u.running.contains(task));
            }
        }
    }
}

/// No wakeup is lost, whatever follows it: until a poll of the task begins, or the poll in
/// progress at the wakeup completes the task, the task is to be polled. Where the queue is empty
/// and no worker has a task, nothing is to be polled, so that one of the two has happened.
pub proof fn law_woken_task_is_polled(s: Schedule, id: usize, steps: Seq<Step>)
    requires
        s.inv(),
        s.enabled(Step::Wake(id)),
        s.after(Step::Wake(id)).enabled_all(steps),
    ensures
        ({
            let woken = s.after(Step::Wake(id));
            let end = woken.after_all(steps);
            &&& woken.begins_poll(steps, id) || end.is_owed(id) || s.is_running(id)
                && steps.contains(Step::Complete(s.spawned[id]))
            &&& end.ready.len() == 0 && end.running == Set::<Task>::empty() ==> !end.is_owed(id)
        }),
{
    let woken = s.after(Step::Wake(id));
    law_wakeup_is_not_lost(s, id);
    law_step(s, Step::Wake(id));
    if !woken.begins_poll(steps, id) {
        if steps.contains(Step::Complete(s.spawned[id])) {
            lemma_completed_task_was_running(woken, steps, id);
        } else {
            law_owed_poll_is_not_forgotten(woken, steps, id);
        }
    }
}

/// A task that completes without a poll of it beginning was on a worker before.
proof fn lemma_completed_task_was_running(s: Schedule, steps: Seq<Step>, id: usize)
    requires
        s.inv(),
        s.enabled_all(steps),
        s.table.contains(id),
        !s.begins_poll(steps, id),
        steps.contains(Step::Complete(s.spawned[id])),
    ensures
        s.is_running(id),
    decreases steps.len(),
{
    let init = steps.drop_last();
    let done = Step::Complete(s.spawned[id]);
    if init.contains(done) {
        lemma_completed_task_was_running(s, init, id);
    } else {
        let k = choose|k: int| 0 <= k < steps.len() && steps[k] == done;
        assert(k < init.len() ==> init[k] == done);
        assert(s.after_all(init).running.contains(s.spawned[id]));
        lemma_running_task_was_running(s, init, s.spawned[id]);
        assert(s.running.contains(s.spawned[id]));
    }
}

/// A task that is on a worker without a poll of it beginning was there before.
proof fn lemma_running_task_was_running(s: Schedule, steps: Seq<Step>, task: Task)
    requires
        s.enabled_all(steps),
        !s.begins_poll(steps, task.id),
        s.after_all(steps).running.contains(task),
    ensures
        s.running.contains(task),
    decreases steps.len(),
{
    if steps.len() > 0 {
        lemma_running_task_was_running(s, steps.drop_last(), task);
    }
}

/// Every task in the ready queue gets its turn: the task behind `i` others is received with the
/// receive that follows `i` others, and until that one it moves forward by one with each receive.
pub proof fn law_every_ready_task_gets_its_turn(s: Schedule, steps: Seq<Step>, i: nat)
    requires
        s.inv(),
        s.enabled_all(steps),
        i < s.ready.len(),
    ensures
        receives(steps) > i ==> s.begins_poll(steps, s.ready[i as int].id),
        receives(steps) <= i ==> {
            let t = s.after_all(steps);
            &&& i - receives(steps) < t.ready.len()
            &&& t.ready[i - receives(steps)] == s.ready[i as int]
        },
    decreases steps.len(),
{
    if steps.len() > 0 {
        law_every_ready_task_gets_its_turn(s, steps.drop_last(), i);
    }
}

/// Once a task is in the ready queue or on a worker, waking it puts nothing more on the queue.
pub proof fn law_wakeups_coalesce(s: Schedule, id: usize)
    requires
        s.inv(),
        s.is_ready(id) || s.is_running(id),
    ensures
        s.enabled(Step::Wake(id)),
        s.after(Step::Wake(id)).ready == s.ready,
        s.after(Step::Wake(id)).table.live[id] is ScheduledAgain,
{
    law_one_place(s, id);
}

/// A task stays until it completes: no other step takes it out of the table, or gives its id to
/// another task.
pub proof fn law_task_stays(s: Schedule, step: Step, id: usize)
    requires
        s.inv(),
        s.enabled(step),
        s.table.contains(id),
        step != Step::Complete(s.spawned[id]),
    ensures
        s.after(step).table.contains(id),
        s.after(step).spawned[id] == s.spawned[id],
{
    match step {
        Step::Spawn(_) => lemma_table_insert(s.table),
        Step::Complete(task) => {
            assert(task == s.spawned[task.id]);
        },
        _ => {},
    }
}

/// The executor is done when, and only when, no task waits, none is in the ready queue and none is
/// on a worker.
pub proof fn law_done(s: Schedule)
    requires
        s.inv(),
    ensures
        s.table.live == Map::<usize, TaskState>::empty() <==> {
            &&& forall|id: usize| !s.is_waiting(id)
            &&& s.ready.len() == 0
            &&& s.running == Set::<Task>::empty()
        },
{
    if s.table.live == Map::<usize, TaskState>::empty() {
        if s.ready.len() > 0 {
            assert(in_flight(s.table, s.ready[0]));
        }
        assert(s.running =~= Set::<Task>::empty());
    }
    if s.ready.len() == 0 && s.running == Set::<Task>::empty() && forall|id: usize|
        !s.is_waiting(id) {
        assert forall|id: usize| !s.table.live.dom().contains(id) by {
            law_one_place(s, id);
        }
        assert(s.table.live =~= Map::<usize, TaskState>::empty());
    }
}

/// Tasks are received in the order in which they became ready: a worker receives the first one,
/// and nothing else happens to those in the queue but that others are added behind them.
pub proof fn law_queue_keeps_its_order(s: Schedule, step: Step)
    requires
        s.inv(),
        s.enabled(step),
    ensures
        step is Receive ==> {
            &&& s.after(step).running.contains(s.ready[0])
            &&& s.ready == seq![s.ready[0]] + s.after(step).ready
        },
        !(step is Receive) ==> s.ready.is_prefix_of(s.after(step).ready),
{
    if step is Receive {
        assert(s.ready =~= seq![s.ready[0]] + s.after(step).ready);
    } else {
        assert(s.ready =~= s.after(step).ready.take(s.ready.len() as int));
    }
}

/// Where the ready queue is empty and no worker has a task, every task waits to be woken.
pub proof fn law_idle(s: Schedule, id: usize)
    requires
        s.inv(),
        s.ready.len() == 0,
        s.running == Set::<Task>::empty(),
        s.table.contains(id),
    ensures
        s.table.live[id] == TaskState::Waiting(s.spawned[id]),
{
}

} // verus!
