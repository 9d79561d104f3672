use minitokio::executor::{
    after_poll, after_receive, ExecutorInner, Task, TaskPoll, TaskState, Waker, WorkerAction,
};
use minitokio::spawn;
use std::collections::VecDeque;

fn task(id: usize, future: usize) -> Task {
    Task { id, future }
}

#[test]
fn ids_start_at_zero_and_count_up() {
    let mut executor = ExecutorInner::new();
    assert!(executor.is_done());
    assert_eq!(executor.spawn(70), task(0, 70));
    assert_eq!(executor.spawn(80), task(1, 80));
    assert_eq!(executor.spawn(90), task(2, 90));
    assert_eq!(executor.state(0), Some(TaskState::Executing));
    assert_eq!(executor.state(3), None);
    assert!(!executor.is_done());
    assert!(executor.has_room());
}

#[test]
fn id_released_last_is_given_out_first() {
    let mut executor = ExecutorInner::new();
    for future in 0..4 {
        executor.spawn(future);
    }
    assert!(!executor.complete(task(1, 1)));
    assert!(!executor.complete(task(3, 3)));
    assert_eq!(executor.state(1), None);
    assert_eq!(executor.spawn(10), task(3, 10));
    assert_eq!(executor.spawn(11), task(1, 11));
    assert_eq!(executor.spawn(12), task(4, 12));
}

#[test]
fn waiting_task_is_woken_once() {
    let mut executor = ExecutorInner::new();
    let t = executor.spawn(5);
    assert_eq!(executor.suspend(t), None);
    assert_eq!(executor.state(0), Some(TaskState::Waiting(t)));
    assert_eq!(executor.wakeup(0), Some(t));
    assert_eq!(executor.state(0), Some(TaskState::Executing));
    assert_eq!(executor.wakeup(0), None);
    assert_eq!(executor.state(0), Some(TaskState::ScheduledAgain));
    assert_eq!(executor.wakeup(0), None);
    assert_eq!(executor.state(0), Some(TaskState::ScheduledAgain));
}

#[test]
fn waiting_task_waits_until_woken() {
    let mut executor = ExecutorInner::new();
    let t = executor.spawn(5);
    let other = executor.spawn(6);
    assert_eq!(executor.suspend(t), None);
    // Whatever happens to the others, the task keeps waiting and goes on no queue.
    let third = executor.spawn(7);
    assert_eq!(executor.suspend(other), None);
    assert_eq!(executor.wakeup(other.id), Some(other));
    assert!(!executor.complete(third));
    assert_eq!(executor.state(t.id), Some(TaskState::Waiting(t)));
    assert_eq!(executor.wakeup(t.id), Some(t));
}

#[test]
fn ready_tasks_get_their_turn() {
    let mut executor = ExecutorInner::new();
    let mut queue: VecDeque<Task> = (0..3).map(|future| executor.spawn(future)).collect();
    // The first task is woken while it is polled: it is polled again after the two others.
    let first = queue.pop_front().unwrap();
    assert_eq!(executor.wakeup(first.id), None);
    queue.extend(executor.suspend(first));
    let mut polled = Vec::new();
    while let Some(t) = queue.pop_front() {
        polled.push(t.id);
        queue.extend(executor.suspend(t));
    }
    assert_eq!(polled, vec![1, 2, 0]);
}

#[test]
fn copies_of_a_waker_wake_the_same_task() {
    let mut executor = ExecutorInner::new();
    executor.spawn(5);
    let t = executor.spawn(6);
    let waker = ExecutorInner::get_waker(t.id);
    let copy = waker;
    assert_eq!(copy, waker);
    assert_eq!(executor.suspend(t), None);
    assert_eq!(copy.wake(Some(&mut executor)), Some(t));
    assert_eq!(waker.wake(Some(&mut executor)), None);
    assert_eq!(executor.state(t.id), Some(TaskState::ScheduledAgain));
    assert_eq!(executor.state(0), Some(TaskState::Executing));
}

#[test]
fn task_woken_while_executing_runs_again() {
    let mut executor = ExecutorInner::new();
    let t = executor.spawn(5);
    assert_eq!(executor.wakeup(t.id), None);
    assert_eq!(executor.suspend(t), Some(t));
    assert_eq!(executor.state(t.id), Some(TaskState::Executing));
    assert_eq!(executor.suspend(t), None);
    assert_eq!(executor.state(t.id), Some(TaskState::Waiting(t)));
}

#[test]
fn last_task_notifies() {
    let mut executor = ExecutorInner::new();
    let a = executor.spawn(1);
    let b = executor.spawn(2);
    assert_eq!(after_poll(Some(&mut executor), a, TaskPoll::Ready), WorkerAction::Receive);
    assert!(!executor.is_done());
    assert_eq!(after_poll(Some(&mut executor), b, TaskPoll::Ready), WorkerAction::NotifyDone);
    assert!(executor.is_done());
}

#[test]
fn worker_parks_or_requeues_a_pending_task() {
    let mut executor = ExecutorInner::new();
    let t = executor.spawn(9);
    assert_eq!(after_poll(Some(&mut executor), t, TaskPoll::Pending), WorkerAction::Receive);
    assert_eq!(executor.wakeup(t.id), Some(t));
    assert_eq!(executor.wakeup(t.id), None);
    assert_eq!(after_poll(Some(&mut executor), t, TaskPoll::Pending), WorkerAction::Send(t));
}

#[test]
fn worker_stops_without_executor_or_queue() {
    assert_eq!(after_poll(None, task(0, 0), TaskPoll::Ready), WorkerAction::Stop);
    assert_eq!(after_poll(None, task(0, 0), TaskPoll::Pending), WorkerAction::Stop);
    assert_eq!(after_receive(None), WorkerAction::Stop);
    assert_eq!(after_receive(Some(task(3, 4))), WorkerAction::Poll(task(3, 4)));
}

#[test]
fn spawn_needs_a_living_executor() {
    let mut executor = ExecutorInner::new();
    assert_eq!(spawn(Some(&mut executor), 42), Some(task(0, 42)));
    assert_eq!(executor.state(0), Some(TaskState::Executing));
    assert_eq!(spawn(None, 43), None);
}

#[test]
fn waker_wakes_its_task() {
    let mut executor = ExecutorInner::new();
    let a = executor.spawn(1);
    let b = executor.spawn(2);
    executor.suspend(a);
    executor.suspend(b);
    let waker = ExecutorInner::get_waker(b.id);
    assert_eq!(waker, Waker { task_id: 1 });
    assert_eq!(waker.wake(Some(&mut executor)), Some(b));
    assert_eq!(executor.state(a.id), Some(TaskState::Waiting(a)));
    assert_eq!(waker.wake(None), None);
}

/// Drives an executor by hand: a task is pending until its future was polled often enough.
#[test]
fn every_task_is_in_one_place() {
    let mut executor = ExecutorInner::new();
    let mut queue: VecDeque<Task> = VecDeque::new();
    let mut polls = vec![0usize; 6];
    for future in 0..6 {
        queue.push_back(executor.spawn(future));
    }
    let mut rounds = 0;
    while !executor.is_done() {
        rounds += 1;
        // Wake every second task, wherever it is, and every task if all wait.
        let idle = queue.is_empty();
        for id in 0..6 {
            if executor.state(id).is_some() && (idle || id % 2 == 0) {
                let before = executor.state(id);
                let ready = executor.wakeup(id);
                assert_eq!(ready.is_some(), matches!(before, Some(TaskState::Waiting(_))));
                if let Some(t) = ready {
                    assert!(!queue.contains(&t));
                    queue.push_back(t);
                }
            }
        }
        let t = match after_receive(queue.pop_front()) {
            WorkerAction::Poll(t) => t,
            _ => panic!("nothing to poll"),
        };
        assert!(!queue.contains(&t));
        polls[t.future] += 1;
        let poll = if polls[t.future] > t.future { TaskPoll::Ready } else { TaskPoll::Pending };
        match after_poll(Some(&mut executor), t, poll) {
            WorkerAction::Send(again) => queue.push_back(again),
            WorkerAction::NotifyDone => assert!(executor.is_done()),
            action => assert_eq!(action, WorkerAction::Receive),
        }
        assert!(rounds < 1000);
    }
    assert!(queue.is_empty());
    assert_eq!(polls, vec![1, 2, 3, 4, 5, 6]);
}
