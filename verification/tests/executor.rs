use async_executor::executor::{
    new_executor_and_spawner, Executor, FutureSlot, Poll, Spawner, Task, Turn, IDLE_MILLIS,
    NUM_THREADS,
};
use async_executor::handles::HandleTable;
use async_executor::queues::Steal;
use std::cell::RefCell;
use std::rc::Rc;

#[test]
fn it_works() {
    assert_eq!(2 + 2, 4);
}

/// The turn of a worker, with attempts made again as they ask to be.
fn turn<H>(executor: &mut Executor, me: usize, spawner: &mut Spawner<H>) -> Turn<H> {
    loop {
        match executor.run(me, spawner) {
            Turn::Retry => {}
            turn => return turn,
        }
    }
}

/// The number of the task that a worker finds. Its handle has to be the same number.
fn found(executor: &mut Executor, me: usize, spawner: &mut Spawner<u64>) -> Option<u64> {
    match turn(executor, me, spawner) {
        Turn::Poll(task, handle) => {
            assert_eq!(task.id, handle);
            Some(task.id)
        }
        _ => None,
    }
}

fn spawn(spawner: &mut Spawner<u64>) -> Task {
    spawner.spawn((), |task, _| task.id)
}

fn spawn_many(spawner: &mut Spawner<u64>, count: u64) {
    for i in 0..count {
        assert_eq!(spawn(spawner).id, i);
    }
}

#[test]
fn an_idle_worker_sleeps() {
    let (mut executor, mut spawner) = new_executor_and_spawner::<u64>();
    assert_eq!(NUM_THREADS, 5);
    assert_eq!(IDLE_MILLIS, 5);
    for me in 0..NUM_THREADS {
        assert_eq!(turn(&mut executor, me, &mut spawner), Turn::Sleep(5));
    }
}

#[test]
fn a_spawned_task_is_found_by_any_worker_once() {
    for me in 0..NUM_THREADS {
        let (mut executor, mut spawner) = new_executor_and_spawner();
        let task = spawner.spawn("future", |_, _| "handle");
        assert_eq!(turn(&mut executor, me, &mut spawner), Turn::Poll(task, "handle"));
        for other in 0..NUM_THREADS {
            assert_eq!(turn(&mut executor, other, &mut spawner), Turn::Sleep(5));
        }
    }
}

#[test]
fn one_worker_works_tasks_off_in_order() {
    let (mut executor, mut spawner) = new_executor_and_spawner();
    spawn_many(&mut spawner, 200);
    for i in 0..200 {
        assert_eq!(found(&mut executor, 3, &mut spawner), Some(i));
    }
    assert_eq!(found(&mut executor, 3, &mut spawner), None);
}

#[test]
fn every_task_is_found_once() {
    let (mut executor, mut spawner) = new_executor_and_spawner();
    spawn_many(&mut spawner, 1000);
    let mut seen = vec![0; 1000];
    let mut me = 0;
    while let Some(id) = found(&mut executor, me, &mut spawner) {
        seen[id as usize] += 1;
        me = (me + 2) % NUM_THREADS;
    }
    assert_eq!(seen, vec![1; 1000]);
    for me in 0..NUM_THREADS {
        assert_eq!(found(&mut executor, me, &mut spawner), None);
    }
}

#[test]
fn a_worker_steals_what_another_has_taken() {
    let (mut executor, mut spawner) = new_executor_and_spawner();
    spawn_many(&mut spawner, 8);
    // Worker 1 takes a batch: it finds the first task, and has others in its queue.
    assert_eq!(found(&mut executor, 1, &mut spawner), Some(0));
    let mut rest = Vec::new();
    while let Some(id) = found(&mut executor, 4, &mut spawner) {
        rest.push(id);
    }
    rest.sort();
    assert_eq!(rest, vec![1, 2, 3, 4, 5, 6, 7]);
    assert_eq!(turn(&mut executor, 1, &mut spawner), Turn::Sleep(5));
}

#[test]
fn the_shared_queue_comes_before_the_other_workers() {
    let (mut executor, mut spawner) = new_executor_and_spawner();
    spawn_many(&mut spawner, 8);
    // Worker 1 takes half of the shared queue: it finds task 0, and has 1, 2 and 3 left.
    assert_eq!(found(&mut executor, 1, &mut spawner), Some(0));
    // Worker 4 has no task. It takes from the shared queue, though worker 1 has tasks.
    assert_eq!(found(&mut executor, 4, &mut spawner), Some(4));
    assert_eq!(found(&mut executor, 1, &mut spawner), Some(1));
    assert_eq!(found(&mut executor, 4, &mut spawner), Some(5));
    // The rest of the shared queue goes to worker 2, one task at a time.
    assert_eq!(found(&mut executor, 2, &mut spawner), Some(6));
    assert_eq!(found(&mut executor, 2, &mut spawner), Some(7));
    // Now worker 2 steals from the front of the queue of worker 1, the task taken last.
    assert_eq!(found(&mut executor, 2, &mut spawner), Some(3));
    assert_eq!(found(&mut executor, 1, &mut spawner), Some(2));
    assert_eq!(found(&mut executor, 1, &mut spawner), None);
}

#[test]
fn what_a_shared_attempt_gave_is_found() {
    let (mut executor, mut spawner) = new_executor_and_spawner();
    spawn_many(&mut spawner, 8);
    assert_eq!(found(&mut executor, 1, &mut spawner), Some(0));
    assert_eq!(executor.after_shared_attempt(Steal::Success(70)), Steal::Success(70));
    // No worker was robbed.
    assert_eq!(executor.find_task(1, &mut spawner), Steal::Success(1));
    assert_eq!(executor.find_task(1, &mut spawner), Steal::Success(2));
    assert_eq!(executor.find_task(1, &mut spawner), Steal::Success(3));
}

#[test]
fn a_failed_shared_attempt_turns_to_the_first_worker_with_tasks() {
    for attempt in [Steal::Empty, Steal::Retry] {
        let (mut executor, mut spawner) = new_executor_and_spawner();
        spawn_many(&mut spawner, 8);
        assert_eq!(found(&mut executor, 3, &mut spawner), Some(0));
        assert_eq!(found(&mut executor, 1, &mut spawner), Some(4));
        // Worker 1 has task 5, and worker 3 has 1, 2 and 3. Two are left in the shared queue.
        assert_eq!(executor.after_shared_attempt(attempt), Steal::Success(5));
        assert_eq!(executor.after_shared_attempt(attempt), Steal::Success(3));
        assert_eq!(executor.after_shared_attempt(attempt), Steal::Success(2));
        assert_eq!(executor.after_shared_attempt(attempt), Steal::Success(1));
        assert_eq!(executor.after_shared_attempt(attempt), attempt);
    }
}

#[test]
fn the_own_queue_comes_before_the_shared_one() {
    let (mut executor, mut spawner) = new_executor_and_spawner();
    spawn_many(&mut spawner, 4);
    assert_eq!(found(&mut executor, 0, &mut spawner), Some(0));
    let late = spawn(&mut spawner);
    assert_eq!(found(&mut executor, 0, &mut spawner), Some(1));
    let mut last = 1;
    while let Some(id) = found(&mut executor, 0, &mut spawner) {
        last = id;
    }
    assert_eq!(last, late.id);
}

#[test]
fn a_woken_task_is_queued_again() {
    let (mut executor, mut spawner) = new_executor_and_spawner();
    let task = spawn(&mut spawner);
    assert_eq!(found(&mut executor, 0, &mut spawner), Some(task.id));
    assert_eq!(found(&mut executor, 0, &mut spawner), None);
    task.wake_by_ref(task.id, &mut spawner);
    task.wake_by_ref(task.id, &mut spawner);
    assert_eq!(found(&mut executor, 2, &mut spawner), Some(task.id));
    assert_eq!(found(&mut executor, 3, &mut spawner), Some(task.id));
    assert_eq!(found(&mut executor, 2, &mut spawner), None);
}

#[test]
fn woken_tasks_queue_up_behind_others() {
    let (mut executor, mut spawner) = new_executor_and_spawner();
    let first = spawn(&mut spawner);
    let second = spawn(&mut spawner);
    assert_eq!(found(&mut executor, 0, &mut spawner), Some(first.id));
    first.wake_by_ref(first.id, &mut spawner);
    assert_eq!(found(&mut executor, 0, &mut spawner), Some(second.id));
    assert_eq!(found(&mut executor, 0, &mut spawner), Some(first.id));
}

#[test]
fn a_task_is_found_though_others_keep_coming() {
    let (mut executor, mut spawner) = new_executor_and_spawner();
    spawn_many(&mut spawner, 100);
    // Worker 0 alone looks for tasks, and with each that it finds two more are spawned. It still
    // comes by every task in the order in which they were spawned.
    for i in 0..100 {
        assert_eq!(found(&mut executor, 0, &mut spawner), Some(i));
        spawn(&mut spawner);
        spawn(&mut spawner);
    }
}

#[test]
fn tasks_are_numbered() {
    let (_, mut spawner) = new_executor_and_spawner();
    assert_eq!(spawn(&mut spawner), Task { id: 0 });
    assert_eq!(spawn(&mut spawner), Task { id: 1 });
}

#[test]
fn a_handle_is_handed_out_with_every_task_that_is_found() {
    let (mut executor, mut spawner) = new_executor_and_spawner();
    let first = spawner.spawn("future", |task, _| format!("spawned {}", task.id));
    let second = spawner.spawn("future", |task, _| format!("spawned {}", task.id));
    second.wake_by_ref(format!("woken {}", second.id), &mut spawner);
    assert_eq!(
        turn(&mut executor, 0, &mut spawner),
        Turn::Poll(first, "spawned 0".to_string())
    );
    // Of the two handles of the second task, the newer one comes first.
    assert_eq!(
        turn(&mut executor, 0, &mut spawner),
        Turn::Poll(second, "woken 1".to_string())
    );
    assert_eq!(
        turn(&mut executor, 0, &mut spawner),
        Turn::Poll(second, "spawned 1".to_string())
    );
    assert_eq!(turn(&mut executor, 0, &mut spawner), Turn::Sleep(5));
    assert_eq!(spawner.release(first), None);
}

#[test]
fn a_search_leaves_the_handles_where_they_are() {
    let (mut executor, mut spawner) = new_executor_and_spawner();
    let task = spawner.spawn("future", |_, _| "handle");
    let mut found = executor.find_task(2, &mut spawner);
    while found == Steal::Retry {
        found = executor.find_task(2, &mut spawner);
    }
    assert_eq!(found, Steal::Success(task.id));
    assert_eq!(spawner.release(task), Some("handle"));
    assert_eq!(spawner.release(task), None);
    assert_eq!(executor.find_task(2, &mut spawner), Steal::Empty);
}

#[test]
fn handles_are_held_by_task() {
    let mut table = HandleTable::new();
    assert_eq!(table.release(7), None);
    table.hold(7, "a");
    table.hold(8, "b");
    table.hold(7, "c");
    assert_eq!(table.release(7), Some("c"));
    assert_eq!(table.release(8), Some("b"));
    assert_eq!(table.release(8), None);
    assert_eq!(table.release(7), Some("a"));
    assert_eq!(table.release(7), None);
}

type Cell = Rc<RefCell<FutureSlot<Vec<u32>>>>;

#[test]
fn a_wake_during_a_poll_is_not_lost() {
    let (mut executor, mut spawner) = new_executor_and_spawner::<Cell>();
    let task = spawner.spawn(vec![1], |_, slot| Rc::new(RefCell::new(slot)));
    match turn(&mut executor, 0, &mut spawner) {
        Turn::Poll(_, handle) => {
            let again = handle.clone();
            let finished = handle.borrow_mut().poll(|mut future| {
                task.wake_by_ref(again, &mut spawner);
                future.push(2);
                (future, Poll::Pending)
            });
            assert!(!finished);
        }
        _ => panic!("the task was spawned"),
    }
    // Without a further wake it is found again, and polled as the first poll left it.
    match turn(&mut executor, 4, &mut spawner) {
        Turn::Poll(found, handle) => {
            assert_eq!(found, task);
            let finished = handle.borrow_mut().poll(|future| {
                assert_eq!(future, vec![1, 2]);
                (future, Poll::Ready(()))
            });
            assert!(finished);
        }
        _ => panic!("the task was woken"),
    }
    assert!(matches!(turn(&mut executor, 0, &mut spawner), Turn::Sleep(5)));
}

#[test]
fn futures_are_polled_until_they_are_finished() {
    let (mut executor, mut spawner) = new_executor_and_spawner::<Cell>();
    for i in 0..20 {
        spawner.spawn(vec![i], |_, slot| Rc::new(RefCell::new(slot)));
    }
    let mut polls = vec![0; 20];
    let mut me = 0;
    while let Turn::Poll(task, handle) = turn(&mut executor, me, &mut spawner) {
        let id = task.id as usize;
        me = (me + 3) % NUM_THREADS;
        polls[id] += 1;
        let finished = handle.borrow_mut().poll(|mut future| {
            assert_eq!(future[0] as usize, id);
            assert_eq!(future.len(), polls[id]);
            future.push(0);
            let progress = if future.len() > 3 { Poll::Ready(()) } else { Poll::Pending };
            (future, progress)
        });
        assert_eq!(finished, polls[id] == 3);
        if !finished {
            task.wake_by_ref(handle, &mut spawner);
        }
    }
    assert_eq!(polls, vec![3; 20]);
}

fn slot(future: Vec<u32>) -> FutureSlot<Vec<u32>> {
    let (mut executor, mut spawner) = new_executor_and_spawner();
    spawner.spawn(future, |_, slot| slot);
    match turn(&mut executor, 0, &mut spawner) {
        Turn::Poll(_, slot) => slot,
        _ => panic!("the task was spawned"),
    }
}

#[test]
fn a_pending_future_is_polled_again() {
    let mut slot = slot(vec![1]);
    let finished = slot.poll(|mut future| {
        assert_eq!(future, vec![1]);
        future.push(2);
        (future, Poll::Pending)
    });
    assert!(!finished);
    let finished = slot.poll(|future| {
        assert_eq!(future, vec![1, 2]);
        (future, Poll::Ready(()))
    });
    assert!(finished);
}

#[test]
fn a_finished_future_is_not_polled_again() {
    let mut slot = slot(vec![]);
    assert!(slot.poll(|future| (future, Poll::Ready(()))));
    assert!(slot.poll(|_| panic!("polled after it finished")));
}
