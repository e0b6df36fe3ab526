//! Calls on the scheduler, on the queue through which it gets tasks, and on the slots of futures.

use crate::executor::{
    new_executor_and_spawner, Executor, FutureSlot, Poll, Spawner, Task, Turn,
};
use crate::handles::HandleTable;
use crate::queues::Steal;
use vstd::prelude::*;

verus! {

/// The handles that are held for task `id`.
pub open spec fn held_for<H>(handles: Map<u64, Seq<H>>, id: u64) -> Seq<H> {
    match handles.get(id) {
        Some(held) => held,
        None => Seq::empty(),
    }
}

/// Nothing differs between two lists of queues but the queue of worker `me`.
pub open spec fn same_but_for(
    locals: Seq<Seq<u64>>,
    locals_after: Seq<Seq<u64>>,
    me: int,
) -> bool {
    &&& locals_after.len() == locals.len()
    &&& forall|i: int|
        0 <= i < locals.len() && i != me ==> #[trigger] locals_after[i] == locals[i]
}

/// No task is in a queue.
pub open spec fn no_task_anywhere(locals: Seq<Seq<u64>>, global: Seq<u64>) -> bool {
    &&& global.len() == 0
    &&& forall|i: int| 0 <= i < locals.len() ==> (#[trigger] locals[i]).len() == 0
}

/// A worker goes to sleep exactly if there is no task in any queue, and then for 5 milliseconds,
/// whatever was spawned, woken or found before. Nothing changes.
pub proof fn law_idle_worker_sleeps_five_millis<H>(
    executor: &mut Executor,
    me: usize,
    spawner: &mut Spawner<H>,
    turn: Turn<H>,
)
    requires
        old(executor).wf(),
        me < 5,
        call_ensures(Executor::run::<H>, (executor, me, spawner), turn),
    ensures
        turn is Sleep <==> no_task_anywhere(old(executor)@, old(spawner)@.queue),
        turn matches Turn::Sleep(millis) ==> millis == 5,
        turn is Sleep ==> final(executor)@ == old(executor)@ && final(spawner)@ == old(spawner)@,
{
    crate::executor::law_one_queue_for_every_worker(*old(executor));
}

/// A worker is to look again at once only where all workers have run out of tasks and the shared
/// queue has some. Nothing changes.
pub proof fn law_retry_only_at_the_shared_queue<H>(
    executor: &mut Executor,
    me: usize,
    spawner: &mut Spawner<H>,
    turn: Turn<H>,
)
    requires
        call_ensures(Executor::run::<H>, (executor, me, spawner), turn),
        turn is Retry,
    ensures
        old(spawner)@.queue.len() > 0,
        no_task_anywhere(old(executor)@, Seq::empty()),
        final(executor)@ == old(executor)@,
        final(spawner)@ == old(spawner)@,
{
}

/// A worker with tasks of its own polls the one that it got last, which leaves its queue. The
/// shared queue and all other workers are left alone.
pub proof fn law_own_tasks_come_first<H>(
    executor: &mut Executor,
    me: usize,
    spawner: &mut Spawner<H>,
    turn: Turn<H>,
)
    requires
        old(executor).wf(),
        me < 5,
        call_ensures(Executor::run::<H>, (executor, me, spawner), turn),
        old(executor)@[me as int].len() > 0,
    ensures
        turn matches Turn::Poll(task, _) && old(executor)@[me as int]
            == final(executor)@[me as int].push(task.id),
        same_but_for(old(executor)@, final(executor)@, me as int),
        final(spawner)@.queue == old(spawner)@.queue,
{
    crate::executor::law_one_queue_for_every_worker(*old(executor));
}

/// A worker without tasks of its own that polls one got it from the front of the shared queue or
/// from the front of the queue of the first worker that has any. In the first case the tasks behind
/// it that leave the shared queue as well are all in the worker's queue, to be taken in the order
/// in which they entered. In the second the shared queue is left alone. No other queue changes.
pub proof fn law_tasks_come_from_the_front<H>(
    executor: &mut Executor,
    me: usize,
    spawner: &mut Spawner<H>,
    turn: Turn<H>,
    task: Task,
    handle: H,
)
    requires
        old(executor).wf(),
        me < 5,
        call_ensures(Executor::run::<H>, (executor, me, spawner), turn),
        old(executor)@[me as int].len() == 0,
        turn == Turn::Poll(task, handle),
    ensures
        from_shared(
            old(executor)@,
            me as int,
            old(spawner)@.queue,
            task.id,
            final(executor)@,
            final(spawner)@.queue,
        ) || from_peer(old(executor)@, task.id, final(executor)@) && final(spawner)@.queue == old(
            spawner,
        )@.queue,
{
    crate::executor::law_one_queue_for_every_worker(*old(executor));
    lemma_found_elsewhere(
        old(executor)@,
        me as int,
        old(spawner)@.queue,
        task.id,
        final(executor)@,
        final(spawner)@.queue,
    );
}

/// The shared queue is what was taken, then what the worker will take from its own queue, one after
/// the other, then what is left.
pub open spec fn from_shared(
    locals: Seq<Seq<u64>>,
    me: int,
    global: Seq<u64>,
    task: u64,
    locals_after: Seq<Seq<u64>>,
    global_after: Seq<u64>,
) -> bool {
    &&& global == seq![task] + locals_after[me].reverse() + global_after
    &&& same_but_for(locals, locals_after, me)
}

/// The first worker with a task has lost the one at the front.
pub open spec fn from_peer(
    locals: Seq<Seq<u64>>,
    task: u64,
    locals_after: Seq<Seq<u64>>,
) -> bool {
    exists|j: int|
        0 <= j < locals.len() && #[trigger] locals[j] == seq![task] + locals_after[j]
            && same_but_for(locals, locals_after, j) && forall|i: int|
            0 <= i < j ==> (#[trigger] locals[i]).len() == 0
}

/// Where a worker without tasks of its own finds one.
proof fn lemma_found_elsewhere(
    locals: Seq<Seq<u64>>,
    me: int,
    global: Seq<u64>,
    task: u64,
    locals_after: Seq<Seq<u64>>,
    global_after: Seq<u64>,
)
    requires
        0 <= me < locals.len(),
        locals[me].len() == 0,
        crate::executor::search(
            locals,
            me,
            global,
            Steal::Success(task),
            locals_after,
            global_after,
        ),
    ensures
        from_shared(locals, me, global, task, locals_after, global_after) || from_peer(
            locals,
            task,
            locals_after,
        ) && global_after == global,
{
    if crate::executor::taken_from_peer(locals, task, locals_after) && global_after == global {
        lemma_from_peer(locals, task, locals_after);
    } else {
        lemma_from_shared(locals, me, global, task, locals_after, global_after);
    }
}

/// A worker that works alone polls tasks in the order in which they entered: what it has taken and
/// what is still in the shared queue together lose the one that entered first, and nothing else
/// happens to them.
pub proof fn law_lone_worker_keeps_the_order<H>(
    executor: &mut Executor,
    me: usize,
    spawner: &mut Spawner<H>,
    turn: Turn<H>,
)
    requires
        old(executor).wf(),
        me < 5,
        call_ensures(Executor::run::<H>, (executor, me, spawner), turn),
        forall|i: int|
            0 <= i < 5 && i != me ==> (#[trigger] old(executor)@[i]).len() == 0,
        !(turn is Retry),
    ensures
        ({
            let before = old(executor)@[me as int].reverse() + old(spawner)@.queue;
            let after = final(executor)@[me as int].reverse() + final(spawner)@.queue;
            match turn {
                Turn::Poll(task, _) => before == seq![task.id] + after,
                _ => before.len() == 0 && after.len() == 0,
            }
        }),
        forall|i: int|
            0 <= i < 5 && i != me ==> (#[trigger] final(executor)@[i]).len() == 0,
{
    crate::executor::law_one_queue_for_every_worker(*old(executor));
    let (locals, locals_after) = (old(executor)@, final(executor)@);
    let (global, global_after) = (old(spawner)@.queue, final(spawner)@.queue);
    let mine = me as int;
    match turn {
        Turn::Poll(task, _) => {
            if locals[mine].len() > 0 {
                assert(locals[mine].reverse() + global =~= seq![task.id]
                    + locals_after[mine].reverse() + global_after);
            } else {
                lemma_found_elsewhere(locals, mine, global, task.id, locals_after, global_after);
                assert(locals[mine].reverse() + global =~= global);
                assert(seq![task.id] + locals_after[mine].reverse() + global_after =~= seq![
                    task.id,
                ] + (locals_after[mine].reverse() + global_after));
            }
        },
        _ => {},
    }
}

/// A task that is polled comes with the handle that was held for it last. That handle is then no
/// longer held, and every other is, for the same task and for all others. The numbering of tasks is
/// left alone.
pub proof fn law_found_task_brings_its_handle<H>(
    executor: &mut Executor,
    me: usize,
    spawner: &mut Spawner<H>,
    turn: Turn<H>,
    task: Task,
    handle: H,
    other: u64,
)
    requires
        call_ensures(Executor::run::<H>, (executor, me, spawner), turn),
        turn == Turn::Poll(task, handle),
        other != task.id,
    ensures
        held_for(old(spawner)@.handles, task.id) == held_for(
            final(spawner)@.handles,
            task.id,
        ).push(handle),
        held_for(final(spawner)@.handles, other) == held_for(old(spawner)@.handles, other),
        final(spawner)@.next_task == old(spawner)@.next_task,
{
    let before = held_for(old(spawner)@.handles, task.id);
    assert(before =~= before.drop_last().push(handle));
    assert(held_for(final(spawner)@.handles, task.id) =~= before.drop_last());
}

/// A search takes tasks from the same places as a worker's turn, by the same rules, and leaves all
/// handles and the numbering alone.
pub proof fn law_search_is_what_a_turn_does<H>(
    executor: &mut Executor,
    me: usize,
    spawner: &mut Spawner<H>,
    found: Steal,
)
    requires
        old(executor).wf(),
        me < 5,
        call_ensures(Executor::find_task::<H>, (executor, me, spawner), found),
    ensures
        final(spawner)@.handles == old(spawner)@.handles,
        final(spawner)@.next_task == old(spawner)@.next_task,
        found is Empty <==> no_task_anywhere(old(executor)@, old(spawner)@.queue),
        found is Retry ==> old(spawner)@.queue.len() > 0 && no_task_anywhere(
            old(executor)@,
            Seq::empty(),
        ),
        match found {
            Steal::Success(task) => if old(executor)@[me as int].len() > 0 {
                &&& old(executor)@[me as int] == final(executor)@[me as int].push(task)
                &&& same_but_for(old(executor)@, final(executor)@, me as int)
                &&& final(spawner)@.queue == old(spawner)@.queue
            } else {
                from_shared(
                    old(executor)@,
                    me as int,
                    old(spawner)@.queue,
                    task,
                    final(executor)@,
                    final(spawner)@.queue,
                ) || from_peer(old(executor)@, task, final(executor)@) && final(spawner)@.queue
                    == old(spawner)@.queue
            },
            _ => final(executor)@ == old(executor)@ && final(spawner)@.queue == old(spawner)@.queue,
        },
{
    crate::executor::law_one_queue_for_every_worker(*old(executor));
    match found {
        Steal::Success(task) => {
            if old(executor)@[me as int].len() == 0 {
                lemma_found_elsewhere(
                    old(executor)@,
                    me as int,
                    old(spawner)@.queue,
                    task,
                    final(executor)@,
                    final(spawner)@.queue,
                );
            }
        },
        _ => {},
    }
}

/// What is found where an attempt at the shared queue came to `attempt`: its task, if it gave one.
/// Otherwise the shared queue is left alone, and the first worker that has tasks loses the one at
/// the front; if none has, nothing changes and the outcome of the attempt stands.
pub open spec fn follows(
    attempt: Steal,
    locals: Seq<Seq<u64>>,
    me: int,
    global: Seq<u64>,
    found: Steal,
    locals_after: Seq<Seq<u64>>,
    global_after: Seq<u64>,
) -> bool {
    match attempt {
        Steal::Success(task) => {
            &&& found == attempt
            &&& from_shared(locals, me, global, task, locals_after, global_after)
        },
        _ => {
            &&& global_after == global
            &&& if no_task_anywhere(locals, Seq::empty()) {
                found == attempt && locals_after == locals
            } else {
                &&& found matches Steal::Success(task)
                &&& from_peer(locals, task, locals_after)
            }
        },
    }
}

/// A worker without tasks of its own makes an attempt at the shared queue before anything else, and
/// what it does next follows what that attempt came to: no other worker loses a task where the
/// attempt gave one, and the worker looks again only where the attempt is to be made again.
pub proof fn law_turn_follows_the_attempt<H>(
    executor: &mut Executor,
    me: usize,
    spawner: &mut Spawner<H>,
    turn: Turn<H>,
)
    requires
        old(executor).wf(),
        me < 5,
        call_ensures(Executor::run::<H>, (executor, me, spawner), turn),
        old(executor)@[me as int].len() == 0,
    ensures
        exists|attempt: Steal| #[trigger]
            crate::queues::attempted(old(spawner)@.queue, Seq::empty(), attempt) && follows(
                attempt,
                old(executor)@,
                me as int,
                old(spawner)@.queue,
                match turn {
                    Turn::Poll(task, _) => Steal::Success(task.id),
                    Turn::Retry => Steal::Retry,
                    Turn::Sleep(_) => Steal::Empty,
                },
                final(executor)@,
                final(spawner)@.queue,
            ),
{
    crate::executor::law_one_queue_for_every_worker(*old(executor));
    lemma_follows(
        old(executor)@,
        me as int,
        old(spawner)@.queue,
        crate::executor::found_before(turn),
        final(executor)@,
        final(spawner)@.queue,
    );
}

/// A search for a worker without tasks of its own makes an attempt at the shared queue before
/// anything else, and what is found follows what that attempt came to.
pub proof fn law_search_follows_the_attempt<H>(
    executor: &mut Executor,
    me: usize,
    spawner: &mut Spawner<H>,
    found: Steal,
)
    requires
        old(executor).wf(),
        me < 5,
        call_ensures(Executor::find_task::<H>, (executor, me, spawner), found),
        old(executor)@[me as int].len() == 0,
    ensures
        exists|attempt: Steal| #[trigger]
            crate::queues::attempted(old(spawner)@.queue, Seq::empty(), attempt) && follows(
                attempt,
                old(executor)@,
                me as int,
                old(spawner)@.queue,
                found,
                final(executor)@,
                final(spawner)@.queue,
            ),
{
    crate::executor::law_one_queue_for_every_worker(*old(executor));
    lemma_follows(
        old(executor)@,
        me as int,
        old(spawner)@.queue,
        found,
        final(executor)@,
        final(spawner)@.queue,
    );
}

/// What is found after an attempt follows it.
proof fn lemma_follows(
    locals: Seq<Seq<u64>>,
    me: int,
    global: Seq<u64>,
    found: Steal,
    locals_after: Seq<Seq<u64>>,
    global_after: Seq<u64>,
)
    requires
        0 <= me < locals.len(),
        locals[me].len() == 0,
        crate::executor::found_by_attempt(locals, me, global, found, locals_after, global_after),
    ensures
        exists|attempt: Steal| #[trigger]
            crate::queues::attempted(global, Seq::empty(), attempt) && follows(
                attempt,
                locals,
                me,
                global,
                found,
                locals_after,
                global_after,
            ),
{
    assert(locals[me] =~= Seq::empty());
    let attempt = choose|attempt: Steal| #[trigger]
        crate::queues::attempted(global, locals[me], attempt) && match attempt {
            Steal::Success(task) => found == attempt && crate::executor::taken_from_shared(
                locals,
                me,
                global,
                task,
                locals_after,
                global_after,
            ),
            _ => {
                &&& global_after == global
                &&& if crate::executor::all_empty(locals) {
                    found == attempt && locals_after == locals
                } else {
                    found is Success && crate::executor::taken_from_peer(
                        locals,
                        found->Success_0,
                        locals_after,
                    )
                }
            },
        };
    match attempt {
        Steal::Success(task) => {
            lemma_from_shared(locals, me, global, task, locals_after, global_after);
        },
        _ => {
            if !crate::executor::all_empty(locals) {
                lemma_from_peer(locals, found->Success_0, locals_after);
            }
        },
    }
    assert(follows(attempt, locals, me, global, found, locals_after, global_after));
}

/// What was taken from the shared queue.
proof fn lemma_from_shared(
    locals: Seq<Seq<u64>>,
    me: int,
    global: Seq<u64>,
    task: u64,
    locals_after: Seq<Seq<u64>>,
    global_after: Seq<u64>,
)
    requires
        0 <= me < locals.len(),
        locals[me].len() == 0,
        crate::executor::taken_from_shared(locals, me, global, task, locals_after, global_after),
    ensures
        from_shared(locals, me, global, task, locals_after, global_after),
{
    let (taken, queue) = choose|taken: int, queue: Seq<u64>|
        #![trigger crate::queues::batch_taken(
            global,
            locals[me],
            taken,
            task,
            global_after,
            queue,
        )]
        crate::queues::batch_taken(global, locals[me], taken, task, global_after, queue)
            && locals_after == locals.update(me, queue);
    assert(locals_after[me] =~= global.subrange(1, taken).reverse());
    assert(global =~= seq![task] + locals_after[me].reverse() + global_after);
}

/// What was taken from another worker.
proof fn lemma_from_peer(locals: Seq<Seq<u64>>, task: u64, locals_after: Seq<Seq<u64>>)
    requires
        crate::executor::taken_from_peer(locals, task, locals_after),
    ensures
        from_peer(locals, task, locals_after),
{
    let j = choose|j: int|
        #[trigger] crate::executor::first_with_task(locals, j) && task == locals[j].first()
            && locals_after == locals.update(j, locals[j].drop_first());
    assert(locals[j] =~= seq![task] + locals_after[j]);
}

/// An attempt at the shared queue that gave a task is the end of a search: that task is found, and
/// no worker loses one.
pub proof fn law_shared_task_is_found(executor: &mut Executor, task: u64, found: Steal)
    requires
        call_ensures(Executor::after_shared_attempt, (executor, Steal::Success(task)), found),
    ensures
        found == Steal::Success(task),
        final(executor)@ == old(executor)@,
{
}

/// After an attempt at the shared queue that gave no task, the first worker that has tasks loses
/// the one at the front of its queue, and that is found. If no worker has one, the outcome of the
/// attempt stands.
pub proof fn law_peers_come_after_the_shared_queue(
    executor: &mut Executor,
    attempt: Steal,
    found: Steal,
)
    requires
        call_ensures(Executor::after_shared_attempt, (executor, attempt), found),
        !(attempt is Success),
    ensures
        no_task_anywhere(old(executor)@, Seq::empty()) ==> found == attempt && final(executor)@
            == old(executor)@,
        no_task_anywhere(old(executor)@, Seq::empty()) || (found matches Steal::Success(task)
            && from_peer(old(executor)@, task, final(executor)@)),
{
    if !crate::executor::all_empty(old(executor)@) {
        lemma_from_peer(old(executor)@, found->Success_0, final(executor)@);
    }
}

/// A spawned task gets the next number, enters at the back of the shared queue, and has one more
/// handle: one that `make` made of it and of a slot that holds the very future. Nothing else
/// changes.
pub proof fn law_spawned_task_is_queued<H, F, M: FnOnce(Task, FutureSlot<F>) -> H>(
    spawner: &mut Spawner<H>,
    future: F,
    make: M,
    task: Task,
    other: u64,
)
    requires
        call_ensures(Spawner::<H>::spawn::<F, M>, (spawner, future, make), task),
        other != task.id,
    ensures
        task.id == old(spawner)@.next_task,
        final(spawner)@.next_task == (task.id + 1) % 0x1_0000_0000_0000_0000,
        final(spawner)@.queue == old(spawner)@.queue + seq![task.id],
        held_for(final(spawner)@.handles, other) == held_for(old(spawner)@.handles, other),
        exists|slot: FutureSlot<F>, handle: H| #[trigger]
            call_ensures(make, (task, slot), handle) && slot@ == Some(future) && held_for(
                final(spawner)@.handles,
                task.id,
            ) == held_for(old(spawner)@.handles, task.id).push(handle),
{
    let (slot, handle) = choose|slot: FutureSlot<F>, handle: H| #[trigger]
        call_ensures(make, (task, slot), handle) && slot@ == Some(future) && final(spawner)@ == old(
            spawner,
        )@.spawn(handle);
    assert(old(spawner)@.queue.push(task.id) =~= old(spawner)@.queue + seq![task.id]);
    assert(held_for(final(spawner)@.handles, task.id) == held_for(
        old(spawner)@.handles,
        task.id,
    ).push(handle));
}

/// A woken task enters at the back of the shared queue, and has the handle that it was woken with
/// as one more. Nothing else changes.
pub proof fn law_woken_task_is_queued<H>(
    task: &Task,
    handle: H,
    spawner: &mut Spawner<H>,
    done: (),
    other: u64,
)
    requires
        call_ensures(Task::wake_by_ref::<H>, (task, handle, spawner), done),
        other != task.id,
    ensures
        final(spawner)@.queue == old(spawner)@.queue + seq![task.id],
        held_for(final(spawner)@.handles, task.id) == held_for(
            old(spawner)@.handles,
            task.id,
        ).push(handle),
        held_for(final(spawner)@.handles, other) == held_for(old(spawner)@.handles, other),
        final(spawner)@.next_task == old(spawner)@.next_task,
{
    assert(old(spawner)@.queue.push(task.id) =~= old(spawner)@.queue + seq![task.id]);
}

/// A task that is spawned where there is no other is what any worker polls next, unless the worker
/// is to look again, and it comes with a handle that was made of a slot with the very future.
pub proof fn law_spawned_task_is_polled_next<H, F, M: FnOnce(Task, FutureSlot<F>) -> H>(
    executor: &mut Executor,
    spawner: &mut Spawner<H>,
    future: F,
    make: M,
    task: Task,
    me: usize,
    after_spawn: &mut Spawner<H>,
    turn: Turn<H>,
)
    requires
        old(executor).wf(),
        me < 5,
        no_task_anywhere(old(executor)@, old(spawner)@.queue),
        call_ensures(Spawner::<H>::spawn::<F, M>, (spawner, future, make), task),
        old(after_spawn)@ == final(spawner)@,
        call_ensures(Executor::run::<H>, (executor, me, after_spawn), turn),
        !(turn is Retry),
    ensures
        exists|slot: FutureSlot<F>, handle: H| #[trigger]
            call_ensures(make, (task, slot), handle) && slot@ == Some(future) && turn
                == Turn::Poll(task, handle),
        no_task_anywhere(final(executor)@, final(after_spawn)@.queue),
{
    crate::executor::law_one_queue_for_every_worker(*old(executor));
    let (locals, locals_after) = (old(executor)@, final(executor)@);
    let (global, global_after) = (old(after_spawn)@.queue, final(after_spawn)@.queue);
    law_idle_worker_sleeps_five_millis(executor, me, after_spawn, turn);
    match turn {
        Turn::Poll(found, handle) => {
            lemma_found_elsewhere(locals, me as int, global, found.id, locals_after, global_after);
            assert(global =~= seq![task.id]);
            let other: u64 = if task.id == 0 {
                1
            } else {
                0
            };
            law_spawned_task_is_queued(spawner, future, make, task, other);
        },
        _ => {},
    }
}

/// A handle that is handed out is the one that was held for the task last. It is then no longer
/// held, and every other is. If none was held, there is none.
pub proof fn law_handle_is_handed_out<H>(
    spawner: &mut Spawner<H>,
    task: Task,
    handle: Option<H>,
    other: u64,
)
    requires
        call_ensures(Spawner::<H>::release, (spawner, task), handle),
        other != task.id,
    ensures
        match handle {
            Some(handle) => held_for(old(spawner)@.handles, task.id) == held_for(
                final(spawner)@.handles,
                task.id,
            ).push(handle),
            None => held_for(old(spawner)@.handles, task.id).len() == 0 && held_for(
                final(spawner)@.handles,
                task.id,
            ).len() == 0,
        },
        held_for(final(spawner)@.handles, other) == held_for(old(spawner)@.handles, other),
        final(spawner)@.queue == old(spawner)@.queue,
        final(spawner)@.next_task == old(spawner)@.next_task,
{
    let before = held_for(old(spawner)@.handles, task.id);
    if before.len() > 0 {
        assert(before =~= before.drop_last().push(before.last()));
        assert(held_for(final(spawner)@.handles, task.id) =~= before.drop_last());
    }
}

/// A fresh scheduler has five workers, no task in any queue and no handle, numbers tasks from 0,
/// and is ready to run.
pub proof fn law_fresh_scheduler<H>(made: (Executor, Spawner<H>), id: u64)
    requires
        call_ensures(new_executor_and_spawner::<H>, (), made),
    ensures
        made.0.wf(),
        made.0@.len() == 5,
        no_task_anywhere(made.0@, made.1@.queue),
        held_for(made.1@.handles, id).len() == 0,
        made.1@.next_task == 0,
        crate::executor::accounted(made.0@, made.1@),
{
}

/// Every worker of a scheduler that is in order can take a turn, and a task can be spawned, woken
/// or looked for at any time. What is in order stays so.
pub proof fn law_scheduler_can_go_on<H>(
    executor: &mut Executor,
    me: usize,
    spawner: &mut Spawner<H>,
    turn: Turn<H>,
    task: &Task,
    handle: H,
    attempt: Steal,
)
    requires
        old(executor).wf(),
        me < 5,
    ensures
        crate::executor::accounted(old(executor)@, old(spawner)@) ==> call_requires(
            Executor::run::<H>,
            (executor, me, spawner),
        ),
        call_requires(Executor::find_task::<H>, (executor, me, spawner)),
        call_requires(Executor::after_shared_attempt, (executor, attempt)),
        call_requires(Task::wake_by_ref::<H>, (task, handle, spawner)),
        call_requires(Spawner::<H>::release, (spawner, *task)),
        call_requires(new_executor_and_spawner::<H>, ()),
        call_ensures(Executor::run::<H>, (executor, me, spawner), turn) ==> final(executor).wf()
            && crate::executor::accounted(final(executor)@, final(spawner)@),
{
}

/// A slot with a future hands the future out to be polled. If the poll leaves it unfinished, the
/// slot holds what the poll left; else the slot is empty, and the task is finished.
pub proof fn law_future_is_polled<F, P: FnOnce(F) -> (F, Poll<()>)>(
    slot: &mut FutureSlot<F>,
    poll: P,
    finished: bool,
    future: F,
    polled: (F, Poll<()>),
)
    requires
        call_ensures(FutureSlot::<F>::poll::<P>, (slot, poll), finished),
        old(slot)@ == Some(future),
        forall|outcome: (F, Poll<()>)| #[trigger]
            call_ensures(poll, (future,), outcome) ==> outcome == polled,
    ensures
        polled.1 is Pending ==> final(slot)@ == Some(polled.0) && !finished,
        polled.1 is Ready ==> final(slot)@ is None && finished,
{
}

/// A slot without a future stays without one, and its task is finished: nothing is asked of `poll`.
pub proof fn law_finished_future_is_not_polled<F, P: FnOnce(F) -> (F, Poll<()>)>(
    slot: &mut FutureSlot<F>,
    poll: P,
    finished: bool,
)
    requires
        old(slot)@ is None,
    ensures
        call_requires(FutureSlot::<F>::poll::<P>, (slot, poll)),
        call_ensures(FutureSlot::<F>::poll::<P>, (slot, poll), finished) ==> final(slot)@ is None
            && finished,
{
}

/// A table hands out what was held for a task last, and holds every other handle as before.
pub proof fn law_table_holds_and_releases<H>(
    table: &mut HandleTable<H>,
    id: u64,
    handle: H,
    done: (),
    released_from: &mut HandleTable<H>,
    released: Option<H>,
    other: u64,
)
    requires
        call_ensures(HandleTable::<H>::hold, (table, id, handle), done),
        old(released_from)@ == final(table)@,
        call_ensures(HandleTable::<H>::release, (released_from, id), released),
        other != id,
    ensures
        released == Some(handle),
        held_for(final(table)@, id) == held_for(old(table)@, id).push(handle),
        held_for(final(released_from)@, id) == held_for(old(table)@, id),
        held_for(final(table)@, other) == held_for(old(table)@, other),
        held_for(final(released_from)@, other) == held_for(old(table)@, other),
{
    assert(held_for(old(table)@, id).push(handle).drop_last() =~= held_for(old(table)@, id));
}

/// A table that holds nothing for a task hands out nothing, and a fresh table holds nothing.
pub proof fn law_table_without_handles<H>(
    fresh: HandleTable<H>,
    table: &mut HandleTable<H>,
    id: u64,
    released: Option<H>,
    other: u64,
)
    requires
        call_ensures(HandleTable::<H>::new, (), fresh),
        held_for(old(table)@, id).len() == 0,
        call_ensures(HandleTable::<H>::release, (table, id), released),
        other != id,
    ensures
        held_for(fresh@, id).len() == 0,
        released is None,
        held_for(final(table)@, id).len() == 0,
        held_for(final(table)@, other) == held_for(old(table)@, other),
{
}

} // verus!
