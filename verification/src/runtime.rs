//! The queues of the scheduler and the slots of the futures together: what becomes of a task that
//! was spawned or woken, whatever the workers do and in whatever order.

use crate::executor::{Poll, SpawnerState, Task, Turn};
use crate::queues::Steal;
use vstd::prelude::*;

verus! {

/// What a worker is at.
pub enum Activity {
    /// It looks for a task, or sleeps before it looks again.
    Looking,
    /// It has found a task, and waits for the slot with the future of the task.
    Found(u64),
    /// It polls the future of a task, and keeps everyone else from the slot meanwhile.
    Polling(u64),
}

/// The whole of a runtime, as far as tasks go.
#[verifier::ext_equal]
pub struct RuntimeState<F, H> {
    /// The queue of every worker.
    pub locals: Seq<Seq<u64>>,
    /// The shared queue, and the handles of the tasks in all queues.
    pub spawner: SpawnerState<H>,
    /// The slot of every task that was spawned.
    pub slots: Map<u64, Option<F>>,
    /// What every worker is at.
    pub workers: Seq<Activity>,
}

/// What can happen in a runtime.
pub enum RuntimeStep<F, H> {
    /// A future was spawned: `Spawner::spawn`, by `law_spawn_is_a_step`.
    Spawn { future: F, handle: H },
    /// A task was woken, be it while its future was polled: `Task::wake_by_ref`, by
    /// `law_wake_is_a_step`.
    Wake { task: Task, handle: H },
    /// A worker looked for a task: `Executor::run`, by `law_run_is_a_step`.
    Search { me: int, found: Steal },
    /// A worker turned to the slot of the task that it had found: the first half of
    /// `FutureSlot::poll`, up to where the future is handed out to be polled, by
    /// `law_poll_is_begin_and_end`.
    Begin { me: int },
    /// A worker was done with a poll: the second half of `FutureSlot::poll`. The poll left behind
    /// the future `polled.0`.
    End { me: int, polled: (F, Poll<()>) },
}

impl<F, H> RuntimeState<F, H> {
    /// How often task `id` is in a queue.
    pub open spec fn queued(self, id: u64) -> nat {
        (crate::executor::Queues {
            locals: self.locals,
            global: self.spawner.queue,
        }).tasks().count(id)
    }

    /// A worker polls the future of task `id`.
    pub open spec fn in_poll(self, id: u64) -> bool {
        exists|me: int|
            0 <= me < self.workers.len() && #[trigger] self.workers[me] == Activity::Polling(id)
    }

    /// A poll of task `id` is still to come: the task is in a queue, or a worker has found it there
    /// and has yet to turn to its future.
    pub open spec fn scheduled(self, id: u64) -> bool {
        ||| self.queued(id) > 0
        ||| exists|me: int|
            0 <= me < self.workers.len() && #[trigger] self.workers[me] == Activity::Found(id)
    }

    /// Task `id` was spawned and its future waits in the slot, as `future`.
    pub open spec fn waiting(self, id: u64, future: F) -> bool {
        self.slots.contains_key(id) && self.slots[id] == Some(future)
    }

    /// Task `id` was spawned, and its future is finished.
    pub open spec fn finished(self, id: u64) -> bool {
        self.slots.contains_key(id) && self.slots[id] is None && !self.in_poll(id)
    }

    /// A future has been spawned.
    pub open spec fn after_spawn(self, future: F, handle: H) -> RuntimeState<F, H> {
        RuntimeState {
            spawner: self.spawner.spawn(handle),
            slots: self.slots.insert(self.spawner.next_task, Some(future)),
            ..self
        }
    }

    /// A task has been woken.
    pub open spec fn after_wake(self, task: Task, handle: H) -> RuntimeState<F, H> {
        RuntimeState { spawner: self.spawner.enqueue(task, handle), ..self }
    }

    /// Worker `me` does `turn` next, after a search that left behind the queues `locals` and the
    /// shared queue `spawner`.
    pub open spec fn after_turn(
        self,
        me: int,
        turn: Turn<H>,
        locals: Seq<Seq<u64>>,
        spawner: SpawnerState<H>,
    ) -> RuntimeState<F, H> {
        RuntimeState {
            locals,
            spawner,
            workers: match turn {
                Turn::Poll(task, _) => self.workers.update(me, Activity::Found(task.id)),
                _ => self.workers,
            },
            ..self
        }
    }

    /// Worker `me` has turned to task `id`: it polls the future, which is then out of the slot, or
    /// is done with the task if there is none.
    pub open spec fn after_begin(self, me: int, id: u64) -> RuntimeState<F, H> {
        match self.slots[id] {
            Some(_) => RuntimeState {
                slots: self.slots.insert(id, None),
                workers: self.workers.update(me, Activity::Polling(id)),
                ..self
            },
            None => RuntimeState { workers: self.workers.update(me, Activity::Looking), ..self },
        }
    }

    /// The poll of task `id` that worker `me` was at has ended, and came to `polled`.
    pub open spec fn after_end(
        self,
        me: int,
        id: u64,
        polled: (F, Poll<()>),
    ) -> RuntimeState<F, H> {
        RuntimeState {
            slots: self.slots.insert(id, crate::executor::unfinished(polled)),
            workers: self.workers.update(me, Activity::Looking),
            ..self
        }
    }

    /// One step may lead from this state to `next`. A task that is spawned gets a number that no
    /// task had before, which holds short of as many tasks as there are numbers.
    pub open spec fn leads_to(self, step: RuntimeStep<F, H>, next: RuntimeState<F, H>) -> bool {
        match step {
            RuntimeStep::Spawn { future, handle } => {
                &&& !self.slots.contains_key(self.spawner.next_task)
                &&& next == self.after_spawn(future, handle)
            },
            RuntimeStep::Wake { task, handle } => {
                &&& self.slots.contains_key(task.id)
                &&& next == self.after_wake(task, handle)
            },
            RuntimeStep::Search { me, found } => {
                &&& 0 <= me < self.workers.len()
                &&& self.workers[me] is Looking
                &&& crate::executor::search(
                    self.locals,
                    me,
                    self.spawner.queue,
                    found,
                    next.locals,
                    next.spawner.queue,
                )
                &&& next.spawner.next_task == self.spawner.next_task
                &&& next.slots == self.slots
                &&& match found {
                    Steal::Success(id) => {
                        &&& next.spawner.handles == crate::handles::with_released(
                            self.spawner.handles,
                            id,
                        )
                        &&& next.workers == self.workers.update(me, Activity::Found(id))
                    },
                    _ => {
                        &&& next.spawner.handles == self.spawner.handles
                        &&& next.workers == self.workers
                    },
                }
            },
            RuntimeStep::Begin { me } => {
                &&& 0 <= me < self.workers.len()
                &&& self.workers[me] matches Activity::Found(id)
                &&& !self.in_poll(id)
                &&& next == self.after_begin(me, id)
            },
            RuntimeStep::End { me, polled } => {
                &&& 0 <= me < self.workers.len()
                &&& self.workers[me] matches Activity::Polling(id)
                &&& next == self.after_end(me, id, polled)
            },
        }
    }

    /// There is a queue for every worker, a handle for every place in a queue and a slot for every
    /// task; the slot of a task that is polled is empty, and no two workers poll one task.
    pub open spec fn sound(self) -> bool {
        &&& self.locals.len() == self.workers.len()
        &&& crate::executor::accounted(self.locals, self.spawner)
        &&& forall|id: u64| #[trigger] self.queued(id) > 0 ==> self.slots.contains_key(id)
        &&& forall|me: int, id: u64|
            0 <= me < self.workers.len() && #[trigger] self.workers[me] == Activity::Found(id)
                ==> #[trigger] self.slots.contains_key(id)
        &&& forall|me: int, id: u64|
            0 <= me < self.workers.len() && #[trigger] self.workers[me] == Activity::Polling(id)
                ==> #[trigger] self.slots.contains_key(id) && self.slots[id] is None
        &&& forall|me: int, other: int|
            0 <= me < self.workers.len() && 0 <= other < self.workers.len()
                && #[trigger] self.workers[me] is Polling && self.workers[me]
                == #[trigger] self.workers[other] ==> me == other
    }
}

/// Step `step` turns a worker to the future of task `id`: with a future in the slot, it is the
/// start of a poll of that future.
pub open spec fn begins<F, H>(state: RuntimeState<F, H>, step: RuntimeStep<F, H>, id: u64) -> bool {
    step matches RuntimeStep::Begin { me } && state.workers[me] == Activity::Found(id)
}

/// A worker finds task `id` by step `step`.
pub open spec fn finds<F, H>(step: RuntimeStep<F, H>, id: u64) -> bool {
    step matches RuntimeStep::Search { me: _, found } && found == Steal::Success(id)
}

/// The poll that worker `me` is at ends by step `step`.
pub open spec fn ends<F, H>(step: RuntimeStep<F, H>, me: int) -> bool {
    step matches RuntimeStep::End { me: worker, polled: _ } && worker == me
}

/// The runtime went through `states`, from each to the next by one of `steps`, and was sound at
/// first.
pub open spec fn is_run<F, H>(
    states: Seq<RuntimeState<F, H>>,
    steps: Seq<RuntimeStep<F, H>>,
) -> bool {
    &&& states.len() == steps.len() + 1
    &&& states.first().sound()
    &&& forall|i: int|
        #![trigger steps[i]]
        0 <= i < steps.len() ==> states[i].leads_to(steps[i], states[i + 1])
}

/// A runtime in which nothing was spawned yet is sound.
pub proof fn law_new_runtime_is_sound<F, H>(state: RuntimeState<F, H>)
    requires
        state.locals.len() == state.workers.len(),
        crate::executor::all_empty(state.locals),
        state.spawner.queue.len() == 0,
        (state.spawner.handles == Map::<u64, Seq<H>>::empty()),
        forall|me: int| 0 <= me < state.workers.len() ==> #[trigger] state.workers[me] is Looking,
    ensures
        state.sound(),
{
    broadcast use vstd::seq_lib::group_to_multiset_ensures;

    crate::executor::law_all_empty_is_no_task(state.locals);
}

/// What a call of `Spawner::spawn` does is a step of the runtime: the spawner becomes
/// `state.spawner.spawn(handle)`, and the slot that the handle is made with holds `future`.
pub proof fn law_spawn_is_a_step<F, H>(
    state: RuntimeState<F, H>,
    future: F,
    handle: H,
    slot: Option<F>,
    spawner: SpawnerState<H>,
)
    requires
        !state.slots.contains_key(state.spawner.next_task),
        slot == Some(future),
        spawner == state.spawner.spawn(handle),
    ensures
        state.leads_to(
            RuntimeStep::Spawn { future, handle },
            RuntimeState {
                spawner,
                slots: state.slots.insert(state.spawner.next_task, slot),
                ..state
            },
        ),
{
}

/// What a call of `Task::wake_by_ref` does is a step of the runtime: the spawner becomes
/// `state.spawner.enqueue(task, handle)`, and nothing else changes.
pub proof fn law_wake_is_a_step<F, H>(
    state: RuntimeState<F, H>,
    task: Task,
    handle: H,
    spawner: SpawnerState<H>,
)
    requires
        state.slots.contains_key(task.id),
        spawner == state.spawner.enqueue(task, handle),
    ensures
        state.leads_to(
            RuntimeStep::<F, H>::Wake { task, handle },
            RuntimeState { spawner, ..state },
        ),
{
}

/// What a call of `Executor::run` does is a step of the runtime, and a sound runtime has what such
/// a call asks for: a handle for every place in a queue.
pub proof fn law_run_is_a_step<F, H>(
    state: RuntimeState<F, H>,
    me: int,
    turn: Turn<H>,
    locals: Seq<Seq<u64>>,
    spawner: SpawnerState<H>,
)
    requires
        0 <= me < state.workers.len(),
        state.workers[me] is Looking,
        crate::executor::turn_taken(state.locals, state.spawner, me, turn, locals, spawner),
    ensures
        state.leads_to(
            RuntimeStep::<F, H>::Search { me, found: crate::executor::found_before(turn) },
            state.after_turn(me, turn, locals, spawner),
        ),
        state.sound() ==> crate::executor::accounted(state.locals, state.spawner),
{
}

/// What a call of `FutureSlot::poll` on the slot of a task that worker `me` has found does is one
/// step of the runtime where the slot is empty, and two where it holds a future: the future leaves
/// the slot, and whenever the poll has come to its end, what remains of the future enters it.
pub proof fn law_poll_is_begin_and_end<F, H>(
    state: RuntimeState<F, H>,
    me: int,
    id: u64,
    polled: Option<(F, Poll<()>)>,
    slot_after: Option<F>,
    later: RuntimeState<F, H>,
)
    requires
        0 <= me < state.workers.len(),
        state.workers[me] == Activity::Found(id),
        !state.in_poll(id),
        crate::executor::slot_polled(state.slots[id], polled, slot_after),
        polled is Some ==> 0 <= me < later.workers.len() && later.workers[me] == Activity::Polling(
            id,
        ),
    ensures
        state.leads_to(RuntimeStep::<F, H>::Begin { me }, state.after_begin(me, id)),
        match polled {
            None => state.after_begin(me, id) == (RuntimeState {
                workers: state.workers.update(me, Activity::Looking),
                ..state
            }),
            Some(polled) => {
                &&& state.after_begin(me, id).workers[me] == Activity::Polling(id)
                &&& state.after_begin(me, id).slots[id] is None
                &&& later.leads_to(
                    RuntimeStep::<F, H>::End { me, polled },
                    RuntimeState {
                        slots: later.slots.insert(id, slot_after),
                        workers: later.workers.update(me, Activity::Looking),
                        ..later
                    },
                )
            },
        },
{
}

/// One step keeps a runtime sound.
proof fn lemma_step_keeps_sound<F, H>(
    state: RuntimeState<F, H>,
    step: RuntimeStep<F, H>,
    next: RuntimeState<F, H>,
)
    requires
        state.sound(),
        state.leads_to(step, next),
    ensures
        next.sound(),
        next.workers.len() == state.workers.len(),
{
    broadcast use vstd::seq_lib::group_to_multiset_ensures;

    match step {
        RuntimeStep::Spawn { future: _, handle } => {
            crate::executor::law_enqueued_task_has_handle(
                state.locals,
                state.spawner,
                Task { id: state.spawner.next_task },
                handle,
            );
        },
        RuntimeStep::Wake { task, handle } => {
            crate::executor::law_enqueued_task_has_handle(
                state.locals,
                state.spawner,
                task,
                handle,
            );
        },
        RuntimeStep::Search { me, found } => {
            crate::executor::law_found_task_has_handle(
                state.locals,
                state.spawner,
                me,
                found,
                next.locals,
                SpawnerState { queue: next.spawner.queue, ..state.spawner },
            );
            crate::executor::law_search_keeps_tasks(
                crate::executor::Queues { locals: state.locals, global: state.spawner.queue },
                me,
                found,
                crate::executor::Queues { locals: next.locals, global: next.spawner.queue },
            );
            assert(found matches Steal::Success(id) ==> state.queued(id) > 0);
        },
        _ => {},
    }
    assert forall|id: u64| #[trigger] next.queued(id) > 0 implies next.slots.contains_key(id) by {
        assert(state.queued(id) > 0 || next.slots.contains_key(id));
    }
}

/// A runtime stays sound, whatever happens in it. So at every moment there is a handle for every
/// task that a worker can find, the future of a task that is polled is out of its slot, and no two
/// workers poll the same future.
pub proof fn law_runtime_stays_sound<F, H>(
    states: Seq<RuntimeState<F, H>>,
    steps: Seq<RuntimeStep<F, H>>,
    n: int,
)
    requires
        is_run(states, steps),
        0 <= n <= steps.len(),
    ensures
        states[n].sound(),
        states[n].workers.len() == states[0].workers.len(),
    decreases n,
{
    if n > 0 {
        law_runtime_stays_sound(states, steps, n - 1);
        lemma_step_keeps_sound(states[n - 1], steps[n - 1], states[n]);
    }
}

/// One step keeps a task scheduled, and its future in the slot, unless it turns a worker to it.
proof fn lemma_step_keeps_scheduled<F, H>(
    state: RuntimeState<F, H>,
    step: RuntimeStep<F, H>,
    next: RuntimeState<F, H>,
    id: u64,
)
    requires
        state.sound(),
        state.leads_to(step, next),
        !begins(state, step, id),
    ensures
        state.scheduled(id) ==> next.scheduled(id),
        forall|future: F| #[trigger] state.waiting(id, future) ==> next.waiting(id, future),
{
    broadcast use vstd::seq_lib::group_to_multiset_ensures;

    let queues = crate::executor::Queues { locals: state.locals, global: state.spawner.queue };
    let after = crate::executor::Queues { locals: next.locals, global: next.spawner.queue };
    lemma_step_keeps_sound(state, step, next);
    match step {
        RuntimeStep::Search { me, found } => {
            crate::executor::law_search_keeps_tasks(queues, me, found, after);
            if found == Steal::Success(id) {
                assert(next.workers[me] == Activity::Found(id));
            }
        },
        _ => {},
    }
    if state.scheduled(id) && state.queued(id) == 0 {
        let me = choose|me: int|
            0 <= me < state.workers.len() && #[trigger] state.workers[me] == Activity::Found(id);
        assert(next.workers[me] == Activity::Found(id));
    }
}

/// Once a task is in a queue, it stays there until a worker finds it.
pub proof fn law_queued_until_found<F, H>(
    states: Seq<RuntimeState<F, H>>,
    steps: Seq<RuntimeStep<F, H>>,
    i: int,
    n: int,
    id: u64,
)
    requires
        is_run(states, steps),
        0 <= i <= n <= steps.len(),
        states[i].queued(id) > 0,
        forall|j: int| i <= j < n ==> !finds(#[trigger] steps[j], id),
    ensures
        states[n].queued(id) > 0,
    decreases n - i,
{
    broadcast use vstd::seq_lib::group_to_multiset_ensures;

    if i < n {
        let (state, step, next) = (states[n - 1], steps[n - 1], states[n]);
        law_queued_until_found(states, steps, i, n - 1, id);
        law_runtime_stays_sound(states, steps, n - 1);
        match step {
            RuntimeStep::Search { me, found } => {
                crate::executor::law_search_keeps_tasks(
                    crate::executor::Queues { locals: state.locals, global: state.spawner.queue },
                    me,
                    found,
                    crate::executor::Queues { locals: next.locals, global: next.spawner.queue },
                );
            },
            _ => {},
        }
    }
}

/// A spawned or woken task whose future is unfinished stays in a queue, or with a worker that found
/// it there, and its future stays in the slot as it is, until a worker turns to it.
pub proof fn law_task_waits_with_its_future<F, H>(
    states: Seq<RuntimeState<F, H>>,
    steps: Seq<RuntimeStep<F, H>>,
    i: int,
    n: int,
    id: u64,
)
    requires
        is_run(states, steps),
        0 <= i <= n <= steps.len(),
        states[i].scheduled(id),
        forall|j: int| i <= j < n ==> !begins(states[j], #[trigger] steps[j], id),
    ensures
        states[n].scheduled(id),
        forall|future: F| #[trigger]
            states[i].waiting(id, future) ==> states[n].waiting(id, future),
    decreases n - i,
{
    if i < n {
        law_task_waits_with_its_future(states, steps, i, n - 1, id);
        law_runtime_stays_sound(states, steps, n - 1);
        lemma_step_keeps_scheduled(states[n - 1], steps[n - 1], states[n], id);
    }
}

/// A task that is scheduled, with its future in the slot, is not forgotten: by the time that it is
/// no longer scheduled a worker has turned to it, and the first one that did polled that very
/// future.
pub proof fn law_scheduled_future_is_polled<F, H>(
    states: Seq<RuntimeState<F, H>>,
    steps: Seq<RuntimeStep<F, H>>,
    i: int,
    n: int,
    id: u64,
    future: F,
)
    requires
        is_run(states, steps),
        0 <= i <= n <= steps.len(),
        states[i].scheduled(id),
        states[i].waiting(id, future),
        !states[n].scheduled(id),
    ensures
        exists|j: int|
            i <= j < n && #[trigger] begins(states[j], steps[j], id) && states[j].waiting(
                id,
                future,
            ) && states[j + 1].in_poll(id) && forall|k: int|
                i <= k < j ==> !begins(states[k], #[trigger] steps[k], id),
    decreases n - i,
{
    law_runtime_stays_sound(states, steps, i);
    if begins(states[i], steps[i], id) {
        match steps[i] {
            RuntimeStep::Begin { me } => {
                assert(states[i + 1].workers[me] == Activity::Polling(id));
            },
            _ => {},
        }
    } else {
        lemma_step_keeps_scheduled(states[i], steps[i], states[i + 1], id);
        law_scheduled_future_is_polled(states, steps, i + 1, n, id, future);
    }
}

/// Every spawned future is polled: by the time that its task is no longer scheduled, a worker has
/// polled it, as it was when it was spawned.
pub proof fn law_spawned_future_is_polled<F, H>(
    states: Seq<RuntimeState<F, H>>,
    steps: Seq<RuntimeStep<F, H>>,
    i: int,
    n: int,
    future: F,
    handle: H,
)
    requires
        is_run(states, steps),
        0 <= i < n <= steps.len(),
        steps[i] == (RuntimeStep::Spawn { future, handle }),
        !states[n].scheduled(states[i].spawner.next_task),
    ensures
        exists|j: int|
            i < j < n && #[trigger] begins(states[j], steps[j], states[i].spawner.next_task)
                && states[j].waiting(states[i].spawner.next_task, future) && states[j + 1].in_poll(
                states[i].spawner.next_task,
            ),
{
    broadcast use vstd::seq_lib::group_to_multiset_ensures;

    let id = states[i].spawner.next_task;
    law_scheduled_future_is_polled(states, steps, i + 1, n, id, future);
}

/// A future that was polled and is unfinished is polled again once its task has been woken: by the
/// time that the task is no longer scheduled, a worker has polled the future as it was when the
/// task was woken.
pub proof fn law_woken_future_is_polled_again<F, H>(
    states: Seq<RuntimeState<F, H>>,
    steps: Seq<RuntimeStep<F, H>>,
    i: int,
    n: int,
    task: Task,
    handle: H,
    future: F,
)
    requires
        is_run(states, steps),
        0 <= i < n <= steps.len(),
        steps[i] == (RuntimeStep::<F, H>::Wake { task, handle }),
        states[i].waiting(task.id, future),
        !states[n].scheduled(task.id),
    ensures
        exists|j: int|
            i < j < n && #[trigger] begins(states[j], steps[j], task.id) && states[j].waiting(
                task.id,
                future,
            ) && states[j + 1].in_poll(task.id),
{
    broadcast use vstd::seq_lib::group_to_multiset_ensures;

    law_scheduled_future_is_polled(states, steps, i + 1, n, task.id, future);
}

/// A worker that polls stays at it until its poll ends, and has the slot to itself: it stays empty,
/// and no worker turns to the task.
pub proof fn law_poll_has_the_slot_to_itself<F, H>(
    states: Seq<RuntimeState<F, H>>,
    steps: Seq<RuntimeStep<F, H>>,
    i: int,
    n: int,
    me: int,
    id: u64,
)
    requires
        is_run(states, steps),
        0 <= i <= n <= steps.len(),
        0 <= me < states[i].workers.len(),
        states[i].workers[me] == Activity::Polling(id),
        forall|j: int| i <= j < n ==> !ends(#[trigger] steps[j], me),
    ensures
        0 <= me < states[n].workers.len(),
        states[n].workers[me] == Activity::Polling(id),
        states[n].slots.contains_key(id),
        states[n].slots[id] is None,
        forall|j: int| i <= j < n ==> !begins(states[j], #[trigger] steps[j], id),
    decreases n - i,
{
    law_runtime_stays_sound(states, steps, n);
    if i < n {
        law_poll_has_the_slot_to_itself(states, steps, i, n - 1, me, id);
        assert(!ends(steps[n - 1], me));
    }
}

/// A wake during a poll that ends with the future unfinished is not lost: after the poll the task
/// is in a queue, or with a worker that found it there, and the future is in the slot, just as the
/// poll left it.
pub proof fn law_wake_during_poll_is_kept<F, H>(
    states: Seq<RuntimeState<F, H>>,
    steps: Seq<RuntimeStep<F, H>>,
    i: int,
    end: int,
    me: int,
    task: Task,
    handle: H,
    future: F,
)
    requires
        is_run(states, steps),
        0 <= i < end < steps.len(),
        0 <= me < states[i].workers.len(),
        states[i].workers[me] == Activity::Polling(task.id),
        steps[i] == (RuntimeStep::<F, H>::Wake { task, handle }),
        forall|j: int| i < j < end ==> !ends(#[trigger] steps[j], me),
        steps[end] == (RuntimeStep::<F, H>::End { me, polled: (future, Poll::Pending) }),
    ensures
        states[end + 1].scheduled(task.id),
        states[end + 1].waiting(task.id, future),
        (forall|j: int| i < j < end ==> !finds(#[trigger] steps[j], task.id)) ==> states[end
            + 1].queued(task.id) > 0,
{
    broadcast use vstd::seq_lib::group_to_multiset_ensures;

    law_poll_has_the_slot_to_itself(states, steps, i + 1, end, me, task.id);
    law_task_waits_with_its_future(states, steps, i + 1, end, task.id);
    law_runtime_stays_sound(states, steps, end);
    lemma_step_keeps_scheduled(states[end], steps[end], states[end + 1], task.id);
    if forall|j: int| i < j < end ==> !finds(#[trigger] steps[j], task.id) {
        law_queued_until_found(states, steps, i + 1, end, task.id);
    }
}

/// After a wake during a poll that ends with the future unfinished, the future is polled again
/// without a further wake: by the time that the task is no longer scheduled, a worker has polled it
/// after the poll had ended, just as the poll had left it.
pub proof fn law_wake_during_poll_has_it_polled_again<F, H>(
    states: Seq<RuntimeState<F, H>>,
    steps: Seq<RuntimeStep<F, H>>,
    i: int,
    end: int,
    n: int,
    me: int,
    task: Task,
    handle: H,
    future: F,
)
    requires
        is_run(states, steps),
        0 <= i < end < n <= steps.len(),
        0 <= me < states[i].workers.len(),
        states[i].workers[me] == Activity::Polling(task.id),
        steps[i] == (RuntimeStep::<F, H>::Wake { task, handle }),
        forall|j: int| i < j < end ==> !ends(#[trigger] steps[j], me),
        steps[end] == (RuntimeStep::<F, H>::End { me, polled: (future, Poll::Pending) }),
        !states[n].scheduled(task.id),
    ensures
        exists|j: int|
            end < j < n && #[trigger] begins(states[j], steps[j], task.id) && states[j].waiting(
                task.id,
                future,
            ) && states[j + 1].in_poll(task.id),
{
    law_wake_during_poll_is_kept(states, steps, i, end, me, task, handle, future);
    law_scheduled_future_is_polled(states, steps, end + 1, n, task.id, future);
}

/// A future that has finished is never polled again, however often its task is woken.
pub proof fn law_finished_stays_finished<F, H>(
    states: Seq<RuntimeState<F, H>>,
    steps: Seq<RuntimeStep<F, H>>,
    i: int,
    n: int,
    id: u64,
)
    requires
        is_run(states, steps),
        0 <= i <= n <= steps.len(),
        states[i].finished(id),
    ensures
        states[n].finished(id),
    decreases n - i,
{
    if i < n {
        law_finished_stays_finished(states, steps, i, n - 1, id);
        law_runtime_stays_sound(states, steps, n - 1);
        assert(states[n - 1].leads_to(steps[n - 1], states[n]));
    }
}

/// When a worker has found nothing and goes to sleep, and no other worker has a task that it found
/// and has yet to turn to, no poll is still to come: every spawned and every woken task has had it.
pub proof fn law_nothing_scheduled_when_idle<F, H>(
    states: Seq<RuntimeState<F, H>>,
    steps: Seq<RuntimeStep<F, H>>,
    n: int,
    me: int,
    id: u64,
)
    requires
        is_run(states, steps),
        0 <= n < steps.len(),
        steps[n] == (RuntimeStep::<F, H>::Search { me, found: Steal::Empty }),
        forall|other: int|
            0 <= other < states[n].workers.len() ==> #[trigger] states[n].workers[other] !is Found,
    ensures
        !states[n + 1].scheduled(id),
{
    let state = states[n];
    law_runtime_stays_sound(states, steps, n);
    crate::executor::law_no_sleep_while_tasks_wait(
        crate::executor::Queues { locals: state.locals, global: state.spawner.queue },
        me,
        Steal::Empty,
        crate::executor::Queues {
            locals: states[n + 1].locals,
            global: states[n + 1].spawner.queue,
        },
    );
}

/// Every handle that is held is one of the task that it is held for, as `is_of` tells them.
pub open spec fn held_by_task<H>(
    handles: Map<u64, Seq<H>>,
    is_of: spec_fn(u64, H) -> bool,
) -> bool {
    forall|id: u64, k: int|
        0 <= k < crate::handles::handles_of(handles, id).len() ==> is_of(
            id,
            #[trigger] crate::handles::handles_of(handles, id)[k],
        )
}

/// Step `step` hands over no handle but one of the task that it spawns or wakes.
pub open spec fn hands_over_own<F, H>(
    state: RuntimeState<F, H>,
    step: RuntimeStep<F, H>,
    is_of: spec_fn(u64, H) -> bool,
) -> bool {
    match step {
        RuntimeStep::Spawn { future: _, handle } => is_of(state.spawner.next_task, handle),
        RuntimeStep::Wake { task, handle } => is_of(task.id, handle),
        _ => true,
    }
}

/// The handle that comes with a task that was found leads to the future of that task and of no
/// other: if every handle was handed over with its own task, the one that is held last for a task
/// that a worker finds is there, and is one of that task.
pub proof fn law_found_handle_is_of_its_task<F, H>(
    states: Seq<RuntimeState<F, H>>,
    steps: Seq<RuntimeStep<F, H>>,
    n: int,
    id: u64,
    is_of: spec_fn(u64, H) -> bool,
)
    requires
        is_run(states, steps),
        0 <= n < steps.len(),
        held_by_task(states[0].spawner.handles, is_of),
        forall|i: int| 0 <= i < n ==> hands_over_own(states[i], #[trigger] steps[i], is_of),
        finds(steps[n], id),
    ensures
        crate::handles::handles_of(states[n].spawner.handles, id).len() > 0,
        is_of(id, crate::handles::handles_of(states[n].spawner.handles, id).last()),
{
    lemma_handles_stay_held_by_task(states, steps, n, is_of);
    law_runtime_stays_sound(states, steps, n);
    let state = states[n];
    match steps[n] {
        RuntimeStep::Search { me, found } => {
            crate::executor::law_found_task_has_handle(
                state.locals,
                state.spawner,
                me,
                found,
                states[n + 1].locals,
                SpawnerState { queue: states[n + 1].spawner.queue, ..state.spawner },
            );
        },
        _ => {},
    }
}

/// Handles stay with the task that they were handed over with.
proof fn lemma_handles_stay_held_by_task<F, H>(
    states: Seq<RuntimeState<F, H>>,
    steps: Seq<RuntimeStep<F, H>>,
    n: int,
    is_of: spec_fn(u64, H) -> bool,
)
    requires
        is_run(states, steps),
        0 <= n <= steps.len(),
        held_by_task(states[0].spawner.handles, is_of),
        forall|i: int| 0 <= i < n ==> hands_over_own(states[i], #[trigger] steps[i], is_of),
    ensures
        held_by_task(states[n].spawner.handles, is_of),
    decreases n,
{
    if n > 0 {
        lemma_handles_stay_held_by_task(states, steps, n - 1, is_of);
        let before = states[n - 1].spawner.handles;
        let after = states[n].spawner.handles;
        assert(hands_over_own(states[n - 1], steps[n - 1], is_of));
        assert forall|id: u64, k: int|
            0 <= k < crate::handles::handles_of(after, id).len() implies is_of(
            id,
            #[trigger] crate::handles::handles_of(after, id)[k],
        ) by {
            if k < crate::handles::handles_of(before, id).len() {
                assert(is_of(id, crate::handles::handles_of(before, id)[k]));
            }
        }
    }
}

} // verus!
