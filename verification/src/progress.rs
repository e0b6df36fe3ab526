//! That a scheduled task is polled some day, as long as no worker is held up for ever.

use crate::executor::Task;
use crate::queues::Steal;
use crate::runtime::{Activity, RuntimeState, RuntimeStep};
use vstd::prelude::*;

verus! {

/// A place from which a task is still to be polled.
pub enum Place {
    /// A worker has found the task.
    Held { worker: int },
    /// The task is in the queue of a worker, `at` places from the front.
    Local { worker: int, at: int },
    /// The task is in the shared queue, `at` places from the front.
    Shared { at: int },
}

impl Place {
    /// Task `id` is at this place.
    pub open spec fn holds<F, H>(self, state: RuntimeState<F, H>, id: u64) -> bool {
        match self {
            Place::Held { worker } => 0 <= worker < state.workers.len() && state.workers[worker]
                == Activity::Found(id),
            Place::Local { worker, at } => 0 <= worker < state.locals.len() && 0 <= at
                < state.locals[worker].len() && state.locals[worker][at] == id,
            Place::Shared { at } => 0 <= at < state.spawner.queue.len() && state.spawner.queue[at]
                == id,
        }
    }

    /// The worker that brings a task at this place nearer to its poll. For the shared queue any
    /// worker will do.
    pub open spec fn guide(self) -> int {
        match self {
            Place::Held { worker } => worker,
            Place::Local { worker, at: _ } => worker,
            Place::Shared { at: _ } => 0,
        }
    }

    /// How far a task at this place is from its poll, counted in three parts of which the first
    /// weighs most. First, how many tasks leave the shared queue up to the task itself. Then, how
    /// many tasks the worker takes before it from a queue that gets no others until it is empty;
    /// for the shared queue, how many tasks there are to take before the shared queue is the only
    /// one. Last, how far the worker is from its next search.
    pub open spec fn distance<F, H>(self, state: RuntimeState<F, H>) -> (nat, nat, nat) {
        match self {
            Place::Held { worker: _ } => (0, 0, 0),
            Place::Local { worker, at } => (
                1,
                (state.locals[worker].len() - 1 - at) as nat,
                until_search(state.workers[worker]),
            ),
            Place::Shared { at } => (
                (2 + at) as nat,
                crate::executor::local_tasks(state.locals).len(),
                until_search(state.workers[0]),
            ),
        }
    }
}

/// How many steps a worker is away from its next search, at most.
pub open spec fn until_search(activity: Activity) -> nat {
    match activity {
        Activity::Looking => 0,
        Activity::Polling(_) => 1,
        Activity::Found(_) => 2,
    }
}

/// One distance is shorter than another.
pub open spec fn shorter(one: (nat, nat, nat), other: (nat, nat, nat)) -> bool {
    ||| one.0 < other.0
    ||| one.0 == other.0 && one.1 < other.1
    ||| one.0 == other.0 && one.1 == other.1 && one.2 < other.2
}

/// Worker `me` gets on by step `step`: it comes by the slot that it waits for, its poll returns, or
/// its search comes to something other than that an attempt is to be made again.
pub open spec fn acts<F, H>(step: RuntimeStep<F, H>, me: int) -> bool {
    match step {
        RuntimeStep::Search { me: worker, found } => worker == me && found !is Retry,
        RuntimeStep::Begin { me: worker } => worker == me,
        RuntimeStep::End { me: worker, polled: _ } => worker == me,
        _ => false,
    }
}

/// No step takes a scheduled task further from its poll, and each step by which its worker gets on
/// brings it nearer, unless the step is the one that turns a worker to it. So the distance bounds
/// how often that worker gets on before the task is polled or has moved up. The result is the place
/// of the task after the step.
pub proof fn law_scheduled_task_moves_up<F, H>(
    state: RuntimeState<F, H>,
    step: RuntimeStep<F, H>,
    next: RuntimeState<F, H>,
    id: u64,
    place: Place,
) -> (moved: Place)
    requires
        state.sound(),
        state.leads_to(step, next),
        !crate::runtime::begins(state, step, id),
        place.holds(state, id),
    ensures
        moved.holds(next, id),
        shorter(moved.distance(next), place.distance(state)) || moved.distance(next)
            == place.distance(state) && moved.guide() == place.guide() && !acts(
            step,
            place.guide(),
        ),
{
    broadcast use vstd::seq_lib::group_to_multiset_ensures;

    match step {
        RuntimeStep::Search { me, found } => match found {
            Steal::Success(task) => lemma_search_moves_up(state, me, task, next, id, place),
            _ => place,
        },
        _ => place,
    }
}

/// A search that finds a task keeps every other task at its place, or brings it nearer to its poll.
proof fn lemma_search_moves_up<F, H>(
    state: RuntimeState<F, H>,
    me: int,
    task: u64,
    next: RuntimeState<F, H>,
    id: u64,
    place: Place,
) -> (moved: Place)
    requires
        state.sound(),
        state.leads_to(RuntimeStep::Search { me, found: Steal::Success(task) }, next),
        place.holds(state, id),
    ensures
        moved.holds(next, id),
        shorter(moved.distance(next), place.distance(state)) || moved.distance(next)
            == place.distance(state) && moved.guide() == place.guide() && place.guide() != me,
{
    broadcast use vstd::seq_lib::group_to_multiset_ensures;

    let locals = state.locals;
    let global = state.spawner.queue;
    let before = crate::executor::Queues { locals, global };
    let after = crate::executor::Queues { locals: next.locals, global: next.spawner.queue };
    crate::executor::law_search_keeps_tasks(before, me, Steal::Success(task), after);
    assert(before.tasks().len() == after.tasks().len() + 1);
    if locals[me].len() > 0 {
        match place {
            Place::Local { worker, at } if worker == me && at == locals[me].len() - 1 => {
                Place::Held { worker: me }
            },
            _ => place,
        }
    } else if crate::executor::taken_from_peer(locals, task, next.locals) && next.spawner.queue
        == global {
        let j = choose|j: int|
            #[trigger] crate::executor::first_with_task(locals, j) && task == locals[j].first()
                && next.locals == locals.update(j, locals[j].drop_first());
        match place {
            Place::Local { worker, at } if worker == j => if at == 0 {
                Place::Held { worker: me }
            } else {
                Place::Local { worker, at: at - 1 }
            },
            _ => place,
        }
    } else {
        let (taken, queue) = choose|taken: int, queue: Seq<u64>|
            #![trigger crate::queues::batch_taken(
                global,
                locals[me],
                taken,
                task,
                next.spawner.queue,
                queue,
            )]
            crate::queues::batch_taken(
                global,
                locals[me],
                taken,
                task,
                next.spawner.queue,
                queue,
            ) && next.locals == locals.update(me, queue);
        match place {
            Place::Shared { at } => if at == 0 {
                Place::Held { worker: me }
            } else if at < taken {
                Place::Local { worker: me, at: taken - 1 - at }
            } else {
                Place::Shared { at: at - taken }
            },
            _ => place,
        }
    }
}

/// The runtime goes through `states` for ever, from each to the next by one of `steps`, and was
/// sound at first.
pub open spec fn is_endless_run<F, H>(
    states: spec_fn(nat) -> RuntimeState<F, H>,
    steps: spec_fn(nat) -> RuntimeStep<F, H>,
) -> bool {
    &&& states(0).sound()
    &&& forall|i: nat|
        #![trigger steps(i)]
        states(i).leads_to(steps(i), states(i + 1))
}

/// Worker `me` gets on by step `i` or a later one.
pub open spec fn gets_on<F, H>(
    steps: spec_fn(nat) -> RuntimeStep<F, H>,
    me: int,
    i: nat,
) -> bool {
    exists|j: nat| i <= j && #[trigger] acts(steps(j), me)
}

/// There are workers, and none is held up for ever: its thread is run, it comes by the slot that it
/// waits for, its polls return, and its attempts at the shared queue do not fail for ever.
pub open spec fn is_fair<F, H>(
    states: spec_fn(nat) -> RuntimeState<F, H>,
    steps: spec_fn(nat) -> RuntimeStep<F, H>,
) -> bool {
    &&& states(0).workers.len() > 0
    &&& forall|me: int, i: nat|
        0 <= me < states(0).workers.len() ==> #[trigger] gets_on(steps, me, i)
}

/// The first `n` steps of an endless run are a run.
proof fn lemma_first_steps<F, H>(
    states: spec_fn(nat) -> RuntimeState<F, H>,
    steps: spec_fn(nat) -> RuntimeStep<F, H>,
    n: nat,
)
    requires
        is_endless_run(states, steps),
    ensures
        crate::runtime::is_run(
            Seq::new(n + 1, |i: int| states(i as nat)),
            Seq::new(n, |i: int| steps(i as nat)),
        ),
        states(n).sound(),
        states(n).workers.len() == states(0).workers.len(),
{
    let first_states = Seq::new(n + 1, |i: int| states(i as nat));
    let first_steps = Seq::new(n, |i: int| steps(i as nat));
    crate::runtime::law_runtime_stays_sound(first_states, first_steps, n as int);
}

/// A task in the queue of a worker has a place there.
proof fn lemma_local_task_has_place(locals: Seq<Seq<u64>>, id: u64) -> (place: (int, int))
    requires
        crate::executor::local_tasks(locals).count(id) > 0,
    ensures
        0 <= place.0 < locals.len(),
        0 <= place.1 < locals[place.0].len(),
        locals[place.0][place.1] == id,
    decreases locals.len(),
{
    broadcast use vstd::seq_lib::group_to_multiset_ensures;

    if locals.last().to_multiset().count(id) > 0 {
        (locals.len() - 1, locals.last().index_of(id))
    } else {
        lemma_local_task_has_place(locals.drop_last(), id)
    }
}

/// A scheduled task has a place from which it is still to be polled.
pub proof fn law_scheduled_task_has_place<F, H>(state: RuntimeState<F, H>, id: u64)
    requires
        state.sound(),
    ensures
        state.scheduled(id) ==> exists|place: Place| #[trigger] place.holds(state, id),
{
    broadcast use vstd::seq_lib::group_to_multiset_ensures;

    if state.queued(id) > 0 {
        if crate::executor::local_tasks(state.locals).count(id) > 0 {
            let (worker, at) = lemma_local_task_has_place(state.locals, id);
            assert((Place::Local { worker, at }).holds(state, id));
        } else {
            let at = state.spawner.queue.index_of(id);
            assert((Place::Shared { at }).holds(state, id));
        }
    } else if state.scheduled(id) {
        let worker = choose|me: int|
            0 <= me < state.workers.len() && #[trigger] state.workers[me] == Activity::Found(id);
        assert((Place::Held { worker }).holds(state, id));
    }
}

/// The poll that a worker is at ends.
proof fn lemma_poll_ends<F, H>(
    states: spec_fn(nat) -> RuntimeState<F, H>,
    steps: spec_fn(nat) -> RuntimeStep<F, H>,
    i: nat,
    me: int,
    id: u64,
) -> (end: nat)
    requires
        is_endless_run(states, steps),
        is_fair(states, steps),
        0 <= me < states(i).workers.len(),
        states(i).workers[me] == Activity::Polling(id),
    ensures
        i <= end,
        crate::runtime::ends(steps(end), me),
        states(end).workers[me] == Activity::Polling(id),
        forall|h: nat| i <= h < end ==> !crate::runtime::ends(#[trigger] steps(h), me),
{
    lemma_first_steps(states, steps, i);
    assert(gets_on(steps, me, i));
    let j = choose|j: nat| i <= j && #[trigger] acts(steps(j), me);
    lemma_poll_ends_by(states, steps, i, me, id, j)
}

/// The poll that a worker is at ends by the time that the worker has got on.
proof fn lemma_poll_ends_by<F, H>(
    states: spec_fn(nat) -> RuntimeState<F, H>,
    steps: spec_fn(nat) -> RuntimeStep<F, H>,
    i: nat,
    me: int,
    id: u64,
    j: nat,
) -> (end: nat)
    requires
        is_endless_run(states, steps),
        0 <= me < states(i).workers.len(),
        states(i).workers[me] == Activity::Polling(id),
        i <= j,
        acts(steps(j), me),
    ensures
        i <= end,
        crate::runtime::ends(steps(end), me),
        states(end).workers[me] == Activity::Polling(id),
        forall|h: nat| i <= h < end ==> !crate::runtime::ends(#[trigger] steps(h), me),
    decreases j - i,
{
    if crate::runtime::ends(steps(i), me) {
        i
    } else {
        lemma_poll_ends_by(states, steps, i + 1, me, id, j)
    }
}

/// A task at a place is polled some day: its worker gets on by step `j`.
proof fn lemma_polled_some_day<F, H>(
    states: spec_fn(nat) -> RuntimeState<F, H>,
    steps: spec_fn(nat) -> RuntimeStep<F, H>,
    i: nat,
    id: u64,
    place: Place,
    j: nat,
) -> (k: nat)
    requires
        is_endless_run(states, steps),
        is_fair(states, steps),
        place.holds(states(i), id),
        i <= j,
        acts(steps(j), place.guide()),
    ensures
        i <= k,
        crate::runtime::begins(states(k), steps(k), id),
        forall|h: nat|
            i <= h < k ==> !crate::runtime::begins(states(h), #[trigger] steps(h), id),
    decreases
            place.distance(states(i)).0,
            place.distance(states(i)).1,
            place.distance(states(i)).2,
            j - i,
{
    if crate::runtime::begins(states(i), steps(i), id) {
        i
    } else {
        lemma_first_steps(states, steps, i);
        lemma_first_steps(states, steps, i + 1);
        let moved = law_scheduled_task_moves_up(states(i), steps(i), states(i + 1), id, place);
        if shorter(moved.distance(states(i + 1)), place.distance(states(i))) {
            assert(gets_on(steps, moved.guide(), i + 1));
            let later = choose|later: nat|
                i + 1 <= later && #[trigger] acts(steps(later), moved.guide());
            lemma_polled_some_day(states, steps, i + 1, id, moved, later)
        } else {
            lemma_polled_some_day(states, steps, i + 1, id, moved, j)
        }
    }
}

/// The future of a scheduled task is polled some day, as it is in the slot now. The first worker
/// that turns to the task from now on polls that very future.
pub proof fn law_scheduled_future_is_polled_some_day<F, H>(
    states: spec_fn(nat) -> RuntimeState<F, H>,
    steps: spec_fn(nat) -> RuntimeStep<F, H>,
    i: nat,
    id: u64,
    future: F,
)
    requires
        is_endless_run(states, steps),
        is_fair(states, steps),
        states(i).scheduled(id),
        states(i).waiting(id, future),
    ensures
        exists|k: nat|
            i <= k && #[trigger] crate::runtime::begins(states(k), steps(k), id)
                && states(k).waiting(id, future) && states(k + 1).in_poll(id),
{
    lemma_first_steps(states, steps, i);
    law_scheduled_task_has_place(states(i), id);
    let place = choose|place: Place| #[trigger] place.holds(states(i), id);
    assert(gets_on(steps, place.guide(), i));
    let j = choose|j: nat| i <= j && #[trigger] acts(steps(j), place.guide());
    let k = lemma_polled_some_day(states, steps, i, id, place, j);
    lemma_first_steps(states, steps, k + 1);
    let first_states = Seq::new(k + 2, |n: int| states(n as nat));
    let first_steps = Seq::new(k + 1, |n: int| steps(n as nat));
    crate::runtime::law_task_waits_with_its_future(
        first_states,
        first_steps,
        i as int,
        k as int,
        id,
    );
    match steps(k) {
        RuntimeStep::Begin { me } => {
            assert(states(k + 1).workers[me] == Activity::Polling(id));
        },
        _ => {},
    }
}

/// Every spawned future is polled some day, as it was when it was spawned.
pub proof fn law_spawned_future_is_polled_some_day<F, H>(
    states: spec_fn(nat) -> RuntimeState<F, H>,
    steps: spec_fn(nat) -> RuntimeStep<F, H>,
    i: nat,
    future: F,
    handle: H,
)
    requires
        is_endless_run(states, steps),
        is_fair(states, steps),
        steps(i) == (RuntimeStep::Spawn { future, handle }),
    ensures
        exists|k: nat|
            i < k && #[trigger] crate::runtime::begins(
                states(k),
                steps(k),
                states(i).spawner.next_task,
            ) && states(k).waiting(states(i).spawner.next_task, future) && states(k + 1).in_poll(
                states(i).spawner.next_task,
            ),
{
    broadcast use vstd::seq_lib::group_to_multiset_ensures;

    let id = states(i).spawner.next_task;
    law_scheduled_future_is_polled_some_day(states, steps, i + 1, id, future);
}

/// A future that was polled and is unfinished is polled again some day once its task has been
/// woken, as it was when the task was woken.
pub proof fn law_woken_future_is_polled_some_day<F, H>(
    states: spec_fn(nat) -> RuntimeState<F, H>,
    steps: spec_fn(nat) -> RuntimeStep<F, H>,
    i: nat,
    task: Task,
    handle: H,
    future: F,
)
    requires
        is_endless_run(states, steps),
        is_fair(states, steps),
        steps(i) == (RuntimeStep::<F, H>::Wake { task, handle }),
        states(i).waiting(task.id, future),
    ensures
        exists|k: nat|
            i < k && #[trigger] crate::runtime::begins(states(k), steps(k), task.id)
                && states(k).waiting(task.id, future) && states(k + 1).in_poll(task.id),
{
    broadcast use vstd::seq_lib::group_to_multiset_ensures;

    law_scheduled_future_is_polled_some_day(states, steps, i + 1, task.id, future);
}

/// The unfinished future that a poll that ends by step `step` leaves behind.
pub open spec fn left_behind<F, H>(step: RuntimeStep<F, H>) -> Option<F> {
    match step {
        RuntimeStep::End { me: _, polled } => crate::executor::unfinished(polled),
        _ => None,
    }
}

/// A wake during a poll is not lost: the poll ends, and if it leaves the future unfinished, that
/// future is polled again some day after it, just as the poll left it, without a further wake.
pub proof fn law_wake_during_poll_has_it_polled_some_day<F, H>(
    states: spec_fn(nat) -> RuntimeState<F, H>,
    steps: spec_fn(nat) -> RuntimeStep<F, H>,
    i: nat,
    me: int,
    task: Task,
    handle: H,
)
    requires
        is_endless_run(states, steps),
        is_fair(states, steps),
        steps(i) == (RuntimeStep::<F, H>::Wake { task, handle }),
        0 <= me < states(i).workers.len(),
        states(i).workers[me] == Activity::Polling(task.id),
    ensures
        exists|end: nat|
            i < end && #[trigger] crate::runtime::ends(steps(end), me)
                && states(end).workers[me] == Activity::Polling(task.id) && (left_behind(
                steps(end),
            ) matches Some(future) ==> exists|k: nat|
                end < k && #[trigger] crate::runtime::begins(states(k), steps(k), task.id)
                    && states(k).waiting(task.id, future) && states(k + 1).in_poll(task.id)),
{
    let end = lemma_poll_ends(states, steps, i + 1, me, task.id);
    match steps(end) {
        RuntimeStep::End { me: _, polled } => {
            if polled.1 is Pending {
                lemma_first_steps(states, steps, end + 1);
                let first_states = Seq::new(end + 2, |n: int| states(n as nat));
                let first_steps = Seq::new(end + 1, |n: int| steps(n as nat));
                crate::runtime::law_wake_during_poll_is_kept(
                    first_states,
                    first_steps,
                    i as int,
                    end as int,
                    me,
                    task,
                    handle,
                    polled.0,
                );
                law_scheduled_future_is_polled_some_day(
                    states,
                    steps,
                    end + 1,
                    task.id,
                    polled.0,
                );
            }
        },
        _ => {},
    }
}

} // verus!
