//! The scheduler: every worker has a queue of its own, takes tasks from the shared queue when that
//! is empty, and steals from the other workers when an attempt at the shared queue gives none.

use crate::counter::fetch_next;
use crate::handles::HandleTable;
use crate::queues::{
    attempt_shared, inject, new_injector, new_lifo, pop, steal, stealer, Steal,
};
use crossbeam_deque::{Injector, Stealer, Worker};
use vstd::multiset::Multiset;
use vstd::prelude::*;

verus! {

/// How many workers there are.
pub const NUM_THREADS: usize = 5;

/// How long a worker that found no task sleeps, in milliseconds.
pub const IDLE_MILLIS: u64 = 5;

/// A task: what goes through the queues in place of the future that it stands for.
#[derive(Clone, Copy, Debug, PartialEq, Eq, Structural)]
pub struct Task {
    pub id: u64,
}

/// The future of a task, as long as it is neither finished nor being polled.
pub struct FutureSlot<F> {
    future: Option<F>,
}

/// How far a future has come.
#[derive(Debug, PartialEq, Eq)]
pub enum Poll<T> {
    /// It is finished, with a result.
    Ready(T),
    /// It waits for something.
    Pending,
}

/// What a worker does next.
#[derive(Debug, PartialEq, Eq)]
pub enum Turn<H> {
    /// Poll the future of a task, by a handle of it.
    Poll(Task, H),
    /// Look for a task again at once.
    Retry,
    /// Sleep for a number of milliseconds, then look for a task again.
    Sleep(u64),
}

/// The scheduler's own queues.
pub struct Executor {
    task_receiver: Vec<Worker<u64>>,
    task_stealer: Vec<Stealer<u64>>,
}

/// The queue through which tasks reach the scheduler: newly spawned ones, and woken ones. For every
/// place that a task has in this queue or in one of the scheduler's own, a handle of it is held.
pub struct Spawner<H> {
    task_sender: Injector<u64>,
    next_task: u64,
    queued: HandleTable<H>,
}

/// The shared queue as its callers see it.
#[verifier::ext_equal]
pub struct SpawnerState<H> {
    /// The tasks that wait for a worker, the one that entered first at the front.
    pub queue: Seq<u64>,
    /// The number of the task that is spawned next.
    pub next_task: u64,
    /// The handles of the tasks in all queues.
    pub handles: Map<u64, Seq<H>>,
}

impl<H> SpawnerState<H> {
    /// A task has entered the queue, and a handle of it is held.
    pub open spec fn enqueue(self, task: Task, handle: H) -> SpawnerState<H> {
        SpawnerState {
            queue: self.queue.push(task.id),
            handles: crate::handles::with_held(self.handles, task.id, handle),
            ..self
        }
    }

    /// The next task has been made with `handle`, and has entered the queue.
    pub open spec fn spawn(self, handle: H) -> SpawnerState<H> {
        SpawnerState {
            next_task: crate::counter::next(self.next_task),
            ..self.enqueue(Task { id: self.next_task }, handle)
        }
    }

    /// A handle of a task has been handed out.
    pub open spec fn release(self, task: Task) -> SpawnerState<H> {
        SpawnerState { handles: crate::handles::with_released(self.handles, task.id), ..self }
    }
}

/// No worker has a task.
pub open spec fn all_empty(locals: Seq<Seq<u64>>) -> bool {
    forall|i: int| 0 <= i < locals.len() ==> (#[trigger] locals[i]).len() == 0
}

/// Worker `j` is the first that has a task.
pub open spec fn first_with_task(locals: Seq<Seq<u64>>, j: int) -> bool {
    &&& 0 <= j < locals.len()
    &&& locals[j].len() > 0
    &&& forall|i: int| 0 <= i < j ==> (#[trigger] locals[i]).len() == 0
}

/// The task at the back of the queue of worker `me` was taken.
pub open spec fn taken_from_own(
    locals: Seq<Seq<u64>>,
    me: int,
    task: u64,
    locals_after: Seq<Seq<u64>>,
) -> bool {
    &&& locals[me].len() > 0
    &&& task == locals[me].last()
    &&& locals_after == locals.update(me, locals[me].drop_last())
}

/// The task at the front of the shared queue was taken, and some that came after it went to worker
/// `me`.
pub open spec fn taken_from_shared(
    locals: Seq<Seq<u64>>,
    me: int,
    global: Seq<u64>,
    task: u64,
    locals_after: Seq<Seq<u64>>,
    global_after: Seq<u64>,
) -> bool {
    exists|taken: int, local_after: Seq<u64>|
        #![trigger crate::queues::batch_taken(
            global,
            locals[me],
            taken,
            task,
            global_after,
            local_after,
        )]
        crate::queues::batch_taken(global, locals[me], taken, task, global_after, local_after)
            && locals_after == locals.update(me, local_after)
}

/// The task at the front of the queue of the first worker that has one was taken.
pub open spec fn taken_from_peer(
    locals: Seq<Seq<u64>>,
    task: u64,
    locals_after: Seq<Seq<u64>>,
) -> bool {
    exists|j: int|
        #[trigger] first_with_task(locals, j) && task == locals[j].first() && locals_after
            == locals.update(j, locals[j].drop_first())
}

/// What worker `me` may find. Its own queue comes first. When that is empty, the task is from the
/// shared queue or from that of the first worker that has one. Which of the two depends on what an
/// attempt at the shared queue comes to, and this relation leaves it open: an attempt at a shared
/// queue that has tasks can fail. `found_by_attempt` fixes the order: for every outcome of the
/// attempt that was made, it says what is found.
pub open spec fn search(
    locals: Seq<Seq<u64>>,
    me: int,
    global: Seq<u64>,
    found: Steal,
    locals_after: Seq<Seq<u64>>,
    global_after: Seq<u64>,
) -> bool {
    match found {
        Steal::Success(task) => if locals[me].len() > 0 {
            taken_from_own(locals, me, task, locals_after) && global_after == global
        } else {
            ||| taken_from_shared(locals, me, global, task, locals_after, global_after)
            ||| taken_from_peer(locals, task, locals_after) && global_after == global
        },
        Steal::Empty => {
            &&& all_empty(locals)
            &&& global.len() == 0
            &&& locals_after == locals
            &&& global_after == global
        },
        Steal::Retry => {
            &&& all_empty(locals)
            &&& global.len() > 0
            &&& locals_after == locals
            &&& global_after == global
        },
    }
}

/// What worker `me`, without tasks of its own, found once an attempt at the shared queue had been
/// made: the task that the attempt gave, and else the one at the front of the queue of the first
/// worker that has any. If none has, the outcome of the attempt stands.
pub open spec fn found_by_attempt(
    locals: Seq<Seq<u64>>,
    me: int,
    global: Seq<u64>,
    found: Steal,
    locals_after: Seq<Seq<u64>>,
    global_after: Seq<u64>,
) -> bool {
    exists|attempt: Steal| #[trigger]
        crate::queues::attempted(global, locals[me], attempt) && match attempt {
            Steal::Success(task) => found == attempt && taken_from_shared(
                locals,
                me,
                global,
                task,
                locals_after,
                global_after,
            ),
            _ => {
                &&& global_after == global
                &&& if all_empty(locals) {
                    found == attempt && locals_after == locals
                } else {
                    found is Success && taken_from_peer(locals, found->Success_0, locals_after)
                }
            },
        }
}

/// What a worker found that does `turn` next.
pub open spec fn found_before<H>(turn: Turn<H>) -> Steal {
    match turn {
        Turn::Poll(task, _) => Steal::Success(task.id),
        Turn::Retry => Steal::Retry,
        Turn::Sleep(_) => Steal::Empty,
    }
}

/// The queues of the workers `workers`.
spec fn tasks_of_workers(workers: Seq<Worker<u64>>) -> Seq<Seq<u64>> {
    Seq::new(workers.len(), |i: int| crate::queues::worker_tasks(workers[i]))
}

/// Every worker takes the task that entered its queue last, and stealer `i` steals from worker
/// `i`.
spec fn paired(workers: Seq<Worker<u64>>, stealers: Seq<Stealer<u64>>) -> bool {
    &&& workers.len() == stealers.len()
    &&& forall|i: int|
        0 <= i < workers.len() ==> crate::queues::is_lifo(#[trigger] workers[i])
            && crate::queues::steals_from(stealers[i], workers[i])
}

impl View for Executor {
    type V = Seq<Seq<u64>>;

    /// The queue of every worker, the task that entered first at the front. The stealers hold
    /// nothing of their own: that each of them reaches into the queue of its worker is part of
    /// `Executor::wf`.
    closed spec fn view(&self) -> Seq<Seq<u64>> {
        tasks_of_workers(self.task_receiver@)
    }
}

impl<H> View for Spawner<H> {
    type V = SpawnerState<H>;

    closed spec fn view(&self) -> SpawnerState<H> {
        SpawnerState {
            queue: crate::queues::injected_tasks(self.task_sender),
            next_task: self.next_task,
            handles: self.queued@,
        }
    }
}

/// A scheduler without tasks, and the queue through which it gets them.
pub fn new_executor_and_spawner<H>() -> (made: (Executor, Spawner<H>))
    ensures
        made.0.wf(),
        made.0@ == Seq::new(NUM_THREADS as nat, |i: int| Seq::<u64>::empty()),
        made.1@.queue == Seq::<u64>::empty(),
        made.1@.next_task == 0,
        (made.1@.handles == Map::<u64, Seq<H>>::empty()),
        accounted(made.0@, made.1@),
{
    let task_sender: Injector<u64> = new_injector();
    let mut task_receiver: Vec<Worker<u64>> = Vec::new();
    let mut task_stealer: Vec<Stealer<u64>> = Vec::new();
    for i in 0..NUM_THREADS
        invariant
            task_receiver@.len() == i,
            paired(task_receiver@, task_stealer@),
            forall|j: int|
                0 <= j < i ==> crate::queues::worker_tasks(#[trigger] task_receiver@[j]) == Seq::<
                    u64,
                >::empty(),
    {
        let worker: Worker<u64> = new_lifo();
        task_stealer.push(stealer(&worker));
        task_receiver.push(worker);
    }
    let executor: Executor = Executor { task_receiver, task_stealer };
    let spawner: Spawner<H> = Spawner { task_sender, next_task: 0, queued: HandleTable::new() };
    proof {
        law_all_empty_is_no_task(executor@);
    }
    (executor, spawner)
}

impl<H> Spawner<H> {
    /// Makes a task of a future and queues it. `make` gets the task and the slot with its future,
    /// and makes the handle by which a worker reaches them.
    pub fn spawn<F, M: FnOnce(Task, FutureSlot<F>) -> H>(&mut self, future: F, make: M) -> (task:
        Task)
        requires
            forall|slot: FutureSlot<F>| #[trigger]
                slot@ == Some(future) ==> call_requires(
                    make,
                    (Task { id: old(self)@.next_task }, slot),
                ),
        ensures
            task.id == old(self)@.next_task,
            exists|slot: FutureSlot<F>, handle: H| #[trigger]
                call_ensures(make, (task, slot), handle) && slot@ == Some(future) && final(self)@
                    == old(self)@.spawn(handle),
            forall|locals: Seq<Seq<u64>>|
                accounted(locals, old(self)@) ==> #[trigger] accounted(locals, final(self)@),
    {
        let ghost before = self@;
        let task: Task = Task { id: fetch_next(&mut self.next_task) };
        let handle: H = make(task, FutureSlot { future: Some(future) });
        inject(&mut self.task_sender, task.id);
        self.queued.hold(task.id, handle);
        proof {
            assert forall|locals: Seq<Seq<u64>>| accounted(locals, before) implies #[trigger]
            accounted(locals, self@) by {
                law_enqueued_task_has_handle(locals, before, task, handle);
            }
        }
        task
    }

    /// Hands out a handle of a task that has left its queue, if one is held.
    pub fn release(&mut self, task: Task) -> (handle: Option<H>)
        ensures
            final(self)@ == old(self)@.release(task),
            handle == (if crate::handles::handles_of(old(self)@.handles, task.id).len() > 0 {
                Some(crate::handles::handles_of(old(self)@.handles, task.id).last())
            } else {
                None
            }),
    {
        self.queued.release(task.id)
    }
}

impl Task {
    /// Queues the task again, with a handle of it, so that its future is polled again.
    pub fn wake_by_ref<H>(&self, handle: H, spawner: &mut Spawner<H>)
        ensures
            final(spawner)@ == old(spawner)@.enqueue(*self, handle),
            forall|locals: Seq<Seq<u64>>|
                accounted(locals, old(spawner)@) ==> #[trigger] accounted(locals, final(spawner)@),
    {
        let ghost before = spawner@;
        inject(&mut spawner.task_sender, self.id);
        spawner.queued.hold(self.id, handle);
        proof {
            assert forall|locals: Seq<Seq<u64>>| accounted(locals, before) implies #[trigger]
            accounted(locals, spawner@) by {
                law_enqueued_task_has_handle(locals, before, *self, handle);
            }
        }
    }
}

/// A handle is held for every place that a task has in a queue, and for nothing else: neither is a
/// task found that nothing stands behind, nor is a handle kept that no worker will find.
pub open spec fn accounted<H>(locals: Seq<Seq<u64>>, spawner: SpawnerState<H>) -> bool {
    forall|id: u64|
        (Queues { locals, global: spawner.queue }).tasks().count(id)
            == #[trigger] crate::handles::handles_of(spawner.handles, id).len()
}

/// Worker `me` looked for a task and does `turn` next. If it found one, it has the handle of it
/// that was held last, which is then no longer held; if not, it sleeps for the time that an idle
/// worker does, unless an attempt is to be made again.
pub open spec fn turn_taken<H>(
    locals: Seq<Seq<u64>>,
    spawner: SpawnerState<H>,
    me: int,
    turn: Turn<H>,
    locals_after: Seq<Seq<u64>>,
    spawner_after: SpawnerState<H>,
) -> bool {
    &&& search(
        locals,
        me,
        spawner.queue,
        found_before(turn),
        locals_after,
        spawner_after.queue,
    )
    &&& spawner_after.next_task == spawner.next_task
    &&& match turn {
        Turn::Poll(task, handle) => {
            let handles = crate::handles::handles_of(spawner.handles, task.id);
            &&& handles.len() > 0
            &&& handle == handles.last()
            &&& spawner_after.handles == crate::handles::with_released(spawner.handles, task.id)
        },
        Turn::Retry => spawner_after.handles == spawner.handles,
        Turn::Sleep(millis) => millis == IDLE_MILLIS && spawner_after.handles == spawner.handles,
    }
}

impl Executor {
    /// There is a queue for every worker, each is taken from at the back by its worker, and each
    /// has its stealer.
    pub closed spec fn wf(&self) -> bool {
        &&& self.task_receiver@.len() == NUM_THREADS
        &&& paired(self.task_receiver@, self.task_stealer@)
    }

    /// What a worker with an empty queue finds once an attempt at the shared queue has come to
    /// `attempt`. If the attempt gave a task, that is the one, and no worker is looked at.
    /// Otherwise it is the task at the front of the queue of the first worker that has one. If none
    /// has, the outcome of the attempt stands: it is to be made again, or there is no task
    /// anywhere.
    pub fn after_shared_attempt(&mut self, attempt: Steal) -> (found: Steal)
        requires
            old(self).wf(),
        ensures
            final(self).wf(),
            if attempt is Success || all_empty(old(self)@) {
                found == attempt && final(self)@ == old(self)@
            } else {
                found is Success && taken_from_peer(old(self)@, found->Success_0, final(self)@)
            },
    {
        match attempt {
            Steal::Success(_) => {
                return attempt;
            },
            _ => {},
        }
        let ghost locals = self@;
        let mut j: usize = 0;
        while j < NUM_THREADS
            invariant
                self.wf(),
                j <= NUM_THREADS,
                self@ == locals,
                locals == old(self)@,
                attempt !is Success,
                forall|i: int| 0 <= i < j ==> (#[trigger] locals[i]).len() == 0,
            decreases NUM_THREADS - j,
        {
            match steal(&self.task_stealer[j], &mut self.task_receiver[j]) {
                Steal::Success(task) => {
                    proof {
                        assert(first_with_task(locals, j as int));
                        assert(self@ =~= locals.update(j as int, locals[j as int].drop_first()));
                    }
                    return Steal::Success(task);
                },
                _ => {},
            }
            j = j + 1;
        }
        attempt
    }

    /// Looks for a task for worker `me`: in its own queue; else in the shared queue, from which a
    /// batch goes to its own; else in the queues of all workers, in order. An attempt at the shared
    /// queue that is to be made again does not stop the search, but has the search repeated if it
    /// finds nothing. A task that is found leaves its queue; its handle stays held until
    /// `Spawner::release` hands it out.
    pub fn find_task<H>(&mut self, me: usize, spawner: &mut Spawner<H>) -> (found: Steal)
        requires
            old(self).wf(),
            me < NUM_THREADS,
        ensures
            final(self).wf(),
            final(spawner)@ == (SpawnerState { queue: final(spawner)@.queue, ..old(spawner)@ }),
            search(
                old(self)@,
                me as int,
                old(spawner)@.queue,
                found,
                final(self)@,
                final(spawner)@.queue,
            ),
            old(self)@[me as int].len() == 0 ==> found_by_attempt(
                old(self)@,
                me as int,
                old(spawner)@.queue,
                found,
                final(self)@,
                final(spawner)@.queue,
            ),
            (Queues { locals: old(self)@, global: old(spawner)@.queue }).tasks() == (match found {
                Steal::Success(task) => (Queues {
                    locals: final(self)@,
                    global: final(spawner)@.queue,
                }).tasks().insert(task),
                _ => (Queues { locals: final(self)@, global: final(spawner)@.queue }).tasks(),
            }),
    {
        let ghost before = Queues { locals: self@, global: spawner@.queue };
        let found: Steal = match pop(&mut self.task_receiver[me]) {
            Some(task) => {
                proof {
                    assert(self@ =~= before.locals.update(
                        me as int,
                        before.locals[me as int].drop_last(),
                    ));
                }
                Steal::Success(task)
            },
            None => {
                let attempt: Steal = attempt_shared(
                    &mut spawner.task_sender,
                    &mut self.task_receiver[me],
                );
                proof {
                    assert(self@ =~= before.locals.update(me as int, self@[me as int]));
                    assert(attempt !is Success ==> self@ =~= before.locals);
                }
                self.after_shared_attempt(attempt)
            },
        };
        proof {
            let after = Queues { locals: self@, global: spawner@.queue };
            law_search_keeps_tasks(before, me as int, found, after);
        }
        found
    }

    /// What worker `me` does next: it polls the task that it finds, looks again where an attempt
    /// is to be made again, or sleeps when there is no task anywhere. With the task it gets the
    /// handle of it that was held last.
    pub fn run<H>(&mut self, me: usize, spawner: &mut Spawner<H>) -> (turn: Turn<H>)
        requires
            old(self).wf(),
            accounted(old(self)@, old(spawner)@),
            me < NUM_THREADS,
        ensures
            final(self).wf(),
            accounted(final(self)@, final(spawner)@),
            turn_taken(old(self)@, old(spawner)@, me as int, turn, final(self)@, final(spawner)@),
            old(self)@[me as int].len() == 0 ==> found_by_attempt(
                old(self)@,
                me as int,
                old(spawner)@.queue,
                found_before(turn),
                final(self)@,
                final(spawner)@.queue,
            ),
    {
        let ghost locals = self@;
        let ghost before = spawner@;
        let found: Steal = self.find_task(me, spawner);
        let ghost searched = spawner@;
        proof {
            law_found_task_has_handle(locals, before, me as int, found, self@, searched);
        }
        match found {
            Steal::Success(id) => {
                let task: Task = Task { id };
                let handle: H = spawner.release(task).unwrap();
                Turn::Poll(task, handle)
            },
            Steal::Retry => Turn::Retry,
            Steal::Empty => Turn::Sleep(IDLE_MILLIS),
        }
    }
}

impl<F> View for FutureSlot<F> {
    type V = Option<F>;

    closed spec fn view(&self) -> Option<F> {
        self.future
    }
}

/// What remains of a future that was polled: the future, if it has yet to finish.
pub open spec fn unfinished<F>(polled: (F, Poll<()>)) -> Option<F> {
    match polled.1 {
        Poll::Pending => Some(polled.0),
        Poll::Ready(_) => None,
    }
}

/// A slot was polled. Without a future in it no poll took place, and it stays empty. With one, a
/// poll took place, came to `polled`, and left behind what remains of the future.
pub open spec fn slot_polled<F>(
    slot: Option<F>,
    polled: Option<(F, Poll<()>)>,
    slot_after: Option<F>,
) -> bool {
    match polled {
        None => slot is None && slot_after is None,
        Some(polled) => slot is Some && slot_after == unfinished(polled),
    }
}

impl<F> FutureSlot<F> {
    /// Polls the future, if there is one: `poll` gets it, and gives it back with how far it has
    /// come. A future that has yet to finish is put back to be polled again. Without a future
    /// `poll` is not called. Says whether the task is finished.
    pub fn poll<P: FnOnce(F) -> (F, Poll<()>)>(&mut self, poll: P) -> (finished: bool)
        requires
            forall|future: F| old(self)@ == Some(future) ==> call_requires(poll, (future,)),
        ensures
            finished == (final(self)@ is None),
            match old(self)@ {
                None => slot_polled(old(self)@, None, final(self)@),
                Some(future) => exists|polled: (F, Poll<()>)|
                    #[trigger] call_ensures(poll, (future,), polled) && slot_polled(
                        old(self)@,
                        Some(polled),
                        final(self)@,
                    ),
            },
    {
        match self.future.take() {
            Some(future) => {
                let polled: (F, Poll<()>) = poll(future);
                match polled.1 {
                    Poll::Pending => {
                        self.future = Some(polled.0);
                        false
                    },
                    Poll::Ready(_) => true,
                }
            },
            None => true,
        }
    }
}

/// All queues of a scheduler.
#[verifier::ext_equal]
pub struct Queues {
    /// The queue of every worker.
    pub locals: Seq<Seq<u64>>,
    /// The shared queue.
    pub global: Seq<u64>,
}

/// What can happen to the queues of a scheduler.
pub enum Step {
    /// A task was spawned or woken.
    Enqueue(Task),
    /// Worker `me` looked for a task.
    Search { me: int, found: Steal },
}

/// The tasks in the queues of workers, with how often each of them is there.
pub open spec fn local_tasks(locals: Seq<Seq<u64>>) -> Multiset<u64>
    decreases locals.len(),
{
    if locals.len() == 0 {
        Multiset::empty()
    } else {
        local_tasks(locals.drop_last()).add(locals.last().to_multiset())
    }
}

impl Queues {
    /// The tasks in all queues, with how often each of them is there.
    pub open spec fn tasks(self) -> Multiset<u64> {
        local_tasks(self.locals).add(self.global.to_multiset())
    }

    /// One step may lead from these queues to `next`.
    pub open spec fn leads_to(self, step: Step, next: Queues) -> bool {
        match step {
            Step::Enqueue(task) => next == (Queues {
                locals: self.locals,
                global: self.global.push(task.id),
            }),
            Step::Search { me, found } => 0 <= me < self.locals.len() && search(
                self.locals,
                me,
                self.global,
                found,
                next.locals,
                next.global,
            ),
        }
    }
}

/// The queues went through `states`, from each to the next by one of `steps`.
pub open spec fn is_history(states: Seq<Queues>, steps: Seq<Step>) -> bool {
    &&& states.len() == steps.len() + 1
    &&& forall|i: int|
        #![trigger steps[i]]
        0 <= i < steps.len() ==> states[i].leads_to(steps[i], states[i + 1])
}

/// The tasks that entered the queues in the course of `steps`.
pub open spec fn entered(steps: Seq<Step>) -> Multiset<u64>
    decreases steps.len(),
{
    if steps.len() == 0 {
        Multiset::empty()
    } else {
        match steps.last() {
            Step::Enqueue(task) => entered(steps.drop_last()).insert(task.id),
            Step::Search { .. } => entered(steps.drop_last()),
        }
    }
}

/// The tasks that workers found in the course of `steps`.
pub open spec fn found_in(steps: Seq<Step>) -> Multiset<u64>
    decreases steps.len(),
{
    if steps.len() == 0 {
        Multiset::empty()
    } else {
        match steps.last() {
            Step::Search { me: _, found: Steal::Success(task) } => found_in(
                steps.drop_last(),
            ).insert(task),
            _ => found_in(steps.drop_last()),
        }
    }
}

/// Replacing the queue of one worker replaces its tasks.
proof fn lemma_local_tasks_update(locals: Seq<Seq<u64>>, i: int, queue: Seq<u64>)
    requires
        0 <= i < locals.len(),
    ensures
        local_tasks(locals.update(i, queue)).add(locals[i].to_multiset()) == local_tasks(
            locals,
        ).add(queue.to_multiset()),
        forall|task: u64|
            #![trigger local_tasks(locals).count(task)]
            local_tasks(locals.update(i, queue)).count(task) + locals[i].to_multiset().count(task)
                == local_tasks(locals).count(task) + queue.to_multiset().count(task),
    decreases locals.len(),
{
    let updated = locals.update(i, queue);
    if i == locals.len() - 1 {
        assert(updated.drop_last() =~= locals.drop_last());
    } else {
        lemma_local_tasks_update(locals.drop_last(), i, queue);
        assert(updated.drop_last() =~= locals.drop_last().update(i, queue));
    }
}

/// The queues of all workers are empty exactly if there is no task in them.
pub proof fn law_all_empty_is_no_task(locals: Seq<Seq<u64>>)
    ensures
        all_empty(locals) <==> local_tasks(locals).len() == 0,
    decreases locals.len(),
{
    broadcast use vstd::seq_lib::group_to_multiset_ensures;

    if locals.len() > 0 {
        law_all_empty_is_no_task(locals.drop_last());
        if !all_empty(locals) && all_empty(locals.drop_last()) {
            let i = choose|i: int| 0 <= i < locals.len() && (#[trigger] locals[i]).len() != 0;
            if i < locals.len() - 1 {
                assert(locals.drop_last()[i] == locals[i]);
            }
        }
    }
}

/// A search neither loses nor doubles a task: what was in the queues is still there, but for one
/// task that was found. A worker that has tasks of its own finds the one that it got last, and
/// leaves the shared queue and all other workers alone.
pub proof fn law_search_keeps_tasks(before: Queues, me: int, found: Steal, after: Queues)
    requires
        before.leads_to(Step::Search { me, found }, after),
    ensures
        after.locals.len() == before.locals.len(),
        before.tasks() == (match found {
            Steal::Success(task) => after.tasks().insert(task),
            _ => after.tasks(),
        }),
        before.locals[me].len() > 0 ==> found == Steal::Success(before.locals[me].last())
            && after.global == before.global && forall|i: int|
            0 <= i < before.locals.len() && i != me ==> after.locals[i] == before.locals[i],
{
    broadcast use vstd::seq_lib::group_to_multiset_ensures;

    let locals = before.locals;
    match found {
        Steal::Success(task) => {
            if locals[me].len() > 0 {
                let rest = locals[me].drop_last();
                lemma_local_tasks_update(locals, me, rest);
                assert(rest.push(task) =~= locals[me]);
            } else if taken_from_peer(locals, task, after.locals) && after.global == before.global {
                let j = choose|j: int|
                    #[trigger] first_with_task(locals, j) && task == locals[j].first()
                        && after.locals == locals.update(j, locals[j].drop_first());
                let rest = locals[j].drop_first();
                lemma_local_tasks_update(locals, j, rest);
                assert(seq![task] + rest =~= locals[j]);
                vstd::seq_lib::lemma_multiset_commutative(seq![task], rest);
            } else {
                let (taken, queue) = choose|taken: int, queue: Seq<u64>|
                    #![trigger crate::queues::batch_taken(
                        before.global,
                        locals[me],
                        taken,
                        task,
                        after.global,
                        queue,
                    )]
                    crate::queues::batch_taken(
                        before.global,
                        locals[me],
                        taken,
                        task,
                        after.global,
                        queue,
                    ) && after.locals == locals.update(me, queue);
                lemma_local_tasks_update(locals, me, queue);
                let batch = before.global.subrange(1, taken);
                lemma_reverse_keeps_tasks(batch);
                vstd::seq_lib::lemma_multiset_commutative(locals[me], batch.reverse());
                assert(before.global =~= seq![task] + (batch + after.global));
                vstd::seq_lib::lemma_multiset_commutative(seq![task], batch + after.global);
                vstd::seq_lib::lemma_multiset_commutative(batch, after.global);
            }
        },
        _ => {},
    }
}

/// Turning a queue around keeps its tasks.
proof fn lemma_reverse_keeps_tasks(queue: Seq<u64>)
    ensures
        queue.reverse().to_multiset() =~= queue.to_multiset(),
    decreases queue.len(),
{
    broadcast use vstd::seq_lib::group_to_multiset_ensures;

    if queue.len() > 0 {
        let rest = queue.drop_first();
        lemma_reverse_keeps_tasks(rest);
        assert(queue.reverse() =~= rest.reverse().push(queue.first()));
        assert(queue =~= seq![queue.first()] + rest);
        vstd::seq_lib::lemma_multiset_commutative(seq![queue.first()], rest);
    }
}

/// Whatever the workers do and in whatever order, every task that was spawned or woken is found
/// by one worker, once for each time, or is still in a queue: none is lost and none is doubled.
pub proof fn law_every_task_is_found_once(states: Seq<Queues>, steps: Seq<Step>)
    requires
        is_history(states, steps),
    ensures
        states.last().tasks().add(found_in(steps)) == states.first().tasks().add(entered(steps)),
    decreases steps.len(),
{
    broadcast use vstd::seq_lib::group_to_multiset_ensures;

    if steps.len() > 0 {
        let n = steps.len() - 1;
        let earlier = states.drop_last();
        law_every_task_is_found_once(earlier, steps.drop_last());
        match steps[n] {
            Step::Enqueue(_) => {},
            Step::Search { me, found } => {
                law_search_keeps_tasks(states[n], me, found, states[n + 1]);
            },
        }
        let kept = earlier.last().tasks().add(found_in(steps.drop_last()));
        assert forall|task: u64|
            #[trigger] states.last().tasks().add(found_in(steps)).count(task)
                == states.first().tasks().add(entered(steps)).count(task) by {
            assert(kept.count(task) == states.first().tasks().add(
                entered(steps.drop_last()),
            ).count(task));
        }
    }
}

/// Spawning or waking a task keeps a handle for every place that a task has in a queue.
pub proof fn law_enqueued_task_has_handle<H>(
    locals: Seq<Seq<u64>>,
    spawner: SpawnerState<H>,
    task: Task,
    handle: H,
)
    requires
        accounted(locals, spawner),
    ensures
        accounted(locals, spawner.enqueue(task, handle)),
        accounted(locals, spawner.spawn(handle)),
{
    broadcast use vstd::seq_lib::group_to_multiset_ensures;

    let before = Queues { locals, global: spawner.queue };
    assert forall|id: u64|
        #![trigger crate::handles::handles_of(spawner.enqueue(task, handle).handles, id)]
        (Queues { locals, global: spawner.enqueue(task, handle).queue }).tasks().count(id)
            == crate::handles::handles_of(spawner.enqueue(task, handle).handles, id).len() by {
        assert(before.tasks().count(id) == crate::handles::handles_of(spawner.handles, id).len());
    }
    assert forall|id: u64|
        #![trigger crate::handles::handles_of(spawner.spawn(handle).handles, id)]
        (Queues { locals, global: spawner.spawn(handle).queue }).tasks().count(id)
            == crate::handles::handles_of(spawner.spawn(handle).handles, id).len() by {
        assert(before.tasks().count(id) == crate::handles::handles_of(spawner.handles, id).len());
    }
}

/// A task that is found in a queue has a handle, and when that has been handed out there is again
/// one for every place that a task has in a queue.
pub proof fn law_found_task_has_handle<H>(
    locals: Seq<Seq<u64>>,
    spawner: SpawnerState<H>,
    me: int,
    found: Steal,
    locals_after: Seq<Seq<u64>>,
    spawner_after: SpawnerState<H>,
)
    requires
        accounted(locals, spawner),
        0 <= me < locals.len(),
        search(locals, me, spawner.queue, found, locals_after, spawner_after.queue),
        spawner_after.handles == spawner.handles,
    ensures
        match found {
            Steal::Success(id) => {
                &&& crate::handles::handles_of(spawner.handles, id).len() > 0
                &&& accounted(locals_after, spawner_after.release(Task { id }))
            },
            _ => accounted(locals_after, spawner_after),
        },
{
    let before = Queues { locals, global: spawner.queue };
    let after = Queues { locals: locals_after, global: spawner_after.queue };
    law_search_keeps_tasks(before, me, found, after);
    match found {
        Steal::Success(id) => {
            let released = spawner_after.release(Task { id });
            assert forall|other: u64|
                #![trigger crate::handles::handles_of(released.handles, other)]
                after.tasks().count(other) == crate::handles::handles_of(
                    released.handles,
                    other,
                ).len() by {
                assert(before.tasks().count(other) == crate::handles::handles_of(
                    spawner.handles,
                    other,
                ).len());
            }
        },
        _ => {},
    }
}

/// A worker goes to sleep only if there is no task in any queue, and finds a task or tries again
/// as long as there is one.
pub proof fn law_no_sleep_while_tasks_wait(before: Queues, me: int, found: Steal, after: Queues)
    requires
        before.leads_to(Step::Search { me, found }, after),
    ensures
        (found == Steal::Empty) <==> before.tasks().len() == 0,
{
    broadcast use vstd::seq_lib::group_to_multiset_ensures;

    law_all_empty_is_no_task(before.locals);
    law_search_keeps_tasks(before, me, found, after);
}

/// When a worker goes to sleep, everything has been found that was in the queues at first or
/// entered them since, each task as often as it was there.
pub proof fn law_all_found_before_sleep(states: Seq<Queues>, steps: Seq<Step>, me: int)
    requires
        is_history(states, steps),
        steps.len() > 0,
        steps.last() == (Step::Search { me, found: Steal::Empty }),
    ensures
        found_in(steps) == states.first().tasks().add(entered(steps)),
{
    let n = steps.len() - 1;
    law_every_task_is_found_once(states, steps);
    law_no_sleep_while_tasks_wait(states[n], me, Steal::Empty, states[n + 1]);
}

/// A batch that a worker with an empty queue takes from the shared queue is worked off in the
/// order in which its tasks entered: the first is found at once, and the worker's own queue then
/// gives the others, one after the other from its back. With `taken - n` tasks left there, the next
/// is the one that entered the shared queue `n` places after the first.
pub proof fn law_batch_is_worked_off_in_order(
    global: Seq<u64>,
    taken: int,
    task: u64,
    global_after: Seq<u64>,
    local_after: Seq<u64>,
    n: int,
)
    requires
        crate::queues::batch_taken(global, Seq::empty(), taken, task, global_after, local_after),
        1 <= n < taken,
    ensures
        task == global[0],
        local_after.len() == taken - 1,
        local_after.take(taken - n).last() == global[n],
{
}

/// A scheduler that is well-formed has one queue for every worker.
pub proof fn law_one_queue_for_every_worker(executor: Executor)
    requires
        executor.wf(),
    ensures
        executor@.len() == NUM_THREADS,
{
}

impl<H> SpawnerState<H> {
    /// The spawner after tasks with `handles` have been spawned, one after the other.
    pub open spec fn after_spawns(self, handles: Seq<H>) -> SpawnerState<H>
        decreases handles.len(),
    {
        if handles.len() == 0 {
            self
        } else {
            self.after_spawns(handles.drop_last()).spawn(handles.last())
        }
    }
}

/// Tasks are numbered in counting order, and queued in the order in which they are spawned,
/// behind those that were there before.
pub proof fn law_spawned_in_order<H>(spawner: SpawnerState<H>, handles: Seq<H>)
    ensures
        spawner.after_spawns(handles).next_task == crate::counter::after(
            spawner.next_task,
            handles.len(),
        ),
        spawner.after_spawns(handles).queue == spawner.queue + Seq::new(
            handles.len(),
            |i: int| crate::counter::after(spawner.next_task, i as nat),
        ),
    decreases handles.len(),
{
    if handles.len() > 0 {
        law_spawned_in_order(spawner, handles.drop_last());
    }
}

/// No two tasks have the same number, short of as many tasks as there are numbers.
pub proof fn law_tasks_are_distinct<H>(spawner: SpawnerState<H>, handles: Seq<H>, i: int, j: int)
    requires
        0 <= i < j <= handles.len(),
        j - i < crate::counter::numbers(),
    ensures
        spawner.after_spawns(handles.take(i)).next_task != spawner.after_spawns(
            handles.take(j),
        ).next_task,
{
    law_spawned_in_order(spawner, handles.take(i));
    law_spawned_in_order(spawner, handles.take(j));
    crate::counter::law_distinct(spawner.next_task, i as nat, j as nat);
}

} // verus!
