//! The task queues of the scheduler: the injector, the workers and the stealers of
//! `crossbeam_deque`, holding the numbers of tasks.
//!
//! A queue may be changed through a shared reference, and a stealer changes the queue of the worker
//! that it was made from. The operations below ask for a mutable reference to every queue that
//! they change: who calls them has those queues to themselves, so that a queue holds after a call
//! what the call says it holds.

use crossbeam_deque::{Injector, Stealer, Worker};
use vstd::prelude::*;

verus! {

/// `crossbeam_deque::Injector`, the queue through which tasks enter the scheduler.
#[verifier::external_type_specification]
#[verifier::external_body]
#[verifier::reject_recursive_types(T)]
pub struct ExInjector<T>(Injector<T>);

/// `crossbeam_deque::Worker`, the queue of one worker.
#[verifier::external_type_specification]
#[verifier::external_body]
#[verifier::reject_recursive_types(T)]
pub struct ExWorker<T>(Worker<T>);

/// `crossbeam_deque::Stealer`, a handle to the queue of a worker.
#[verifier::external_type_specification]
#[verifier::external_body]
#[verifier::reject_recursive_types(T)]
pub struct ExStealer<T>(Stealer<T>);

/// The tasks in an injector, the one that entered first at the front.
pub uninterp spec fn injected_tasks(global: Injector<u64>) -> Seq<u64>;

/// The tasks in the queue of a worker, the one that entered first at the front.
pub uninterp spec fn worker_tasks(local: Worker<u64>) -> Seq<u64>;

/// The worker was made to take the task that entered last.
pub uninterp spec fn is_lifo(local: Worker<u64>) -> bool;

/// The stealer was made from the worker.
pub uninterp spec fn steals_from(stealer: Stealer<u64>, local: Worker<u64>) -> bool;

/// What an attempt to take a task from a queue came to.
#[derive(Clone, Copy, Debug, PartialEq, Eq, Structural)]
pub enum Steal {
    /// The queue was empty.
    Empty,
    /// A task was taken.
    Success(u64),
    /// Nothing was taken, and the attempt is to be made again.
    Retry,
}

/// The queue of a worker is the same queue as before, with whatever tasks.
pub open spec fn same_queue(before: Worker<u64>, after: Worker<u64>) -> bool {
    &&& is_lifo(after) == is_lifo(before)
    &&& forall|stealer: Stealer<u64>|
        #[trigger] steals_from(stealer, after) == steals_from(stealer, before)
}

/// The first `taken` of the injected tasks have left: the first of them is `task`, and the others
/// went to the back of the worker's queue, in reverse.
pub open spec fn batch_taken(
    global: Seq<u64>,
    local: Seq<u64>,
    taken: int,
    task: u64,
    global_after: Seq<u64>,
    local_after: Seq<u64>,
) -> bool {
    &&& 1 <= taken <= global.len()
    &&& task == global[0]
    &&& global_after == global.skip(taken)
    &&& local_after == local + global.subrange(1, taken).reverse()
}

/// `Injector::new`: the new injector is empty.
#[verifier::external_body]
pub(crate) fn new_injector() -> (global: Injector<u64>)
    ensures
        injected_tasks(global) == Seq::<u64>::empty(),
{
    Injector::new()
}

/// `Injector::push`: the task enters at the back.
#[verifier::external_body]
pub(crate) fn inject(global: &mut Injector<u64>, task: u64)
    ensures
        injected_tasks(*final(global)) == injected_tasks(*old(global)).push(task),
{
    global.push(task)
}

/// `Injector::steal_batch_and_pop`, into the queue of a worker that takes the task that entered
/// last. From an empty injector nothing is taken. From another, either some tasks at its front are
/// taken, how many is left open, or the attempt is to be made again and nothing has changed.
#[verifier::external_body]
pub(crate) fn steal_batch_and_pop(global: &mut Injector<u64>, local: &mut Worker<u64>) -> (stolen:
    Steal)
    requires
        is_lifo(*old(local)),
    ensures
        same_queue(*old(local), *final(local)),
        (stolen == Steal::Empty) == (injected_tasks(*old(global)).len() == 0),
        stolen !is Success ==> injected_tasks(*final(global)) == injected_tasks(*old(global)),
        stolen !is Success ==> worker_tasks(*final(local)) == worker_tasks(*old(local)),
        stolen is Success ==> exists|taken: int|
            batch_taken(
                injected_tasks(*old(global)),
                worker_tasks(*old(local)),
                taken,
                stolen->Success_0,
                injected_tasks(*final(global)),
                worker_tasks(*final(local)),
            ),
{
    match global.steal_batch_and_pop(local) {
        crossbeam_deque::Steal::Empty => Steal::Empty,
        crossbeam_deque::Steal::Success(task) => Steal::Success(task),
        crossbeam_deque::Steal::Retry => Steal::Retry,
    }
}

/// An attempt at an injector with the tasks `global`, for a worker with the tasks `local`, was made
/// and came to `attempt`. What it comes to is up to the outside queue, so nothing but a call shows
/// it.
pub closed spec fn attempted(global: Seq<u64>, local: Seq<u64>, attempt: Steal) -> bool {
    exists|injector: &mut Injector<u64>, worker: &mut Worker<u64>| #[trigger]
        call_ensures(steal_batch_and_pop, (injector, worker), attempt) && injected_tasks(*injector)
            == global && worker_tasks(*worker) == local
}

/// Makes an attempt at an injector by a call of `attempt`.
fn make_attempt<A: FnOnce(&mut Injector<u64>, &mut Worker<u64>) -> Steal>(
    attempt: A,
    global: &mut Injector<u64>,
    local: &mut Worker<u64>,
) -> (stolen: Steal)
    requires
        forall|injector: &mut Injector<u64>, worker: &mut Worker<u64>|
            *injector == *old(global) && *worker == *old(local) ==> #[trigger] call_requires(
                attempt,
                (injector, worker),
            ),
    ensures
        exists|injector: &mut Injector<u64>, worker: &mut Worker<u64>| #[trigger]
            call_ensures(attempt, (injector, worker), stolen) && *injector == *old(global)
                && *worker == *old(local) && *final(injector) == *final(global) && *final(worker)
                == *final(local),
{
    attempt(global, local)
}

/// Makes an attempt at the injector: takes some tasks at its front, of which one is found and the
/// others go to the worker's queue, or nothing. The result is what the attempt came to.
pub(crate) fn attempt_shared(global: &mut Injector<u64>, local: &mut Worker<u64>) -> (stolen: Steal)
    requires
        is_lifo(*old(local)),
    ensures
        attempted(injected_tasks(*old(global)), worker_tasks(*old(local)), stolen),
        same_queue(*old(local), *final(local)),
        (stolen == Steal::Empty) == (injected_tasks(*old(global)).len() == 0),
        stolen !is Success ==> injected_tasks(*final(global)) == injected_tasks(*old(global)),
        stolen !is Success ==> worker_tasks(*final(local)) == worker_tasks(*old(local)),
        stolen is Success ==> exists|taken: int|
            batch_taken(
                injected_tasks(*old(global)),
                worker_tasks(*old(local)),
                taken,
                stolen->Success_0,
                injected_tasks(*final(global)),
                worker_tasks(*final(local)),
            ),
{
    make_attempt(steal_batch_and_pop, global, local)
}

/// An attempt that was made is a call: nothing else comes to an outcome.
pub(crate) proof fn law_attempt_is_a_call(global: Seq<u64>, local: Seq<u64>, attempt: Steal)
    requires
        attempted(global, local, attempt),
    ensures
        exists|injector: &mut Injector<u64>, worker: &mut Worker<u64>| #[trigger]
            call_ensures(steal_batch_and_pop, (injector, worker), attempt) && injected_tasks(
                *injector,
            ) == global && worker_tasks(*worker) == local,
{
}

/// An attempt finds nothing exactly if there was nothing, and else the task at the front, unless it
/// is to be made again.
pub proof fn law_attempt_finds_the_front(global: Seq<u64>, local: Seq<u64>, attempt: Steal)
    requires
        attempted(global, local, attempt),
    ensures
        attempt is Empty <==> global.len() == 0,
        attempt matches Steal::Success(task) ==> task == global[0],
{
}

/// `Worker::new_lifo`: the new queue is empty, and its worker takes the task that entered last.
#[verifier::external_body]
pub(crate) fn new_lifo() -> (local: Worker<u64>)
    ensures
        worker_tasks(local) == Seq::<u64>::empty(),
        is_lifo(local),
{
    Worker::new_lifo()
}

/// `Worker::stealer`: the stealer is a handle to the queue of the worker.
#[verifier::external_body]
pub(crate) fn stealer(local: &Worker<u64>) -> (stealer: Stealer<u64>)
    ensures
        steals_from(stealer, *local),
{
    local.stealer()
}

/// `Worker::pop`, of a worker that takes the task that entered last: takes the task at the back,
/// if there is one.
#[verifier::external_body]
pub(crate) fn pop(local: &mut Worker<u64>) -> (task: Option<u64>)
    requires
        is_lifo(*old(local)),
    ensures
        same_queue(*old(local), *final(local)),
        task == (if worker_tasks(*old(local)).len() == 0 {
            None
        } else {
            Some(worker_tasks(*old(local)).last())
        }),
        worker_tasks(*final(local)) == (if worker_tasks(*old(local)).len() == 0 {
            worker_tasks(*old(local))
        } else {
            worker_tasks(*old(local)).drop_last()
        }),
{
    local.pop()
}

/// `Stealer::steal`, with nobody else at the queue of the worker that the stealer was made from:
/// takes the task at the front of that queue, if there is one.
#[verifier::external_body]
pub(crate) fn steal(stealer: &Stealer<u64>, local: &mut Worker<u64>) -> (stolen: Steal)
    requires
        steals_from(*stealer, *old(local)),
    ensures
        same_queue(*old(local), *final(local)),
        stolen == (if worker_tasks(*old(local)).len() == 0 {
            Steal::Empty
        } else {
            Steal::Success(worker_tasks(*old(local)).first())
        }),
        worker_tasks(*final(local)) == (if worker_tasks(*old(local)).len() == 0 {
            worker_tasks(*old(local))
        } else {
            worker_tasks(*old(local)).drop_first()
        }),
{
    match stealer.steal() {
        crossbeam_deque::Steal::Empty => Steal::Empty,
        crossbeam_deque::Steal::Success(task) => Steal::Success(task),
        crossbeam_deque::Steal::Retry => Steal::Retry,
    }
}

} // verus!
