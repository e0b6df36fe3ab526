//! The table of what stands behind the task numbers in the queues: for every place that a task has
//! in a queue, one handle of it.

use std::collections::HashMap;
use vstd::prelude::*;

verus! {

/// Handles of tasks, by the number of the task.
pub struct HandleTable<H> {
    held: HashMap<u64, Vec<H>>,
}

/// The handles that are held for task `id`.
pub open spec fn handles_of<H>(held: Map<u64, Seq<H>>, id: u64) -> Seq<H> {
    if held.contains_key(id) {
        held[id]
    } else {
        Seq::empty()
    }
}

/// What is held when `handle` is held for task `id` as well.
pub open spec fn with_held<H>(held: Map<u64, Seq<H>>, id: u64, handle: H) -> Map<u64, Seq<H>> {
    held.insert(id, handles_of(held, id).push(handle))
}

/// What is held when the newest handle of task `id` has been handed out.
pub open spec fn with_released<H>(held: Map<u64, Seq<H>>, id: u64) -> Map<u64, Seq<H>> {
    if handles_of(held, id).len() > 1 {
        held.insert(id, handles_of(held, id).drop_last())
    } else {
        held.remove(id)
    }
}

impl<H> View for HandleTable<H> {
    type V = Map<u64, Seq<H>>;

    /// The handles of every task, the one that was held first at the front.
    closed spec fn view(&self) -> Map<u64, Seq<H>> {
        self.held@.map_values(|handles: Vec<H>| handles@)
    }
}

impl<H> HandleTable<H> {
    /// A table without handles.
    pub fn new() -> (table: HandleTable<H>)
        ensures
            (table@ == Map::<u64, Seq<H>>::empty()),
    {
        HandleTable { held: HashMap::new() }
    }

    /// Holds a handle of task `id`.
    pub fn hold(&mut self, id: u64, handle: H)
        ensures
            final(self)@ == with_held(old(self)@, id, handle),
    {
        broadcast use vstd::std_specs::hash::group_hash_axioms;

        let mut handles: Vec<H> = match self.held.remove(&id) {
            Some(handles) => handles,
            None => Vec::new(),
        };
        handles.push(handle);
        self.held.insert(id, handles);
    }

    /// Hands out the handle of task `id` that was held last, if there is one.
    pub fn release(&mut self, id: u64) -> (handle: Option<H>)
        ensures
            final(self)@ == with_released(old(self)@, id),
            handle == (if handles_of(old(self)@, id).len() > 0 {
                Some(handles_of(old(self)@, id).last())
            } else {
                None
            }),
    {
        broadcast use vstd::std_specs::hash::group_hash_axioms;

        match self.held.remove(&id) {
            Some(mut handles) => {
                let handle: Option<H> = handles.pop();
                if handles.len() > 0 {
                    self.held.insert(id, handles);
                }
                handle
            },
            None => None,
        }
    }
}

/// A handle that is held comes back from the next release of the same task, which leaves the table
/// as it was for every task.
pub proof fn law_held_then_released<H>(held: Map<u64, Seq<H>>, id: u64, handle: H)
    ensures
        handles_of(with_held(held, id, handle), id).last() == handle,
        forall|other: u64| #[trigger]
            handles_of(with_released(with_held(held, id, handle), id), other) == handles_of(
                held,
                other,
            ),
{
}

/// Holding and releasing a handle of one task leaves the handles of every other task alone.
pub proof fn law_tasks_are_held_apart<H>(held: Map<u64, Seq<H>>, id: u64, handle: H, other: u64)
    requires
        other != id,
    ensures
        handles_of(with_held(held, id, handle), other) == handles_of(held, other),
        handles_of(with_released(held, id), other) == handles_of(held, other),
{
}

} // verus!
