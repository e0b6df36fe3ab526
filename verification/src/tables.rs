//! The tables of the reactor: concurrent maps of `dashmap`, keyed by registration keys.
//!
//! A table may be changed through a shared reference. The operations below ask for a mutable one
//! all the same: who calls them has the table to themselves, so that a table holds after a call
//! what the call says it holds.

use dashmap::DashMap;
use std::task::Waker;
use vstd::prelude::*;

verus! {

/// `std::task::Waker`, the handle that makes a task be polled again. A waker is carried through
/// the tables and never looked into.
#[verifier::external_type_specification]
#[verifier::external_body]
pub struct ExWaker(Waker);

/// `dashmap::DashMap`, a concurrent hash map.
#[verifier::external_type_specification]
#[verifier::external_body]
#[verifier::reject_recursive_types(K)]
#[verifier::reject_recursive_types(V)]
#[verifier::reject_recursive_types(S)]
pub struct ExDashMap<K, V, S>(DashMap<K, V, S>);

/// The wakers that a table holds, by their keys.
pub uninterp spec fn waker_entries(table: DashMap<u64, Waker>) -> Map<u64, Waker>;

/// The stream descriptors that a table holds, by their keys.
pub uninterp spec fn stream_entries(table: DashMap<u64, i32>) -> Map<u64, i32>;

/// What a map holds under a key, if it holds anything there.
pub open spec fn entry<V>(entries: Map<u64, V>, key: u64) -> Option<V> {
    if entries.contains_key(key) {
        Some(entries[key])
    } else {
        None
    }
}

/// `DashMap::new`: the new table is empty.
#[verifier::external_body]
pub(crate) fn new_waker_table() -> (table: DashMap<u64, Waker>)
    ensures
        (waker_entries(table) == Map::<u64, Waker>::empty()),
{
    DashMap::new()
}

/// `DashMap::insert`: the table then holds `waker` under `key` and is otherwise unchanged. The
/// waker that was there before is handed back.
#[verifier::external_body]
pub(crate) fn insert_waker(table: &mut DashMap<u64, Waker>, key: u64, waker: Waker) -> (displaced:
    Option<Waker>)
    ensures
        waker_entries(*final(table)) == waker_entries(*old(table)).insert(key, waker),
        displaced == entry(waker_entries(*old(table)), key),
{
    table.insert(key, waker)
}

/// `DashMap::remove`: the table then holds nothing under `key` and is otherwise unchanged. The
/// waker that was there is handed back.
#[verifier::external_body]
pub(crate) fn remove_waker(table: &mut DashMap<u64, Waker>, key: u64) -> (taken: Option<Waker>)
    ensures
        waker_entries(*final(table)) == waker_entries(*old(table)).remove(key),
        taken == entry(waker_entries(*old(table)), key),
{
    table.remove(&key).map(|found: (u64, Waker)| found.1)
}

/// `DashMap::new`: the new table is empty.
#[verifier::external_body]
pub(crate) fn new_stream_table() -> (table: DashMap<u64, i32>)
    ensures
        (stream_entries(table) == Map::<u64, i32>::empty()),
{
    DashMap::new()
}

/// `DashMap::insert`: the table then holds `fd` under `key` and is otherwise unchanged. The
/// descriptor that was there before is handed back.
#[verifier::external_body]
pub(crate) fn insert_stream(table: &mut DashMap<u64, i32>, key: u64, fd: i32) -> (displaced: Option<
    i32,
>)
    ensures
        stream_entries(*final(table)) == stream_entries(*old(table)).insert(key, fd),
        displaced == entry(stream_entries(*old(table)), key),
{
    table.insert(key, fd)
}

/// `DashMap::remove`: the table then holds nothing under `key` and is otherwise unchanged. The
/// descriptor that was there is handed back.
#[verifier::external_body]
pub(crate) fn remove_stream(table: &mut DashMap<u64, i32>, key: u64) -> (taken: Option<i32>)
    ensures
        stream_entries(*final(table)) == stream_entries(*old(table)).remove(key),
        taken == entry(stream_entries(*old(table)), key),
{
    table.remove(&key).map(|found: (u64, i32)| found.1)
}

} // verus!
