//! Calls on a reactor.

use crate::epoll::{EpollEvent, InterestChange, InterestRequest};
use crate::reactor::{Action, Closing, Reactor, ReactorState, Registration};
use std::task::Waker;
use vstd::prelude::*;

verus! {

/// Two reactors differ in nothing but who waits, which streams are in care, and the next key.
pub open spec fn same_settings(before: ReactorState, after: ReactorState) -> bool {
    &&& after.epoll_fd == before.epoll_fd
    &&& after.worker_threads == before.worker_threads
    &&& after.epoll_buffer_size == before.epoll_buffer_size
    &&& after.epoll_wait_time == before.epoll_wait_time
}

/// Nothing differs between two reactors but under `key`.
pub open spec fn same_but_under(before: ReactorState, after: ReactorState, key: u64) -> bool {
    &&& same_settings(before, after)
    &&& after.next_key == before.next_key
    &&& forall|other: u64|
        #![trigger after.readers.get(other)]
        #![trigger after.writers.get(other)]
        #![trigger after.streams.get(other)]
        other != key ==> after.readers.get(other) == before.readers.get(other)
            && after.writers.get(other) == before.writers.get(other) && after.streams.get(other)
            == before.streams.get(other)
}

/// A waker that is registered to read waits under its key and under no other, in place of the one
/// that did, who is handed out. Who waits to write and the streams in care are left alone.
pub proof fn law_reader_waits_under_its_key(
    reactor: &mut Reactor,
    key: u64,
    w: Waker,
    displaced: Option<Waker>,
)
    requires
        call_ensures(Reactor::register_waker_read, (reactor, key, w), displaced),
    ensures
        final(reactor)@.readers.get(key) == Some(w),
        displaced == old(reactor)@.readers.get(key),
        same_but_under(old(reactor)@, final(reactor)@, key),
        final(reactor)@.writers.get(key) == old(reactor)@.writers.get(key),
        final(reactor)@.streams.get(key) == old(reactor)@.streams.get(key),
{
}

/// A waker that is registered to write waits under its key and under no other, in place of the one
/// that did, who is handed out. Who waits to read and the streams in care are left alone.
pub proof fn law_writer_waits_under_its_key(
    reactor: &mut Reactor,
    key: u64,
    w: Waker,
    displaced: Option<Waker>,
)
    requires
        call_ensures(Reactor::register_waker_write, (reactor, key, w), displaced),
    ensures
        final(reactor)@.writers.get(key) == Some(w),
        displaced == old(reactor)@.writers.get(key),
        same_but_under(old(reactor)@, final(reactor)@, key),
        final(reactor)@.readers.get(key) == old(reactor)@.readers.get(key),
        final(reactor)@.streams.get(key) == old(reactor)@.streams.get(key),
{
}

/// A stream that is registered is kept under its key and under no other, in place of the one that
/// was, which is handed out. Its events are asked for on the reactor's own epoll instance, under
/// that very key. Who waits is left alone.
pub proof fn law_stream_is_kept_under_its_key(
    reactor: &mut Reactor,
    key: u64,
    kept: i32,
    fd: i32,
    registration: Registration,
)
    requires
        call_ensures(Reactor::register_stream_read, (reactor, key, kept, fd), registration),
    ensures
        final(reactor)@.streams.get(key) == Some(kept),
        registration.displaced == old(reactor)@.streams.get(key),
        registration.request.epoll_fd == old(reactor)@.epoll_fd,
        registration.request.fd == fd,
        registration.request.change matches InterestChange::Add(event) && event.key == key
            && event.events == 0x9000_001d,
        same_but_under(old(reactor)@, final(reactor)@, key),
        final(reactor)@.readers.get(key) == old(reactor)@.readers.get(key),
        final(reactor)@.writers.get(key) == old(reactor)@.writers.get(key),
{
}

/// The events of a descriptor are asked for on the reactor's own epoll instance, under the key that
/// they are to come back with, whatever key and descriptor those are.
pub proof fn law_interest_is_asked_under_its_key(
    reactor: &Reactor,
    key: u64,
    fd: i32,
    request: InterestRequest,
)
    requires
        call_ensures(Reactor::register_interest, (reactor, key, fd), request),
    ensures
        request.epoll_fd == reactor@.epoll_fd,
        request.fd == fd,
        request.change matches InterestChange::Add(event) && event.key == key && event.events
            == 0x9000_001d,
{
}

/// Two registrations ask for the same only if they concern the same descriptor and the same key.
pub proof fn law_interests_are_told_apart(
    reactor: &Reactor,
    key: u64,
    fd: i32,
    request: InterestRequest,
    other_key: u64,
    other_fd: i32,
    other_request: InterestRequest,
)
    requires
        call_ensures(Reactor::register_interest, (reactor, key, fd), request),
        call_ensures(Reactor::register_interest, (reactor, other_key, other_fd), other_request),
    ensures
        request == other_request <==> key == other_key && fd == other_fd,
{
}

/// Handing out a key changes nothing but the next key, which is one larger and starts over after
/// the largest number.
pub proof fn law_key_is_handed_out(reactor: &mut Reactor, key: u64)
    requires
        call_ensures(Reactor::get_next_key, (reactor,), key),
    ensures
        key == old(reactor)@.next_key,
        final(reactor)@.next_key == (key + 1) % 0x1_0000_0000_0000_0000,
        final(reactor)@.readers == old(reactor)@.readers,
        final(reactor)@.writers == old(reactor)@.writers,
        final(reactor)@.streams == old(reactor)@.streams,
        same_settings(old(reactor)@, final(reactor)@),
{
}

/// Giving up a stream hands out its descriptor, which is taken off the interest list of the
/// reactor's own epoll instance, and those who waited for it. Nothing is left under its key, and
/// nothing else changes. Where no stream is in care, nothing happens at all.
pub proof fn law_stream_is_given_up(reactor: &mut Reactor, key: u64, closing: Option<Closing>)
    requires
        call_ensures(Reactor::close, (reactor, key), closing),
    ensures
        closing is Some <==> old(reactor)@.streams.contains_key(key),
        closing matches Some(closing) ==> {
            &&& gives_up(old(reactor)@, key, closing)
            &&& nothing_under(final(reactor)@, key)
            &&& same_but_under(old(reactor)@, final(reactor)@, key)
        },
        closing is None ==> final(reactor)@ == old(reactor)@,
{
}

/// What is handed out when the stream under `key` is given up: its descriptor, to be taken off the
/// interest list, and those who waited.
pub open spec fn gives_up(before: ReactorState, key: u64, closing: Closing) -> bool {
    &&& Some(closing.request.fd) == before.streams.get(key)
    &&& closing.request.removal.epoll_fd == before.epoll_fd
    &&& closing.request.removal.fd == closing.request.fd
    &&& closing.request.removal.change is Remove
    &&& closing.reader == before.readers.get(key)
    &&& closing.writer == before.writers.get(key)
}

/// Nobody waits under `key`, and no stream is in care there.
pub open spec fn nothing_under(reactor: ReactorState, key: u64) -> bool {
    &&& reactor.readers.get(key) is None
    &&& reactor.writers.get(key) is None
    &&& reactor.streams.get(key) is None
}

/// A second attempt to give up a stream finds nothing.
pub proof fn law_stream_is_given_up_once(
    reactor: &mut Reactor,
    again: &mut Reactor,
    key: u64,
    closing: Option<Closing>,
    closing_again: Option<Closing>,
)
    requires
        call_ensures(Reactor::close, (reactor, key), closing),
        *old(again) == *final(reactor),
        call_ensures(Reactor::close, (again, key), closing_again),
    ensures
        closing_again is None,
        final(again)@ == final(reactor)@,
{
}

/// Without events nothing is done and nothing changes.
pub proof fn law_no_events_do_nothing(
    reactor: &mut Reactor,
    events: &Vec<EpollEvent>,
    actions: Vec<Action>,
)
    requires
        call_ensures(Reactor::run, (reactor, events), actions),
        events@.len() == 0,
    ensures
        actions@.len() == 0,
        final(reactor)@ == old(reactor)@,
{
}

/// A readiness event wakes who waits to read under its key, then who waits to write, each of them
/// if there is one, and does nothing else. Neither waits any longer. A stream in care under the key
/// stays in care, and nothing under another key changes.
pub proof fn law_readiness_wakes_who_waits(
    reactor: &mut Reactor,
    events: &Vec<EpollEvent>,
    actions: Vec<Action>,
)
    requires
        call_ensures(Reactor::run, (reactor, events), actions),
        events@.len() == 1,
        !super::epoll::error_or_hang_up(events@[0].events),
    ensures
        ({
            let key = events@[0].key;
            let (before, after) = (old(reactor)@, final(reactor)@);
            &&& match (before.readers.get(key), before.writers.get(key)) {
                (Some(reader), Some(writer)) => actions@.len() == 2 && actions@[0]
                    == Action::WakeReader(key, reader) && actions@[1] == Action::WakeWriter(
                    key,
                    writer,
                ),
                (Some(reader), None) => actions@.len() == 1 && actions@[0] == Action::WakeReader(
                    key,
                    reader,
                ),
                (None, Some(writer)) => actions@.len() == 1 && actions@[0] == Action::WakeWriter(
                    key,
                    writer,
                ),
                (None, None) => actions@.len() == 0,
            }
            &&& after.readers.get(key) is None
            &&& after.writers.get(key) is None
            &&& after.streams == before.streams
            &&& same_but_under(before, after, key)
        }),
{
    let event = events@[0];
    super::epoll::law_broken_by_two_bits(event.events);
    lemma_one_event(old(reactor)@, events@);
}

/// An error or a hang-up has the stream under its key closed, and nobody woken: the one action
/// hands out the descriptor and those who waited. Nothing is left under the key. Where no stream is
/// in care there, nothing is done and nothing changes. Nothing under another key changes either
/// way.
pub proof fn law_hang_up_closes(
    reactor: &mut Reactor,
    events: &Vec<EpollEvent>,
    actions: Vec<Action>,
)
    requires
        call_ensures(Reactor::run, (reactor, events), actions),
        events@.len() == 1,
        super::epoll::error_or_hang_up(events@[0].events),
    ensures
        ({
            let key = events@[0].key;
            if old(reactor)@.streams.contains_key(key) {
                &&& actions@.len() == 1
                &&& actions@[0] matches Action::Close(closing)
                &&& gives_up(old(reactor)@, key, closing)
                &&& nothing_under(final(reactor)@, key)
                &&& same_but_under(old(reactor)@, final(reactor)@, key)
            } else {
                &&& actions@.len() == 0
                &&& final(reactor)@ == old(reactor)@
            }
        }),
{
    let event = events@[0];
    super::epoll::law_broken_by_two_bits(event.events);
    lemma_one_event(old(reactor)@, events@);
}

/// A batch of one event comes to what the event comes to.
proof fn lemma_one_event(reactor: ReactorState, events: Seq<EpollEvent>)
    requires
        events.len() == 1,
    ensures
        reactor.after_events(events) == reactor.after_event(events[0]),
        reactor.batch_actions(events) == reactor.event_actions(events[0]),
{
    reveal_with_fuel(ReactorState::after_events, 2);
    reveal_with_fuel(ReactorState::batch_actions, 2);
    assert(events.drop_last() =~= Seq::empty());
}

/// It does not matter how events are cut into batches: a call with all of them comes to the same as
/// one with the first ones and one with the others after it, and has the same done in the same
/// order.
pub proof fn law_batches_can_be_cut(
    reactor: &mut Reactor,
    rest: &mut Reactor,
    whole: &mut Reactor,
    first: &Vec<EpollEvent>,
    second: &Vec<EpollEvent>,
    both: &Vec<EpollEvent>,
    first_actions: Vec<Action>,
    second_actions: Vec<Action>,
    all_actions: Vec<Action>,
)
    requires
        call_ensures(Reactor::run, (reactor, first), first_actions),
        old(rest)@ == final(reactor)@,
        call_ensures(Reactor::run, (rest, second), second_actions),
        old(whole)@ == old(reactor)@,
        both@ == first@ + second@,
        call_ensures(Reactor::run, (whole, both), all_actions),
    ensures
        all_actions@ == first_actions@ + second_actions@,
        final(whole)@ == final(rest)@,
{
    crate::reactor::law_batches_compose(old(reactor)@, first@, second@);
}

/// A connection outlives any number of readiness events: whatever events came before, as long as
/// none under its key was an error or a hang-up, the first that is closes the descriptor that was
/// registered, and is the last thing done.
pub proof fn law_connection_is_closed_by_its_hang_up(
    reactor: &mut Reactor,
    later: &mut Reactor,
    key: u64,
    kept: i32,
    fd: i32,
    registration: Registration,
    events: &Vec<EpollEvent>,
    actions: Vec<Action>,
)
    requires
        call_ensures(Reactor::register_stream_read, (reactor, key, kept, fd), registration),
        old(later)@ == final(reactor)@,
        call_ensures(Reactor::run, (later, events), actions),
        events@.len() > 0,
        events@.last().key == key,
        super::epoll::error_or_hang_up(events@.last().events),
        forall|i: int|
            0 <= i < events@.len() - 1 && (#[trigger] events@[i]).key == key
                ==> !super::epoll::error_or_hang_up(events@[i].events),
    ensures
        actions@.len() > 0,
        actions@.last() matches Action::Close(closing) && closing.request.fd == kept
            && closing.request.removal.fd == kept && closing.request.removal.epoll_fd
            == registration.request.epoll_fd && closing.request.removal.change is Remove,
        nothing_under(final(later)@, key),
{
    let before = events@.drop_last();
    super::epoll::law_broken_by_two_bits(events@.last().events);
    lemma_stream_stays(old(later)@, before, key);
}

/// Events that are neither errors nor hang-ups of a key leave its stream in care.
proof fn lemma_stream_stays(reactor: ReactorState, events: Seq<EpollEvent>, key: u64)
    requires
        forall|i: int|
            0 <= i < events.len() && (#[trigger] events[i]).key == key
                ==> !super::epoll::error_or_hang_up(events[i].events),
    ensures
        reactor.after_events(events).streams.get(key) == reactor.streams.get(key),
        reactor.after_events(events).epoll_fd == reactor.epoll_fd,
    decreases events.len(),
{
    if events.len() > 0 {
        lemma_stream_stays(reactor, events.drop_last(), key);
        super::epoll::law_broken_by_two_bits(events.last().events);
    }
}

/// Who is registered to read under a key is woken by the first event that carries the key under
/// which the descriptor was registered, however many events of other keys come before it in the
/// batch, unless it is an error or a hang-up.
pub proof fn law_registered_reader_is_woken(
    reactor: &mut Reactor,
    later: &mut Reactor,
    key: u64,
    fd: i32,
    request: InterestRequest,
    w: Waker,
    displaced: Option<Waker>,
    events: &Vec<EpollEvent>,
    n: int,
    actions: Vec<Action>,
)
    requires
        call_ensures(Reactor::register_interest, (&*old(reactor), key, fd), request),
        call_ensures(Reactor::register_waker_read, (reactor, key, w), displaced),
        old(later)@ == final(reactor)@,
        call_ensures(Reactor::run, (later, events), actions),
        0 <= n < events@.len(),
        request.change matches InterestChange::Add(event) && events@[n].key == event.key,
        !super::epoll::error_or_hang_up(events@[n].events),
        forall|i: int| 0 <= i < n ==> (#[trigger] events@[i]).key != key,
    ensures
        actions@.contains(Action::WakeReader(key, w)),
{
    let upto = events@.take(n + 1);
    let waiting = old(later)@;
    assert(upto =~= events@.take(n).push(events@[n]));
    super::epoll::law_broken_by_two_bits(events@[n].events);
    crate::reactor::law_reader_is_woken(old(reactor)@, key, w, events@.take(n), events@[n]);
    assert(events@ =~= upto + events@.skip(n + 1));
    crate::reactor::law_batches_compose(waiting, upto, events@.skip(n + 1));
    let at = waiting.batch_actions(events@.take(n)).len() as int;
    assert(actions@[at] == Action::WakeReader(key, w));
}

/// Who is registered to write under a key is woken by the first event that carries the key under
/// which the descriptor was registered, however many events of other keys come before it in the
/// batch, unless it is an error or a hang-up.
pub proof fn law_registered_writer_is_woken(
    reactor: &mut Reactor,
    later: &mut Reactor,
    key: u64,
    fd: i32,
    request: InterestRequest,
    w: Waker,
    displaced: Option<Waker>,
    events: &Vec<EpollEvent>,
    n: int,
    actions: Vec<Action>,
)
    requires
        call_ensures(Reactor::register_interest, (&*old(reactor), key, fd), request),
        call_ensures(Reactor::register_waker_write, (reactor, key, w), displaced),
        old(later)@ == final(reactor)@,
        call_ensures(Reactor::run, (later, events), actions),
        0 <= n < events@.len(),
        request.change matches InterestChange::Add(event) && events@[n].key == event.key,
        !super::epoll::error_or_hang_up(events@[n].events),
        forall|i: int| 0 <= i < n ==> (#[trigger] events@[i]).key != key,
    ensures
        actions@.contains(Action::WakeWriter(key, w)),
{
    let upto = events@.take(n + 1);
    let waiting = old(later)@;
    assert(upto =~= events@.take(n).push(events@[n]));
    super::epoll::law_broken_by_two_bits(events@[n].events);
    crate::reactor::law_writer_is_woken(old(reactor)@, key, w, events@.take(n), events@[n]);
    assert(events@ =~= upto + events@.skip(n + 1));
    crate::reactor::law_batches_compose(waiting, upto, events@.skip(n + 1));
    let at = waiting.batch_actions(upto).len() - 1;
    assert(actions@[at] == Action::WakeWriter(key, w));
}

/// A fresh reactor has nobody waiting and nothing in its care, hands out 101 first, and keeps the
/// settings that it was made with.
pub proof fn law_fresh_reactor(
    epoll_buffer_size: usize,
    worker_threads: usize,
    epoll_wait_time: i32,
    epoll_fd: i32,
    reactor: Reactor,
    key: u64,
)
    requires
        call_ensures(
            Reactor::new,
            (epoll_buffer_size, worker_threads, epoll_wait_time, epoll_fd),
            reactor,
        ),
    ensures
        nothing_under(reactor@, key),
        reactor@.next_key == 101,
        reactor@.epoll_fd == epoll_fd,
        reactor@.worker_threads == worker_threads,
        reactor@.epoll_buffer_size == epoll_buffer_size,
        reactor@.epoll_wait_time == epoll_wait_time,
{
}

/// A reactor tells the settings that it was made with.
pub proof fn law_settings_are_told(
    epoll_buffer_size: usize,
    worker_threads: usize,
    epoll_wait_time: i32,
    epoll_fd: i32,
    reactor: Reactor,
    told_size: usize,
    told_threads: usize,
    told_time: i32,
    told_fd: i32,
)
    requires
        call_ensures(
            Reactor::new,
            (epoll_buffer_size, worker_threads, epoll_wait_time, epoll_fd),
            reactor,
        ),
        call_ensures(Reactor::epoll_buffer_size, (&reactor,), told_size),
        call_ensures(Reactor::worker_threads, (&reactor,), told_threads),
        call_ensures(Reactor::epoll_wait_time, (&reactor,), told_time),
        call_ensures(Reactor::epoll_fd, (&reactor,), told_fd),
    ensures
        told_size == epoll_buffer_size,
        told_threads == worker_threads,
        told_time == epoll_wait_time,
        told_fd == epoll_fd,
{
}

/// A reactor that still has the settings of another tells the same as that one.
pub proof fn law_settings_are_told_later(
    reactor: Reactor,
    later: Reactor,
    told: (usize, usize, i32, i32),
    told_later: (usize, usize, i32, i32),
)
    requires
        same_settings(reactor@, later@),
        call_ensures(Reactor::epoll_buffer_size, (&reactor,), told.0),
        call_ensures(Reactor::worker_threads, (&reactor,), told.1),
        call_ensures(Reactor::epoll_wait_time, (&reactor,), told.2),
        call_ensures(Reactor::epoll_fd, (&reactor,), told.3),
        call_ensures(Reactor::epoll_buffer_size, (&later,), told_later.0),
        call_ensures(Reactor::worker_threads, (&later,), told_later.1),
        call_ensures(Reactor::epoll_wait_time, (&later,), told_later.2),
        call_ensures(Reactor::epoll_fd, (&later,), told_later.3),
    ensures
        told_later == told,
        told == (
            reactor@.epoll_buffer_size,
            reactor@.worker_threads,
            reactor@.epoll_wait_time,
            reactor@.epoll_fd,
        ),
{
}

/// A reactor takes every call, with whatever arguments and in whatever state.
pub proof fn law_reactor_has_no_conditions(
    reactor: &mut Reactor,
    shared: &Reactor,
    key: u64,
    w: Waker,
    kept: i32,
    fd: i32,
    size: usize,
    threads: usize,
    events: &Vec<EpollEvent>,
)
    ensures
        call_requires(Reactor::new, (size, threads, kept, fd)),
        call_requires(Reactor::run, (reactor, events)),
        call_requires(Reactor::close, (reactor, key)),
        call_requires(Reactor::register_stream_read, (reactor, key, kept, fd)),
        call_requires(Reactor::register_interest, (shared, key, fd)),
        call_requires(Reactor::register_waker_read, (reactor, key, w)),
        call_requires(Reactor::register_waker_write, (reactor, key, w)),
        call_requires(Reactor::get_next_key, (reactor,)),
{
}

} // verus!
