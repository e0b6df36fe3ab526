//! The reactor: which waker waits for which key, and what a readiness event makes of it.

use crate::counter::fetch_next;
use crate::epoll::{
    add_interest, listener_read_event, must_close, remove_interest, EpollEvent, InterestRequest,
};
use crate::tables::{
    insert_stream, insert_waker, new_stream_table, new_waker_table, remove_stream, remove_waker,
};
use dashmap::DashMap;
use std::task::Waker;
use vstd::prelude::*;

verus! {

/// The key under which a listening socket is registered. Keys of streams start above it.
pub const EPOLL_KEY: u64 = 100;

/// What is to be done with a stream that the reactor gave up: shut it down in both directions,
/// take it out of the interest list, close it.
#[derive(Clone, Copy, Debug, PartialEq, Eq, Structural)]
pub struct CloseRequest {
    pub fd: i32,
    pub removal: InterestRequest,
}

/// What is to be done after a stream was put in the reactor's care: close the descriptor that was
/// kept under the same key before, if there was one, and make the request for interest.
#[derive(Clone, Copy, Debug, PartialEq, Eq, Structural)]
pub struct Registration {
    pub displaced: Option<i32>,
    pub request: InterestRequest,
}

/// What becomes of a stream that the reactor gave up: what is to be done with it, and those who
/// waited for it, who are not woken.
pub struct Closing {
    pub request: CloseRequest,
    pub reader: Option<Waker>,
    pub writer: Option<Waker>,
}

/// What a readiness event makes be done.
pub enum Action {
    /// Close a stream.
    Close(Closing),
    /// Wake the one who waited to read under a key.
    WakeReader(u64, Waker),
    /// Wake the one who waited to write under a key.
    WakeWriter(u64, Waker),
}

/// The reactor as its callers see it.
#[verifier::ext_equal]
pub struct ReactorState {
    /// Who waits to read, by key.
    pub readers: Map<u64, Waker>,
    /// Who waits to write, by key.
    pub writers: Map<u64, Waker>,
    /// The descriptors in the reactor's care, by key.
    pub streams: Map<u64, i32>,
    /// The key that is handed out next.
    pub next_key: u64,
    /// The epoll instance.
    pub epoll_fd: i32,
    /// How many threads wait for events.
    pub worker_threads: usize,
    /// How many events one wait takes at most.
    pub epoll_buffer_size: usize,
    /// How long one wait takes at most, in milliseconds.
    pub epoll_wait_time: i32,
}

impl ReactorState {
    /// `waker` waits to read under `key`, in place of any that did.
    pub open spec fn await_read(self, key: u64, waker: Waker) -> ReactorState {
        ReactorState { readers: self.readers.insert(key, waker), ..self }
    }

    /// `waker` waits to write under `key`, in place of any that did.
    pub open spec fn await_write(self, key: u64, waker: Waker) -> ReactorState {
        ReactorState { writers: self.writers.insert(key, waker), ..self }
    }

    /// `fd` is in the reactor's care under `key`, in place of any that was.
    pub open spec fn keep(self, key: u64, fd: i32) -> ReactorState {
        ReactorState { streams: self.streams.insert(key, fd), ..self }
    }

    /// The next key has been handed out.
    pub open spec fn advance(self) -> ReactorState {
        ReactorState { next_key: crate::counter::next(self.next_key), ..self }
    }

    /// Nobody waits under `key`.
    pub open spec fn released(self, key: u64) -> ReactorState {
        ReactorState { readers: self.readers.remove(key), writers: self.writers.remove(key), ..self }
    }

    /// The stream under `key` was given up, and those who waited for it were forgotten. Without
    /// such a stream nothing changes.
    pub open spec fn closed(self, key: u64) -> ReactorState {
        if self.streams.contains_key(key) {
            ReactorState { streams: self.streams.remove(key), ..self.released(key) }
        } else {
            self
        }
    }

    /// What is to be done when the stream under `key` is given up.
    pub open spec fn close_request(self, key: u64) -> Option<CloseRequest> {
        if self.streams.contains_key(key) {
            Some(
                CloseRequest {
                    fd: self.streams[key],
                    removal: InterestRequest {
                        epoll_fd: self.epoll_fd,
                        fd: self.streams[key],
                        change: crate::epoll::InterestChange::Remove,
                    },
                },
            )
        } else {
            None
        }
    }

    /// What becomes of the stream under `key` when it is given up.
    pub open spec fn closing(self, key: u64) -> Option<Closing> {
        match self.close_request(key) {
            Some(request) => Some(
                Closing {
                    request,
                    reader: crate::tables::entry(self.readers, key),
                    writer: crate::tables::entry(self.writers, key),
                },
            ),
            None => None,
        }
    }

    /// The request that puts `fd` on the interest list under `key`.
    pub open spec fn interest(self, key: u64, fd: i32) -> InterestRequest {
        InterestRequest {
            epoll_fd: self.epoll_fd,
            fd,
            change: crate::epoll::InterestChange::Add(crate::epoll::read_event(key)),
        }
    }

    /// The reactor after one event.
    pub open spec fn after_event(self, event: EpollEvent) -> ReactorState {
        if crate::epoll::is_broken(event.events) {
            self.closed(event.key)
        } else {
            self.released(event.key)
        }
    }

    /// What one event makes be done: close the stream if it is broken, else wake the reader, then
    /// the writer.
    pub open spec fn event_actions(self, event: EpollEvent) -> Seq<Action> {
        if crate::epoll::is_broken(event.events) {
            match self.closing(event.key) {
                Some(closing) => seq![Action::Close(closing)],
                None => seq![],
            }
        } else {
            reader_wake(self.readers, event.key) + writer_wake(self.writers, event.key)
        }
    }

    /// The reactor after a batch of events.
    pub open spec fn after_events(self, events: Seq<EpollEvent>) -> ReactorState
        decreases events.len(),
    {
        if events.len() == 0 {
            self
        } else {
            self.after_events(events.drop_last()).after_event(events.last())
        }
    }

    /// What a batch of events makes be done, in order.
    pub open spec fn batch_actions(self, events: Seq<EpollEvent>) -> Seq<Action>
        decreases events.len(),
    {
        if events.len() == 0 {
            seq![]
        } else {
            self.batch_actions(events.drop_last()) + self.after_events(
                events.drop_last(),
            ).event_actions(events.last())
        }
    }
}

/// Wake the one who waits to read under `key`, if there is one.
pub open spec fn reader_wake(readers: Map<u64, Waker>, key: u64) -> Seq<Action> {
    match crate::tables::entry(readers, key) {
        Some(waker) => seq![Action::WakeReader(key, waker)],
        None => seq![],
    }
}

/// Wake the one who waits to write under `key`, if there is one.
pub open spec fn writer_wake(writers: Map<u64, Waker>, key: u64) -> Seq<Action> {
    match crate::tables::entry(writers, key) {
        Some(waker) => seq![Action::WakeWriter(key, waker)],
        None => seq![],
    }
}

/// The registrations of an epoll instance: who waits for what, which streams are in care, and
/// which key comes next.
pub struct Reactor {
    worker_threads: usize,
    epoll_buffer_size: usize,
    epoll_wait_time: i32,
    reader_waker: DashMap<u64, Waker>,
    writer_waker: DashMap<u64, Waker>,
    streams: DashMap<u64, i32>,
    epoll_fd: i32,
    key: u64,
}

impl View for Reactor {
    type V = ReactorState;

    closed spec fn view(&self) -> ReactorState {
        ReactorState {
            readers: crate::tables::waker_entries(self.reader_waker),
            writers: crate::tables::waker_entries(self.writer_waker),
            streams: crate::tables::stream_entries(self.streams),
            next_key: self.key,
            epoll_fd: self.epoll_fd,
            worker_threads: self.worker_threads,
            epoll_buffer_size: self.epoll_buffer_size,
            epoll_wait_time: self.epoll_wait_time,
        }
    }
}

impl Reactor {
    /// A reactor for the epoll instance `epoll_fd`, with nobody waiting and nothing in its care.
    pub fn new(
        epoll_buffer_size: usize,
        worker_threads: usize,
        epoll_wait_time: i32,
        epoll_fd: i32,
    ) -> (reactor: Self)
        ensures
            reactor@ == (ReactorState {
                readers: Map::empty(),
                writers: Map::empty(),
                streams: Map::empty(),
                next_key: (EPOLL_KEY + 1) as u64,
                epoll_fd,
                worker_threads,
                epoll_buffer_size,
                epoll_wait_time,
            }),
    {
        Reactor {
            worker_threads,
            epoll_buffer_size,
            epoll_wait_time,
            reader_waker: new_waker_table(),
            writer_waker: new_waker_table(),
            streams: new_stream_table(),
            epoll_fd,
            key: EPOLL_KEY + 1,
        }
    }

    /// Serves one batch of readiness events: changes the tables, and says what is to be done, in
    /// order. A stream that hung up or is in error is given up; otherwise those who wait for it
    /// are woken, the reader first.
    pub fn run(&mut self, events: &Vec<EpollEvent>) -> (actions: Vec<Action>)
        ensures
            final(self)@ == old(self)@.after_events(events@),
            actions@ == old(self)@.batch_actions(events@),
    {
        let mut actions: Vec<Action> = Vec::new();
        for i in 0..events.len()
            invariant
                self@ == old(self)@.after_events(events@.take(i as int)),
                actions@ == old(self)@.batch_actions(events@.take(i as int)),
        {
            assert(events@.take(i + 1).drop_last() =~= events@.take(i as int));
            self.serve(events[i], &mut actions);
        }
        assert(events@.take(events.len() as int) =~= events@);
        actions
    }

    /// Serves one readiness event.
    fn serve(&mut self, event: EpollEvent, actions: &mut Vec<Action>)
        ensures
            final(self)@ == old(self)@.after_event(event),
            final(actions)@ == old(actions)@ + old(self)@.event_actions(event),
    {
        if must_close(event.events) {
            match self.close(event.key) {
                Some(closing) => {
                    actions.push(Action::Close(closing));
                },
                None => {},
            }
        } else {
            match remove_waker(&mut self.reader_waker, event.key) {
                Some(waker) => {
                    actions.push(Action::WakeReader(event.key, waker));
                },
                None => {},
            }
            match remove_waker(&mut self.writer_waker, event.key) {
                Some(waker) => {
                    actions.push(Action::WakeWriter(event.key, waker));
                },
                None => {},
            }
        }
    }

    /// Gives up the stream under `key`, if there is one: forgets it and those who wait for it, and
    /// says what is to be done with it. Those who waited are handed out.
    pub fn close(&mut self, key: u64) -> (closing: Option<Closing>)
        ensures
            final(self)@ == old(self)@.closed(key),
            closing == old(self)@.closing(key),
    {
        match remove_stream(&mut self.streams, key) {
            Some(fd) => {
                let removal: InterestRequest = remove_interest(self.epoll_fd, fd);
                let reader: Option<Waker> = remove_waker(&mut self.reader_waker, key);
                let writer: Option<Waker> = remove_waker(&mut self.writer_waker, key);
                Some(Closing { request: CloseRequest { fd, removal }, reader, writer })
            },
            None => {
                None
            },
        }
    }

    /// Takes `kept`, a duplicate of the descriptor `fd`, in care under `key`, and asks for the
    /// events of `fd`.
    pub fn register_stream_read(&mut self, key: u64, kept: i32, fd: i32) -> (registration:
        Registration)
        ensures
            final(self)@ == old(self)@.keep(key, kept),
            registration.displaced == crate::tables::entry(old(self)@.streams, key),
            registration.request == old(self)@.interest(key, fd),
    {
        let displaced: Option<i32> = insert_stream(&mut self.streams, key, kept);
        let request: InterestRequest = self.register_interest(key, fd);
        Registration { displaced, request }
    }

    /// Asks for the events of `fd` under `key`.
    pub fn register_interest(&self, key: u64, fd: i32) -> (request: InterestRequest)
        ensures
            request == self@.interest(key, fd),
    {
        add_interest(self.epoll_fd, fd, listener_read_event(key))
    }

    /// Lets `w` wait to read under `key`. Who waited there before no longer does, and is handed
    /// out.
    pub fn register_waker_read(&mut self, key: u64, w: Waker) -> (displaced: Option<Waker>)
        ensures
            final(self)@ == old(self)@.await_read(key, w),
            displaced == crate::tables::entry(old(self)@.readers, key),
    {
        insert_waker(&mut self.reader_waker, key, w)
    }

    /// Lets `w` wait to write under `key`. Who waited there before no longer does, and is handed
    /// out.
    pub fn register_waker_write(&mut self, key: u64, w: Waker) -> (displaced: Option<Waker>)
        ensures
            final(self)@ == old(self)@.await_write(key, w),
            displaced == crate::tables::entry(old(self)@.writers, key),
    {
        insert_waker(&mut self.writer_waker, key, w)
    }

    /// Hands out the next key.
    pub fn get_next_key(&mut self) -> (key: u64)
        ensures
            key == old(self)@.next_key,
            final(self)@ == old(self)@.advance(),
    {
        fetch_next(&mut self.key)
    }

    /// The epoll instance.
    pub fn epoll_fd(&self) -> (fd: i32)
        ensures
            fd == self@.epoll_fd,
    {
        self.epoll_fd
    }

    /// How many threads wait for events.
    pub fn worker_threads(&self) -> (threads: usize)
        ensures
            threads == self@.worker_threads,
    {
        self.worker_threads
    }

    /// How many events one wait takes at most.
    pub fn epoll_buffer_size(&self) -> (size: usize)
        ensures
            size == self@.epoll_buffer_size,
    {
        self.epoll_buffer_size
    }

    /// How long one wait takes at most, in milliseconds.
    pub fn epoll_wait_time(&self) -> (millis: i32)
        ensures
            millis == self@.epoll_wait_time,
    {
        self.epoll_wait_time
    }
}

impl ReactorState {
    /// The reactor after `n` keys have been handed out.
    pub open spec fn after_keys(self, n: nat) -> ReactorState
        decreases n,
    {
        if n == 0 {
            self
        } else {
            self.after_keys((n - 1) as nat).advance()
        }
    }

    /// Nothing under `key` differs between two reactors.
    pub open spec fn agrees_on(self, other: ReactorState, key: u64) -> bool {
        &&& crate::tables::entry(self.readers, key) == crate::tables::entry(other.readers, key)
        &&& crate::tables::entry(self.writers, key) == crate::tables::entry(other.writers, key)
        &&& crate::tables::entry(self.streams, key) == crate::tables::entry(other.streams, key)
    }
}

/// None of the events concerns `key`.
pub open spec fn none_concerns(events: Seq<EpollEvent>, key: u64) -> bool {
    forall|i: int| 0 <= i < events.len() ==> (#[trigger] events[i]).key != key
}

/// It does not matter how a stream of events is cut into batches: two batches in a row come to the
/// same as one.
pub proof fn law_batches_compose(reactor: ReactorState, first: Seq<EpollEvent>, second: Seq<EpollEvent>)
    ensures
        reactor.after_events(first + second) == reactor.after_events(first).after_events(second),
        reactor.batch_actions(first + second) == reactor.batch_actions(first)
            + reactor.after_events(first).batch_actions(second),
    decreases second.len(),
{
    if second.len() > 0 {
        law_batches_compose(reactor, first, second.drop_last());
        assert((first + second).drop_last() =~= first + second.drop_last());
    }
}

/// Events leave alone what belongs to keys that they do not concern, and they never touch the
/// settings of the reactor or the next key.
pub proof fn law_events_of_other_keys(reactor: ReactorState, key: u64, events: Seq<EpollEvent>)
    ensures
        none_concerns(events, key) ==> reactor.after_events(events).agrees_on(reactor, key),
        reactor.after_events(events).next_key == reactor.next_key,
        reactor.after_events(events).epoll_fd == reactor.epoll_fd,
        reactor.after_events(events).worker_threads == reactor.worker_threads,
        reactor.after_events(events).epoll_buffer_size == reactor.epoll_buffer_size,
        reactor.after_events(events).epoll_wait_time == reactor.epoll_wait_time,
    decreases events.len(),
{
    if events.len() > 0 {
        law_events_of_other_keys(reactor, key, events.drop_last());
    }
}

/// Who waits to read is woken by the first readiness event of their key, whatever events of other
/// keys come before it, and then no longer waits.
pub proof fn law_reader_is_woken(
    reactor: ReactorState,
    key: u64,
    waker: Waker,
    others: Seq<EpollEvent>,
    event: EpollEvent,
)
    requires
        none_concerns(others, key),
        event.key == key,
        !crate::epoll::is_broken(event.events),
    ensures
        reactor.await_read(key, waker).batch_actions(others.push(event))
            == reactor.await_read(key, waker).batch_actions(others) + seq![
            Action::WakeReader(key, waker),
        ] + writer_wake(reactor.writers, key),
        !reactor.await_read(key, waker).after_events(others.push(event)).readers.contains_key(key),
{
    let waiting = reactor.await_read(key, waker);
    law_events_of_other_keys(waiting, key, others);
    assert(others.push(event).drop_last() =~= others);
}

/// Who waits to write is woken by the first readiness event of their key, whatever events of other
/// keys come before it, and then no longer waits.
pub proof fn law_writer_is_woken(
    reactor: ReactorState,
    key: u64,
    waker: Waker,
    others: Seq<EpollEvent>,
    event: EpollEvent,
)
    requires
        none_concerns(others, key),
        event.key == key,
        !crate::epoll::is_broken(event.events),
    ensures
        reactor.await_write(key, waker).batch_actions(others.push(event))
            == reactor.await_write(key, waker).batch_actions(others) + reader_wake(
            reactor.readers,
            key,
        ) + seq![Action::WakeWriter(key, waker)],
        !reactor.await_write(key, waker).after_events(others.push(event)).writers.contains_key(key),
{
    let waiting = reactor.await_write(key, waker);
    law_events_of_other_keys(waiting, key, others);
    assert(others.push(event).drop_last() =~= others);
}

/// It does not matter in which order the threads get to the reactor that work on different keys: a
/// registration and an event of another key come to the same either way round, and the event makes
/// the same be done.
pub proof fn law_other_keys_commute(
    reactor: ReactorState,
    event: EpollEvent,
    key: u64,
    waker: Waker,
    fd: i32,
)
    requires
        event.key != key,
    ensures
        reactor.await_read(key, waker).after_event(event) == reactor.after_event(event).await_read(
            key,
            waker,
        ),
        reactor.await_read(key, waker).event_actions(event) == reactor.event_actions(event),
        reactor.await_write(key, waker).after_event(event) == reactor.after_event(
            event,
        ).await_write(key, waker),
        reactor.await_write(key, waker).event_actions(event) == reactor.event_actions(event),
        reactor.keep(key, fd).after_event(event) == reactor.after_event(event).keep(key, fd),
        reactor.keep(key, fd).event_actions(event) == reactor.event_actions(event),
        reactor.closed(key).after_event(event) == reactor.after_event(event).closed(key),
        reactor.closed(key).event_actions(event) == reactor.event_actions(event),
        reactor.after_event(event).closing(key) == reactor.closing(key),
{
}

/// A registered waker is woken once: after a readiness event of its key, another one wakes nobody
/// until somebody waits again.
pub proof fn law_woken_once(reactor: ReactorState, first: EpollEvent, second: EpollEvent)
    requires
        first.key == second.key,
        !crate::epoll::is_broken(first.events),
        !crate::epoll::is_broken(second.events),
    ensures
        reactor.after_event(first).event_actions(second) == Seq::<Action>::empty(),
        reactor.after_event(first).after_event(second) == reactor.after_event(first),
{
}

/// A stream that was put in the reactor's care is closed by an event that hangs up or reports an
/// error, whatever events of other keys come before it, and nobody is woken by that event. Those
/// who waited for the stream are handed out with it.
pub proof fn law_broken_stream_is_closed(
    reactor: ReactorState,
    key: u64,
    fd: i32,
    others: Seq<EpollEvent>,
    event: EpollEvent,
)
    requires
        none_concerns(others, key),
        event.key == key,
        crate::epoll::is_broken(event.events),
    ensures
        ({
            let removal = InterestRequest {
                epoll_fd: reactor.epoll_fd,
                fd,
                change: crate::epoll::InterestChange::Remove,
            };
            reactor.keep(key, fd).batch_actions(others.push(event)) == reactor.keep(
                key,
                fd,
            ).batch_actions(others) + seq![
                Action::Close(
                    Closing {
                        request: CloseRequest { fd, removal },
                        reader: crate::tables::entry(reactor.readers, key),
                        writer: crate::tables::entry(reactor.writers, key),
                    },
                ),
            ]
        }),
{
    let kept = reactor.keep(key, fd);
    law_events_of_other_keys(kept, key, others);
    assert(others.push(event).drop_last() =~= others);
}

/// A closed stream leaves nothing behind: nobody waits under its key, closing it again does
/// nothing, and no event of its key makes anything be done. Other keys are left alone.
pub proof fn law_close_is_final(reactor: ReactorState, key: u64, event: EpollEvent, other: u64)
    requires
        reactor.streams.contains_key(key),
        event.key == key,
        other != key,
    ensures
        !reactor.closed(key).readers.contains_key(key),
        !reactor.closed(key).writers.contains_key(key),
        !reactor.closed(key).streams.contains_key(key),
        reactor.closed(key).closing(key) == None::<Closing>,
        reactor.closed(key).closed(key) == reactor.closed(key),
        reactor.closed(key).event_actions(event) == Seq::<Action>::empty(),
        reactor.closed(key).after_event(event) == reactor.closed(key),
        reactor.closed(key).agrees_on(reactor, other),
{
}

/// Under a key without a stream, such as that of a listening socket, a hang-up or an error changes
/// nothing: who waits there keeps waiting.
pub proof fn law_broken_without_stream(reactor: ReactorState, event: EpollEvent)
    requires
        crate::epoll::is_broken(event.events),
        !reactor.streams.contains_key(event.key),
    ensures
        reactor.after_event(event) == reactor,
        reactor.event_actions(event) == Seq::<Action>::empty(),
{
}

/// Keys are handed out in counting order, and handing them out changes nothing else.
pub proof fn law_keys_count_up(reactor: ReactorState, n: nat)
    ensures
        reactor.after_keys(n) == (ReactorState {
            next_key: crate::counter::after(reactor.next_key, n),
            ..reactor
        }),
    decreases n,
{
    if n > 0 {
        law_keys_count_up(reactor, (n - 1) as nat);
    }
}

/// No key is handed out twice, short of as many keys as there are numbers.
pub proof fn law_keys_are_distinct(reactor: ReactorState, i: nat, j: nat)
    requires
        i < j,
        j - i < crate::counter::numbers(),
    ensures
        reactor.after_keys(i).next_key != reactor.after_keys(j).next_key,
{
    law_keys_count_up(reactor, i);
    law_keys_count_up(reactor, j);
    crate::counter::law_distinct(reactor.next_key, i, j);
}

/// A reactor whose first key follows the listener's never gives the listener's key to a stream,
/// short of running through all numbers.
pub proof fn law_keys_avoid_the_listener(reactor: ReactorState, n: nat)
    requires
        reactor.next_key == EPOLL_KEY + 1,
        n + 1 < crate::counter::numbers(),
    ensures
        reactor.after_keys(n).next_key != EPOLL_KEY,
{
    law_keys_count_up(reactor, n);
    lemma_key_after(EPOLL_KEY, n);
    crate::counter::law_distinct(EPOLL_KEY, 0, n + 1);
}

/// Counting on from the number after `key` is counting one further from `key`.
proof fn lemma_key_after(key: u64, n: nat)
    ensures
        crate::counter::after(crate::counter::next(key), n) == crate::counter::after(key, n + 1),
    decreases n,
{
    if n > 0 {
        lemma_key_after(key, (n - 1) as nat);
    } else {
        assert(crate::counter::after(key, 0) == key);
    }
}

impl ReactorState {
    /// All keys under which streams are in care have been handed out, and none is the listener's.
    pub open spec fn keys_were_handed_out(self) -> bool {
        &&& EPOLL_KEY < self.next_key
        &&& forall|key: u64|
            #[trigger] self.streams.contains_key(key) ==> EPOLL_KEY < key < self.next_key
    }
}

/// Where every stream came in under a key that was handed out for it, the key that is handed out
/// next is free, and so it stays: through the next stream, short of the largest number, and through
/// registrations, closings and events.
pub proof fn law_next_key_is_free(
    reactor: ReactorState,
    fd: i32,
    key: u64,
    waker: Waker,
    events: Seq<EpollEvent>,
)
    requires
        reactor.keys_were_handed_out(),
    ensures
        !reactor.streams.contains_key(reactor.next_key),
        !reactor.streams.contains_key(EPOLL_KEY),
        reactor.next_key < u64::MAX ==> reactor.advance().keep(
            reactor.next_key,
            fd,
        ).keys_were_handed_out(),
        reactor.await_read(key, waker).keys_were_handed_out(),
        reactor.await_write(key, waker).keys_were_handed_out(),
        reactor.closed(key).keys_were_handed_out(),
        reactor.after_events(events).keys_were_handed_out(),
    decreases events.len(),
{
    if events.len() > 0 {
        law_next_key_is_free(reactor, fd, key, waker, events.drop_last());
    }
}

} // verus!
