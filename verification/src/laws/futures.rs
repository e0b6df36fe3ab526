//! Calls on connections, listeners and the futures that they hand out.

use super::reactor::{same_but_under, same_settings};
use crate::epoll::{EpollEvent, InterestChange, InterestRequest};
use crate::executor::Poll;
use crate::futures::{
    must_flush, AcceptFuture, Accepted, Attempt, MyTcpListener, MyTcpStream, Polled, StreamFuture,
    StreamFutureWrite, READ_SIZE,
};
use crate::reactor::{Action, Reactor, Registration};
use std::task::Waker;
use vstd::prelude::*;

verus! {

/// A write is finished by the first attempt that does not have to wait: with success if anything of
/// it was done, and with the very failure if it failed. Then the reactor is left as it was, and who
/// polled is handed back.
pub proof fn law_write_is_finished_by_one_attempt<E>(
    future: &StreamFutureWrite,
    write: Attempt<usize, E>,
    waker: Waker,
    reactor: &mut Reactor,
    polled: Polled<Result<(), E>>,
)
    requires
        call_ensures(StreamFutureWrite::poll::<E>, (future, write, waker, reactor), polled),
        !(write is WouldBlock),
    ensures
        final(reactor)@ == old(reactor)@,
        polled.released == Some(waker),
        polled.progress matches Poll::Ready(result) && (result is Ok <==> write is Done) && (
        result matches Err(error) ==> write == Attempt::<usize, E>::Failed(error)),
{
}

/// A write that would have to wait is pending, and who polled waits to write under the key of the
/// connection, in place of the one who did. Who waits to read, the streams in care and all other
/// keys are left alone.
pub proof fn law_pending_write_waits<E>(
    future: &StreamFutureWrite,
    waker: Waker,
    reactor: &mut Reactor,
    polled: Polled<Result<(), E>>,
)
    requires
        call_ensures(
            StreamFutureWrite::poll::<E>,
            (future, Attempt::WouldBlock, waker, reactor),
            polled,
        ),
    ensures
        polled.progress is Pending,
        final(reactor)@.writers.get(future.key) == Some(waker),
        polled.released == old(reactor)@.writers.get(future.key),
        same_but_under(old(reactor)@, final(reactor)@, future.key),
        final(reactor)@.readers.get(future.key) == old(reactor)@.readers.get(future.key),
        final(reactor)@.streams.get(future.key) == old(reactor)@.streams.get(future.key),
{
}

/// A read is finished by the first attempt that does not have to wait: with the very failure if it
/// failed, and else with exactly as many bytes as it brought, those at the front of the buffer in
/// their order. Then the reactor is left as it was, and who polled is handed back.
pub proof fn law_read_is_finished_by_one_attempt<E>(
    future: &StreamFuture,
    read: Attempt<usize, E>,
    buf: &[u8; READ_SIZE],
    waker: Waker,
    reactor: &mut Reactor,
    polled: Polled<Result<Vec<u8>, E>>,
)
    requires
        call_ensures(StreamFuture::poll::<E>, (future, read, buf, waker, reactor), polled),
        !(read is WouldBlock),
        read matches Attempt::Done(len) ==> len <= 4096,
    ensures
        final(reactor)@ == old(reactor)@,
        polled.released == Some(waker),
        polled.progress is Ready,
        match (read, polled.progress) {
            (Attempt::Done(len), Poll::Ready(Ok(bytes))) => bytes@.len() == len && forall|i: int|
                0 <= i < len ==> #[trigger] bytes@[i] == buf[i],
            (Attempt::Failed(error), Poll::Ready(Err(reported))) => reported == error,
            _ => false,
        },
{
}

/// A read that would have to wait is pending, and who polled waits to read under the key of the
/// connection, in place of the one who did. Who waits to write, the streams in care and all other
/// keys are left alone.
pub proof fn law_pending_read_waits<E>(
    future: &StreamFuture,
    buf: &[u8; READ_SIZE],
    waker: Waker,
    reactor: &mut Reactor,
    polled: Polled<Result<Vec<u8>, E>>,
)
    requires
        call_ensures(
            StreamFuture::poll::<E>,
            (future, Attempt::WouldBlock, buf, waker, reactor),
            polled,
        ),
    ensures
        polled.progress is Pending,
        final(reactor)@.readers.get(future.key) == Some(waker),
        polled.released == old(reactor)@.readers.get(future.key),
        same_but_under(old(reactor)@, final(reactor)@, future.key),
        final(reactor)@.writers.get(future.key) == old(reactor)@.writers.get(future.key),
        final(reactor)@.streams.get(future.key) == old(reactor)@.streams.get(future.key),
{
}

/// An acceptance gives the connection that was accepted, under the key that is handed out next, and
/// puts the duplicate in the reactor's care under that key. Its events are asked for under that
/// very key. Nobody who waits is touched, and who polled is handed back.
pub proof fn law_accepted_connection_is_registered<E>(
    future: &AcceptFuture,
    accepted: Accepted,
    waker: Waker,
    reactor: &mut Reactor,
    polled: Polled<Result<(MyTcpStream, Registration), E>>,
)
    requires
        call_ensures(
            AcceptFuture::poll::<E>,
            (future, Attempt::Done(accepted), waker, reactor),
            polled,
        ),
    ensures
        polled.released == Some(waker),
        polled.progress matches Poll::Ready(Ok(made)) && {
            let (before, after) = (old(reactor)@, final(reactor)@);
            let key = made.0.key;
            &&& key == before.next_key
            &&& made.0.fd == accepted.fd
            &&& made.1.displaced == before.streams.get(key)
            &&& made.1.request.epoll_fd == before.epoll_fd
            &&& made.1.request.fd == accepted.fd
            &&& made.1.request.change matches InterestChange::Add(event)
            &&& event.key == key
            &&& event.events == 0x9000_001d
            &&& after.streams.get(key) == Some(accepted.kept)
            &&& forall|other: u64|
                other != key ==> #[trigger] after.streams.get(other) == before.streams.get(other)
            &&& after.readers == before.readers
            &&& after.writers == before.writers
            &&& after.next_key == (key + 1) % 0x1_0000_0000_0000_0000
            &&& same_settings(before, after)
        },
{
}

/// An acceptance that would have to wait is pending, and who polled waits to read under key 100,
/// the listener's, in place of the one who did. Nothing else changes.
pub proof fn law_pending_acceptance_waits<E>(
    future: &AcceptFuture,
    waker: Waker,
    reactor: &mut Reactor,
    polled: Polled<Result<(MyTcpStream, Registration), E>>,
)
    requires
        call_ensures(
            AcceptFuture::poll::<E>,
            (future, Attempt::WouldBlock, waker, reactor),
            polled,
        ),
    ensures
        polled.progress is Pending,
        final(reactor)@.readers.get(100) == Some(waker),
        polled.released == old(reactor)@.readers.get(100),
        same_but_under(old(reactor)@, final(reactor)@, 100),
        final(reactor)@.writers.get(100) == old(reactor)@.writers.get(100),
        final(reactor)@.streams.get(100) == old(reactor)@.streams.get(100),
{
}

/// An acceptance that failed gives the very failure. The reactor is left as it was, no key is used
/// up, and who polled is handed back.
pub proof fn law_failed_acceptance_changes_nothing<E>(
    future: &AcceptFuture,
    error: E,
    waker: Waker,
    reactor: &mut Reactor,
    polled: Polled<Result<(MyTcpStream, Registration), E>>,
)
    requires
        call_ensures(
            AcceptFuture::poll::<E>,
            (future, Attempt::Failed(error), waker, reactor),
            polled,
        ),
    ensures
        polled.progress matches Poll::Ready(Err(reported)) && reported == error,
        polled.released == Some(waker),
        final(reactor)@ == old(reactor)@,
{
}

/// A pending read outlives a write to the same connection, whatever comes of the write: the first
/// event of the connection wakes the reader, unless it is an error or a hang-up.
pub proof fn law_pending_read_outlives_a_write<E>(
    read: &StreamFuture,
    buf: &[u8; READ_SIZE],
    reader: Waker,
    reactor: &mut Reactor,
    read_polled: Polled<Result<Vec<u8>, E>>,
    write: &StreamFutureWrite,
    attempt: Attempt<usize, E>,
    writer: Waker,
    written: &mut Reactor,
    write_polled: Polled<Result<(), E>>,
    ready: &mut Reactor,
    events: &Vec<EpollEvent>,
    n: int,
    actions: Vec<Action>,
)
    requires
        call_ensures(
            StreamFuture::poll::<E>,
            (read, Attempt::WouldBlock, buf, reader, reactor),
            read_polled,
        ),
        old(written)@ == final(reactor)@,
        call_ensures(StreamFutureWrite::poll::<E>, (write, attempt, writer, written), write_polled),
        old(ready)@ == final(written)@,
        call_ensures(Reactor::run, (ready, events), actions),
        0 <= n < events@.len(),
        events@[n].key == read.key,
        !super::epoll::error_or_hang_up(events@[n].events),
        forall|i: int| 0 <= i < n ==> (#[trigger] events@[i]).key != read.key,
    ensures
        actions@.contains(Action::WakeReader(read.key, reader)),
{
    let state = old(ready)@;
    assert(state =~= state.await_read(read.key, reader));
    lemma_reader_is_woken(state, events@, n, read.key, reader);
}

/// A pending write outlives a read from the same connection, whatever comes of the read: the first
/// event of the connection wakes the writer, unless it is an error or a hang-up.
pub proof fn law_pending_write_outlives_a_read<E>(
    write: &StreamFutureWrite,
    writer: Waker,
    reactor: &mut Reactor,
    write_polled: Polled<Result<(), E>>,
    read: &StreamFuture,
    attempt: Attempt<usize, E>,
    buf: &[u8; READ_SIZE],
    reader: Waker,
    read_from: &mut Reactor,
    read_polled: Polled<Result<Vec<u8>, E>>,
    ready: &mut Reactor,
    events: &Vec<EpollEvent>,
    n: int,
    actions: Vec<Action>,
)
    requires
        call_ensures(
            StreamFutureWrite::poll::<E>,
            (write, Attempt::WouldBlock, writer, reactor),
            write_polled,
        ),
        old(read_from)@ == final(reactor)@,
        call_ensures(
            StreamFuture::poll::<E>,
            (read, attempt, buf, reader, read_from),
            read_polled,
        ),
        old(ready)@ == final(read_from)@,
        call_ensures(Reactor::run, (ready, events), actions),
        0 <= n < events@.len(),
        events@[n].key == write.key,
        !super::epoll::error_or_hang_up(events@[n].events),
        forall|i: int| 0 <= i < n ==> (#[trigger] events@[i]).key != write.key,
    ensures
        actions@.contains(Action::WakeWriter(write.key, writer)),
{
    let state = old(ready)@;
    assert(state =~= state.await_write(write.key, writer));
    lemma_writer_is_woken(state, events@, n, write.key, writer);
}

/// Neither a read nor a write makes the reactor give up a connection, whatever comes of it: its
/// hang-up still closes the descriptor that is kept.
pub proof fn law_connection_outlives_reads_and_writes<E>(
    read: &StreamFuture,
    read_attempt: Attempt<usize, E>,
    buf: &[u8; READ_SIZE],
    reader: Waker,
    reactor: &mut Reactor,
    read_polled: Polled<Result<Vec<u8>, E>>,
    write: &StreamFutureWrite,
    write_attempt: Attempt<usize, E>,
    writer: Waker,
    written: &mut Reactor,
    write_polled: Polled<Result<(), E>>,
    hung_up: &mut Reactor,
    events: &Vec<EpollEvent>,
    actions: Vec<Action>,
)
    requires
        call_ensures(
            StreamFuture::poll::<E>,
            (read, read_attempt, buf, reader, reactor),
            read_polled,
        ),
        old(written)@ == final(reactor)@,
        call_ensures(
            StreamFutureWrite::poll::<E>,
            (write, write_attempt, writer, written),
            write_polled,
        ),
        old(hung_up)@ == final(written)@,
        call_ensures(Reactor::run, (hung_up, events), actions),
        events@.len() == 1,
        super::epoll::error_or_hang_up(events@[0].events),
        old(reactor)@.streams.contains_key(events@[0].key),
    ensures
        actions@.len() == 1,
        actions@[0] matches Action::Close(closing) && closing.request.fd
            == old(reactor)@.streams[events@[0].key],
{
    super::reactor::law_hang_up_closes(hung_up, events, actions);
}

/// Who waits to read is woken by the first event of the key.
proof fn lemma_reader_is_woken(
    state: crate::reactor::ReactorState,
    events: Seq<EpollEvent>,
    n: int,
    key: u64,
    reader: Waker,
)
    requires
        state == state.await_read(key, reader),
        0 <= n < events.len(),
        events[n].key == key,
        !super::epoll::error_or_hang_up(events[n].events),
        forall|i: int| 0 <= i < n ==> (#[trigger] events[i]).key != key,
    ensures
        state.batch_actions(events).contains(Action::WakeReader(key, reader)),
{
    let upto = events.take(n + 1);
    assert(upto =~= events.take(n).push(events[n]));
    super::epoll::law_broken_by_two_bits(events[n].events);
    crate::reactor::law_reader_is_woken(state, key, reader, events.take(n), events[n]);
    assert(events =~= upto + events.skip(n + 1));
    crate::reactor::law_batches_compose(state, upto, events.skip(n + 1));
    let at = state.batch_actions(events.take(n)).len() as int;
    assert(state.batch_actions(events)[at] == Action::WakeReader(key, reader));
}

/// Who waits to write is woken by the first event of the key.
proof fn lemma_writer_is_woken(
    state: crate::reactor::ReactorState,
    events: Seq<EpollEvent>,
    n: int,
    key: u64,
    writer: Waker,
)
    requires
        state == state.await_write(key, writer),
        0 <= n < events.len(),
        events[n].key == key,
        !super::epoll::error_or_hang_up(events[n].events),
        forall|i: int| 0 <= i < n ==> (#[trigger] events[i]).key != key,
    ensures
        state.batch_actions(events).contains(Action::WakeWriter(key, writer)),
{
    let upto = events.take(n + 1);
    assert(upto =~= events.take(n).push(events[n]));
    super::epoll::law_broken_by_two_bits(events[n].events);
    crate::reactor::law_writer_is_woken(state, key, writer, events.take(n), events[n]);
    assert(events =~= upto + events.skip(n + 1));
    crate::reactor::law_batches_compose(state, upto, events.skip(n + 1));
    let at = state.batch_actions(upto).len() - 1;
    assert(state.batch_actions(events)[at] == Action::WakeWriter(key, writer));
}

/// A connection is flushed after a write exactly if something of it was done, however little.
pub proof fn law_flushed_after_a_write<E>(write: &Attempt<usize, E>, flush: bool)
    requires
        call_ensures(must_flush::<E>, (write,), flush),
    ensures
        flush <==> !(write is WouldBlock) && !(write is Failed),
{
}

/// A connection reads and writes under the key that it was registered under, through the duplicates
/// of its descriptor that it is given, and writes the very bytes that it is given.
pub proof fn law_futures_of_a_connection(
    fd: i32,
    kept: i32,
    key: u64,
    reactor: &mut Reactor,
    made: (MyTcpStream, Registration),
    read_through: i32,
    read: StreamFuture,
    write_through: i32,
    to_write: &'static [u8],
    write: StreamFutureWrite,
)
    requires
        call_ensures(MyTcpStream::new, (fd, kept, key, reactor), made),
        call_ensures(MyTcpStream::read, (&made.0, read_through), read),
        call_ensures(MyTcpStream::write, (&made.0, write_through, to_write), write),
    ensures
        made.0.fd == fd,
        read.key == key && write.key == key,
        read.stream == read_through,
        write.stream == write_through,
        write.to_write == to_write,
        made.1.displaced == old(reactor)@.streams.get(key),
        made.1.request.fd == fd,
        made.1.request.epoll_fd == old(reactor)@.epoll_fd,
        made.1.request.change matches InterestChange::Add(event) && event.key == key
            && event.events == 0x9000_001d,
        final(reactor)@.streams.get(key) == Some(kept),
        same_but_under(old(reactor)@, final(reactor)@, key),
        final(reactor)@.readers.get(key) == old(reactor)@.readers.get(key),
        final(reactor)@.writers.get(key) == old(reactor)@.writers.get(key),
{
}

/// A future that is made for a connection reads or writes under the same key, and through the same
/// descriptor, as one that the connection hands out.
pub proof fn law_futures_are_made_alike(
    connection: &MyTcpStream,
    stream: i32,
    to_write: &'static [u8],
    read: StreamFuture,
    made_read: StreamFuture,
    write: StreamFutureWrite,
    made_write: StreamFutureWrite,
)
    requires
        call_ensures(MyTcpStream::read, (connection, stream), read),
        call_ensures(StreamFuture::new, (stream, connection.key), made_read),
        call_ensures(MyTcpStream::write, (connection, stream, to_write), write),
        call_ensures(StreamFutureWrite::new, (stream, connection.key, to_write), made_write),
    ensures
        made_read == read && made_read.stream == stream && made_read.key == connection.key,
        made_write == write && made_write.stream == stream && made_write.key == connection.key
            && made_write.to_write == to_write,
{
}

/// A listener asks for its events under key 100, on the reactor's own epoll instance, and accepts
/// through the duplicates of its descriptor that it is given.
pub proof fn law_listener_accepts(
    socket: i32,
    reactor: &Reactor,
    made: (MyTcpListener, InterestRequest),
    through: i32,
    future: AcceptFuture,
    made_future: AcceptFuture,
)
    requires
        call_ensures(MyTcpListener::bind, (socket, reactor), made),
        call_ensures(MyTcpListener::maccept, (&made.0, through), future),
        call_ensures(AcceptFuture::new, (through,), made_future),
    ensures
        made.0.listener == socket,
        made.1.fd == socket,
        made.1.epoll_fd == reactor@.epoll_fd,
        made.1.change matches InterestChange::Add(event) && event.key == 100 && event.events
            == 0x9000_001d,
        future.listener == through,
        made_future == future,
{
}

/// A listener that waits under the key that it was bound with is woken: an event that carries the
/// key of its registration wakes who polled the acceptance, unless it is an error or a hang-up.
pub proof fn law_pending_acceptance_is_woken<E>(
    socket: i32,
    made: (MyTcpListener, InterestRequest),
    future: &AcceptFuture,
    waker: Waker,
    reactor: &mut Reactor,
    polled: Polled<Result<(MyTcpStream, Registration), E>>,
    later: &mut Reactor,
    events: &Vec<EpollEvent>,
    n: int,
    actions: Vec<Action>,
)
    requires
        call_ensures(MyTcpListener::bind, (socket, &*old(reactor)), made),
        call_ensures(
            AcceptFuture::poll::<E>,
            (future, Attempt::WouldBlock, waker, reactor),
            polled,
        ),
        old(later)@ == final(reactor)@,
        call_ensures(Reactor::run, (later, events), actions),
        0 <= n < events@.len(),
        made.1.change matches InterestChange::Add(event) && events@[n].key == event.key,
        !super::epoll::error_or_hang_up(events@[n].events),
        forall|i: int| 0 <= i < n ==> (#[trigger] events@[i]).key != events@[n].key,
    ensures
        actions@.contains(Action::WakeReader(events@[n].key, waker)),
{
    let state = old(later)@;
    assert(state =~= state.await_read(100, waker));
    lemma_reader_is_woken(state, events@, n, 100, waker);
}

/// What a read fills has room for 4096 bytes, and is all zeros.
pub proof fn law_read_buffer(buf: [u8; READ_SIZE], i: int)
    requires
        call_ensures(StreamFuture::buffer, (), buf),
    ensures
        buf@.len() == 4096,
        0 <= i < 4096 ==> buf[i] == 0,
{
}

/// All of these can be called with any arguments, but that a read brings no more than the buffer
/// has room for.
pub proof fn law_futures_have_no_conditions<E>(
    connection: &MyTcpStream,
    listener: &MyTcpListener,
    reactor: &mut Reactor,
    shared: &Reactor,
    stream: i32,
    kept: i32,
    key: u64,
    to_write: &'static [u8],
    read: &StreamFuture,
    read_attempt: Attempt<usize, E>,
    buf: &[u8; READ_SIZE],
    write: &StreamFutureWrite,
    write_attempt: Attempt<usize, E>,
    accept: &AcceptFuture,
    accept_attempt: Attempt<Accepted, E>,
    waker: Waker,
)
    ensures
        call_requires(MyTcpStream::new, (stream, kept, key, reactor)),
        call_requires(MyTcpStream::read, (connection, stream)),
        call_requires(MyTcpStream::write, (connection, stream, to_write)),
        call_requires(MyTcpListener::bind, (stream, shared)),
        call_requires(MyTcpListener::maccept, (listener, stream)),
        call_requires(StreamFuture::new, (stream, key)),
        call_requires(StreamFuture::buffer, ()),
        (read_attempt matches Attempt::Done(len) ==> len <= 4096) ==> call_requires(
            StreamFuture::poll::<E>,
            (read, read_attempt, buf, waker, reactor),
        ),
        call_requires(StreamFutureWrite::new, (stream, key, to_write)),
        call_requires(StreamFutureWrite::poll::<E>, (write, write_attempt, waker, reactor)),
        call_requires(AcceptFuture::new, (stream,)),
        call_requires(AcceptFuture::poll::<E>, (accept, accept_attempt, waker, reactor)),
        call_requires(must_flush::<E>, (&write_attempt,)),
{
}

} // verus!
