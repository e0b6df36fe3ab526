//! The futures of sockets: what one attempt at a socket that does not block makes of them, and who
//! is woken when it is worth another attempt.

use crate::epoll::{EpollEvent, InterestRequest};
use crate::executor::Poll;
use crate::reactor::{Action, Reactor, ReactorState, Registration, EPOLL_KEY};
use std::task::Waker;
use vstd::prelude::*;

verus! {

/// How much a read takes at most.
pub const READ_SIZE: usize = 4096;

/// What an attempt at a socket that does not block came to.
pub enum Attempt<T, E> {
    /// It was done, with a result.
    Done(T),
    /// It would have to wait.
    WouldBlock,
    /// It failed.
    Failed(E),
}

/// What polling a future came to.
pub struct Polled<T> {
    /// How far the future has come.
    pub progress: Poll<T>,
    /// Who does not wait now: who waited before in the place that who polls has taken, or who polls
    /// where there is nothing to wait for.
    pub released: Option<Waker>,
}

/// A connection that was accepted: its descriptor, and a duplicate for the reactor to keep.
#[derive(Clone, Copy, Debug, PartialEq, Eq, Structural)]
pub struct Accepted {
    pub fd: i32,
    pub kept: i32,
}

/// A connection, registered under a key.
#[derive(Clone, Copy, Debug, PartialEq, Eq, Structural)]
pub struct MyTcpStream {
    pub fd: i32,
    pub key: u64,
}

/// A socket that listens.
#[derive(Clone, Copy, Debug, PartialEq, Eq, Structural)]
pub struct MyTcpListener {
    pub listener: i32,
}

/// A write to a connection.
pub struct StreamFutureWrite {
    pub stream: i32,
    pub key: u64,
    pub to_write: &'static [u8],
}

/// A read from a connection.
#[derive(Clone, Copy, Debug, PartialEq, Eq, Structural)]
pub struct StreamFuture {
    pub stream: i32,
    pub key: u64,
}

/// The acceptance of a connection.
#[derive(Clone, Copy, Debug, PartialEq, Eq, Structural)]
pub struct AcceptFuture {
    pub listener: i32,
}

/// Who does not wait after a poll by `waker`: who waited under `key` before, if the attempt would
/// have to wait, and else `waker`.
pub open spec fn released_by<T, E>(
    wakers: Map<u64, Waker>,
    key: u64,
    attempt: Attempt<T, E>,
    waker: Waker,
) -> Option<Waker> {
    match attempt {
        Attempt::WouldBlock => crate::tables::entry(wakers, key),
        _ => Some(waker),
    }
}

/// The reactor after a future with something to read under `key` was polled: who polled waits if
/// the attempt would have to.
pub open spec fn after_read_attempt<T, E>(
    reactor: ReactorState,
    key: u64,
    attempt: Attempt<T, E>,
    waker: Waker,
) -> ReactorState {
    match attempt {
        Attempt::WouldBlock => reactor.await_read(key, waker),
        _ => reactor,
    }
}

/// The reactor after a future with something to write under `key` was polled: who polled waits if
/// the attempt would have to.
pub open spec fn after_write_attempt<T, E>(
    reactor: ReactorState,
    key: u64,
    attempt: Attempt<T, E>,
    waker: Waker,
) -> ReactorState {
    match attempt {
        Attempt::WouldBlock => reactor.await_write(key, waker),
        _ => reactor,
    }
}

/// The reactor after the acceptance of a connection was polled: a connection is in its care under
/// the next key, or who polled waits for the listener if the attempt would have to.
pub open spec fn after_accept_attempt<E>(
    reactor: ReactorState,
    attempt: Attempt<Accepted, E>,
    waker: Waker,
) -> ReactorState {
    match attempt {
        Attempt::Done(accepted) => reactor.advance().keep(reactor.next_key, accepted.kept),
        Attempt::WouldBlock => reactor.await_read(EPOLL_KEY, waker),
        Attempt::Failed(_) => reactor,
    }
}

impl MyTcpStream {
    /// Puts the connection `fd` under `key` in the reactor's care, which keeps the duplicate
    /// `kept`.
    pub fn new(fd: i32, kept: i32, key: u64, reactor: &mut Reactor) -> (made: (
        Self,
        Registration,
    ))
        ensures
            made.0 == (MyTcpStream { fd, key }),
            made.1.displaced == crate::tables::entry(old(reactor)@.streams, key),
            made.1.request == old(reactor)@.interest(key, fd),
            final(reactor)@ == old(reactor)@.keep(key, kept),
    {
        let registration: Registration = reactor.register_stream_read(key, kept, fd);
        (MyTcpStream { fd, key }, registration)
    }

    /// A read from this connection, through the duplicate `stream` of its descriptor.
    pub fn read(&self, stream: i32) -> (future: StreamFuture)
        ensures
            future == (StreamFuture { stream, key: self.key }),
    {
        StreamFuture::new(stream, self.key)
    }

    /// A write to this connection, through the duplicate `stream` of its descriptor.
    pub fn write(&self, stream: i32, to_write: &'static [u8]) -> (future: StreamFutureWrite)
        ensures
            future == (StreamFutureWrite { stream, key: self.key, to_write }),
    {
        StreamFutureWrite::new(stream, self.key, to_write)
    }
}

impl MyTcpListener {
    /// Takes the bound socket `listener` over, and asks for its events under the listener's key.
    pub fn bind(listener: i32, reactor: &Reactor) -> (made: (Self, InterestRequest))
        ensures
            made.0 == (MyTcpListener { listener }),
            made.1 == reactor@.interest(EPOLL_KEY, listener),
    {
        (MyTcpListener { listener }, reactor.register_interest(EPOLL_KEY, listener))
    }

    /// The acceptance of a connection, through the duplicate `listener` of the descriptor.
    pub fn maccept(&self, listener: i32) -> (future: AcceptFuture)
        ensures
            future == (AcceptFuture { listener }),
    {
        AcceptFuture::new(listener)
    }
}

/// Whether a connection is flushed after an attempt at a write: it is when some of the write went
/// through, and only then.
pub fn must_flush<E>(write: &Attempt<usize, E>) -> (flush: bool)
    ensures
        flush == (write is Done),
{
    match write {
        Attempt::Done(_) => true,
        _ => false,
    }
}

impl StreamFutureWrite {
    /// A write of `to_write` to the connection `stream`, registered under `key`.
    pub fn new(stream: i32, key: u64, to_write: &'static [u8]) -> (future: Self)
        ensures
            future == (StreamFutureWrite { stream, key, to_write }),
    {
        StreamFutureWrite { stream, key, to_write }
    }

    /// What follows one attempt at the write. However much of it went through, the write is then
    /// finished; an attempt that would have to wait is made again when `waker` was woken.
    pub fn poll<E>(
        &self,
        write: Attempt<usize, E>,
        waker: Waker,
        reactor: &mut Reactor,
    ) -> (polled: Polled<Result<(), E>>)
        ensures
            polled.progress == (match write {
                Attempt::Done(_) => Poll::Ready(Ok::<(), E>(())),
                Attempt::WouldBlock => Poll::Pending,
                Attempt::Failed(error) => Poll::Ready(Err::<(), E>(error)),
            }),
            polled.released == released_by(old(reactor)@.writers, self.key, write, waker),
            final(reactor)@ == after_write_attempt(old(reactor)@, self.key, write, waker),
    {
        match write {
            Attempt::Done(_) => Polled { progress: Poll::Ready(Ok(())), released: Some(waker) },
            Attempt::WouldBlock => {
                let released: Option<Waker> = reactor.register_waker_write(self.key, waker);
                Polled { progress: Poll::Pending, released }
            },
            Attempt::Failed(error) => Polled {
                progress: Poll::Ready(Err(error)),
                released: Some(waker),
            },
        }
    }
}

impl StreamFuture {
    /// A read from the connection `stream`, registered under `key`.
    pub fn new(stream: i32, key: u64) -> (future: Self)
        ensures
            future == (StreamFuture { stream, key }),
    {
        StreamFuture { stream, key }
    }

    /// What an attempt at the read fills: as much as a read takes at most, all zeros.
    pub fn buffer() -> (buf: [u8; READ_SIZE])
        ensures
            buf@ == Seq::new(READ_SIZE as nat, |i: int| 0u8),
    {
        [0u8; 4096]
    }

    /// What follows one attempt at the read, into `buf`: the bytes that it brought, or another
    /// attempt when `waker` was woken, or the failure.
    pub fn poll<E>(
        &self,
        read: Attempt<usize, E>,
        buf: &[u8; READ_SIZE],
        waker: Waker,
        reactor: &mut Reactor,
    ) -> (polled: Polled<Result<Vec<u8>, E>>)
        requires
            read matches Attempt::Done(len) ==> len <= READ_SIZE,
        ensures
            match read {
                Attempt::Done(len) => polled.progress matches Poll::Ready(Ok(bytes)) && bytes@
                    == buf@.take(len as int),
                Attempt::WouldBlock => polled.progress is Pending,
                Attempt::Failed(error) => polled.progress == Poll::Ready(
                    Err::<Vec<u8>, E>(error),
                ),
            },
            polled.released == released_by(old(reactor)@.readers, self.key, read, waker),
            final(reactor)@ == after_read_attempt(old(reactor)@, self.key, read, waker),
    {
        match read {
            Attempt::Done(len) => {
                let mut bytes: Vec<u8> = Vec::new();
                let mut i: usize = 0;
                while i < len
                    invariant
                        i <= len <= READ_SIZE,
                        bytes@ == buf@.take(i as int),
                    decreases len - i,
                {
                    bytes.push(buf[i]);
                    i = i + 1;
                }
                Polled { progress: Poll::Ready(Ok(bytes)), released: Some(waker) }
            },
            Attempt::WouldBlock => {
                let released: Option<Waker> = reactor.register_waker_read(self.key, waker);
                Polled { progress: Poll::Pending, released }
            },
            Attempt::Failed(error) => Polled {
                progress: Poll::Ready(Err(error)),
                released: Some(waker),
            },
        }
    }
}

impl AcceptFuture {
    /// The acceptance of a connection to `listener`.
    pub fn new(listener: i32) -> (future: Self)
        ensures
            future == (AcceptFuture { listener }),
    {
        AcceptFuture { listener }
    }

    /// What follows one attempt to accept: the connection, registered under the next key, or
    /// another attempt when `waker` was woken, or the failure.
    pub fn poll<E>(
        &self,
        accept: Attempt<Accepted, E>,
        waker: Waker,
        reactor: &mut Reactor,
    ) -> (polled: Polled<Result<(MyTcpStream, Registration), E>>)
        ensures
            match accept {
                Attempt::Done(accepted) => {
                    &&& polled.progress matches Poll::Ready(Ok(made))
                    &&& made.0 == (MyTcpStream { fd: accepted.fd, key: old(reactor)@.next_key })
                    &&& made.1.displaced == crate::tables::entry(
                        old(reactor)@.streams,
                        old(reactor)@.next_key,
                    )
                    &&& made.1.request == old(reactor)@.interest(
                        old(reactor)@.next_key,
                        accepted.fd,
                    )
                },
                Attempt::WouldBlock => polled.progress is Pending,
                Attempt::Failed(error) => polled.progress == Poll::Ready(
                    Err::<(MyTcpStream, Registration), E>(error),
                ),
            },
            polled.released == released_by(old(reactor)@.readers, EPOLL_KEY, accept, waker),
            final(reactor)@ == after_accept_attempt(old(reactor)@, accept, waker),
    {
        match accept {
            Attempt::Done(accepted) => {
                let key: u64 = reactor.get_next_key();
                let made: (MyTcpStream, Registration) = MyTcpStream::new(
                    accepted.fd,
                    accepted.kept,
                    key,
                    reactor,
                );
                Polled { progress: Poll::Ready(Ok(made)), released: Some(waker) }
            },
            Attempt::WouldBlock => {
                let released: Option<Waker> = reactor.register_waker_read(EPOLL_KEY, waker);
                Polled { progress: Poll::Pending, released }
            },
            Attempt::Failed(error) => Polled {
                progress: Poll::Ready(Err(error)),
                released: Some(waker),
            },
        }
    }
}

/// A read that would have to wait is taken up again: the first readiness event of its connection
/// wakes who polled it, whatever events of other keys come before.
pub proof fn law_pending_read_is_woken<T, E>(
    reactor: ReactorState,
    key: u64,
    waker: Waker,
    others: Seq<EpollEvent>,
    event: EpollEvent,
)
    requires
        crate::reactor::none_concerns(others, key),
        event.key == key,
        !crate::epoll::is_broken(event.events),
    ensures
        after_read_attempt(reactor, key, Attempt::<T, E>::WouldBlock, waker).batch_actions(
            others.push(event),
        ).contains(Action::WakeReader(key, waker)),
{
    let waiting = after_read_attempt(reactor, key, Attempt::<T, E>::WouldBlock, waker);
    crate::reactor::law_reader_is_woken(reactor, key, waker, others, event);
    assert(waiting.batch_actions(others.push(event))[waiting.batch_actions(others).len() as int]
        == Action::WakeReader(key, waker));
}

/// A write that would have to wait is taken up again: the first readiness event of its connection
/// wakes who polled it, whatever events of other keys come before.
pub proof fn law_pending_write_is_woken<T, E>(
    reactor: ReactorState,
    key: u64,
    waker: Waker,
    others: Seq<EpollEvent>,
    event: EpollEvent,
)
    requires
        crate::reactor::none_concerns(others, key),
        event.key == key,
        !crate::epoll::is_broken(event.events),
    ensures
        after_write_attempt(reactor, key, Attempt::<T, E>::WouldBlock, waker).batch_actions(
            others.push(event),
        ).last() == Action::WakeWriter(key, waker),
{
    crate::reactor::law_writer_is_woken(reactor, key, waker, others, event);
}

/// An acceptance that would have to wait is taken up again: the first readiness event of the
/// listener wakes who polled it, whatever events of connections come before.
pub proof fn law_pending_accept_is_woken<E>(
    reactor: ReactorState,
    waker: Waker,
    others: Seq<EpollEvent>,
    event: EpollEvent,
)
    requires
        crate::reactor::none_concerns(others, EPOLL_KEY),
        event.key == EPOLL_KEY,
        !crate::epoll::is_broken(event.events),
    ensures
        after_accept_attempt(reactor, Attempt::<Accepted, E>::WouldBlock, waker).batch_actions(
            others.push(event),
        ).contains(Action::WakeReader(EPOLL_KEY, waker)),
{
    law_pending_read_is_woken::<Accepted, E>(reactor, EPOLL_KEY, waker, others, event);
}

/// A reader and a writer of one connection do not get in each other's way: with both waiting, a
/// readiness event wakes the reader, then the writer.
pub proof fn law_reader_and_writer_are_woken(
    reactor: ReactorState,
    key: u64,
    reader: Waker,
    writer: Waker,
    event: EpollEvent,
)
    requires
        event.key == key,
        !crate::epoll::is_broken(event.events),
    ensures
        reactor.await_read(key, reader).await_write(key, writer)
            == reactor.await_write(key, writer).await_read(key, reader),
        reactor.await_read(key, reader).await_write(key, writer).event_actions(event)
            == seq![Action::WakeReader(key, reader), Action::WakeWriter(key, writer)],
{
}

/// A connection that is accepted uses up its key, and its hang-up closes the descriptor that is
/// kept of it, whatever events of other keys come before.
pub proof fn law_accepted_connection_is_closed_on_hang_up<E>(
    reactor: ReactorState,
    accepted: Accepted,
    waker: Waker,
    others: Seq<EpollEvent>,
    event: EpollEvent,
)
    requires
        crate::reactor::none_concerns(others, reactor.next_key),
        event.key == reactor.next_key,
        crate::epoll::is_broken(event.events),
    ensures
        after_accept_attempt(reactor, Attempt::<Accepted, E>::Done(accepted), waker).next_key
            != reactor.next_key,
        after_accept_attempt(
            reactor,
            Attempt::<Accepted, E>::Done(accepted),
            waker,
        ).batch_actions(others.push(event)).last() matches Action::Close(closing)
            && closing.request.fd == accepted.kept,
{
    crate::reactor::law_broken_stream_is_closed(
        reactor.advance(),
        reactor.next_key,
        accepted.kept,
        others,
        event,
    );
}

/// Where every connection came in by being accepted, an accepted connection displaces no other,
/// and so it stays, short of the largest number.
pub proof fn law_accepted_connection_displaces_nobody<E>(
    reactor: ReactorState,
    accept: Attempt<Accepted, E>,
    waker: Waker,
)
    requires
        reactor.keys_were_handed_out(),
        reactor.next_key < u64::MAX,
    ensures
        crate::tables::entry(reactor.streams, reactor.next_key) == None::<i32>,
        after_accept_attempt(reactor, accept, waker).keys_were_handed_out(),
{
    match accept {
        Attempt::Done(accepted) => crate::reactor::law_next_key_is_free(
            reactor,
            accepted.kept,
            EPOLL_KEY,
            waker,
            seq![],
        ),
        _ => {},
    }
}

} // verus!
