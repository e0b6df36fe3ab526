use async_executor::epoll::{EpollEvent, InterestChange, EPOLLHUP, EPOLLIN, EPOLLOUT, READ_FLAGS};
use async_executor::executor::Poll;
use async_executor::futures::{
    must_flush, AcceptFuture, Accepted, Attempt, MyTcpListener, MyTcpStream, StreamFuture,
    StreamFutureWrite, READ_SIZE,
};
use async_executor::reactor::{Action, Reactor, EPOLL_KEY};
use std::sync::atomic::{AtomicUsize, Ordering};
use std::sync::Arc;
use std::task::{Wake, Waker};

struct Count(AtomicUsize);

impl Wake for Count {
    fn wake(self: Arc<Self>) {
        self.0.fetch_add(1, Ordering::SeqCst);
    }
}

fn counted() -> (Arc<Count>, Waker) {
    let count = Arc::new(Count(AtomicUsize::new(0)));
    (count.clone(), Waker::from(count))
}

fn wake_all(reactor: &mut Reactor, events: u32, key: u64) -> usize {
    let mut wakes = 0;
    for action in reactor.run(&vec![EpollEvent { events, key }]) {
        match action {
            Action::WakeReader(woken, waker) | Action::WakeWriter(woken, waker) => {
                assert_eq!(woken, key);
                waker.wake();
                wakes += 1;
            }
            Action::Close(_) => {}
        }
    }
    wakes
}

fn reactor() -> Reactor {
    Reactor::new(1024, 2, 100, 7)
}

#[test]
fn a_read_gives_the_bytes_that_came() {
    let mut reactor = reactor();
    let future = StreamFuture::new(11, 101);
    let mut buf = StreamFuture::buffer();
    assert_eq!(READ_SIZE, 4096);
    assert_eq!(buf, [0u8; 4096]);
    buf[0] = 65;
    buf[1] = 66;
    let (_, waker) = counted();
    let progress = future.poll(Attempt::<usize, i32>::Done(2), &buf, waker, &mut reactor).progress;
    assert_eq!(progress, Poll::Ready(Ok(vec![65, 66])));
    let (_, waker) = counted();
    let ended = future.poll(Attempt::<usize, i32>::Done(0), &buf, waker, &mut reactor).progress;
    assert_eq!(ended, Poll::Ready(Ok(vec![])));
    assert_eq!(wake_all(&mut reactor, EPOLLIN, 101), 0);
}

#[test]
fn a_read_that_waits_is_woken() {
    let mut reactor = reactor();
    let future = StreamFuture::new(11, 101);
    let (count, waker) = counted();
    let buf = StreamFuture::buffer();
    let progress = future.poll(Attempt::<usize, i32>::WouldBlock, &buf, waker, &mut reactor).progress;
    assert_eq!(progress, Poll::Pending);
    assert_eq!(wake_all(&mut reactor, EPOLLIN, 102), 0);
    assert_eq!(wake_all(&mut reactor, EPOLLIN, 101), 1);
    assert_eq!(count.0.load(Ordering::SeqCst), 1);
}

#[test]
fn a_read_that_fails_reports_it() {
    let mut reactor = reactor();
    let future = StreamFuture::new(11, 101);
    let (_, waker) = counted();
    let buf = StreamFuture::buffer();
    let progress = future.poll(Attempt::<usize, i32>::Failed(104), &buf, waker, &mut reactor).progress;
    assert_eq!(progress, Poll::Ready(Err(104)));
    assert_eq!(wake_all(&mut reactor, EPOLLIN, 101), 0);
}

#[test]
fn a_read_takes_a_full_buffer() {
    let mut reactor = reactor();
    let future = StreamFuture::new(11, 101);
    let mut buf = StreamFuture::buffer();
    buf[4095] = 9;
    let (_, waker) = counted();
    let progress = future.poll(Attempt::<usize, i32>::Done(4096), &buf, waker, &mut reactor).progress;
    assert_eq!(progress, Poll::Ready(Ok(buf.to_vec())));
}

#[test]
fn a_connection_is_flushed_after_a_write() {
    assert!(must_flush(&Attempt::<usize, i32>::Done(5)));
    assert!(must_flush(&Attempt::<usize, i32>::Done(0)));
    assert!(!must_flush(&Attempt::<usize, i32>::WouldBlock));
    assert!(!must_flush(&Attempt::<usize, i32>::Failed(32)));
}

#[test]
fn a_write_is_finished_however_much_went_through() {
    let mut reactor = reactor();
    let future = StreamFutureWrite::new(11, 101, b"hello");
    assert_eq!(future.to_write, b"hello");
    let (_, waker) = counted();
    let progress = future.poll(Attempt::<usize, i32>::Done(2), waker, &mut reactor).progress;
    assert_eq!(progress, Poll::Ready(Ok(())));
}

#[test]
fn a_write_that_waits_is_woken() {
    let mut reactor = reactor();
    let future = StreamFutureWrite::new(11, 101, b"hello");
    let (count, waker) = counted();
    let progress = future.poll(Attempt::<usize, i32>::WouldBlock, waker, &mut reactor).progress;
    assert_eq!(progress, Poll::Pending);
    assert_eq!(wake_all(&mut reactor, EPOLLOUT, 101), 1);
    assert_eq!(count.0.load(Ordering::SeqCst), 1);
}

#[test]
fn a_write_that_fails_reports_it() {
    let mut reactor = reactor();
    let future = StreamFutureWrite::new(11, 101, b"hello");
    let (_, waker) = counted();
    let progress = future.poll(Attempt::<usize, i32>::Failed(32), waker, &mut reactor).progress;
    assert_eq!(progress, Poll::Ready(Err(32)));
}

#[test]
fn accepted_connections_get_fresh_keys() {
    let mut reactor = reactor();
    let future = AcceptFuture::new(5);
    for i in 0..3 {
        let (_, waker) = counted();
        let accepted = Accepted { fd: 20 + i, kept: 40 + i };
        let accept = Attempt::<Accepted, i32>::Done(accepted);
        match future.poll(accept, waker, &mut reactor).progress {
            Poll::Ready(Ok((stream, registration))) => {
                assert_eq!(stream, MyTcpStream { fd: 20 + i, key: 101 + i as u64 });
                assert_eq!(registration.displaced, None);
                assert_eq!((registration.request.epoll_fd, registration.request.fd), (7, 20 + i));
                assert_eq!(
                    registration.request.change,
                    InterestChange::Add(EpollEvent { events: READ_FLAGS, key: 101 + i as u64 })
                );
            }
            _ => panic!("the connection was accepted"),
        }
    }
    let closed = reactor.run(&vec![EpollEvent { events: EPOLLHUP, key: 102 }]);
    assert_eq!(closed.len(), 1);
    assert!(matches!(&closed[0], Action::Close(closing) if closing.request.fd == 41));
}

#[test]
fn an_acceptance_that_waits_is_woken_by_the_listener() {
    let mut reactor = reactor();
    let future = AcceptFuture::new(5);
    let (count, waker) = counted();
    let accept = Attempt::<Accepted, i32>::WouldBlock;
    assert_eq!(future.poll(accept, waker, &mut reactor).progress, Poll::Pending);
    assert_eq!(wake_all(&mut reactor, EPOLLIN, EPOLL_KEY), 1);
    assert_eq!(count.0.load(Ordering::SeqCst), 1);
    let (_, waker) = counted();
    let failed = future.poll(Attempt::<Accepted, i32>::Failed(24), waker, &mut reactor).progress;
    assert_eq!(failed, Poll::Ready(Err(24)));
    assert_eq!(reactor.get_next_key(), 101);
}

#[test]
fn streams_and_listeners_hand_out_futures() {
    let mut reactor = reactor();
    let (stream, registration) = MyTcpStream::new(11, 12, 101, &mut reactor);
    assert_eq!(stream, MyTcpStream { fd: 11, key: 101 });
    assert_eq!(registration.request.fd, 11);
    assert_eq!(stream.read(13), StreamFuture { stream: 13, key: 101 });
    let write = stream.write(14, b"x");
    assert_eq!((write.stream, write.key, write.to_write), (14, 101, &b"x"[..]));
    assert_eq!(reactor.close(101).unwrap().request.fd, 12);
    let (listener, request) = MyTcpListener::bind(5, &reactor);
    assert_eq!(listener, MyTcpListener { listener: 5 });
    assert_eq!(request.fd, 5);
    assert_eq!(
        request.change,
        InterestChange::Add(EpollEvent { events: READ_FLAGS, key: EPOLL_KEY })
    );
    assert_eq!(listener.maccept(6), AcceptFuture { listener: 6 });
}

#[test]
fn who_waits_is_displaced_by_who_polls_later() {
    let mut reactor = reactor();
    let future = StreamFuture::new(11, 101);
    let buf = StreamFuture::buffer();
    let (first, waker) = counted();
    let polled = future.poll(Attempt::<usize, i32>::WouldBlock, &buf, waker, &mut reactor);
    assert!(polled.released.is_none());
    let (second, waker) = counted();
    let polled = future.poll(Attempt::<usize, i32>::WouldBlock, &buf, waker, &mut reactor);
    polled.released.unwrap().wake();
    let (unneeded, waker) = counted();
    let polled = future.poll(Attempt::<usize, i32>::Done(1), &buf, waker, &mut reactor);
    polled.released.unwrap().wake();
    assert_eq!(unneeded.0.load(Ordering::SeqCst), 1);
    assert_eq!(wake_all(&mut reactor, EPOLLIN, 101), 1);
    assert_eq!(first.0.load(Ordering::SeqCst), 1);
    assert_eq!(second.0.load(Ordering::SeqCst), 1);

    let write = StreamFutureWrite::new(11, 101, b"hello");
    let (third, waker) = counted();
    write.poll(Attempt::<usize, i32>::WouldBlock, waker, &mut reactor);
    let (_, waker) = counted();
    let polled = write.poll(Attempt::<usize, i32>::WouldBlock, waker, &mut reactor);
    polled.released.unwrap().wake();
    assert_eq!(third.0.load(Ordering::SeqCst), 1);

    let accept = AcceptFuture::new(5);
    let (fourth, waker) = counted();
    accept.poll(Attempt::<Accepted, i32>::WouldBlock, waker, &mut reactor);
    let (_, waker) = counted();
    let polled = accept.poll(Attempt::<Accepted, i32>::WouldBlock, waker, &mut reactor);
    polled.released.unwrap().wake();
    assert_eq!(fourth.0.load(Ordering::SeqCst), 1);
}
