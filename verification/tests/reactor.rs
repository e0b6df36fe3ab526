use async_executor::epoll::{
    EpollEvent, InterestChange, EPOLLERR, EPOLLHUP, EPOLLIN, EPOLLOUT, READ_FLAGS,
};
use async_executor::reactor::{Action, Reactor, EPOLL_KEY};
use std::sync::atomic::{AtomicUsize, Ordering};
use std::sync::Arc;
use std::task::{Wake, Waker};

struct Count(AtomicUsize);

impl Wake for Count {
    fn wake(self: Arc<Self>) {
        self.0.fetch_add(1, Ordering::SeqCst);
    }
}

fn counted() -> (Arc<Count>, Waker) {
    let count = Arc::new(Count(AtomicUsize::new(0)));
    (count.clone(), Waker::from(count))
}

fn woken(count: &Arc<Count>) -> usize {
    count.0.load(Ordering::SeqCst)
}

fn reactor() -> Reactor {
    Reactor::new(1024, 2, 100, 7)
}

fn event(events: u32, key: u64) -> EpollEvent {
    EpollEvent { events, key }
}

fn perform(actions: Vec<Action>) -> Vec<i32> {
    let mut closed = Vec::new();
    for action in actions {
        match action {
            Action::Close(closing) => {
                let request = closing.request;
                assert_eq!(request.removal.epoll_fd, 7);
                assert_eq!(request.removal.fd, request.fd);
                assert_eq!(request.removal.change, InterestChange::Remove);
                closed.push(request.fd);
            }
            Action::WakeReader(_, waker) | Action::WakeWriter(_, waker) => waker.wake(),
        }
    }
    closed
}

#[test]
fn settings_are_kept() {
    let reactor = reactor();
    assert_eq!(reactor.epoll_buffer_size(), 1024);
    assert_eq!(reactor.worker_threads(), 2);
    assert_eq!(reactor.epoll_wait_time(), 100);
    assert_eq!(reactor.epoll_fd(), 7);
}

#[test]
fn keys_count_up_from_the_listener() {
    let mut reactor = reactor();
    assert_eq!(EPOLL_KEY, 100);
    assert_eq!(reactor.get_next_key(), 101);
    assert_eq!(reactor.get_next_key(), 102);
    assert_eq!(reactor.get_next_key(), 103);
}

#[test]
fn readiness_wakes_the_reader_once() {
    let mut reactor = reactor();
    let (count, waker) = counted();
    reactor.register_waker_read(101, waker);
    assert!(perform(reactor.run(&vec![event(EPOLLIN, 101)])).is_empty());
    assert_eq!(woken(&count), 1);
    assert!(reactor.run(&vec![event(EPOLLIN, 101)]).is_empty());
    assert_eq!(woken(&count), 1);
}

#[test]
fn readiness_wakes_reader_then_writer() {
    let mut reactor = reactor();
    let (reader, reader_waker) = counted();
    let (writer, writer_waker) = counted();
    reactor.register_waker_write(101, writer_waker);
    reactor.register_waker_read(101, reader_waker);
    let mut actions = reactor.run(&vec![event(EPOLLIN | EPOLLOUT, 101)]);
    assert_eq!(actions.len(), 2);
    assert!(matches!(&actions[0], Action::WakeReader(101, _)));
    assert!(matches!(&actions[1], Action::WakeWriter(101, _)));
    let second = actions.pop().unwrap();
    perform(actions);
    assert_eq!((woken(&reader), woken(&writer)), (1, 0));
    perform(vec![second]);
    assert_eq!((woken(&reader), woken(&writer)), (1, 1));
}

#[test]
fn a_later_waker_displaces_an_earlier_one() {
    let mut reactor = reactor();
    let (first, first_waker) = counted();
    let (second, second_waker) = counted();
    assert!(reactor.register_waker_read(101, first_waker).is_none());
    let displaced = reactor.register_waker_read(101, second_waker);
    perform(reactor.run(&vec![event(EPOLLIN, 101)]));
    assert_eq!((woken(&first), woken(&second)), (0, 1));
    displaced.unwrap().wake();
    assert_eq!((woken(&first), woken(&second)), (1, 1));
}

#[test]
fn a_later_writer_displaces_an_earlier_one() {
    let mut reactor = reactor();
    let (first, first_waker) = counted();
    let (second, second_waker) = counted();
    let (_, reader_waker) = counted();
    assert!(reactor.register_waker_read(101, reader_waker).is_none());
    assert!(reactor.register_waker_write(101, first_waker).is_none());
    reactor.register_waker_write(101, second_waker).unwrap().wake();
    perform(reactor.run(&vec![event(EPOLLOUT, 101)]));
    assert_eq!((woken(&first), woken(&second)), (1, 1));
}

#[test]
fn other_keys_are_left_alone() {
    let mut reactor = reactor();
    let (count, waker) = counted();
    reactor.register_waker_read(101, waker);
    reactor.register_stream_read(102, 12, 11);
    let before = vec![event(EPOLLIN, 103), event(EPOLLHUP, 102), event(EPOLLERR, 104)];
    assert_eq!(perform(reactor.run(&before)), vec![12]);
    assert_eq!(woken(&count), 0);
    perform(reactor.run(&vec![event(EPOLLOUT, 101)]));
    assert_eq!(woken(&count), 1);
}

#[test]
fn batches_compose() {
    let (one, one_waker) = counted();
    let (two, two_waker) = counted();
    let mut whole = reactor();
    whole.register_waker_read(101, one_waker);
    whole.register_stream_read(102, 12, 11);
    let mut parts = reactor();
    parts.register_waker_read(101, two_waker);
    parts.register_stream_read(102, 12, 11);
    let events = vec![event(EPOLLIN, 101), event(EPOLLHUP, 102), event(EPOLLHUP, 102)];
    assert_eq!(perform(whole.run(&events)), vec![12]);
    let mut closed = perform(parts.run(&vec![events[0]]));
    closed.extend(perform(parts.run(&vec![events[1], events[2]])));
    assert_eq!(closed, vec![12]);
    assert_eq!((woken(&one), woken(&two)), (1, 1));
}

#[test]
fn a_hang_up_closes_and_wakes_nobody() {
    let mut reactor = reactor();
    let (reader, reader_waker) = counted();
    let (writer, writer_waker) = counted();
    reactor.register_stream_read(101, 12, 11);
    reactor.register_waker_read(101, reader_waker);
    reactor.register_waker_write(101, writer_waker);
    assert_eq!(perform(reactor.run(&vec![event(EPOLLIN | EPOLLHUP, 101)])), vec![12]);
    assert!(reactor.run(&vec![event(EPOLLIN, 101), event(EPOLLHUP, 101)]).is_empty());
    assert_eq!((woken(&reader), woken(&writer)), (0, 0));
    assert!(reactor.close(101).is_none());
}

#[test]
fn a_hang_up_without_a_stream_changes_nothing() {
    let mut reactor = reactor();
    let (count, waker) = counted();
    reactor.register_waker_read(EPOLL_KEY, waker);
    assert!(reactor.run(&vec![event(EPOLLHUP, EPOLL_KEY)]).is_empty());
    perform(reactor.run(&vec![event(EPOLLIN, EPOLL_KEY)]));
    assert_eq!(woken(&count), 1);
}

#[test]
fn closing_forgets_the_stream_and_who_waits() {
    let mut reactor = reactor();
    let (count, waker) = counted();
    reactor.register_stream_read(101, 12, 11);
    reactor.register_waker_read(101, waker);
    let closing = reactor.close(101).unwrap();
    let request = closing.request;
    assert_eq!(request.fd, 12);
    assert_eq!(request.removal.fd, 12);
    assert_eq!(request.removal.epoll_fd, 7);
    assert!(reactor.close(101).is_none());
    assert!(reactor.run(&vec![event(EPOLLIN, 101)]).is_empty());
    assert_eq!(woken(&count), 0);
    // Who waited is handed out, and was alone.
    assert!(closing.writer.is_none());
    closing.reader.unwrap().wake();
    assert_eq!(woken(&count), 1);
}

#[test]
fn registrations_ask_for_the_events_of_the_stream() {
    let mut reactor = reactor();
    let first = reactor.register_stream_read(101, 12, 11);
    assert_eq!(first.displaced, None);
    assert_eq!((first.request.epoll_fd, first.request.fd), (7, 11));
    assert_eq!(first.request.change, InterestChange::Add(event(READ_FLAGS, 101)));
    let second = reactor.register_stream_read(101, 14, 13);
    assert_eq!(second.displaced, Some(12));
    assert_eq!(reactor.close(101).unwrap().request.fd, 14);
    let listener = reactor.register_interest(EPOLL_KEY, 5);
    assert_eq!((listener.epoll_fd, listener.fd), (7, 5));
    assert_eq!(listener.change, InterestChange::Add(event(READ_FLAGS, 100)));
}

#[test]
fn an_empty_batch_does_nothing() {
    let mut reactor = reactor();
    assert!(reactor.run(&vec![]).is_empty());
}

#[test]
fn work_on_different_keys_commutes() {
    let (one, one_waker) = counted();
    let (two, two_waker) = counted();
    let mut early = reactor();
    early.register_stream_read(102, 12, 11);
    early.register_waker_read(101, one_waker);
    assert_eq!(perform(early.run(&vec![event(EPOLLHUP, 102)])), vec![12]);
    let mut late = reactor();
    late.register_stream_read(102, 12, 11);
    assert_eq!(perform(late.run(&vec![event(EPOLLHUP, 102)])), vec![12]);
    late.register_waker_read(101, two_waker);
    perform(early.run(&vec![event(EPOLLIN, 101)]));
    perform(late.run(&vec![event(EPOLLIN, 101)]));
    assert_eq!((woken(&one), woken(&two)), (1, 1));
}
