use async_executor::epoll::{
    add_interest, close_on_exec, listener_read_event, modify_interest, must_close,
    remove_interest, syscall_result, EpollEvent, InterestChange, EPOLLERR, EPOLLET,
    EPOLLEXCLUSIVE, EPOLLHUP, EPOLLIN, EPOLLOUT, FD_CLOEXEC, READ_FLAGS,
};

#[test]
fn bits_are_those_of_the_system() {
    assert_eq!(EPOLLIN, libc::EPOLLIN as u32);
    assert_eq!(EPOLLOUT, libc::EPOLLOUT as u32);
    assert_eq!(EPOLLERR, libc::EPOLLERR as u32);
    assert_eq!(EPOLLHUP, libc::EPOLLHUP as u32);
    assert_eq!(EPOLLEXCLUSIVE, libc::EPOLLEXCLUSIVE as u32);
    assert_eq!(EPOLLET, libc::EPOLLET as u32);
    assert_eq!(FD_CLOEXEC, libc::FD_CLOEXEC);
}

#[test]
fn read_event_asks_for_everything() {
    let event = listener_read_event(101);
    assert_eq!(event.key, 101);
    assert_eq!(event.events, 0x9000_001d);
    assert_eq!(event.events, READ_FLAGS);
    assert_eq!(
        event.events,
        EPOLLET | EPOLLEXCLUSIVE | EPOLLIN | EPOLLOUT | EPOLLERR | EPOLLHUP
    );
}

#[test]
fn hang_ups_and_errors_close() {
    assert!(must_close(EPOLLHUP));
    assert!(must_close(EPOLLERR));
    assert!(must_close(EPOLLIN | EPOLLHUP));
    assert!(must_close(EPOLLOUT | EPOLLERR));
    assert!(!must_close(0));
    assert!(!must_close(EPOLLIN | EPOLLOUT));
    assert!(!must_close(EPOLLET | EPOLLEXCLUSIVE));
}

#[test]
fn requests_say_what_they_change() {
    let event = EpollEvent { events: EPOLLIN, key: 9 };
    let add = add_interest(3, 4, event);
    assert_eq!((add.epoll_fd, add.fd), (3, 4));
    assert_eq!(add.change, InterestChange::Add(event));
    let modify = modify_interest(3, 4, event);
    assert_eq!((modify.epoll_fd, modify.fd), (3, 4));
    assert_eq!(modify.change, InterestChange::Modify(event));
    let remove = remove_interest(3, 4);
    assert_eq!((remove.epoll_fd, remove.fd), (3, 4));
    assert_eq!(remove.change, InterestChange::Remove);
}

#[test]
fn minus_one_is_a_failed_call() {
    assert_eq!(syscall_result(-1, 11), Err(11));
    assert_eq!(syscall_result(0, 11), Ok(0));
    assert_eq!(syscall_result(7, 0), Ok(7));
    assert_eq!(syscall_result(-2, 11), Ok(-2));
}

#[test]
fn close_on_exec_is_added_to_the_flags() {
    assert_eq!(close_on_exec(Ok(0)), Some(1));
    assert_eq!(close_on_exec(Ok(6)), Some(7));
    assert_eq!(close_on_exec(Ok(1)), Some(1));
    assert_eq!(close_on_exec(Err(9)), None);
}
