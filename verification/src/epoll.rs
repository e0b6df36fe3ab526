//! The words that go to and come from epoll: event masks, interest requests, call results.

use vstd::prelude::*;

verus! {

/// There is data to read.
pub const EPOLLIN: u32 = 0x1;

/// There is room to write.
pub const EPOLLOUT: u32 = 0x4;

/// The descriptor is in error.
pub const EPOLLERR: u32 = 0x8;

/// The peer hung up.
pub const EPOLLHUP: u32 = 0x10;

/// One event wakes one of the epoll instances that wait on the descriptor.
pub const EPOLLEXCLUSIVE: u32 = 0x1000_0000;

/// Readiness is reported when it changes, not as long as it lasts.
pub const EPOLLET: u32 = 0x8000_0000;

/// The events that every registration asks for.
pub const READ_FLAGS: u32 = 0x9000_001d;

/// The descriptor flag that closes a descriptor when the process executes another program.
pub const FD_CLOEXEC: i32 = 1;

/// `libc::EPOLLIN`, a constant, is the bit [`EPOLLIN`].
#[verifier::external_body]
fn epoll_in() -> (bits: u32)
    ensures
        bits == EPOLLIN,
{
    libc::EPOLLIN as u32
}

/// `libc::EPOLLOUT`, a constant, is the bit [`EPOLLOUT`].
#[verifier::external_body]
fn epoll_out() -> (bits: u32)
    ensures
        bits == EPOLLOUT,
{
    libc::EPOLLOUT as u32
}

/// `libc::EPOLLERR`, a constant, is the bit [`EPOLLERR`].
#[verifier::external_body]
fn epoll_err() -> (bits: u32)
    ensures
        bits == EPOLLERR,
{
    libc::EPOLLERR as u32
}

/// `libc::EPOLLHUP`, a constant, is the bit [`EPOLLHUP`].
#[verifier::external_body]
fn epoll_hup() -> (bits: u32)
    ensures
        bits == EPOLLHUP,
{
    libc::EPOLLHUP as u32
}

/// `libc::EPOLLEXCLUSIVE`, a constant, is the bit [`EPOLLEXCLUSIVE`].
#[verifier::external_body]
fn epoll_exclusive() -> (bits: u32)
    ensures
        bits == EPOLLEXCLUSIVE,
{
    libc::EPOLLEXCLUSIVE as u32
}

/// `libc::EPOLLET`, a constant, is the bit [`EPOLLET`] once it is read as an unsigned word.
#[verifier::external_body]
fn epoll_et() -> (bits: u32)
    ensures
        bits == EPOLLET,
{
    libc::EPOLLET as u32
}

/// `libc::FD_CLOEXEC`, a constant, is the bit [`FD_CLOEXEC`].
#[verifier::external_body]
fn fd_cloexec() -> (bits: i32)
    ensures
        bits == FD_CLOEXEC,
{
    libc::FD_CLOEXEC
}

/// A readiness event, or the events that a registration asks for: a mask, and the key under which
/// the descriptor was registered.
#[derive(Clone, Copy, Debug, PartialEq, Eq, Structural)]
pub struct EpollEvent {
    pub events: u32,
    pub key: u64,
}

/// What a request does to the interest list of an epoll instance.
#[derive(Clone, Copy, Debug, PartialEq, Eq, Structural)]
pub enum InterestChange {
    Add(EpollEvent),
    Modify(EpollEvent),
    Remove,
}

/// One call of `epoll_ctl`: which instance, which descriptor, which change.
#[derive(Clone, Copy, Debug, PartialEq, Eq, Structural)]
pub struct InterestRequest {
    pub epoll_fd: i32,
    pub fd: i32,
    pub change: InterestChange,
}

/// The event mask says that the peer hung up or that the descriptor is in error.
pub open spec fn is_broken(events: u32) -> bool {
    events & EPOLLHUP == EPOLLHUP || events & EPOLLERR == EPOLLERR
}

/// The events that a registration under `key` asks for.
pub open spec fn read_event(key: u64) -> EpollEvent {
    EpollEvent { events: READ_FLAGS, key }
}

/// The events that a registration under `key` asks for.
pub fn listener_read_event(key: u64) -> (event: EpollEvent)
    ensures
        event == read_event(key),
{
    let events: u32 = epoll_et() | epoll_exclusive() | epoll_in() | epoll_out() | epoll_err()
        | epoll_hup() | (1u32 << 28);
    assert(0x8000_0000u32 | 0x1000_0000u32 | 0x1u32 | 0x4u32 | 0x8u32 | 0x10u32 | (1u32 << 28)
        == 0x9000_001du32) by (bit_vector);
    EpollEvent { events, key }
}

/// Whether the descriptor behind an event is to be closed rather than served.
pub fn must_close(events: u32) -> (broken: bool)
    ensures
        broken == is_broken(events),
{
    let hup: u32 = epoll_hup();
    let err: u32 = epoll_err();
    events & hup == hup || events & err == err
}

/// The request that adds a descriptor to the interest list.
pub fn add_interest(epoll_fd: i32, fd: i32, event: EpollEvent) -> (request: InterestRequest)
    ensures
        request == (InterestRequest { epoll_fd, fd, change: InterestChange::Add(event) }),
{
    InterestRequest { epoll_fd, fd, change: InterestChange::Add(event) }
}

/// The request that replaces the events asked for of a descriptor in the interest list.
pub fn modify_interest(epoll_fd: i32, fd: i32, event: EpollEvent) -> (request: InterestRequest)
    ensures
        request == (InterestRequest { epoll_fd, fd, change: InterestChange::Modify(event) }),
{
    InterestRequest { epoll_fd, fd, change: InterestChange::Modify(event) }
}

/// The request that takes a descriptor out of the interest list.
pub fn remove_interest(epoll_fd: i32, fd: i32) -> (request: InterestRequest)
    ensures
        request == (InterestRequest { epoll_fd, fd, change: InterestChange::Remove }),
{
    InterestRequest { epoll_fd, fd, change: InterestChange::Remove }
}

/// What a system call came to: it failed, with the error number `errno`, exactly if it returned
/// `-1`.
pub fn syscall_result(returned: i32, errno: i32) -> (result: Result<i32, i32>)
    ensures
        result == (if returned == -1 {
            Err::<i32, i32>(errno)
        } else {
            Ok::<i32, i32>(returned)
        }),
{
    if returned == -1 {
        Err(errno)
    } else {
        Ok(returned)
    }
}

/// What is to be done with a fresh epoll descriptor, given what reading its descriptor flags came
/// to: the flags to set, which are those it has and [`FD_CLOEXEC`], or nothing if they could not be
/// read.
pub fn close_on_exec(flags: Result<i32, i32>) -> (set: Option<i32>)
    ensures
        set == (match flags {
            Ok(flags) => Some(flags | FD_CLOEXEC),
            Err(_) => None,
        }),
{
    match flags {
        Ok(flags) => Some(flags | fd_cloexec()),
        Err(_) => None,
    }
}

/// Every registration is edge-triggered, wakes one epoll instance at a time, and asks for
/// readability, writability, errors and hang-ups.
pub proof fn law_read_event_asks_for_all(key: u64)
    ensures
        read_event(key).events & EPOLLET == EPOLLET,
        read_event(key).events & EPOLLEXCLUSIVE == EPOLLEXCLUSIVE,
        read_event(key).events & EPOLLIN == EPOLLIN,
        read_event(key).events & EPOLLOUT == EPOLLOUT,
        read_event(key).events & EPOLLERR == EPOLLERR,
        read_event(key).events & EPOLLHUP == EPOLLHUP,
        read_event(key).key == key,
{
    assert(0x9000_001du32 & 0x8000_0000u32 == 0x8000_0000u32) by (bit_vector);
    assert(0x9000_001du32 & 0x1000_0000u32 == 0x1000_0000u32) by (bit_vector);
    assert(0x9000_001du32 & 0x1u32 == 0x1u32) by (bit_vector);
    assert(0x9000_001du32 & 0x4u32 == 0x4u32) by (bit_vector);
    assert(0x9000_001du32 & 0x8u32 == 0x8u32) by (bit_vector);
    assert(0x9000_001du32 & 0x10u32 == 0x10u32) by (bit_vector);
}

/// A mask with the hang-up or the error bit is broken whatever other bits it has: readiness that
/// comes with a hang-up does not keep the descriptor open.
pub proof fn law_broken_whatever_else(events: u32, more: u32)
    requires
        is_broken(events),
    ensures
        is_broken(events | more),
{
    assert(events & 0x10u32 == 0x10u32 ==> (events | more) & 0x10u32 == 0x10u32) by (bit_vector);
    assert(events & 0x8u32 == 0x8u32 ==> (events | more) & 0x8u32 == 0x8u32) by (bit_vector);
}

} // verus!
