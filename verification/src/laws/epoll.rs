//! Calls that make the words for epoll, and read the words that come from it.

use crate::epoll::{
    add_interest, close_on_exec, listener_read_event, modify_interest, must_close, remove_interest,
    syscall_result, EpollEvent, InterestChange, InterestRequest,
};
use vstd::prelude::*;

verus! {

/// Bit 3 or bit 4 of a mask is set, the one for errors or the one for hang-ups.
pub open spec fn error_or_hang_up(events: u32) -> bool {
    (events / 8) % 2 == 1 || (events / 16) % 2 == 1
}

/// A mask is told broken by bits 3 and 4 alone.
pub proof fn law_broken_by_two_bits(events: u32)
    ensures
        crate::epoll::is_broken(events) <==> error_or_hang_up(events),
{
    assert((events & 0x10u32 == 0x10u32) <==> (events / 16) % 2 == 1) by (bit_vector);
    assert((events & 0x8u32 == 0x8u32) <==> (events / 8) % 2 == 1) by (bit_vector);
}

/// A descriptor is closed exactly on an error or a hang-up, whatever else its event says.
pub proof fn law_close_on_error_or_hang_up(events: u32, broken: bool)
    requires
        call_ensures(must_close, (events,), broken),
    ensures
        broken <==> error_or_hang_up(events),
{
    law_broken_by_two_bits(events);
}

/// The events that a registration asks for come back under the key of the registration, whatever
/// key that is. It asks for bits 0, 2, 3, 4, 28 and 31 and for no other: readability, writability,
/// errors and hang-ups, for one epoll instance at a time, when they change.
pub proof fn law_registration_keeps_its_key(key: u64, event: EpollEvent)
    requires
        call_ensures(listener_read_event, (key,), event),
    ensures
        event.key == key,
        event.events == 1 + 4 + 8 + 16 + 0x1000_0000 + 0x8000_0000u32,
{
}

/// Registrations under different keys ask for different events.
pub proof fn law_registrations_are_told_apart(
    key: u64,
    event: EpollEvent,
    other_key: u64,
    other_event: EpollEvent,
)
    requires
        call_ensures(listener_read_event, (key,), event),
        call_ensures(listener_read_event, (other_key,), other_event),
    ensures
        event == other_event <==> key == other_key,
        event.events == other_event.events,
{
}

/// A request goes to the epoll instance that it is made for, concerns the descriptor that it is
/// made for, and carries the event that it is made with.
pub proof fn law_requests_carry_their_arguments(
    epoll_fd: i32,
    fd: i32,
    event: EpollEvent,
    added: InterestRequest,
    modified: InterestRequest,
    removed: InterestRequest,
)
    requires
        call_ensures(add_interest, (epoll_fd, fd, event), added),
        call_ensures(modify_interest, (epoll_fd, fd, event), modified),
        call_ensures(remove_interest, (epoll_fd, fd), removed),
    ensures
        added.epoll_fd == epoll_fd && modified.epoll_fd == epoll_fd && removed.epoll_fd == epoll_fd,
        added.fd == fd && modified.fd == fd && removed.fd == fd,
        added.change matches InterestChange::Add(carried) && carried == event,
        modified.change matches InterestChange::Modify(carried) && carried == event,
        removed.change is Remove,
{
}

/// A system call failed exactly if it returned -1, and then its error is `errno`. Everything else
/// that it returns is a success, with that very value.
pub proof fn law_failed_exactly_by_minus_one(returned: i32, errno: i32, result: Result<i32, i32>)
    requires
        call_ensures(syscall_result, (returned, errno), result),
    ensures
        result is Err <==> returned == -1,
        result matches Err(error) ==> error == errno,
        result matches Ok(value) ==> value == returned,
{
}

/// Closing on execution is added to the flags that a descriptor has: bit 0 is set, every other bit
/// stays as it is. Where the flags could not be read, none are set.
pub proof fn law_close_on_exec_adds_one_bit(flags: Result<i32, i32>, set: Option<i32>)
    requires
        call_ensures(close_on_exec, (flags,), set),
    ensures
        set is Some <==> flags is Ok,
        match (flags, set) {
            (Ok(before), Some(after)) => after & 1i32 == 1i32 && after & !1i32 == before & !1i32,
            _ => true,
        },
{
    if let Ok(before) = flags {
        assert((before | 1i32) & 1i32 == 1i32) by (bit_vector);
        assert((before | 1i32) & !1i32 == before & !1i32) by (bit_vector);
    }
}

/// All of these can be called with any arguments.
pub proof fn law_epoll_words_have_no_conditions(
    key: u64,
    events: u32,
    epoll_fd: i32,
    fd: i32,
    event: EpollEvent,
    flags: Result<i32, i32>,
)
    ensures
        call_requires(listener_read_event, (key,)),
        call_requires(must_close, (events,)),
        call_requires(add_interest, (epoll_fd, fd, event)),
        call_requires(modify_interest, (epoll_fd, fd, event)),
        call_requires(remove_interest, (epoll_fd, fd)),
        call_requires(syscall_result, (epoll_fd, fd)),
        call_requires(close_on_exec, (flags,)),
{
}

} // verus!
