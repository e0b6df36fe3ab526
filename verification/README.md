# async_executor

A multi-threaded runtime for Rust futures, with its decisions proved in Verus.

- `src/` is the library. Every function states what it returns and what it changes.
  - `executor`: the work-stealing scheduler. Which task a worker polls next, what becomes of a
    future that was polled, and that no task is lost or doubled on the way.
  - `handles`: what stands behind the numbers of the tasks in the queues.
  - `runtime`: the queues and the futures together, as steps of a model to which the contracts of
    the executor are tied. The task of a spawned future stays scheduled until it is polled, and so
    does a woken one, also when the wake came during a poll, until the future is finished.
  - `progress`: how near a scheduled task is to its poll, and that it is polled some day, provided
    that no worker is held up for ever.
  - `reactor`: which waker waits for which key, and what a batch of epoll events makes be done.
  - `futures`: what one attempt at a socket that does not block makes of a read, a write or an
    acceptance.
  - `request`: the request of one connection, and the length that it announces.
  - `epoll`, `counter`, `text`: event masks and interest requests, numbers that are handed out,
    and text.
  - `queues` and `tables`: what the library takes from `crossbeam_deque` and `dashmap`. What these
    two modules say of those crates is believed, not proved; so is what `epoll` says of the
    constants of `libc`, and `request` of `str::to_lowercase`.
- `app/` is the runtime around it: system calls, threads, sockets, wakers. `server::serve` is an
  example of its use: a server on 127.0.0.1:8000 that gives every request the same answer.
- `tests/` runs the library on examples.

The queues and tables are stated for a caller who has them to themselves. The runtime sees to
that with a lock around the scheduler, the shared queue and the reactor, each held for one decision
and never while a future is polled, a waker is dropped or a system call is made. Futures are polled
on all threads at once.
