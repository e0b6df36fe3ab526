//! A multi-threaded runtime for Rust futures: a work-stealing scheduler, and a reactor that turns
//! readiness events of edge-triggered epoll into wake-ups.
//!
//! This crate holds the decisions of the runtime and proves them. The system calls, the threads
//! and the polling of futures stand around it.

pub mod counter;
pub mod epoll;
pub mod executor;
pub mod futures;
pub mod handles;
pub mod laws;
pub mod progress;
pub mod queues;
pub mod reactor;
pub mod request;
pub mod runtime;
pub mod tables;
pub mod text;
