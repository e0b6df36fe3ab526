//! What calls of the library come to, and how several calls relate: laws on the arguments and the
//! results of the functions themselves. `call_ensures(f, arguments, result)` reads: a call of `f`
//! with these arguments returned that result. Where an argument is a mutable reference, the law
//! speaks of what stood behind it before and after the call.

pub mod epoll;
pub mod executor;
pub mod futures;
pub mod reactor;
pub mod request;
pub mod text;
