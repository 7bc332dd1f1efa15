//! The building blocks of a small asynchronous runtime toolkit: HTTP request
//! framing, hand-written coroutines driven as state machines, an epoll event
//! tally and a cooperative green-thread scheduler.

pub mod coroutine;
pub mod epoll;
pub mod fibers;
pub mod http;
pub mod request;
pub mod stack;
