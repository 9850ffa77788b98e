//! A terminal interception shim's verified core: the relay between a real
//! terminal and a child shell running on a pseudo-terminal.
//!
//! The library holds the logic that decides what the relay does: how raw
//! input events and pty output bytes are forwarded, how backpressure is
//! applied through bounded queues, and how child exit and write failures
//! end the session. The blocking reads, writes and process plumbing around
//! it live outside the library and hand it plain values.

pub mod event;
pub mod queue;
pub mod capture;
pub mod relay;
pub mod setup;
