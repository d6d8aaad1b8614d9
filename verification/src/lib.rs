//! A sans-I/O core for inspecting and changing the memory of another process.
//!
//! The library never touches the host itself. Every operation is a small state
//! machine: it hands out one [`Request`](protocol::Request) at a time, the caller
//! performs it against the operating system and feeds the
//! [`Reply`](protocol::Reply) back in.
//!
//! - [`operation`], [`protocol`], [`error`]: the operations, the requests and
//!   replies, and the errors.
//! - [`address`], [`chain`], [`memory`], [`locator`], [`modules`]: what each
//!   step computes from a reply.
//! - [`session`]: the state machine and its transition function.
//! - [`run`], [`walk`], [`lookup`]: whole runs against any host, and the laws
//!   that hold of them.
//! - [`boundary`]: outcomes flattened to plain values.

pub mod address;
pub mod boundary;
pub mod chain;
pub mod error;
pub mod locator;
pub mod lookup;
pub mod memory;
pub mod modules;
pub mod operation;
pub mod protocol;
pub mod run;
pub mod session;
pub mod walk;
