//! A verified client core for a tool-invocation protocol: a client discovers
//! and invokes remote tools and reads URI-addressable resources exposed by a
//! server process. The crate holds the pure protocol logic — message codec,
//! request/response correlation, frame assembly, and the session state
//! machine — each function carrying a contract checked by Verus. The I/O that
//! carries the bytes (spawning the server, pipes, clocks) lives outside and
//! drives this core through plain values.

pub mod client;
pub mod codec;
pub mod correlate;
pub mod error;
pub mod frame;
pub mod message;
pub mod session;
pub mod value;
