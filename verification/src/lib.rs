//! The decision core of a TCP forwarder.
//!
//! The forwarder listens on a local port and relays every client that
//! connects to one fixed destination, byte for byte, in both directions,
//! until both sides have finished. It does not look into the bytes.
//!
//! This crate holds the rules of that service and no socket. Each rule is a
//! small state machine: the caller performs the action a machine asks for
//! (bind, accept, dial, read, write, close) and reports back what happened,
//! and the machine says what to do next. What each machine does is stated
//! in its contract and proved, and so are the properties of the forwarder
//! as a whole.
//!
//! - [`config`]: the command line, and the addresses to bind and to dial.
//! - [`acceptor`]: the listening side, which gives every client a session.
//! - [`session`]: one client, from the dial to the close of both
//!   connections.
//! - [`direction`]: the copy of bytes one way, chunk by chunk.
//! - [`system`]: the machines put together, and what holds of the whole:
//!   connections do not affect each other, nothing is lost or reordered,
//!   a direction that has finished does not stop the other.

pub mod acceptor;
pub mod config;
pub mod direction;
pub mod session;
pub mod system;
