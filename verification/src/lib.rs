//! Client side of the Loco command protocol, written without I/O.
//!
//! A command is a method name, a type tag and a BSON document. On the wire
//! it is a frame: a header of 22 bytes and the document as the body. A client
//! numbers its requests; the server answers each under the request's id and
//! sends broadcasts of its own in between.
//!
//! The crate has three layers, each on top of the one before:
//!
//! - [`command::codec`] turns commands into frames and frames into commands;
//! - [`command::manager`] gives each command written the next request id;
//! - [`command::session`] remembers which requests wait for an answer, hands
//!   each answer to its request and queues everything else as a broadcast.
//!
//! None of them touches the transport they hold. To send, call `request` and
//! write what `flush` hands out. To receive, call `response` or `read`; where
//! they return `Ok(None)`, read `wanted` bytes from the transport, pass them
//! to `feed` and call again. Where the transport fails, say so with `fail`.
//!
//! [`frame`] is the wire format and [`document`] the way to the `bson`
//! crate, which is only asked for bodies that [`nesting`] has found to be no
//! deeper than it can go. [`command::model`] says in mathematics what a
//! session does; the laws that follow from it stand in [`command::laws`] and
//! [`frame::laws`].

pub mod bytes;
pub mod command;
pub mod document;
pub mod frame;
pub mod nesting;
pub mod request;
pub mod response;
pub mod stream;
