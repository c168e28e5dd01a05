//! The core of a single-threaded server that drives a kernel completion ring.
//!
//! The core decides and never waits. For every completion that the ring reports, the
//! [`server::Server`] moves the connection that the completion belongs to on to its
//! next state and hands out the entry of the one operation to submit next: an accept
//! leads to a readiness check, the readiness check to a receive, the receive to the
//! send of the response that [`response::ResponseProducer`] makes of the bytes
//! received, the send to the next readiness check. The entries are built by the
//! [`encoder`], tagged with the descriptor that owns the completion. The loop that
//! pushes entries, waits on the ring and closes descriptors stands outside.
//!
//! [`model`] holds the states and transitions by which the server is specified, and
//! [`laws`] states what holds of every run of such a loop.

pub mod encoder;
pub mod error;
pub mod laws;
pub mod model;
pub mod response;
pub mod server;
