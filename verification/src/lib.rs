//! A typed, ownership-transferring duplex channel between a cooperative host
//! thread and a dedicated worker thread.
//!
//! A channel owns two unidirectional byte streams.  On the host-to-worker
//! stream a payload travels as the fixed-width big-endian encoding of its
//! address in a payload store; on the worker-to-host stream the same kind of
//! address travels as ASCII decimal text, because that direction is delivered
//! through the host's generic text notification path.  The zero address is a
//! sentinel meaning "stream closed".  Exactly two payload kinds exist: a
//! textual blob and an opaque externally-owned resource with a destructor;
//! each direction of a channel is configured for one kind at creation time.

pub mod errors;
pub mod kind;
pub mod handle;
pub mod host;
pub mod wire;
pub mod pipe;
pub mod dispatch;
pub mod worker;
