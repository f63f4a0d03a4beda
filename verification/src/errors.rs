//! The channel's error taxonomy.

use vstd::prelude::*;

verus! {

/// Everything that can go wrong on a channel operation.
///
/// `Closed` is the expected outcome of an intentional shutdown and must not
/// be reported as an error; the other variants are genuine faults.
#[derive(Clone, Copy, Debug, PartialEq, Eq, Structural)]
pub enum PipeError {
    /// The stream was closed: either the sentinel was read, the stream was
    /// at end of input, or a send was attempted after `close_stream`.
    Closed,
    /// The caller supplied a payload whose kind differs from the kind the
    /// channel direction was configured for.  No bytes are written.
    TypeMismatch,
    /// A malformed frame: a short read of the fixed-width field, text that
    /// is not a decimal address, or an address that names no live payload.
    ProtocolViolation,
}

/// The logging decision of the worker loop: a shutdown through the close
/// protocol arrives as `Closed` and is expected, so only the other error
/// kinds deserve a report.
pub fn is_unexpected_error(err: &PipeError) -> (r: bool)
    ensures
        r == (*err != PipeError::Closed),
{
    match err {
        PipeError::Closed => false,
        _ => true,
    }
}

} // verus!
