//! The closed, two-member registry of payload kinds.
//!
//! A value crosses a channel either as a textual blob or as an opaque
//! externally-owned resource; a type that travels must declare which of the
//! two kinds it marshals as.

use vstd::prelude::*;
use crate::handle::UserData;

verus! {

/// The tag of a payload kind.  Each direction of a channel is fixed to one
/// tag at creation time, and both ends must agree on it out of band.
#[allow(non_camel_case_types)]
#[derive(Clone, Copy, Debug, PartialEq, Eq, Structural)]
pub enum PipeDataOption {
    /// A textual blob, logically copied at the encoding boundary.
    STRING,
    /// An opaque resource handle, moved by ownership transfer.
    USER_DATA,
}

/// A type that may travel through a channel declares its payload kind here.
pub trait PipeData {
    /// The declared kind, as a specification-level constant.
    spec fn spec_marker() -> PipeDataOption;

    /// The declared kind of this type.
    fn marker() -> (r: PipeDataOption)
        ensures
            r == Self::spec_marker(),
    ;
}

impl PipeData for String {
    open spec fn spec_marker() -> PipeDataOption {
        PipeDataOption::STRING
    }

    fn marker() -> PipeDataOption {
        PipeDataOption::STRING
    }
}

impl PipeData for UserData {
    open spec fn spec_marker() -> PipeDataOption {
        PipeDataOption::USER_DATA
    }

    fn marker() -> PipeDataOption {
        PipeDataOption::USER_DATA
    }
}

/// A payload in flight: the exhaustive tagged union of the two kinds.
#[derive(Debug, PartialEq, Eq, Clone)]
pub enum PipeValue {
    /// A blob-kind payload.
    Text(String),
    /// A resource-kind payload.
    Data(UserData),
}

impl PipeValue {
    /// The kind a payload value belongs to.
    pub open spec fn spec_kind(&self) -> PipeDataOption {
        match self {
            PipeValue::Text(_) => PipeDataOption::STRING,
            PipeValue::Data(_) => PipeDataOption::USER_DATA,
        }
    }

    /// Returns the kind of this payload.
    pub fn kind(&self) -> (r: PipeDataOption)
        ensures
            r == self.spec_kind(),
    {
        match self {
            PipeValue::Text(_) => PipeDataOption::STRING,
            PipeValue::Data(_) => PipeDataOption::USER_DATA,
        }
    }
}

} // verus!
