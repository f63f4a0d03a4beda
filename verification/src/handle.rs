//! The resource handle: an opaque, externally-owned value with an optional
//! destructor, moved across the channel by ownership transfer.
//!
//! The handle carries the external value as a plain address and the
//! destructor as a plain callback identifier; what the host stores at the
//! address is outside the channel's contract.  The zero address together
//! with no destructor is the null handle, the state a sender's copy is left
//! in after its ownership has been transferred.

use vstd::prelude::*;

verus! {

/// An opaque resource descriptor: the address of externally-owned data and
/// an optional destructor identifier.  At most one live owner exists at any
/// time; after a transfer the source copy is nulled.
#[derive(Clone, Copy, Debug, PartialEq, Eq)]
pub struct UserData {
    /// The address of the externally-owned data; zero when the handle is null.
    pub data: usize,
    /// The destructor to run when the owner disposes of the data.
    pub finalizer: Option<usize>,
}

impl UserData {
    /// A handle that owns nothing: the state left behind after transfer.
    pub open spec fn spec_is_null(&self) -> bool {
        self.data == 0 && self.finalizer is None
    }

    /// Returns whether this handle owns nothing.
    pub fn is_null(&self) -> (r: bool)
        ensures
            r == self.spec_is_null(),
    {
        self.data == 0 && self.finalizer.is_none()
    }

    /// Wraps a pre-existing address and destructor pair, with no allocation.
    pub fn with_data_and_finalizer(data: usize, finalizer: Option<usize>) -> (r: UserData)
        ensures
            r.data == data,
            r.finalizer == finalizer,
    {
        UserData { finalizer, data }
    }

    /// Consumes the handle, handing its data address to the caller, who
    /// becomes the sole owner and must know the concrete type stored there.
    pub fn unpack(self) -> (r: usize)
        ensures
            r == self.data,
    {
        self.data
    }
}

impl Default for UserData {
    /// The null handle: no data, no destructor.
    fn default() -> (r: Self)
        ensures
            r.spec_is_null(),
    {
        UserData { finalizer: None, data: 0 }
    }
}

/// Disposes of a handle: runs its destructor, if it has one, exactly once,
/// recording the run in `fired`.  A null or destructor-less handle fires
/// nothing.
pub fn rust_finalize(ud: UserData, fired: &mut Vec<usize>)
    ensures
        ud.finalizer is Some ==> final(fired)@ == old(fired)@.push(ud.finalizer->Some_0),
        ud.finalizer is None ==> final(fired)@ == old(fired)@,
{
    match ud.finalizer {
        Some(f) => fired.push(f),
        None => (),
    }
}

} // verus!
