//! The host-visible face of the channel: the values and kind tags that the
//! embedding interpreter exchanges with the dispatcher.
//!
//! The host's own object model is outside this crate's scope; the channel
//! only ever reads a host object as one of the shapes below: a string, a
//! resource handle, one of the two kind-tag symbols, or something else.

use vstd::prelude::*;
use crate::handle::UserData;
use crate::kind::PipeDataOption;

verus! {

/// A host-level value as the channel sees it.
#[derive(Debug, PartialEq, Eq, Clone)]
pub enum HostObject {
    /// The host's nil / absent value.
    Nil,
    /// A host string value.
    Str(String),
    /// A host resource-handle value wrapping an opaque descriptor.
    UserPtr(UserData),
    /// The symbol that names the blob payload kind.
    TagString,
    /// The symbol that names the resource payload kind.
    TagUserPtr,
}

impl HostObject {
    /// Whether this host object is a resource handle.
    pub open spec fn spec_is_user_ptr(&self) -> bool {
        self is UserPtr
    }

    /// Returns whether this host object is a resource handle.
    pub fn is_user_ptr(&self) -> (r: bool)
        ensures
            r == self.spec_is_user_ptr(),
    {
        match self {
            HostObject::UserPtr(_) => true,
            _ => false,
        }
    }

    /// Reads this object as a kind tag: the two tag symbols name the two
    /// payload kinds, anything else names none.
    pub fn to_data_option(&self) -> (r: Option<PipeDataOption>)
        ensures
            *self is TagString ==> r == Some(PipeDataOption::STRING),
            *self is TagUserPtr ==> r == Some(PipeDataOption::USER_DATA),
            !(*self is TagString) && !(*self is TagUserPtr) ==> r is None,
    {
        match self {
            HostObject::TagString => Some(PipeDataOption::STRING),
            HostObject::TagUserPtr => Some(PipeDataOption::USER_DATA),
            _ => None,
        }
    }

    /// The tag symbol that names a payload kind; inverse of
    /// `to_data_option` on the two symbols.
    pub fn from_data_option(option: PipeDataOption) -> (r: HostObject)
        ensures
            option == PipeDataOption::STRING ==> r is TagString,
            option == PipeDataOption::USER_DATA ==> r is TagUserPtr,
    {
        match option {
            PipeDataOption::STRING => HostObject::TagString,
            PipeDataOption::USER_DATA => HostObject::TagUserPtr,
        }
    }

    /// Copies the resource descriptor out of a handle object.  The copy
    /// does not transfer ownership: the dispatcher that sends the
    /// descriptor must null the source object itself.
    pub fn to_user_ptr_unchecked(&self) -> (r: UserData)
        requires
            self.spec_is_user_ptr(),
        ensures
            *self == HostObject::UserPtr(r),
    {
        match self {
            HostObject::UserPtr(ud) => *ud,
            _ => UserData::with_data_and_finalizer(0, None),
        }
    }

    /// Copies the resource descriptor out of this object, if it is a
    /// resource handle.
    pub fn as_user_ptr(&self) -> (r: Option<UserData>)
        ensures
            self.spec_is_user_ptr() ==> r == Some(self->UserPtr_0),
            !self.spec_is_user_ptr() ==> r is None,
    {
        if self.is_user_ptr() {
            Some(self.to_user_ptr_unchecked())
        } else {
            None
        }
    }
}

/// Whether a host object is a resource handle; the free-standing form of
/// `HostObject::is_user_ptr`.
pub fn is_user_ptr(o: &HostObject) -> (r: bool)
    ensures
        r == o.spec_is_user_ptr(),
{
    o.is_user_ptr()
}

/// A resource handle wrapped back into a host object, handing the host
/// ownership of the descriptor.
impl From<UserData> for HostObject {
    fn from(ud: UserData) -> (r: HostObject) {
        HostObject::UserPtr(ud)
    }
}

impl vstd::std_specs::convert::FromSpecImpl<UserData> for HostObject {
    open spec fn obeys_from_spec() -> bool {
        true
    }

    open spec fn from_spec(ud: UserData) -> HostObject {
        HostObject::UserPtr(ud)
    }
}

/// Reads a host object as a resource handle, as the resource-kind unmarshal
/// rule demands; any other shape is the caller's type error.
pub fn user_data_from_host(o: &HostObject) -> (r: Result<UserData, crate::errors::PipeError>)
    ensures
        o.spec_is_user_ptr() ==> r == Ok::<UserData, crate::errors::PipeError>(o->UserPtr_0),
        !o.spec_is_user_ptr() ==> r == Err::<UserData, crate::errors::PipeError>(
            crate::errors::PipeError::TypeMismatch,
        ),
{
    match o.as_user_ptr() {
        Some(ud) => Ok(ud),
        None => Err(crate::errors::PipeError::TypeMismatch),
    }
}

} // verus!
