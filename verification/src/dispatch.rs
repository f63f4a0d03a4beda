//! The host dispatcher: the bridge between host-level values and channel
//! operations.
//!
//! Outgoing, it converts a host request into the channel's configured input
//! kind and sends it to the worker; a kind mismatch is the caller's type
//! error, rejected before any byte is written.  Incoming, it decodes the
//! textual address a notification carries, rebuilds the result per the
//! channel's configured output kind, and hands it out for the registered
//! completion handler, exactly once per notification.

use vstd::prelude::*;
use crate::errors::PipeError;
use crate::handle::UserData;
use crate::host::HostObject;
use crate::kind::PipeDataOption;
use crate::kind::PipeValue;
use crate::pipe::EmacsPipe;
use crate::pipe::PipeView;
use crate::wire::parse_decimal;
use crate::wire::spec_all_digits;
use crate::wire::spec_decimal_value;

verus! {

/// What an outgoing send does to the channel and to the host's own copy of
/// the message: the result of `internal_send_message`.
///
/// A blob crosses as a logical copy and the host's copy stays whole.  A
/// resource crosses by moving only its descriptor, and the host's copy is
/// nulled at once, before the write, so that no instant sees two owners;
/// if the write then fails the descriptor is gone with it.  A message of
/// the wrong kind changes nothing at all.
pub open spec fn spec_send_message(p: PipeView, message: HostObject, option: PipeDataOption) -> (
    PipeView,
    HostObject,
    Result<(), PipeError>,
) {
    match option {
        PipeDataOption::STRING => {
            if !(message is Str) {
                (p, message, Err(PipeError::TypeMismatch))
            } else if p.closed {
                (p, message, Err(PipeError::Closed))
            } else {
                (p.spec_send_worker(PipeValue::Text(message->Str_0)), message, Ok(()))
            }
        },
        PipeDataOption::USER_DATA => {
            if !(message is UserPtr) {
                (p, message, Err(PipeError::TypeMismatch))
            } else {
                let stripped = HostObject::UserPtr(
                    UserData { data: 0, finalizer: None },
                );
                if p.closed {
                    (p, stripped, Err(PipeError::Closed))
                } else {
                    (p.spec_send_worker(PipeValue::Data(message->UserPtr_0)), stripped, Ok(()))
                }
            }
        },
    }
}

/// Converts a host request into the payload kind `option` and sends it to
/// the worker, as `spec_send_message` describes.
///
/// A message whose kind differs from `option` is rejected with
/// `TypeMismatch` before any I/O: the channel is left untouched.  For a
/// resource message the host's copy is nulled the moment the descriptor is
/// taken, so ownership moves exactly once.
pub fn internal_send_message(
    pipe: &mut EmacsPipe,
    message: &mut HostObject,
    option: PipeDataOption,
) -> (r: Result<(), PipeError>)
    requires
        old(pipe).wf(),
        old(pipe)@.alloc_count() < u64::MAX,
    ensures
        final(pipe).wf(),
        ({
            let (after, msg, res) = spec_send_message(old(pipe)@, *old(message), option);
            final(pipe)@ == after && *final(message) == msg && r == res
        }),
{
    match option {
        PipeDataOption::STRING => {
            let contents: String = match &*message {
                HostObject::Str(s) => s.clone(),
                _ => { return Err(PipeError::TypeMismatch) },
            };
            pipe.message_rust_worker(PipeValue::Text(contents))
        },
        PipeDataOption::USER_DATA => {
            let ud: UserData = match &*message {
                HostObject::UserPtr(ud) => *ud,
                _ => { return Err(PipeError::TypeMismatch) },
            };
            *message = HostObject::UserPtr(UserData { data: 0, finalizer: None });
            pipe.message_rust_worker(PipeValue::Data(ud))
        },
    }
}

/// An outgoing host request on the channel's configured input kind: the
/// first dispatcher entry point.
pub fn async_send_message(pipe: &mut EmacsPipe, message: &mut HostObject) -> (r: Result<
    (),
    PipeError,
>)
    requires
        old(pipe).wf(),
        old(pipe)@.alloc_count() < u64::MAX,
    ensures
        final(pipe).wf(),
        ({
            let (after, msg, res) = spec_send_message(old(pipe)@, *old(message), old(pipe)@.input);
            final(pipe)@ == after && *final(message) == msg && r == res
        }),
{
    let option = pipe.input_kind();
    internal_send_message(pipe, message, option)
}

/// The host value a payload becomes on crossing into the host domain: a
/// blob becomes a host string, a resource descriptor a host handle.
pub open spec fn spec_host_value(v: PipeValue) -> HostObject {
    match v {
        PipeValue::Text(s) => HostObject::Str(s),
        PipeValue::Data(ud) => HostObject::UserPtr(ud),
    }
}

/// What rebuilding a result from a received address does: the result of
/// `make_return_value`.
///
/// The boxed payload the address names is reclaimed and converted to the
/// host value of kind `option`.  An address that names no live payload, or
/// a payload whose kind contradicts the configured kind, is a protocol
/// violation: the two ends no longer agree on the wire.
pub open spec fn spec_make_return_value(p: PipeView, ptrval: u64, option: PipeDataOption) -> (
    PipeView,
    Result<HostObject, PipeError>,
) {
    let (after, taken) = p.spec_free(ptrval);
    match taken {
        None => (after, Err(PipeError::ProtocolViolation)),
        Some(v) => {
            if v.spec_kind() != option {
                (after, Err(PipeError::ProtocolViolation))
            } else {
                match v {
                    PipeValue::Text(s) => (after, Ok(HostObject::Str(s))),
                    PipeValue::Data(ud) => (after, Ok(HostObject::UserPtr(ud))),
                }
            }
        },
    }
}

/// Reclaims the boxed payload at `ptrval` and rebuilds it as a host value
/// of kind `option`, as `spec_make_return_value` describes.
pub fn make_return_value(pipe: &mut EmacsPipe, ptrval: u64, option: PipeDataOption) -> (r: Result<
    HostObject,
    PipeError,
>)
    requires
        old(pipe).wf(),
    ensures
        final(pipe).wf(),
        ({
            let (after, res) = spec_make_return_value(old(pipe)@, ptrval, option);
            final(pipe)@ == after && r == res
        }),
{
    match pipe.free_slot(ptrval) {
        None => Err(PipeError::ProtocolViolation),
        Some(v) => match v {
            PipeValue::Text(s) => {
                if matches!(option, PipeDataOption::STRING) {
                    Ok(HostObject::Str(s))
                } else {
                    Err(PipeError::ProtocolViolation)
                }
            },
            PipeValue::Data(ud) => {
                if matches!(option, PipeDataOption::USER_DATA) {
                    Ok(HostObject::UserPtr(ud))
                } else {
                    Err(PipeError::ProtocolViolation)
                }
            },
        },
    }
}

/// What the incoming notification path does: the result of
/// `async_handler`.
///
/// The chunk must spell a decimal address; the address must name a live
/// boxed payload of the configured output kind.  Then the payload crosses
/// to the host and the registered handler is to be called exactly once
/// with it; anything else is a protocol violation.
pub open spec fn spec_async_handler(p: PipeView, data: Seq<u8>) -> (
    PipeView,
    Result<(u64, HostObject), PipeError>,
) {
    if !(data.len() > 0 && spec_all_digits(data) && spec_decimal_value(data) <= u64::MAX) {
        (p, Err(PipeError::ProtocolViolation))
    } else {
        let addr = spec_decimal_value(data) as u64;
        let (after, res) = spec_make_return_value(p, addr, p.output);
        match res {
            Ok(v) => (after, Ok((p.handler, v))),
            Err(e) => (after, Err(e)),
        }
    }
}

/// The incoming notification path: the second dispatcher entry point,
/// invoked with the bytes of one delivered chunk.
///
/// On success it returns the registered handler identifier and the rebuilt
/// result value; the embedding calls the handler with exactly that pair,
/// once, since the chunk it came from has been consumed.
pub fn async_handler(pipe: &mut EmacsPipe, data: &Vec<u8>) -> (r: Result<
    (u64, HostObject),
    PipeError,
>)
    requires
        old(pipe).wf(),
    ensures
        final(pipe).wf(),
        ({
            let (after, res) = spec_async_handler(old(pipe)@, data@);
            final(pipe)@ == after && r == res
        }),
{
    let parsed = parse_decimal(data);
    match parsed {
        None => Err(PipeError::ProtocolViolation),
        Some(addr) => {
            let option = pipe.output_kind();
            let handler = pipe.handler_id();
            match make_return_value(pipe, addr, option) {
                Ok(v) => Ok((handler, v)),
                Err(e) => Err(e),
            }
        },
    }
}

/// Closes the channel from the host side; the only cancellation the
/// protocol has.  Always succeeds, and closing twice is harmless.
pub fn async_close_stream(pipe: &mut EmacsPipe) -> (r: bool)
    requires
        old(pipe).wf(),
    ensures
        final(pipe).wf(),
        r == true,
        final(pipe)@ == old(pipe)@.spec_close(),
{
    pipe.close_stream().is_ok()
}


/// Type safety: a payload of the wrong kind for the direction it is sent
/// on comes back as `TypeMismatch`, with no byte written, no payload
/// boxed, and the host's copy of the message untouched.
pub proof fn lemma_type_safety(p: PipeView, message: HostObject, option: PipeDataOption)
    requires
        match option {
            PipeDataOption::STRING => !(message is Str),
            PipeDataOption::USER_DATA => !(message is UserPtr),
        },
    ensures
        spec_send_message(p, message, option) == (
            p,
            message,
            Err::<(), PipeError>(PipeError::TypeMismatch),
        ),
{
}

/// Round trip toward the host: on a channel with no notification pending,
/// a worker send followed by the host's delivery of the next notification
/// hands the completion handler — exactly once, since the notification is
/// consumed — the very payload that was sent, as a host value of the
/// configured output kind; again one boxed payload is allocated and the
/// same one reclaimed.
pub proof fn lemma_round_trip_to_host(p: PipeView, v: PipeValue)
    requires
        p.notes_pending.len() == 0,
        p.alloc_count() < u64::MAX,
        v.spec_kind() == p.output,
    ensures
        ({
            let sent = p.spec_send_host(v);
            let (rest, note) = sent.spec_next_note();
            &&& note is Some
            &&& ({
                let (done, res) = spec_async_handler(rest, note->Some_0);
                &&& res == Ok::<(u64, HostObject), PipeError>((p.handler, spec_host_value(v)))
                &&& sent.alloc_count() == p.alloc_count() + 1
                &&& sent.live_count() == p.live_count() + 1
                &&& done.alloc_count() == p.alloc_count() + 1
                &&& done.live_count() == p.live_count()
                &&& done.notes_pending.len() == 0
                &&& done.req_pending == p.req_pending
            })
        }),
{
    let addr = p.next_addr();
    let sent = p.spec_send_host(v);
    crate::wire::lemma_decimal_round_trip(addr);
    let (rest, note) = sent.spec_next_note();
    assert(rest.notes_pending =~= Seq::<Seq<u8>>::empty());
    crate::pipe::lemma_count_live_push(p.slots, Some(v));
    assert(rest.slots[addr - 1] == Some(v));
    crate::pipe::lemma_count_live_clear(rest.slots, addr - 1);
}

} // verus!
