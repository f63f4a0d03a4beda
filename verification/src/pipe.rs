//! The channel itself: two unidirectional byte streams, a store of boxed
//! payloads in flight, and the configuration fixed at creation time.
//!
//! Sending boxes the payload — here, placing it in the store under a fresh
//! non-zero address — and writes only that address over the stream: the
//! fixed-width big-endian encoding toward the worker, ASCII decimal text
//! toward the host.  Receiving reads an address back and reclaims the boxed
//! payload, transferring ownership to the receiver.  Writing the sentinel
//! address closes the host-to-worker stream.

use vstd::prelude::*;
use crate::errors::PipeError;
use crate::kind::PipeDataOption;
use crate::kind::PipeValue;
use crate::wire::SENTINEL;
use crate::wire::lemma_be_round_trip;
use crate::wire::spec_be_bytes;
use crate::wire::spec_be_value;
use crate::wire::spec_decimal_digits;
use crate::wire::u64_from_be_bytes;
use crate::wire::u64_to_be_bytes;
use crate::wire::u64_to_decimal;

verus! {

/// The number of live boxed payloads: slots that have been allocated by a
/// send and not yet reclaimed by a receive.
pub open spec fn count_live(s: Seq<Option<PipeValue>>) -> int
    decreases s.len(),
{
    if s.len() == 0 {
        0
    } else {
        count_live(s.drop_last()) + if s.last() is Some {
            1int
        } else {
            0int
        }
    }
}

/// Appending a slot adds one live payload exactly when the slot is full.
pub proof fn lemma_count_live_push(s: Seq<Option<PipeValue>>, v: Option<PipeValue>)
    ensures
        count_live(s.push(v)) == count_live(s) + if v is Some {
            1int
        } else {
            0int
        },
{
    assert(s.push(v).drop_last() =~= s);
}

/// Emptying one full slot removes exactly one live payload.
pub proof fn lemma_count_live_clear(s: Seq<Option<PipeValue>>, i: int)
    requires
        0 <= i < s.len(),
        s[i] is Some,
    ensures
        count_live(s.update(i, None)) == count_live(s) - 1,
    decreases s.len(),
{
    let t = s.update(i, None);
    if i == s.len() - 1 {
        assert(t.drop_last() =~= s.drop_last());
    } else {
        assert(t.drop_last() =~= s.drop_last().update(i, None));
        lemma_count_live_clear(s.drop_last(), i);
    }
}

/// The channel's abstract state: what the contracts speak of.
///
/// The streams appear as their unconsumed remainder: `req_pending` holds
/// the bytes written toward the worker and not yet read, `notes_pending`
/// the text chunks written toward the host and not yet delivered.  `slots`
/// is the boxed-payload store; the address of slot `i` is `i + 1`, so the
/// zero address never names a payload and stays free for the sentinel.
#[verifier::ext_equal]
pub ghost struct PipeView {
    /// Unread bytes of the host-to-worker stream.
    pub req_pending: Seq<u8>,
    /// Undelivered notification chunks of the worker-to-host stream.
    pub notes_pending: Seq<Seq<u8>>,
    /// The boxed payloads; a slot is `None` once its payload was reclaimed.
    pub slots: Seq<Option<PipeValue>>,
    /// Whether the host has closed its sending direction.
    pub closed: bool,
    /// The identifier of the registered completion handler.
    pub handler: u64,
    /// The payload kind of the host-to-worker direction.
    pub input: PipeDataOption,
    /// The payload kind of the worker-to-host direction.
    pub output: PipeDataOption,
}

impl PipeView {
    /// How many payloads were ever boxed on this channel.
    pub open spec fn alloc_count(self) -> int {
        self.slots.len() as int
    }

    /// How many boxed payloads are live: allocated and not yet reclaimed.
    pub open spec fn live_count(self) -> int {
        count_live(self.slots)
    }

    /// The address the next boxed payload will get.
    pub open spec fn next_addr(self) -> u64 {
        (self.slots.len() + 1) as u64
    }

    /// Appending one raw frame carrying `addr` to the worker-bound stream.
    pub open spec fn spec_write_ptr(self, addr: u64) -> PipeView {
        PipeView { req_pending: self.req_pending + spec_be_bytes(addr), ..self }
    }

    /// A send toward the worker: box the payload, then write its address
    /// as a raw fixed-width frame.
    pub open spec fn spec_send_worker(self, content: PipeValue) -> PipeView {
        PipeView {
            slots: self.slots.push(Some(content)),
            req_pending: self.req_pending + spec_be_bytes(self.next_addr()),
            ..self
        }
    }

    /// A send toward the host: box the payload, then write its address as
    /// one ASCII decimal notification chunk.
    pub open spec fn spec_send_host(self, content: PipeValue) -> PipeView {
        PipeView {
            slots: self.slots.push(Some(content)),
            notes_pending: self.notes_pending.push(spec_decimal_digits(self.next_addr())),
            ..self
        }
    }

    /// Closing the host-to-worker stream: write the sentinel frame once;
    /// closing again changes nothing.
    pub open spec fn spec_close(self) -> PipeView {
        if self.closed {
            self
        } else {
            PipeView {
                req_pending: self.req_pending + spec_be_bytes(SENTINEL),
                closed: true,
                ..self
            }
        }
    }

    /// Reading the next address off the worker-bound stream.
    ///
    /// An empty stream reads as end of input, which the protocol reports
    /// as `Closed`; a short frame is a protocol violation and poisons the
    /// rest of the stream; a full frame yields its address, the sentinel
    /// again meaning `Closed`.
    pub open spec fn spec_read_next(self) -> (PipeView, Result<u64, PipeError>) {
        if self.req_pending.len() == 0 {
            (self, Err(PipeError::Closed))
        } else if self.req_pending.len() < 8 {
            (
                PipeView { req_pending: Seq::empty(), ..self },
                Err(PipeError::ProtocolViolation),
            )
        } else {
            let addr = spec_be_value(self.req_pending.subrange(0, 8));
            let rest = PipeView {
                req_pending: self.req_pending.subrange(8, self.req_pending.len() as int),
                ..self
            };
            if addr == SENTINEL {
                (rest, Err(PipeError::Closed))
            } else {
                (rest, Ok(addr))
            }
        }
    }

    /// Reclaiming the boxed payload at `addr`: the slot is emptied and its
    /// payload, if any, handed out.
    pub open spec fn spec_free(self, addr: u64) -> (PipeView, Option<PipeValue>) {
        if 1 <= addr && addr <= self.slots.len() {
            (
                PipeView { slots: self.slots.update(addr - 1, None), ..self },
                self.slots[addr - 1],
            )
        } else {
            (self, None)
        }
    }

    /// A receive on the worker side: read an address, then reclaim the
    /// payload it names.  An address that names no live payload is a
    /// protocol violation.
    pub open spec fn spec_receive(self) -> (PipeView, Result<PipeValue, PipeError>) {
        let (after_read, read) = self.spec_read_next();
        match read {
            Err(e) => (after_read, Err(e)),
            Ok(addr) => {
                let (after_free, taken) = after_read.spec_free(addr);
                match taken {
                    Some(v) => (after_free, Ok(v)),
                    None => (after_free, Err(PipeError::ProtocolViolation)),
                }
            },
        }
    }

    /// Delivering the next pending notification chunk to the host.
    pub open spec fn spec_next_note(self) -> (PipeView, Option<Seq<u8>>) {
        if self.notes_pending.len() == 0 {
            (self, None)
        } else {
            (
                PipeView {
                    notes_pending: self.notes_pending.subrange(1, self.notes_pending.len() as int),
                    ..self
                },
                Some(self.notes_pending[0]),
            )
        }
    }
}

/// Round trip toward the worker: on a quiescent open channel, a send
/// followed by the other endpoint's receive yields the very payload that
/// was sent — either kind — with exactly one boxed payload allocated by
/// the send and exactly that one reclaimed by the receive.
pub proof fn lemma_round_trip(p: PipeView, v: PipeValue)
    requires
        !p.closed,
        p.req_pending.len() == 0,
        p.alloc_count() < u64::MAX,
    ensures
        ({
            let sent = p.spec_send_worker(v);
            let (received, res) = sent.spec_receive();
            &&& res == Ok::<PipeValue, PipeError>(v)
            &&& sent.alloc_count() == p.alloc_count() + 1
            &&& sent.live_count() == p.live_count() + 1
            &&& received.alloc_count() == p.alloc_count() + 1
            &&& received.live_count() == p.live_count()
            &&& received.req_pending.len() == 0
            &&& received.notes_pending == p.notes_pending
        }),
{
    let addr = p.next_addr();
    let sent = p.spec_send_worker(v);
    lemma_be_round_trip(addr);
    assert(sent.req_pending.subrange(0, 8) =~= spec_be_bytes(addr));
    assert(sent.req_pending.subrange(8, sent.req_pending.len() as int) =~= Seq::<u8>::empty());
    lemma_count_live_push(p.slots, Some(v));
    let (received, res) = sent.spec_receive();
    assert(sent.slots[addr - 1] == Some(v));
    lemma_count_live_clear(sent.slots, addr - 1);
}

/// Appends the bytes of `src` to `dst`.
fn append_bytes(dst: &mut Vec<u8>, src: &Vec<u8>)
    ensures
        final(dst)@ == old(dst)@ + src@,
{
    let mut k: usize = 0;
    while k < src.len()
        invariant
            k <= src@.len(),
            dst@ == old(dst)@ + src@.subrange(0, k as int),
        decreases src@.len() - k,
    {
        proof {
            assert((old(dst)@ + src@.subrange(0, k as int)).push(src@[k as int]) =~= old(dst)@
                + src@.subrange(0, k + 1));
        }
        dst.push(src[k]);
        k = k + 1;
    }
    proof {
        assert(src@.subrange(0, src@.len() as int) =~= src@);
    }
}

/// Copies a byte vector.
fn copy_bytes(src: &Vec<u8>) -> (r: Vec<u8>)
    ensures
        r@ == src@,
{
    let mut v: Vec<u8> = Vec::new();
    append_bytes(&mut v, src);
    v
}

/// The channel: stream endpoints, the boxed-payload store, and the
/// configuration and handler registration it owns.
pub struct EmacsPipe {
    // The host-to-worker stream: raw bytes written, and how many the
    // worker has consumed.
    to_worker: Vec<u8>,
    to_worker_pos: usize,
    // The worker-to-host stream: one chunk per notification, and how many
    // the host has consumed.
    to_host: Vec<Vec<u8>>,
    to_host_pos: usize,
    // The boxed payloads in flight; slot i is reachable as address i + 1.
    store: Vec<Option<PipeValue>>,
    // Whether the host has written the sentinel.
    closed: bool,
    // The registered completion handler and the two direction kinds.
    handler: u64,
    input: PipeDataOption,
    output: PipeDataOption,
}

impl View for EmacsPipe {
    type V = PipeView;

    closed spec fn view(&self) -> PipeView {
        PipeView {
            req_pending: self.to_worker@.subrange(
                self.to_worker_pos as int,
                self.to_worker@.len() as int,
            ),
            notes_pending: self.to_host@.subrange(
                self.to_host_pos as int,
                self.to_host@.len() as int,
            ).map_values(|c: Vec<u8>| c@),
            slots: self.store@,
            closed: self.closed,
            handler: self.handler,
            input: self.input,
            output: self.output,
        }
    }
}

impl EmacsPipe {
    /// The channel's internal well-formedness: each stream cursor stays
    /// within its stream.  Constructors establish it and every method
    /// preserves it.
    pub closed spec fn wf(&self) -> bool {
        self.to_worker_pos <= self.to_worker@.len() && self.to_host_pos <= self.to_host@.len()
    }

    /// Creates a channel for a worker: empty streams, an empty payload
    /// store, and the handler registration and direction kinds it keeps
    /// for its whole life.
    pub fn with_handler(handler: u64, input: PipeDataOption, output: PipeDataOption) -> (p:
        EmacsPipe)
        ensures
            p.wf(),
            p@ == (PipeView {
                req_pending: Seq::<u8>::empty(),
                notes_pending: Seq::<Seq<u8>>::empty(),
                slots: Seq::<Option<PipeValue>>::empty(),
                closed: false,
                handler,
                input,
                output,
            }),
    {
        Self::create(handler, input, output)
    }

    /// Builds the channel state that `with_handler` promises.
    fn create(handler: u64, input: PipeDataOption, output: PipeDataOption) -> (p: EmacsPipe)
        ensures
            p.wf(),
            p@ == (PipeView {
                req_pending: Seq::<u8>::empty(),
                notes_pending: Seq::<Seq<u8>>::empty(),
                slots: Seq::<Option<PipeValue>>::empty(),
                closed: false,
                handler,
                input,
                output,
            }),
    {
        let p = EmacsPipe {
            to_worker: Vec::new(),
            to_worker_pos: 0,
            to_host: Vec::new(),
            to_host_pos: 0,
            store: Vec::new(),
            closed: false,
            handler,
            input,
            output,
        };
        proof {
            assert(p@ =~~= (PipeView {
                req_pending: Seq::<u8>::empty(),
                notes_pending: Seq::<Seq<u8>>::empty(),
                slots: Seq::<Option<PipeValue>>::empty(),
                closed: false,
                handler,
                input,
                output,
            }));
        }
        p
    }

    /// Writes a raw fixed-width frame carrying `addr` on the worker-bound
    /// stream.  The sentinel is reserved for `close_stream`; after a close
    /// the send fails fast with `Closed` and writes nothing.
    pub fn write_ptr(&mut self, addr: u64) -> (r: Result<(), PipeError>)
        requires
            old(self).wf(),
            addr != SENTINEL,
        ensures
            final(self).wf(),
            old(self)@.closed ==> r == Err::<(), PipeError>(PipeError::Closed) && final(self)@
                == old(self)@,
            !old(self)@.closed ==> r == Ok::<(), PipeError>(()) && final(self)@ == old(
                self,
            )@.spec_write_ptr(addr),
    {
        if self.closed {
            return Err(PipeError::Closed);
        }
        let frame = u64_to_be_bytes(addr);
        append_bytes(&mut self.to_worker, &frame);
        proof {
            assert(self@ =~~= old(self)@.spec_write_ptr(addr));
        }
        Ok(())
    }

    /// A send toward the worker: boxes `content` in the store and writes
    /// its address as a raw frame.  After a close it fails fast with
    /// `Closed`, boxing nothing and writing nothing.
    pub fn message_rust_worker(&mut self, content: PipeValue) -> (r: Result<(), PipeError>)
        requires
            old(self).wf(),
            old(self)@.alloc_count() < u64::MAX,
        ensures
            final(self).wf(),
            old(self)@.closed ==> r == Err::<(), PipeError>(PipeError::Closed) && final(self)@
                == old(self)@,
            !old(self)@.closed ==> r == Ok::<(), PipeError>(()) && final(self)@ == old(
                self,
            )@.spec_send_worker(content),
    {
        if self.closed {
            return Err(PipeError::Closed);
        }
        let idx = self.store.len();
        let addr = (idx as u64) + 1;
        self.store.push(Some(content));
        let frame = u64_to_be_bytes(addr);
        append_bytes(&mut self.to_worker, &frame);
        proof {
            assert(self@ =~~= old(self)@.spec_send_worker(content));
        }
        Ok(())
    }

    /// A send toward the host: boxes `content` in the store and writes its
    /// address as ASCII decimal text, one notification chunk, because that
    /// direction is re-read by the host's text notification path.
    pub fn message_lisp(&mut self, content: PipeValue) -> (r: Result<(), PipeError>)
        requires
            old(self).wf(),
            old(self)@.alloc_count() < u64::MAX,
        ensures
            final(self).wf(),
            r == Ok::<(), PipeError>(()),
            final(self)@ == old(self)@.spec_send_host(content),
    {
        let idx = self.store.len();
        let addr = (idx as u64) + 1;
        self.store.push(Some(content));
        let chunk = u64_to_decimal(addr);
        self.to_host.push(chunk);
        proof {
            assert(self@.notes_pending =~= old(self)@.notes_pending.push(
                spec_decimal_digits(addr),
            ));
            assert(self@ =~~= old(self)@.spec_send_host(content));
        }
        Ok(())
    }

    /// Reads the next address off the worker-bound stream, as
    /// `spec_read_next` describes: end of input and the sentinel read as
    /// `Closed`, a short frame as a protocol violation.
    pub fn read_next_ptr(&mut self) -> (r: Result<u64, PipeError>)
        requires
            old(self).wf(),
        ensures
            final(self).wf(),
            ({
                let (after, res) = old(self)@.spec_read_next();
                final(self)@ == after && r == res
            }),
    {
        let avail = self.to_worker.len() - self.to_worker_pos;
        if avail == 0 {
            proof {
                assert(self@.req_pending.len() == 0);
            }
            Err(PipeError::Closed)
        } else if avail < 8 {
            self.to_worker_pos = self.to_worker.len();
            proof {
                assert(self@ =~~= (PipeView { req_pending: Seq::empty(), ..old(self)@ }));
            }
            Err(PipeError::ProtocolViolation)
        } else {
            let value = u64_from_be_bytes(&self.to_worker, self.to_worker_pos);
            self.to_worker_pos = self.to_worker_pos + 8;
            proof {
                assert(old(self)@.req_pending.subrange(0, 8) =~= old(self).to_worker@.subrange(
                    old(self).to_worker_pos as int,
                    old(self).to_worker_pos + 8,
                ));
                assert(self@ =~~= (PipeView {
                    req_pending: old(self)@.req_pending.subrange(
                        8,
                        old(self)@.req_pending.len() as int,
                    ),
                    ..old(self)@
                }));
            }
            if value == 0 {
                Err(PipeError::Closed)
            } else {
                Ok(value)
            }
        }
    }

    /// Empties the slot `addr` names and hands out its payload, if any.
    pub(crate) fn free_slot(&mut self, addr: u64) -> (r: Option<PipeValue>)
        requires
            old(self).wf(),
        ensures
            final(self).wf(),
            ({
                let (after, taken) = old(self)@.spec_free(addr);
                final(self)@ == after && r == taken
            }),
    {
        if addr >= 1 && addr - 1 < self.store.len() as u64 {
            let i = (addr - 1) as usize;
            let taken = self.store.remove(i);
            self.store.insert(i, None);
            proof {
                assert(self.store@ =~= old(self).store@.update(addr - 1, None));
                assert(self@ =~~= (PipeView {
                    slots: old(self)@.slots.update(addr - 1, None),
                    ..old(self)@
                }));
            }
            taken
        } else {
            None
        }
    }

    /// A receive on the worker side: reads the next address and reclaims
    /// the boxed payload it names, transferring ownership to the caller.
    pub fn read_pend_message(&mut self) -> (r: Result<PipeValue, PipeError>)
        requires
            old(self).wf(),
        ensures
            final(self).wf(),
            ({
                let (after, res) = old(self)@.spec_receive();
                final(self)@ == after && r == res
            }),
    {
        match self.read_next_ptr() {
            Err(e) => Err(e),
            Ok(addr) => match self.free_slot(addr) {
                Some(v) => Ok(v),
                None => Err(PipeError::ProtocolViolation),
            },
        }
    }

    /// Closes the host-to-worker stream by writing the sentinel frame.
    /// Closing is idempotent: a second close writes nothing.
    pub fn close_stream(&mut self) -> (r: Result<(), PipeError>)
        requires
            old(self).wf(),
        ensures
            final(self).wf(),
            r == Ok::<(), PipeError>(()),
            final(self)@ == old(self)@.spec_close(),
    {
        if self.closed {
            return Ok(());
        }
        let frame = u64_to_be_bytes(0);
        append_bytes(&mut self.to_worker, &frame);
        self.closed = true;
        proof {
            assert(self@ =~~= old(self)@.spec_close());
        }
        Ok(())
    }

    /// Hands the host the next pending notification chunk, consuming it:
    /// each chunk is delivered at most once.
    pub fn next_notification(&mut self) -> (r: Option<Vec<u8>>)
        requires
            old(self).wf(),
        ensures
            final(self).wf(),
            ({
                let (after, note) = old(self)@.spec_next_note();
                final(self)@ == after && (match r {
                    Some(c) => note == Some(c@),
                    None => note is None,
                })
            }),
    {
        if self.to_host_pos < self.to_host.len() {
            let chunk = copy_bytes(&self.to_host[self.to_host_pos]);
            self.to_host_pos = self.to_host_pos + 1;
            proof {
                assert(self@.notes_pending =~= old(self)@.notes_pending.subrange(
                    1,
                    old(self)@.notes_pending.len() as int,
                ));
                assert(self@ =~~= (PipeView {
                    notes_pending: old(self)@.notes_pending.subrange(
                        1,
                        old(self)@.notes_pending.len() as int,
                    ),
                    ..old(self)@
                }));
            }
            Some(chunk)
        } else {
            None
        }
    }

    /// Whether the host has closed its sending direction.
    pub fn is_closed(&self) -> (r: bool)
        ensures
            r == self@.closed,
    {
        self.closed
    }

    /// The registered completion-handler identifier.
    pub fn handler_id(&self) -> (r: u64)
        ensures
            r == self@.handler,
    {
        self.handler
    }

    /// The payload kind of the host-to-worker direction.
    pub fn input_kind(&self) -> (r: PipeDataOption)
        ensures
            r == self@.input,
    {
        self.input
    }

    /// The payload kind of the worker-to-host direction.
    pub fn output_kind(&self) -> (r: PipeDataOption)
        ensures
            r == self@.output,
    {
        self.output
    }

    /// How many bytes wait unread on the host-to-worker stream.
    pub fn pending_request_bytes(&self) -> (r: usize)
        requires
            self.wf(),
        ensures
            r == self@.req_pending.len(),
    {
        self.to_worker.len() - self.to_worker_pos
    }

    /// How many notification chunks wait undelivered to the host.
    pub fn pending_notifications(&self) -> (r: usize)
        requires
            self.wf(),
        ensures
            r == self@.notes_pending.len(),
    {
        self.to_host.len() - self.to_host_pos
    }

    /// How many payloads were ever boxed on this channel.
    pub fn total_allocations(&self) -> (r: usize)
        ensures
            r == self@.alloc_count(),
    {
        self.store.len()
    }

    /// How many boxed payloads are live: allocated and not yet reclaimed.
    pub fn live_allocations(&self) -> (r: usize)
        ensures
            r == self@.live_count(),
    {
        let mut count: usize = 0;
        let mut k: usize = 0;
        while k < self.store.len()
            invariant
                k <= self.store@.len(),
                count == count_live(self.store@.subrange(0, k as int)),
                count <= k,
            decreases self.store@.len() - k,
        {
            proof {
                assert(self.store@.subrange(0, k + 1).drop_last() =~= self.store@.subrange(
                    0,
                    k as int,
                ));
                assert(self.store@.subrange(0, k + 1).last() == self.store@[k as int]);
            }
            if self.store[k].is_some() {
                count = count + 1;
            }
            k = k + 1;
        }
        proof {
            assert(self.store@.subrange(0, self.store@.len() as int) =~= self.store@);
        }
        count
    }
}

} // verus!
