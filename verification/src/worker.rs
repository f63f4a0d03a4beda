//! The worker driver: the request-handler-response loop that runs on the
//! dedicated worker thread.
//!
//! Each turn receives a request; a `Closed` receive is the cooperative
//! shutdown and ends the loop quietly, any other failure ends it with a
//! report.  Otherwise the handler runs — it may block as long as it likes,
//! that is what the dedicated thread is for — and its answer is sent back
//! toward the host, one response per request.

use vstd::prelude::*;
use crate::errors::PipeError;
use crate::errors::is_unexpected_error;
use crate::handle::UserData;
use crate::kind::PipeValue;
use crate::pipe::EmacsPipe;
use crate::pipe::PipeView;

verus! {

/// What one turn of the worker loop decided.
#[derive(Clone, Copy, Debug, PartialEq, Eq, Structural)]
pub enum WorkerOutcome {
    /// A request was served; take the next turn.
    Continue,
    /// The loop ends; `report` says whether the cause deserves a report,
    /// which an intentional shutdown does not.
    Exit { report: bool },
}

/// The blob echo handler: answers every request with the request itself.
pub fn async_echo(s: String) -> (r: String)
    ensures
        r == s,
{
    s
}

/// The resource echo handler: hands every received descriptor straight
/// back.
pub fn async_data_echo(e: UserData) -> (r: UserData)
    ensures
        r == e,
{
    e
}

/// The identity handler on a payload of either kind.
pub fn echo_value(v: PipeValue) -> (r: PipeValue)
    ensures
        r == v,
{
    match v {
        PipeValue::Text(s) => PipeValue::Text(async_echo(s)),
        PipeValue::Data(d) => PipeValue::Data(async_data_echo(d)),
    }
}

/// What one turn of the echo worker does to the channel.
///
/// A received request is answered with itself on the worker-to-host
/// stream.  A failed receive ends the loop, reporting unless the failure
/// is the expected `Closed` of a shutdown.
pub open spec fn spec_worker_step(p: PipeView) -> (PipeView, WorkerOutcome) {
    let (p1, res) = p.spec_receive();
    match res {
        Ok(msg) => (p1.spec_send_host(msg), WorkerOutcome::Continue),
        Err(e) => (p1, WorkerOutcome::Exit { report: e != PipeError::Closed }),
    }
}

/// One turn of the worker loop with the identity handler, as
/// `spec_worker_step` describes.
pub fn rust_worker_step(pipe: &mut EmacsPipe) -> (o: WorkerOutcome)
    requires
        old(pipe).wf(),
        old(pipe)@.alloc_count() < u64::MAX,
    ensures
        final(pipe).wf(),
        ({
            let (after, out) = spec_worker_step(old(pipe)@);
            final(pipe)@ == after && o == out
        }),
{
    match pipe.read_pend_message() {
        Ok(message) => {
            let result = echo_value(message);
            match pipe.message_lisp(result) {
                Ok(_) => WorkerOutcome::Continue,
                Err(err) => {
                    let report = is_unexpected_error(&err);
                    WorkerOutcome::Exit { report }
                },
            }
        },
        Err(err) => {
            let report = is_unexpected_error(&err);
            WorkerOutcome::Exit { report }
        },
    }
}

/// The whole run of the echo worker: turns are taken until one ends the
/// loop, and the final `bool` says whether the end was reported.
pub open spec fn spec_run_worker(p: PipeView) -> (PipeView, bool)
    decreases p.req_pending.len(),
{
    let (p1, out) = spec_worker_step(p);
    match out {
        WorkerOutcome::Continue => spec_run_worker(p1),
        WorkerOutcome::Exit { report } => (p1, report),
    }
}

/// The worker loop with the identity handler: serves every pending request
/// in order, then exits on the first failed receive, as `spec_run_worker`
/// describes.  Returns whether the exit was reported.
pub fn rust_worker(pipe: &mut EmacsPipe) -> (report: bool)
    requires
        old(pipe).wf(),
        old(pipe)@.alloc_count() + old(pipe)@.req_pending.len() < u64::MAX,
    ensures
        final(pipe).wf(),
        ({
            let (after, rep) = spec_run_worker(old(pipe)@);
            final(pipe)@ == after && report == rep
        }),
{
    loop
        invariant
            pipe.wf(),
            pipe@.alloc_count() + pipe@.req_pending.len() <= old(pipe)@.alloc_count() + old(
                pipe,
            )@.req_pending.len(),
            old(pipe)@.alloc_count() + old(pipe)@.req_pending.len() < u64::MAX,
            spec_run_worker(pipe@) == spec_run_worker(old(pipe)@),
        decreases pipe@.req_pending.len(),
    {
        match rust_worker_step(pipe) {
            WorkerOutcome::Continue => {
            },
            WorkerOutcome::Exit { report } => {
                return report;
            },
        }
    }
}

/// Strict ordering: a response is never observable before its request's
/// send has completed.  One worker turn writes a notification only by
/// first consuming a complete request frame, writes exactly one, and the
/// payload that notification names is the handler's answer — here the
/// request itself; a turn whose receive yields no request writes nothing.
pub proof fn lemma_strict_ordering(p: PipeView)
    requires
        p.alloc_count() < u64::MAX,
    ensures
        ({
            let (p1, out) = spec_worker_step(p);
            let (received, res) = p.spec_receive();
            &&& (res matches Ok(v) ==> {
                let addr = received.next_addr();
                &&& out == WorkerOutcome::Continue
                &&& p1.notes_pending == p.notes_pending.push(
                    crate::wire::spec_decimal_digits(addr),
                )
                &&& p1.spec_free(addr).1 == Some(v)
                &&& p.req_pending.len() >= 8
            })
            &&& (res is Err ==> p1.notes_pending == p.notes_pending && (out matches
                WorkerOutcome::Exit { report: _ }))
        }),
{
    let (received, res) = p.spec_receive();
    if res is Ok {
        let v = res->Ok_0;
        let after = received.spec_send_host(v);
        assert(after.slots[after.slots.len() - 1] == Some(v));
    }
}

/// Close termination: writing the sentinel makes the worker's next
/// receive return `Closed`; the loop then exits at once, reports nothing
/// — a user-initiated shutdown is expected — and sends nothing further.
pub proof fn lemma_close_termination(p: PipeView)
    requires
        !p.closed,
        p.req_pending.len() == 0,
    ensures
        ({
            let pc = p.spec_close();
            let (received, res) = pc.spec_receive();
            let (done, report) = spec_run_worker(pc);
            &&& res == Err::<PipeValue, PipeError>(PipeError::Closed)
            &&& report == false
            &&& done.notes_pending == p.notes_pending
            &&& done.slots == p.slots
            &&& done.req_pending.len() == 0
        }),
{
    let pc = p.spec_close();
    crate::wire::lemma_be_round_trip(crate::wire::SENTINEL);
    assert(pc.req_pending.subrange(0, 8) =~= crate::wire::spec_be_bytes(crate::wire::SENTINEL));
    let (received, res) = pc.spec_receive();
    assert(received.req_pending =~= Seq::<u8>::empty());
}


/// The requests a run of the worker serves, in the order its successive
/// receives yield them, following exactly the states the run goes
/// through.
pub open spec fn spec_request_trace(p: PipeView) -> Seq<PipeValue>
    decreases p.req_pending.len(),
{
    let (p1, out) = spec_worker_step(p);
    let (received, res) = p.spec_receive();
    match res {
        Ok(v) => seq![v] + spec_request_trace(p1),
        Err(_) => Seq::<PipeValue>::empty(),
    }
}

/// Every complete frame on the pending request stream names an address no
/// larger than `bound`: the stream speaks only of payloads boxed before
/// slot `bound`, never of the responses the run itself will box.
pub open spec fn frames_bounded(req: Seq<u8>, bound: int) -> bool {
    forall|k: int|
        0 <= k && 8 * k + 8 <= req.len() ==> crate::wire::spec_be_value(
            #[trigger] req.subrange(8 * k, 8 * k + 8),
        ) <= bound
}

proof fn lemma_run_trace(p: PipeView, bound: int)
    requires
        0 <= bound <= p.slots.len(),
        frames_bounded(p.req_pending, bound),
        p.alloc_count() + p.req_pending.len() < u64::MAX,
    ensures
        ({
            let (done, _) = spec_run_worker(p);
            let trace = spec_request_trace(p);
            &&& done.slots.len() == p.slots.len() + trace.len()
            &&& done.notes_pending.len() == p.notes_pending.len() + trace.len()
            &&& (forall|k: int|
                0 <= k < p.notes_pending.len() ==> done.notes_pending[k] == p.notes_pending[k])
            &&& (forall|k: int|
                0 <= k < trace.len() ==> #[trigger] done.notes_pending[p.notes_pending.len() + k]
                    == crate::wire::spec_decimal_digits((p.slots.len() + k + 1) as u64))
            &&& (forall|k: int|
                0 <= k < trace.len() ==> #[trigger] done.slots[p.slots.len() + k] == Some(trace[k]))
            &&& (forall|i: int| bound <= i < p.slots.len() ==> done.slots[i] == p.slots[i])
        }),
    decreases p.req_pending.len(),
{
    let (p1, out) = spec_worker_step(p);
    let (received, res) = p.spec_receive();
    let (done, _) = spec_run_worker(p);
    let trace = spec_request_trace(p);
    match res {
        Ok(v) => {
            assert(p.req_pending.subrange(8int * 0, 8int * 0 + 8) =~= p.req_pending.subrange(0, 8));
            let addr = crate::wire::spec_be_value(p.req_pending.subrange(0, 8));
            assert(addr <= bound);
            assert forall|k: int| 0 <= k && 8 * k + 8 <= p1.req_pending.len() implies crate::wire::spec_be_value(
                #[trigger] p1.req_pending.subrange(8 * k, 8 * k + 8),
            ) <= bound by {
                assert(p1.req_pending.subrange(8 * k, 8 * k + 8) =~= p.req_pending.subrange(
                    8 * (k + 1),
                    8 * (k + 1) + 8,
                ));
            }
            lemma_run_trace(p1, bound);
            let lold = p.slots.len() as int;
            let base = p.notes_pending.len() as int;
            let trace1 = spec_request_trace(p1);
            assert(trace =~= seq![v] + trace1);
            assert(spec_run_worker(p) == spec_run_worker(p1));
            assert(received.slots.len() == p.slots.len());
            assert(p1.slots.len() == lold + 1);
            assert(p1.notes_pending.len() == base + 1);
            assert(p1.slots[lold] == Some(v));
            assert(received.next_addr() == (lold + 1) as u64);
            assert(p1.notes_pending[base] == crate::wire::spec_decimal_digits((lold + 1) as u64));
            assert forall|k: int| 0 <= k < trace.len() implies #[trigger] done.slots[p.slots.len()
                + k] == Some(trace[k]) by {
                if k == 0 {
                    assert(bound <= lold < p1.slots.len());
                    assert(done.slots[lold] == p1.slots[lold]);
                } else {
                    assert(trace[k] == trace1[k - 1]);
                    assert(done.slots[p1.slots.len() + (k - 1)] == Some(trace1[k - 1]));
                    assert(lold + k == p1.slots.len() + (k - 1));
                }
            }
            assert forall|k: int| 0 <= k < trace.len() implies #[trigger] done.notes_pending[p.notes_pending.len()
                + k] == crate::wire::spec_decimal_digits((p.slots.len() + k + 1) as u64) by {
                if k == 0 {
                    assert(done.notes_pending[base] == p1.notes_pending[base]);
                } else {
                    assert(done.notes_pending[p1.notes_pending.len() + (k - 1)]
                        == crate::wire::spec_decimal_digits((p1.slots.len() + (k - 1) + 1) as u64));
                    assert(base + k == p1.notes_pending.len() + (k - 1));
                    assert(p1.slots.len() + (k - 1) + 1 == lold + k + 1);
                }
            }
            assert forall|i: int| bound <= i < p.slots.len() implies done.slots[i] == p.slots[i] by {
                assert(done.slots[i] == p1.slots[i]);
                assert(p1.slots[i] == received.slots[i]);
                assert(addr - 1 < i);
                assert(received.slots[i] == p.slots[i]);
            }
        },
        Err(_) => {
            assert(trace =~= Seq::<PipeValue>::empty());
            if p.req_pending.len() >= 8 {
                assert(p.req_pending.subrange(8int * 0, 8int * 0 + 8) =~= p.req_pending.subrange(0, 8));
            }
        },
    }
}

/// Strict ordering over a whole run: the worker loses, reorders and
/// invents nothing.  On a request stream that speaks only of payloads
/// boxed before the run — as every stream written by the dispatcher is —
/// the run appends exactly one response per request served, after the
/// notifications already pending and in the order the requests were
/// received; and when the run ends, each response notification names the
/// slot that still holds that request's payload, ready for delivery.
pub proof fn lemma_run_strict_ordering(p: PipeView)
    requires
        frames_bounded(p.req_pending, p.alloc_count()),
        p.alloc_count() + p.req_pending.len() < u64::MAX,
    ensures
        ({
            let (done, _) = spec_run_worker(p);
            let trace = spec_request_trace(p);
            &&& done.notes_pending.len() == p.notes_pending.len() + trace.len()
            &&& (forall|k: int|
                0 <= k < p.notes_pending.len() ==> done.notes_pending[k] == p.notes_pending[k])
            &&& (forall|k: int|
                0 <= k < trace.len() ==> #[trigger] done.notes_pending[p.notes_pending.len() + k]
                    == crate::wire::spec_decimal_digits((p.slots.len() + k + 1) as u64))
            &&& (forall|k: int|
                0 <= k < trace.len() ==> #[trigger] done.slots[p.slots.len() + k] == Some(trace[k]))
        }),
{
    lemma_run_trace(p, p.alloc_count());
}

} // verus!
