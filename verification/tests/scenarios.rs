use ng_async::dispatch::async_close_stream;
use ng_async::dispatch::async_handler;
use ng_async::dispatch::async_send_message;
use ng_async::errors::PipeError;
use ng_async::handle::UserData;
use ng_async::handle::rust_finalize;
use ng_async::host::HostObject;
use ng_async::kind::PipeDataOption;
use ng_async::pipe::EmacsPipe;
use ng_async::worker::WorkerOutcome;
use ng_async::worker::rust_worker;
use ng_async::worker::rust_worker_step;

#[test]
fn hello_echo_delivers_the_completion_exactly_once() {
    let mut pipe = EmacsPipe::with_handler(7, PipeDataOption::STRING, PipeDataOption::STRING);

    // The host sends "hello" on the blob-configured direction.
    let mut request = HostObject::Str("hello".to_owned());
    async_send_message(&mut pipe, &mut request).unwrap();
    assert_eq!(request, HostObject::Str("hello".to_owned()));

    // The worker serves it with the identity handler.
    assert_eq!(rust_worker_step(&mut pipe), WorkerOutcome::Continue);

    // The host's byte-arrival notification delivers the result to the
    // registered handler, exactly once.
    let chunk = pipe.next_notification().unwrap();
    let (handler, value) = async_handler(&mut pipe, &chunk).unwrap();
    assert_eq!(handler, 7);
    assert_eq!(value, HostObject::Str("hello".to_owned()));
    assert!(pipe.next_notification().is_none());
    assert_eq!(pipe.live_allocations(), 0);

    // Closing ends the worker loop quietly.
    assert!(async_close_stream(&mut pipe));
    assert_eq!(
        rust_worker_step(&mut pipe),
        WorkerOutcome::Exit { report: false }
    );
}

#[test]
fn ownership_transfers_and_the_destructor_fires_once() {
    let mut pipe = EmacsPipe::with_handler(3, PipeDataOption::USER_DATA, PipeDataOption::USER_DATA);

    // A resource handle whose destructor is the callback identified by 99.
    let handle = UserData::with_data_and_finalizer(4096, Some(99));
    let mut request = HostObject::UserPtr(handle);
    async_send_message(&mut pipe, &mut request).unwrap();

    // The sender's copy was nulled the moment the descriptor moved.
    assert_eq!(request, HostObject::UserPtr(UserData::default()));

    // Dropping the original, now-null reference fires nothing.
    let mut fired: Vec<usize> = Vec::new();
    match request {
        HostObject::UserPtr(stripped) => rust_finalize(stripped, &mut fired),
        _ => unreachable!(),
    }
    assert!(fired.is_empty());

    // The worker echoes the descriptor back; the host receives it whole.
    assert_eq!(rust_worker_step(&mut pipe), WorkerOutcome::Continue);
    let chunk = pipe.next_notification().unwrap();
    let (_, value) = async_handler(&mut pipe, &chunk).unwrap();
    assert_eq!(value, HostObject::UserPtr(handle));

    // Only when the receiver finishes with it does the destructor run,
    // exactly once.
    match value {
        HostObject::UserPtr(received) => rust_finalize(received, &mut fired),
        _ => unreachable!(),
    }
    assert_eq!(fired, vec![99]);
    assert_eq!(pipe.live_allocations(), 0);
}

#[test]
fn wrong_kind_is_rejected_before_any_io() {
    let mut pipe = EmacsPipe::with_handler(1, PipeDataOption::STRING, PipeDataOption::STRING);
    let mut request = HostObject::UserPtr(UserData::with_data_and_finalizer(5, Some(1)));
    assert_eq!(
        async_send_message(&mut pipe, &mut request),
        Err(PipeError::TypeMismatch)
    );
    // No bytes were written, nothing was boxed, the handle is untouched.
    assert_eq!(pipe.pending_request_bytes(), 0);
    assert_eq!(pipe.total_allocations(), 0);
    assert_eq!(
        request,
        HostObject::UserPtr(UserData::with_data_and_finalizer(5, Some(1)))
    );

    let mut other = EmacsPipe::with_handler(1, PipeDataOption::USER_DATA, PipeDataOption::USER_DATA);
    let mut text = HostObject::Str("hi".to_owned());
    assert_eq!(
        async_send_message(&mut other, &mut text),
        Err(PipeError::TypeMismatch)
    );
    assert_eq!(other.pending_request_bytes(), 0);
}

#[test]
fn responses_come_back_in_request_order() {
    let mut pipe = EmacsPipe::with_handler(2, PipeDataOption::STRING, PipeDataOption::STRING);
    for word in ["first", "second", "third"] {
        let mut request = HostObject::Str(word.to_owned());
        async_send_message(&mut pipe, &mut request).unwrap();
    }

    // The worker drains all three requests, then sees end of input.
    assert!(!rust_worker(&mut pipe));

    for word in ["first", "second", "third"] {
        let chunk = pipe.next_notification().unwrap();
        let (_, value) = async_handler(&mut pipe, &chunk).unwrap();
        assert_eq!(value, HostObject::Str(word.to_owned()));
    }
    assert!(pipe.next_notification().is_none());
}

#[test]
fn worker_loop_exits_quietly_on_close() {
    let mut pipe = EmacsPipe::with_handler(2, PipeDataOption::STRING, PipeDataOption::STRING);
    let mut request = HostObject::Str("work".to_owned());
    async_send_message(&mut pipe, &mut request).unwrap();
    pipe.close_stream().unwrap();

    // The pending request is served, then the sentinel ends the loop with
    // nothing to report.
    assert!(!rust_worker(&mut pipe));
    assert_eq!(pipe.pending_notifications(), 1);
    assert_eq!(pipe.pending_request_bytes(), 0);
}

#[test]
fn malformed_notification_is_a_protocol_violation() {
    let mut pipe = EmacsPipe::with_handler(1, PipeDataOption::STRING, PipeDataOption::STRING);
    assert_eq!(
        async_handler(&mut pipe, &b"xyz".to_vec()),
        Err(PipeError::ProtocolViolation)
    );
    assert_eq!(
        async_handler(&mut pipe, &Vec::new()),
        Err(PipeError::ProtocolViolation)
    );
    // A well-formed address that names no live payload is just as fatal.
    assert_eq!(
        async_handler(&mut pipe, &b"5".to_vec()),
        Err(PipeError::ProtocolViolation)
    );
}

#[test]
fn kind_disagreement_on_the_return_path_is_fatal() {
    // The ends agreed on blob out, but the worker sent a resource.
    let mut pipe = EmacsPipe::with_handler(1, PipeDataOption::USER_DATA, PipeDataOption::STRING);
    let mut request = HostObject::UserPtr(UserData::with_data_and_finalizer(9, None));
    async_send_message(&mut pipe, &mut request).unwrap();
    assert_eq!(rust_worker_step(&mut pipe), WorkerOutcome::Continue);
    let chunk = pipe.next_notification().unwrap();
    assert_eq!(
        async_handler(&mut pipe, &chunk),
        Err(PipeError::ProtocolViolation)
    );
}

#[test]
fn worker_reports_a_garbled_request_stream() {
    let mut pipe = EmacsPipe::with_handler(1, PipeDataOption::STRING, PipeDataOption::STRING);
    pipe.write_ptr(1234).unwrap();
    assert_eq!(
        rust_worker_step(&mut pipe),
        WorkerOutcome::Exit { report: true }
    );
}
