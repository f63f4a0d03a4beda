use ng_async::errors::PipeError;
use ng_async::handle::UserData;
use ng_async::handle::rust_finalize;
use ng_async::host::HostObject;
use ng_async::host::is_user_ptr;
use ng_async::host::user_data_from_host;
use ng_async::kind::PipeData;
use ng_async::kind::PipeDataOption;
use ng_async::kind::PipeValue;
use ng_async::pipe::EmacsPipe;

fn blob_pipe() -> EmacsPipe {
    EmacsPipe::with_handler(1, PipeDataOption::STRING, PipeDataOption::STRING)
}

#[test]
fn markers_declare_the_two_kinds() {
    assert_eq!(String::marker(), PipeDataOption::STRING);
    assert_eq!(UserData::marker(), PipeDataOption::USER_DATA);
    assert_eq!(PipeValue::Text("x".to_owned()).kind(), PipeDataOption::STRING);
    assert_eq!(
        PipeValue::Data(UserData::with_data_and_finalizer(1, None)).kind(),
        PipeDataOption::USER_DATA
    );
}

#[test]
fn handle_wraps_and_unpacks() {
    let ud = UserData::with_data_and_finalizer(42, Some(7));
    assert_eq!(ud.data, 42);
    assert_eq!(ud.finalizer, Some(7));
    assert!(!ud.is_null());
    assert_eq!(ud.unpack(), 42);
}

#[test]
fn default_handle_is_null() {
    let ud = UserData::default();
    assert!(ud.is_null());
    let mut fired: Vec<usize> = Vec::new();
    rust_finalize(ud, &mut fired);
    assert!(fired.is_empty());
}

#[test]
fn finalize_fires_the_destructor_once() {
    let ud = UserData::with_data_and_finalizer(3, Some(99));
    let mut fired: Vec<usize> = Vec::new();
    rust_finalize(ud, &mut fired);
    assert_eq!(fired, vec![99]);
}

#[test]
fn host_tags_name_the_kinds() {
    assert_eq!(
        HostObject::TagString.to_data_option(),
        Some(PipeDataOption::STRING)
    );
    assert_eq!(
        HostObject::TagUserPtr.to_data_option(),
        Some(PipeDataOption::USER_DATA)
    );
    assert_eq!(HostObject::Nil.to_data_option(), None);
    assert_eq!(
        HostObject::Str("x".to_owned()).to_data_option(),
        None
    );
    assert_eq!(
        HostObject::from_data_option(PipeDataOption::STRING),
        HostObject::TagString
    );
    assert_eq!(
        HostObject::from_data_option(PipeDataOption::USER_DATA),
        HostObject::TagUserPtr
    );
}

#[test]
fn host_resource_handles_are_recognised() {
    let ud = UserData::with_data_and_finalizer(8, Some(2));
    let obj = HostObject::from(ud);
    assert!(is_user_ptr(&obj));
    assert!(obj.is_user_ptr());
    assert_eq!(obj.as_user_ptr(), Some(ud));
    assert_eq!(obj.to_user_ptr_unchecked(), ud);
    assert_eq!(user_data_from_host(&obj), Ok(ud));
    assert!(!HostObject::Nil.is_user_ptr());
    assert_eq!(HostObject::Nil.as_user_ptr(), None);
    assert_eq!(
        user_data_from_host(&HostObject::Nil),
        Err(PipeError::TypeMismatch)
    );
}

#[test]
fn blob_round_trip_allocates_and_frees_exactly_once() {
    let mut pipe = blob_pipe();
    assert_eq!(pipe.total_allocations(), 0);
    pipe.message_rust_worker(PipeValue::Text("hello".to_owned()))
        .unwrap();
    assert_eq!(pipe.total_allocations(), 1);
    assert_eq!(pipe.live_allocations(), 1);
    assert_eq!(pipe.pending_request_bytes(), 8);
    let got = pipe.read_pend_message().unwrap();
    assert_eq!(got, PipeValue::Text("hello".to_owned()));
    assert_eq!(pipe.total_allocations(), 1);
    assert_eq!(pipe.live_allocations(), 0);
    assert_eq!(pipe.pending_request_bytes(), 0);
}

#[test]
fn resource_round_trip_moves_the_descriptor() {
    let mut pipe = EmacsPipe::with_handler(1, PipeDataOption::USER_DATA, PipeDataOption::USER_DATA);
    let ud = UserData::with_data_and_finalizer(4096, Some(5));
    pipe.message_rust_worker(PipeValue::Data(ud)).unwrap();
    let got = pipe.read_pend_message().unwrap();
    assert_eq!(got, PipeValue::Data(ud));
    assert_eq!(pipe.live_allocations(), 0);
}

#[test]
fn receive_on_an_empty_stream_reads_as_closed() {
    let mut pipe = blob_pipe();
    assert_eq!(pipe.read_pend_message(), Err(PipeError::Closed));
}

#[test]
fn dangling_address_is_a_protocol_violation() {
    let mut pipe = blob_pipe();
    pipe.write_ptr(42).unwrap();
    assert_eq!(pipe.read_pend_message(), Err(PipeError::ProtocolViolation));
}

#[test]
fn close_writes_the_sentinel_and_the_receiver_sees_closed() {
    let mut pipe = blob_pipe();
    pipe.close_stream().unwrap();
    assert!(pipe.is_closed());
    assert_eq!(pipe.pending_request_bytes(), 8);
    assert_eq!(pipe.read_pend_message(), Err(PipeError::Closed));
    assert_eq!(pipe.pending_request_bytes(), 0);
}

#[test]
fn close_is_idempotent() {
    let mut pipe = blob_pipe();
    pipe.close_stream().unwrap();
    pipe.close_stream().unwrap();
    assert_eq!(pipe.pending_request_bytes(), 8);
}

#[test]
fn send_after_close_fails_fast_with_closed() {
    let mut pipe = blob_pipe();
    pipe.close_stream().unwrap();
    let before = pipe.pending_request_bytes();
    assert_eq!(
        pipe.message_rust_worker(PipeValue::Text("late".to_owned())),
        Err(PipeError::Closed)
    );
    assert_eq!(pipe.write_ptr(9), Err(PipeError::Closed));
    assert_eq!(pipe.pending_request_bytes(), before);
    assert_eq!(pipe.total_allocations(), 0);
}

#[test]
fn notifications_are_consumed_in_order_and_once() {
    let mut pipe = blob_pipe();
    pipe.message_lisp(PipeValue::Text("a".to_owned())).unwrap();
    pipe.message_lisp(PipeValue::Text("b".to_owned())).unwrap();
    assert_eq!(pipe.pending_notifications(), 2);
    let first = pipe.next_notification().unwrap();
    let second = pipe.next_notification().unwrap();
    assert_eq!(first, b"1".to_vec());
    assert_eq!(second, b"2".to_vec());
    assert!(pipe.next_notification().is_none());
}
