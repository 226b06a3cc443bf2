use nioruntime_evh::config::EventHandlerConfig;
use nioruntime_evh::connection::ConnectionContext;
use nioruntime_evh::connection::HandleInfo;
use nioruntime_evh::errors::Error;
use nioruntime_evh::wakeup::Wakeup;
use nioruntime_evh::write_status::DrainDone;
use nioruntime_evh::write_status::OsWriteResult;
use nioruntime_evh::write_status::WriteDecision;
use nioruntime_evh::write_status::WriteOutcome;
use nioruntime_evh::write_status::WriteResult;
use nioruntime_evh::write_status::WriteStatus;

#[test]
fn default_config_values() {
    let c = EventHandlerConfig::default();
    assert_eq!(c.threads, 6);
    assert_eq!(c.read_buffer_size, 10240);
    assert_eq!(c.max_rwhandles, 16000);
    assert_eq!(c.max_handle_numeric_value, 16100);
    assert_eq!(c.housekeeper_frequency, 1000);
}

#[test]
fn handle_info_round_trip_bytes() {
    let info = HandleInfo::new(0x0102030405060708090a0b0c0d0e0f10u128, 7);
    let bytes = info.to_bytes();
    assert_eq!(bytes.len(), 17);
    assert_eq!(
        bytes,
        vec![1, 2, 3, 4, 5, 6, 7, 8, 9, 10, 11, 12, 13, 14, 15, 16, 7]
    );
    let back = HandleInfo::from_bytes(&bytes).unwrap();
    assert_eq!(back.connection_id, 0x0102030405060708090a0b0c0d0e0f10u128);
    assert_eq!(back.flags, 7);
}

#[test]
fn handle_info_wrong_length_rejected() {
    assert_eq!(
        HandleInfo::from_bytes(&[0u8; 16]),
        Err(Error::InternalError)
    );
    assert_eq!(
        HandleInfo::from_bytes(&[0u8; 18]),
        Err(Error::InternalError)
    );
}

#[test]
fn write_status_direct_complete() {
    let mut st = WriteStatus::new();
    let data = [1u8, 2, 3, 4];
    assert_eq!(st.begin_write(&data), WriteDecision::WriteNow);
    assert_eq!(
        st.finish_write(&data, OsWriteResult::Written(4)),
        WriteOutcome::Complete
    );
    assert!(!st.pending_now());
    assert_eq!(st.pending_data().len(), 0);
}

#[test]
fn write_status_partial_then_drain_in_order() {
    let mut st = WriteStatus::new();
    let data = [1u8, 2, 3, 4];
    assert_eq!(st.begin_write(&data), WriteDecision::WriteNow);
    assert_eq!(
        st.finish_write(&data, OsWriteResult::Written(2)),
        WriteOutcome::Notify
    );
    assert!(st.pending_now());
    assert_eq!(st.pending_data().as_slice(), &[3, 4]);

    // A second write queues behind the remainder, preserving order.
    let more = [5u8, 6];
    assert_eq!(st.begin_write(&more), WriteDecision::Buffered);
    assert_eq!(st.pending_data().as_slice(), &[3, 4, 5, 6]);

    // The worker drains: one byte, then the rest.
    assert_eq!(st.apply_os_write(OsWriteResult::Written(1)), WriteResult::Wrote);
    assert_eq!(st.pending_data().as_slice(), &[4, 5, 6]);
    assert_eq!(
        st.apply_os_write(OsWriteResult::WouldBlock),
        WriteResult::Blocked
    );
    assert_eq!(st.pending_data().as_slice(), &[4, 5, 6]);
    assert_eq!(st.apply_os_write(OsWriteResult::Written(3)), WriteResult::Wrote);
    assert_eq!(st.pending_data().len(), 0);
    assert_eq!(st.drain_complete_action(), DrainDone::RearmRead);
    assert!(!st.pending_now());
}

#[test]
fn write_status_would_block_buffers_everything() {
    let mut st = WriteStatus::new();
    let data = [9u8, 8, 7];
    assert_eq!(st.begin_write(&data), WriteDecision::WriteNow);
    assert_eq!(
        st.finish_write(&data, OsWriteResult::WouldBlock),
        WriteOutcome::Notify
    );
    assert!(st.pending_now());
    assert_eq!(st.pending_data().as_slice(), &[9, 8, 7]);
}

#[test]
fn write_status_error_keeps_state() {
    let mut st = WriteStatus::new();
    let data = [1u8];
    assert_eq!(st.begin_write(&data), WriteDecision::WriteNow);
    assert_eq!(
        st.finish_write(&data, OsWriteResult::Failed),
        WriteOutcome::Error
    );
    assert!(!st.pending_now());
    assert_eq!(st.pending_data().len(), 0);
}

#[test]
fn write_status_close_on_complete() {
    let mut st = WriteStatus::new();
    assert!(st.request_close().is_ok());
    let data = [1u8, 2];
    assert_eq!(st.begin_write(&data), WriteDecision::WriteNow);
    assert_eq!(
        st.finish_write(&data, OsWriteResult::WouldBlock),
        WriteOutcome::Notify
    );
    assert_eq!(st.apply_os_write(OsWriteResult::Written(2)), WriteResult::Wrote);
    assert_eq!(st.pending_data().len(), 0);
    assert_eq!(st.drain_complete_action(), DrainDone::Close);
}

#[test]
fn write_status_closed_refuses_everything() {
    let mut st = WriteStatus::new();
    st.mark_closed();
    assert!(st.closed_now());
    assert_eq!(st.pending_data().len(), 0);
    let data = [1u8];
    assert_eq!(st.begin_write(&data), WriteDecision::Closed);
    assert_eq!(st.request_close(), Err(Error::ConnectionClosedError));
    assert_eq!(
        st.request_async_complete(),
        Err(Error::ConnectionClosedError)
    );
}

#[test]
fn write_status_async_complete_flag_consumed() {
    let mut st = WriteStatus::new();
    assert!(st.request_async_complete().is_ok());
    assert!(st.take_async_complete());
    assert!(!st.take_async_complete());
}

#[test]
fn wakeup_debounces_to_one_byte() {
    let mut w = Wakeup::new();
    // No wait in progress: a wakeup sets the flag but writes nothing.
    assert!(!w.wakeup());
    // The worker reads the pending request as it enters the wait; that
    // request already keeps this wait from sleeping, so no byte is due.
    assert!(w.pre_block());
    assert!(!w.wakeup());
    w.post_block();
    // A fresh wait with no pending request: the first wakeup writes one
    // byte, any number of further wakeups write nothing more.
    assert!(!w.pre_block());
    assert!(w.wakeup());
    assert!(!w.wakeup());
    assert!(!w.wakeup());
    w.post_block();
    // Flags are clear again: the next wakeup outside a wait writes nothing.
    assert!(!w.wakeup());
}

#[test]
fn wakeup_pre_block_reports_requests() {
    let mut w = Wakeup::new();
    assert!(!w.pre_block());
    w.post_block();
    assert!(!w.wakeup());
    assert!(w.pre_block());
    w.post_block();
    assert!(!w.pre_block());
    w.post_block();
}

#[test]
fn connection_context_starts_empty() {
    let mut ctx = ConnectionContext::new();
    assert!(!ctx.is_async_complete);
    assert_eq!(ctx.get_buffer().len(), 0);
    ctx.get_buffer().push(1);
    assert_eq!(ctx.buffer, vec![1]);
}

#[test]
fn error_descriptions_are_distinct() {
    assert_eq!(Error::MaxHandlesExceeded.as_str(), "maximum number of handles exceeded");
    assert_ne!(Error::IOError.as_str(), Error::TLSError.as_str());
    assert_eq!(Error::ConnectionClosedError.as_str(), "connection closed");
}

#[test]
fn close_request_is_sticky_until_closed() {
    // Two close requests in a row both succeed while the connection is
    // still open; the actual close happens once, when the queue drains.
    let mut st = WriteStatus::new();
    assert!(st.request_close().is_ok());
    assert!(st.request_close().is_ok());
    assert_eq!(st.drain_complete_action(), DrainDone::Close);
}

#[test]
fn write_status_zero_byte_write_buffers_remainder() {
    // A write the socket took none of is a partial write: everything is
    // buffered, nothing is lost.
    let mut st = WriteStatus::new();
    let data = [1u8, 2, 3];
    assert_eq!(st.begin_write(&data), WriteDecision::WriteNow);
    assert_eq!(
        st.finish_write(&data, OsWriteResult::Written(0)),
        WriteOutcome::Notify
    );
    assert!(st.pending_now());
    assert_eq!(st.pending_data().as_slice(), &[1, 2, 3]);
}
