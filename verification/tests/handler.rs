use nioruntime_evh::config::EventHandlerConfig;
use nioruntime_evh::connection::TlsKind;
use nioruntime_evh::errors::Error;
use nioruntime_evh::evh::GuardedData;
use nioruntime_evh::evh::add_handle_admit;
use nioruntime_evh::evh::check_callbacks;
use nioruntime_evh::evh::make_client_record;
use nioruntime_evh::evh::pick_tid;
use nioruntime_evh::evh::validate_listener_handles;
use nioruntime_evh::worker::AcceptDecision;
use nioruntime_evh::worker::read_close_decision;
use nioruntime_evh::worker::CloseOutcome;
use nioruntime_evh::worker::Context;
use nioruntime_evh::worker::InterestKind;
use nioruntime_evh::worker::NwriteOutcome;
use nioruntime_evh::worker::RegOp;
use nioruntime_evh::connection::EventConnectionInfo;
use nioruntime_evh::evh::make_listener_record;
use nioruntime_evh::write_status::WriteStatus;

fn small_config() -> EventHandlerConfig {
    EventHandlerConfig {
        threads: 1,
        read_buffer_size: 64,
        max_rwhandles: 2,
        max_handle_numeric_value: 100,
        housekeeper_frequency: 1000,
    }
}

#[test]
fn worker_registers_and_closes_a_connection() {
    let config = small_config();
    let mut ctx = Context::new(0, config, 3);
    let rec = make_client_record(7, TlsKind::Plain);
    let id = rec.get_connection_id();
    let mut cur: usize = 1;

    let (stop, rejected) = ctx.process_new(vec![rec], vec![], false);
    assert!(!stop);
    assert_eq!(rejected.len(), 0);

    // One entry in each of the three maps.
    assert_eq!(ctx.handle_of_id(id), Some(7));
    assert!(ctx.lookup_record(7).is_some());

    let mut status = WriteStatus::new();
    match ctx.close_connection(id, &mut status, &mut cur, true) {
        CloseOutcome::Closed { handle, close_handle, connection_data, context } => {
            assert_eq!(handle, 7);
            assert!(close_handle);
            assert_eq!(connection_data.get_connection_id(), id);
            assert!(context.is_some());
        },
        _ => panic!("expected a close"),
    }
    // The decrement matches the close one to one.
    assert_eq!(cur, 0);
    assert!(status.closed_now());

    // Zero entries in all maps afterwards; a second close finds nothing.
    assert_eq!(ctx.handle_of_id(id), None);
    assert!(ctx.lookup_record(7).is_none());
    let mut cur2: usize = 5;
    let mut status2 = WriteStatus::new();
    assert!(matches!(
        ctx.close_connection(id, &mut status2, &mut cur2, true),
        CloseOutcome::NotFound
    ));
    assert_eq!(cur2, 5);
}

#[test]
fn worker_rejects_duplicate_and_out_of_range_records() {
    let config = small_config();
    let mut ctx = Context::new(0, config, 3);
    let first = make_client_record(7, TlsKind::Plain);
    let (_, rejected) = ctx.process_new(vec![first], vec![], false);
    assert_eq!(rejected.len(), 0);

    // Same handle again: the record cannot enter.
    let dup = make_client_record(7, TlsKind::Plain);
    let (_, rejected) = ctx.process_new(vec![dup], vec![], false);
    assert_eq!(rejected.len(), 1);

    // A handle at the numeric bound cannot enter either.
    let too_big = make_client_record(100, TlsKind::Plain);
    let (_, rejected) = ctx.process_new(vec![too_big], vec![], false);
    assert_eq!(rejected.len(), 1);
}

#[test]
fn worker_stop_order_passes_through() {
    let config = small_config();
    let mut ctx = Context::new(0, config, 3);
    let (stop, _) = ctx.process_new(vec![], vec![], true);
    assert!(stop);
}

#[test]
fn interest_ops_add_then_modify() {
    let config = small_config();
    let mut ctx = Context::new(0, config, 3);
    // The wakeup pipe's read end is armed from the start.
    let changes = ctx.apply_input_events().unwrap();
    assert_eq!(changes.len(), 1);
    assert_eq!(changes[0].handle, 3);
    assert_eq!(changes[0].kind, InterestKind::ReadInterest);
    assert_eq!(changes[0].op, RegOp::Add);
    ctx.clear_input_events();

    // Re-arming the same handle afterwards is a modify: the filter bit
    // remembers the registration.
    ctx.rearm_read(3);
    let changes = ctx.apply_input_events().unwrap();
    assert_eq!(changes.len(), 1);
    assert_eq!(changes[0].op, RegOp::Mod);
    ctx.clear_input_events();
}

#[test]
fn close_clears_filter_bit() {
    let config = small_config();
    let mut ctx = Context::new(0, config, 3);
    let rec = make_client_record(7, TlsKind::Plain);
    let id = rec.get_connection_id();
    let (_, _) = ctx.process_new(vec![rec], vec![], false);
    let changes = ctx.apply_input_events().unwrap();
    assert_eq!(changes.len(), 2);
    assert_eq!(changes[1].handle, 7);
    assert_eq!(changes[1].op, RegOp::Add);
    ctx.clear_input_events();

    let mut cur: usize = 1;
    let mut status = WriteStatus::new();
    ctx.close_connection(id, &mut status, &mut cur, true);

    // After the close the bit is clear: arming the handle again is an add.
    ctx.rearm_read(7);
    let changes = ctx.apply_input_events().unwrap();
    assert_eq!(changes.len(), 1);
    assert_eq!(changes[0].handle, 7);
    assert_eq!(changes[0].op, RegOp::Add);
}

#[test]
fn accept_admission_decisions() {
    let config = small_config();
    let mut ctx = Context::new(0, config, 3);
    assert_eq!(ctx.accept_decision(0, 7), AcceptDecision::Admit);
    assert_eq!(ctx.accept_decision(2, 7), AcceptDecision::RejectCap);
    assert_eq!(ctx.accept_decision(0, 100), AcceptDecision::RejectHandle);

    let mut cur: usize = 0;
    let (rec, cctx, cd) = ctx.make_accepted(5, 7, TlsKind::Plain);
    assert_eq!(cd.get_handle(), 7);
    assert_eq!(cd.get_accept_handle(), Some(5));
    assert_eq!(cd.tid(), 0);
    assert_eq!(cd.get_connection_id(), rec.get_connection_id());
    let id = rec.get_connection_id();
    ctx.enqueue_accepted(rec, cctx, &mut cur);
    assert_eq!(cur, 1);

    // The next round registers it.
    let (_, rejected) = ctx.process_new(vec![], vec![], false);
    assert_eq!(rejected.len(), 0);
    assert_eq!(ctx.handle_of_id(id), Some(7));
}

#[test]
fn nwrite_step_delivers_async_completion_once() {
    let config = small_config();
    let mut ctx = Context::new(0, config, 3);
    let rec = make_client_record(7, TlsKind::Plain);
    let id = rec.get_connection_id();
    ctx.process_new(vec![rec], vec![], false);

    let mut status = WriteStatus::new();
    status.request_async_complete().unwrap();
    match ctx.nwrite_step(id, &mut status) {
        NwriteOutcome::AsyncRead { handle, connection_data } => {
            assert_eq!(handle, 7);
            assert_eq!(connection_data.get_connection_id(), id);
        },
        _ => panic!("expected an async read"),
    }
    // The flag is consumed: a second pass only re-arms.
    assert!(matches!(
        ctx.nwrite_step(id, &mut status),
        NwriteOutcome::Rearm { handle: 7 }
    ));
    // An unknown identifier is gone.
    assert!(matches!(
        ctx.nwrite_step(id ^ 1, &mut status),
        NwriteOutcome::Gone
    ));
}

#[test]
fn wait_timeout_rules() {
    let config = small_config();
    let mut ctx = Context::new(0, config, 3);
    assert_eq!(ctx.wait_timeout(false), 1000);
    assert_eq!(ctx.wait_timeout(true), 0);
    ctx.note_read_saturating(7);
    assert_eq!(ctx.wait_timeout(false), 0);
    assert_eq!(ctx.saturating_handles(), vec![7]);
    ctx.note_read_drained(7);
    assert_eq!(ctx.wait_timeout(false), 1000);
    assert_eq!(ctx.saturating_handles(), Vec::<i32>::new());
}

#[test]
fn housekeeper_fires_on_interval() {
    let config = small_config();
    let mut ctx = Context::new(0, config, 3);
    assert!(!ctx.check_housekeeper(0));
    assert!(!ctx.check_housekeeper(1000));
    assert!(ctx.check_housekeeper(1001));
    // The timestamp moved: the next due time is past 2001.
    assert!(!ctx.check_housekeeper(1500));
    assert!(ctx.check_housekeeper(2002));
}

#[test]
fn panic_resume_skips_only_the_panicked_event() {
    let config = small_config();
    let mut ctx = Context::new(0, config, 3);
    let batch = vec![10, 20, 30];
    let mut processed = Vec::new();

    // First run: the dispatch of the second event panics.
    ctx.set_counter(0);
    while ctx.counter() < batch.len() {
        let i = ctx.counter();
        if i == 1 {
            break; // the panic pre-empts this event
        }
        processed.push(batch[i]);
        ctx.advance_counter();
    }
    // The supervisor respawns the worker past the panicked event.
    let resume = ctx.resume_start();
    assert_eq!(resume, 1 + 1);
    ctx.set_counter(resume);
    while ctx.counter() < batch.len() {
        processed.push(batch[ctx.counter()]);
        ctx.advance_counter();
    }
    assert_eq!(processed, vec![10, 30]);
}

#[test]
fn callback_checks() {
    assert!(check_callbacks(true, true, true, true, true).is_ok());
    assert_eq!(
        check_callbacks(false, true, true, true, true),
        Err(Error::EventHandlerConfigurationError)
    );
    assert_eq!(
        check_callbacks(true, true, true, false, true),
        Err(Error::EventHandlerConfigurationError)
    );
    assert_eq!(
        check_callbacks(true, true, true, true, false),
        Err(Error::EventHandlerConfigurationError)
    );
}

#[test]
fn listener_validation() {
    let config = small_config();
    assert!(validate_listener_handles(&vec![7], &config).is_ok());
    assert_eq!(
        validate_listener_handles(&vec![100], &config),
        Err(Error::MaxHandlesExceeded)
    );
    assert_eq!(
        validate_listener_handles(&vec![7, 8], &config),
        Err(Error::EventHandlerConfigurationError)
    );
}

#[test]
fn client_admission_counts() {
    let config = small_config();
    let mut cur: usize = 0;
    assert!(add_handle_admit(7, &mut cur, &config).is_ok());
    assert_eq!(cur, 1);
    assert!(add_handle_admit(8, &mut cur, &config).is_ok());
    assert_eq!(cur, 2);
    // The cap of two is reached.
    assert_eq!(
        add_handle_admit(9, &mut cur, &config),
        Err(Error::MaxHandlesExceeded)
    );
    assert_eq!(cur, 2);
    // The numeric bound is checked first and does not consume a slot.
    cur = 0;
    assert_eq!(
        add_handle_admit(100, &mut cur, &config),
        Err(Error::MaxHandlesExceeded)
    );
    assert_eq!(cur, 0);
}

#[test]
fn tid_choice() {
    assert_eq!(pick_tid(Some(4), 99, 6), 4);
    assert_eq!(pick_tid(None, 99, 6), 99 % 6);
}

#[test]
fn guarded_data_inbox() {
    let mut gd = GuardedData::new();
    gd.push_write(42);
    gd.push_record(make_client_record(7, TlsKind::Plain));
    let (recs, writes, stop) = gd.take();
    assert_eq!(writes, vec![42]);
    assert_eq!(recs.len(), 1);
    assert!(!stop);
    let (recs, writes, stop) = gd.take();
    assert_eq!(recs.len(), 0);
    assert_eq!(writes.len(), 0);
    assert!(!stop);
    gd.set_stop();
    let (_, _, stop) = gd.take();
    assert!(stop);
}

#[test]
fn random_connection_ids_differ() {
    let a = make_client_record(1, TlsKind::Plain).get_connection_id();
    let b = make_client_record(2, TlsKind::Plain).get_connection_id();
    assert_ne!(a, b);
}

#[test]
fn record_variant_errors() {
    let listener = make_listener_record(vec![5], None);
    assert_eq!(
        listener.get_read_write_connection_info().err(),
        Some(Error::WrongConnectionType)
    );
    assert_eq!(
        listener.as_read_write_connection().err(),
        Some(Error::InvalidType)
    );
    let rw = make_client_record(7, TlsKind::Plain);
    assert!(rw.get_read_write_connection_info().is_ok());
    match &rw {
        EventConnectionInfo::ReadWriteConnection(c) => {
            assert_eq!(c.get_handle(), 7);
            assert_eq!(c.get_accept_handle(), None);
            assert_eq!(c.get_kind(), TlsKind::Plain);
        },
        _ => panic!("expected a read-write record"),
    }
}

#[test]
fn listener_registration_uses_this_workers_handle() {
    let config = small_config();
    let mut ctx = Context::new(0, config, 3);
    let listener = make_listener_record(vec![9], None);
    let id = listener.get_connection_id();
    let (_, rejected) = ctx.process_new(vec![listener], vec![], false);
    assert_eq!(rejected.len(), 0);
    assert_eq!(ctx.handle_of_id(id), Some(9));
    // A listener short of this worker's index cannot enter.
    let mut ctx2 = Context::new(1, config, 3);
    let short = make_listener_record(vec![9], None);
    let (_, rejected) = ctx2.process_new(vec![short], vec![], false);
    assert_eq!(rejected.len(), 1);
}

#[test]
fn duplicate_registration_in_one_batch_is_modify() {
    let config = small_config();
    let mut ctx = Context::new(0, config, 3);
    let rec = make_client_record(7, TlsKind::Plain);
    let id = rec.get_connection_id();
    ctx.process_new(vec![rec], vec![], false);
    // The write pass asks for write interest on the same handle whose read
    // interest is already pending: the second registration must be a
    // modify, not an add.
    let mut status = WriteStatus::new();
    ctx.nwrite_step(id, &mut status);
    let changes = ctx.apply_input_events().unwrap();
    assert_eq!(changes.len(), 3);
    assert_eq!(changes[1].handle, 7);
    assert_eq!(changes[1].kind, InterestKind::ReadInterest);
    assert_eq!(changes[1].op, RegOp::Add);
    assert_eq!(changes[2].handle, 7);
    assert_eq!(changes[2].kind, InterestKind::WriteInterest);
    assert_eq!(changes[2].op, RegOp::Mod);
}

#[test]
fn read_close_rule() {
    // A would-block return is not an error and keeps the connection.
    assert!(!read_close_decision(-1, true));
    // A plain end-of-stream or failure closes it.
    assert!(read_close_decision(0, false));
    assert!(read_close_decision(-1, false));
    // A successful read never closes.
    assert!(!read_close_decision(10, false));
}
