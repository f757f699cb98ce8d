use std::cell::Cell;
use std::rc::Rc;

use completeio::driver::iocp::{Completion, Driver as PortDriver, Overlapped};
use completeio::driver::iour::{Driver as RingDriver, ErrorCodes, Fd, SqEntry, SqOp};
use completeio::driver::attempts::Operated;
use completeio::driver::{iocp, kqueue, CompleteIo, Entry};
use completeio::error::{CallError, ErrorKind, IoError, IoResult};
use completeio::event::pipe::{set_nonblocking, Event, EventHandle, PipeFds, PipeSetup, PipeStep};
use completeio::key::Key;
use completeio::poll::Poll;
use completeio::signal::unix::Handlers;
use completeio::task::block_on;
use completeio::task::op::{Delivered, OpFuture, OpRuntime};
use completeio::task::runtime::{Polled, Runtime, Step};
use completeio::time::Duration;

fn ring(capacity: u32) -> RingDriver<'static, Fd> {
    let codes = ErrorCodes {
        etime: libc::ETIME,
        enoent: libc::ENOENT,
        ealready: libc::EALREADY,
        ebusy: libc::EBUSY,
        eagain: libc::EAGAIN,
    };
    RingDriver::with(capacity, 0, codes)
}

fn leaked(raw_fd: i32) -> &'static mut Fd {
    Box::leak(Box::new(Fd { raw_fd }))
}

type TestRuntime = Runtime<'static, Fd, RingDriver<'static, Fd>, &'static str>;

fn requests(runtime: &mut TestRuntime) -> Vec<SqEntry> {
    runtime.driver_mut().requests().iter().copied().collect()
}

const NOTHING: Delivered = Delivered { woken: None, dropped: None };

#[test]
fn block_on_runs_then_returns_or_polls() {
    let mut runtime: TestRuntime = Runtime::new(ring(4));
    runtime.schedule("first");
    runtime.schedule("second");
    assert!(matches!(block_on(&mut runtime, true), Step::Run("first")));
    assert!(matches!(block_on(&mut runtime, true), Step::Run("second")));
    assert!(matches!(block_on(&mut runtime, false), Step::Poll));
    assert!(matches!(block_on(&mut runtime, true), Step::Return));
}

#[test]
fn runtime_hands_out_a_result_once() {
    let mut runtime: TestRuntime = Runtime::new(ring(4));
    let mut ops = OpRuntime::new();
    let key: Key<Fd> = ops.insert(77);
    let user_data: usize = key.user_data();
    let mut future = OpFuture::new(key);
    assert!(future.cancels_on_drop());
    assert_eq!(future.poll(&mut ops, 5), Poll::Pending);
    assert_eq!(future.poll(&mut ops, 6), Poll::Pending);
    let delivered = ops.extend(&vec![Entry::new(user_data, Ok(3)), Entry::new(user_data + 1, Ok(4))]);
    assert_eq!(delivered, vec![Delivered { woken: Some(6), dropped: None }, NOTHING]);
    assert_eq!(future.poll(&mut ops, 6), Poll::Ready((Ok(3), 77)));
    assert!(!future.cancels_on_drop());
    assert_eq!(future.poll(&mut ops, 6), Poll::Pending);

    let future = runtime.submit(leaked(9), 78);
    assert_eq!(requests(&mut runtime).len(), 1);
    let key: Key<Fd> = Key::new(future.key().user_data());
    assert_eq!(runtime.poll_task(&key, 1), Poll::Pending);
    let entries = vec![Entry::new(key.user_data(), Err(IoError::Os(9)))];
    assert_eq!(runtime.complete(&entries), vec![Delivered { woken: Some(1), dropped: None }]);
    assert_eq!(runtime.poll_task(&key, 1), Poll::Ready((Err(IoError::Os(9)), 78)));
}

#[test]
fn cancelled_operation_is_dropped_when_it_completes() {
    let mut runtime: TestRuntime = Runtime::new(ring(4));
    let future = runtime.submit(leaked(9), 78);
    let key: Key<Fd> = Key::new(future.key().user_data());
    runtime.cancel_op(&key);
    let data: u64 = key.user_data() as u64;
    assert_eq!(
        requests(&mut runtime),
        vec![
            SqEntry { op: SqOp::Close { raw_fd: 9 }, user_data: data },
            SqEntry { op: SqOp::AsyncCancel { user_data: data }, user_data: data },
        ]
    );
    let entries = vec![Entry::new(key.user_data(), Ok(0)), Entry::new(key.user_data(), Ok(1))];
    assert_eq!(
        runtime.complete(&entries),
        vec![Delivered { woken: None, dropped: Some(78) }, NOTHING]
    );
}

#[test]
fn what_does_not_fit_waits_for_its_turn() {
    let mut runtime: TestRuntime = Runtime::new(ring(2));
    let a = runtime.submit(leaked(1), 0);
    let b = runtime.submit(leaked(2), 0);
    let c = runtime.submit(leaked(3), 0);
    let d = runtime.submit(leaked(4), 0);
    let e = runtime.submit(leaked(5), 0);
    let key: Key<Fd> = Key::new(a.key().user_data());
    runtime.cancel_op(&key);
    assert_eq!(requests(&mut runtime).len(), 2);
    // nothing fits yet
    assert_eq!(runtime.poll(None), Some(Duration::zero()));
    assert_eq!(requests(&mut runtime)[1].user_data, b.key().user_data() as u64);
    let _ = runtime.driver_mut().submit(None);
    runtime.driver_mut().requests_taken(0);
    // the cancellation comes first, then the operations in their order
    assert_eq!(runtime.poll(None), Some(Duration::zero()));
    let queued = requests(&mut runtime);
    assert_eq!(queued[0].op, SqOp::AsyncCancel { user_data: a.key().user_data() as u64 });
    assert_eq!(queued[1].user_data, c.key().user_data() as u64);
    runtime.driver_mut().requests_taken(0);
    let idle = Some(Duration::from_millis(30));
    assert_eq!(runtime.poll(idle), idle);
    let queued = requests(&mut runtime);
    assert_eq!(queued[0].user_data, d.key().user_data() as u64);
    assert_eq!(queued[1].user_data, e.key().user_data() as u64);
    assert_eq!(runtime.driver_mut().capacity_left(), 0);
}

#[test]
fn poll_outcomes() {
    assert_eq!(TestRuntime::poll_result(Ok(())), Polled::Done);
    let late = CallError { code: 110, kind: ErrorKind::TimedOut };
    assert_eq!(TestRuntime::poll_result(Err(late)), Polled::TimedOut);
    let broken = CallError { code: 22, kind: ErrorKind::Other };
    assert_eq!(TestRuntime::poll_result(Err(broken)), Polled::Fatal(IoError::Os(22)));
}

#[test]
fn operations_under_way() {
    let mut ops = OpRuntime::new();
    let dummy = ops.insert_dummy();
    let key: Key<Fd> = ops.insert(4);
    assert_ne!(dummy.user_data(), key.user_data());
    assert!(!ops.has_result(&dummy));
    assert_eq!(ops.update_waker(&dummy, 1), None);
    assert_eq!(ops.update_waker(&dummy, 2), Some(1));
    assert_eq!(ops.update_waker(&Key::<Fd>::new(1000), 3), Some(3));
    assert_eq!(ops.update_result(&dummy, Ok(8)), Delivered { woken: Some(2), dropped: None });
    assert!(ops.has_result(&dummy));
    assert!(!ops.has_result(&key));
    assert_eq!(ops.poll_dummy(&dummy, 5), Poll::Ready(Ok(8)));
    assert_eq!(ops.poll_dummy(&dummy, 5), Poll::Pending);
    ops.cancel(&key);
    assert_eq!(ops.remove(&key), (None, Some(4)));
    // a key is used again once it is free
    let again: Key<Fd> = ops.insert(6);
    assert!(again.user_data() == key.user_data() || again.user_data() == dummy.user_data());
    assert_eq!(ops.poll_task(&again, 9), Poll::Pending);
}

/// Receives from a pipe whose contents are shared with whoever writes to it.
struct PipeRecv {
    fd: i32,
    bytes: Rc<Cell<usize>>,
}

impl kqueue::OpCode for PipeRecv {
    fn operate(&mut self) -> Operated {
        match self.bytes.replace(0) {
            0 => None,
            count => Some(Ok(count)),
        }
    }

    fn as_event(&self, user_data: usize) -> kqueue::Event {
        kqueue::Event::new(kqueue::EventFilter::Read(self.fd), user_data)
    }

    fn timer_delay(&self) -> Duration {
        unreachable!()
    }
}

type QueueRuntime = Runtime<'static, PipeRecv, kqueue::Driver<'static, PipeRecv>, ()>;

#[test]
fn event_handle() {
    let bytes = Rc::new(Cell::new(0));
    let event = Event::new(Ok(ENDS), Ok(())).unwrap();
    let handle = event.handle(Ok(7)).unwrap();
    // the notification comes first
    bytes.set(bytes.get() + 1);
    assert_eq!(handle.notify(Ok(1)), Ok(()));
    let mut runtime: QueueRuntime = Runtime::new(kqueue::Driver::new());
    let op = Box::leak(Box::new(PipeRecv { fd: event.as_raw_fd(), bytes }));
    let mut wait = runtime.submit(op, 5);
    assert_eq!(runtime.poll_future(&mut wait, 1), Poll::Pending);
    let timeout = runtime.poll(None);
    let mut entries: Vec<Entry> = Vec::new();
    assert!(matches!(runtime.driver_mut().submit(timeout, &mut entries), kqueue::Submitted::Completed));
    assert_eq!(runtime.complete(&entries), vec![Delivered { woken: Some(1), dropped: None }]);
    match runtime.poll_future(&mut wait, 1) {
        Poll::Ready((received, 5)) => assert_eq!(event.wait(received), Ok(())),
        other => panic!("{:?}", other),
    }
}

#[test]
fn event_wakes_only_when_it_is_notified() {
    let bytes = Rc::new(Cell::new(0));
    let event = Event::new(Ok(ENDS), Ok(())).unwrap();
    let handle = event.handle(Ok(7)).unwrap();
    let mut runtime: QueueRuntime = Runtime::new(kqueue::Driver::new());
    let op = Box::leak(Box::new(PipeRecv { fd: event.as_raw_fd(), bytes: bytes.clone() }));
    let mut future = runtime.submit(op, 5);
    let mut entries: Vec<Entry> = Vec::new();
    let timeout = runtime.poll(None);
    let wait = match runtime.driver_mut().submit(timeout, &mut entries) {
        kqueue::Submitted::Wait(wait) => wait,
        kqueue::Submitted::Completed => panic!("nobody has notified the event"),
    };
    assert_eq!(wait.timeout, None);
    bytes.set(1);
    assert_eq!(handle.notify(Ok(1)), Ok(()));
    let mut ready = kqueue::Event::new(kqueue::EventFilter::Read(3), 0);
    ready.flags.add = false;
    runtime.driver_mut().complete_submit(wait, Ok(vec![ready]), &mut entries).unwrap();
    let _ = runtime.complete(&entries);
    assert_eq!(runtime.poll_future(&mut future, 1), Poll::Ready((Ok(1), 5)));
}

#[test]
fn slot_of_a_cancelled_operation_is_freed() {
    let mut runtime: QueueRuntime = Runtime::new(kqueue::Driver::new());
    let op = Box::leak(Box::new(PipeRecv { fd: 3, bytes: Rc::new(Cell::new(0)) }));
    let future = runtime.submit(op, 5);
    let key: Key<PipeRecv> = Key::new(future.key().user_data());
    let mut entries: Vec<Entry> = Vec::new();
    let _ = runtime.driver_mut().submit(None, &mut entries);
    runtime.cancel_op(&key);
    let _ = runtime.driver_mut().submit(None, &mut entries);
    assert_eq!(entries[0].into_result(), Err(IoError::Cancelled));
    assert_eq!(runtime.complete(&entries), vec![Delivered { woken: None, dropped: Some(5) }]);
    let again = runtime.submit_dummy();
    assert_eq!(again.user_data(), key.user_data());
}

#[test]
fn posted_completion_wakes() {
    struct Nothing;
    impl iocp::OpCode for Nothing {
        fn operate(&mut self, _user_data: usize) -> Poll<IoResult<usize>> {
            Poll::Pending
        }

        fn timer_delay(&self) -> Duration {
            unreachable!()
        }
    }
    let mut runtime: Runtime<'_, Nothing, PortDriver<'_, Nothing>, ()> = Runtime::new(PortDriver::new());
    let event = runtime.submit_dummy();
    let mut wait = OpFuture::new(Key::new_dummy(event.user_data()));
    let mut overlapped = Overlapped::new(event.user_data());
    assert_eq!(runtime.poll_dummy(wait.key(), 1), Poll::Pending);
    // notify
    let transferred: u32 = iocp::status::post_driver_raw(Ok(0), &mut overlapped);
    let posted = Completion {
        status: overlapped.internal,
        dos_error: 0,
        transferred,
        user_data: overlapped.user_data,
    };
    let mut entries: Vec<Entry> = Vec::new();
    let timeout = runtime.poll(None);
    let _ = runtime.driver_mut().submit(timeout, &mut entries);
    runtime.driver_mut().complete_submit(Ok(vec![posted]), &mut entries).unwrap();
    assert_eq!(runtime.complete(&entries), vec![Delivered { woken: Some(1), dropped: None }]);
    assert_eq!(runtime.poll_dummy(wait.key(), 1), Poll::Ready(Ok(0)));
    let mut ops = OpRuntime::new();
    assert_eq!(wait.poll_dummy(&mut ops, 2), Poll::Pending);
    assert!(wait.cancels_on_drop());
}

const ENDS: PipeFds = PipeFds { receiver: 3, sender: 4 };

#[test]
fn pipe_in_one_call() {
    let (mut setup, step) = PipeSetup::start(true);
    assert_eq!(step, PipeStep::Pipe2);
    assert_eq!(setup.created(Ok(ENDS)), PipeStep::Done(ENDS));
    let (mut setup, _) = PipeSetup::start(true);
    assert_eq!(setup.created(Err(24)), PipeStep::Fail(IoError::Os(24)));
}

#[test]
fn pipe_flag_by_flag() {
    let (mut setup, step) = PipeSetup::start(false);
    assert_eq!(step, PipeStep::Pipe);
    assert_eq!(setup.created(Ok(ENDS)), PipeStep::SetNonblocking(3));
    assert_eq!(setup.flag_set(Ok(())), PipeStep::SetCloexec(3));
    assert_eq!(setup.flag_set(Ok(())), PipeStep::SetNonblocking(4));
    assert_eq!(setup.flag_set(Ok(())), PipeStep::SetCloexec(4));
    assert_eq!(setup.flag_set(Ok(())), PipeStep::Done(ENDS));
}

#[test]
fn pipe_that_cannot_be_configured_is_closed() {
    let (mut setup, _) = PipeSetup::start(false);
    let _ = setup.created(Ok(ENDS));
    let _ = setup.flag_set(Ok(()));
    let _ = setup.flag_set(Ok(()));
    assert_eq!(
        setup.flag_set(Err(9)),
        PipeStep::Abandon { first: 3, second: 4, error: IoError::Os(9) }
    );
}

#[test]
fn pipe_events() {
    let event = Event::new(Ok(ENDS), Ok(())).unwrap();
    assert_eq!(event.as_raw_fd(), 3);
    assert!(Event::new(Err(IoError::Os(24)), Ok(())).is_err());
    assert!(Event::new(Ok(ENDS), Err(IoError::Os(25))).is_err());
    let handle: EventHandle = event.handle(Ok(7)).unwrap();
    assert_eq!(handle.fd, 7);
    assert!(event.handle(Err(IoError::Os(24))).is_err());
    assert_eq!(handle.notify(Ok(1)), Ok(()));
    assert_eq!(handle.notify(Err(IoError::Os(32))), Err(IoError::Os(32)));
    assert_eq!(event.wait(Ok(1)), Ok(()));
    assert_eq!(event.wait(Err(IoError::Os(5))), Err(IoError::Os(5)));
    assert_eq!(set_nonblocking(0, 25), Ok(()));
    assert_eq!(set_nonblocking(-1, 25), Err(IoError::Os(25)));
}

#[test]
fn signals_notify_everybody_once() {
    let mut handlers: Handlers<&'static str> = Handlers::new();
    assert_eq!(handlers.register(2, 10, Ok("ten")), Ok(()));
    assert_eq!(handlers.register(2, 11, Ok("eleven")), Ok(()));
    assert_eq!(handlers.register(15, 10, Ok("other")), Ok(()));
    assert_eq!(handlers.register(2, 12, Err(IoError::Os(24))), Err(IoError::Os(24)));
    let notified = handlers.arrived(2);
    assert_eq!(notified.len(), 2);
    assert_eq!(notified[&10], "ten");
    assert_eq!(notified[&11], "eleven");
    assert!(handlers.arrived(2).is_empty());
    assert!(handlers.arrived(3).is_empty());
    assert_eq!(handlers.arrived(15).len(), 1);
}

#[test]
fn signals_restore_the_default_with_the_last() {
    let mut handlers: Handlers<u8> = Handlers::new();
    handlers.register(2, 10, Ok(1)).unwrap();
    handlers.register(2, 11, Ok(2)).unwrap();
    assert!(!handlers.unregister(2, 10));
    assert!(handlers.unregister(2, 11));
    assert!(handlers.unregister(9, 1));
}
