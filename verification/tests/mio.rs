use std::collections::VecDeque;
use std::ops::ControlFlow;

use completeio::driver::attempts::TIMER_PENDING;
use completeio::driver::mio::{
    Decision, Driver, Event, Interest, OpCode, PollStep, Registration, SubmitStep, WaitArg,
};
use completeio::driver::time::Timeout;
use completeio::driver::{CompleteIo, Entry, OpObject, Operation};
use completeio::error::{CallError, ErrorKind, IoError, IoResult};
use completeio::time::Duration;

struct Scripted {
    decision: IoResult<Decision>,
    flows: VecDeque<IoResult<ControlFlow<usize>>>,
    delay: Option<Duration>,
}

impl Scripted {
    fn new(decision: IoResult<Decision>, flows: Vec<IoResult<ControlFlow<usize>>>) -> Self {
        Scripted { decision, flows: flows.into(), delay: None }
    }
}

impl OpCode for Scripted {
    fn pre_submit(&mut self) -> IoResult<Decision> {
        self.decision
    }

    fn on_event(&mut self, _event: &Event) -> IoResult<ControlFlow<usize>> {
        self.flows.pop_front().unwrap()
    }

    fn timer_delay(&self) -> Duration {
        self.delay.unwrap()
    }
}

fn results(entries: &[Entry]) -> Vec<(usize, Result<usize, IoError>)> {
    entries.iter().map(|e| (e.user_data(), e.into_result())).collect()
}

fn event(token: usize) -> Event {
    Event { token, readable: true, writable: false }
}

fn readable(fd: i32) -> WaitArg {
    WaitArg { fd, interest: Interest::Readable }
}

#[test]
fn mio_decisions() {
    assert_eq!(Decision::wait_readable(3), Decision::Wait(readable(3)));
    assert_eq!(
        Decision::wait_writable(4),
        Decision::Wait(WaitArg { fd: 4, interest: Interest::Writable })
    );
    assert_eq!(
        Decision::wait_for(5, Interest::Writable),
        Decision::Wait(WaitArg { fd: 5, interest: Interest::Writable })
    );
}

#[test]
fn mio_submission_with_a_completion_does_not_poll() {
    let mut a = Scripted::new(Ok(Decision::Completed(5)), Vec::new());
    let mut b = Scripted::new(Ok(Decision::wait_readable(3)), Vec::new());
    let mut c = Scripted::new(Err(IoError::Os(9)), Vec::new());
    let mut driver: Driver<'_, Scripted> = Driver::new();
    let mut ops = VecDeque::from([
        OpObject::new(&mut a, 1),
        OpObject::new(&mut b, 2),
        OpObject::new(&mut c, 3),
    ]);
    driver.push_queue(&mut ops);
    let mut entries: Vec<Entry> = Vec::new();
    assert_eq!(
        driver.submit_next(&mut entries),
        SubmitStep::Register(Registration { token: 2, arg: readable(3) })
    );
    driver.registered(Ok(()), &mut entries);
    assert_eq!(driver.submit_next(&mut entries), SubmitStep::Return);
    assert_eq!(results(&entries), vec![(1, Ok(5)), (3, Err(IoError::Os(9)))]);
    // the next submission starts anew
    assert_eq!(driver.submit_next(&mut entries), SubmitStep::Poll);
}

#[test]
fn mio_failed_registration_is_reported() {
    let mut a = Scripted::new(Ok(Decision::wait_readable(3)), Vec::new());
    let mut driver: Driver<'_, Scripted> = Driver::with_entries(1);
    assert!(driver.try_push(Operation::new(&mut a, 8)).is_ok());
    assert_eq!(driver.capacity_left(), 0);
    let mut entries: Vec<Entry> = Vec::new();
    let _ = driver.submit_next(&mut entries);
    driver.registered(Err(IoError::Os(17)), &mut entries);
    assert_eq!(driver.submit_next(&mut entries), SubmitStep::Return);
    assert_eq!(results(&entries), vec![(8, Err(IoError::Os(17)))]);
}

#[test]
fn mio_events_bring_results() {
    let mut a = Scripted::new(
        Ok(Decision::wait_readable(3)),
        vec![Ok(ControlFlow::Continue(())), Ok(ControlFlow::Break(12))],
    );
    let mut b = Scripted::new(Ok(Decision::wait_readable(4)), vec![Err(IoError::Os(5))]);
    let mut c = Scripted::new(Ok(Decision::wait_readable(5)), vec![Ok(ControlFlow::Break(1))]);
    let mut driver: Driver<'_, Scripted> = Driver::with_entries(4);
    for (i, op) in [&mut a, &mut b, &mut c].into_iter().enumerate() {
        assert!(driver.try_push(Operation::new(op, i)).is_ok());
    }
    let mut entries: Vec<Entry> = Vec::new();
    while let SubmitStep::Register(_) = driver.submit_next(&mut entries) {
        driver.registered(Ok(()), &mut entries);
    }
    let interrupted = CallError { code: 4, kind: ErrorKind::Interrupted };
    assert_eq!(driver.polled(Err(interrupted), &mut entries), PollStep::Retry);
    let broken = CallError { code: 22, kind: ErrorKind::Other };
    assert_eq!(driver.polled(Err(broken), &mut entries), PollStep::Fail(IoError::Os(22)));
    assert_eq!(driver.polled(Ok(()), &mut entries), PollStep::Process);
    assert_eq!(driver.on_event(&event(0)), None);
    assert_eq!(driver.on_event(&event(0)), Some(3));
    driver.deregistered(Ok(()), &mut entries);
    assert_eq!(driver.on_event(&event(1)), Some(4));
    driver.deregistered(Ok(()), &mut entries);
    // what goes wrong at the end takes the place of the result
    assert_eq!(driver.on_event(&event(2)), Some(5));
    driver.deregistered(Err(IoError::Os(2)), &mut entries);
    assert_eq!(
        results(&entries),
        vec![(0, Ok(12)), (1, Err(IoError::Os(5))), (2, Err(IoError::Os(2)))]
    );
}

#[test]
fn mio_cancellation_before_and_after_submission() {
    let mut a = Scripted::new(Ok(Decision::wait_readable(3)), Vec::new());
    let mut b = Scripted::new(Ok(Decision::wait_readable(4)), Vec::new());
    let mut driver: Driver<'_, Scripted> = Driver::with_entries(4);
    assert_eq!(driver.try_cancel(1), Ok(()));
    assert!(driver.try_push(Operation::new(&mut a, 1)).is_ok());
    assert!(driver.try_push(Operation::new(&mut b, 2)).is_ok());
    let mut entries: Vec<Entry> = Vec::new();
    assert_eq!(
        driver.submit_next(&mut entries),
        SubmitStep::Register(Registration { token: 2, arg: readable(4) })
    );
    // the first one was cancelled before it could wait
    let cancelled = Err(IoError::Cancelled);
    assert_eq!(results(&entries), vec![(1, cancelled)]);
    driver.registered(Ok(()), &mut entries);
    assert_eq!(driver.submit_next(&mut entries), SubmitStep::Return);
    assert_eq!(driver.submit_next(&mut entries), SubmitStep::Poll);
    assert!(driver.take_deregistrations().is_empty());
    assert_eq!(driver.try_cancel(2), Ok(()));
    assert_eq!(driver.take_deregistrations(), vec![4]);
    assert!(driver.take_deregistrations().is_empty());
    assert!(!driver.is_waiting(2));
    assert_eq!(driver.submit_next(&mut entries), SubmitStep::Return);
    assert_eq!(results(&entries), vec![(1, cancelled), (2, cancelled)]);
    assert_eq!(driver.submit_next(&mut entries), SubmitStep::Poll);
    assert_eq!(entries.len(), 2);
}

#[test]
fn mio_full_queue_takes_no_cancellation() {
    let mut a = Scripted::new(Ok(Decision::wait_readable(3)), Vec::new());
    let mut driver: Driver<'_, Scripted> = Driver::with_entries(1);
    assert!(driver.try_push(Operation::new(&mut a, 1)).is_ok());
    assert_eq!(driver.try_cancel(1), Err(()));
    let mut entries: Vec<Entry> = Vec::new();
    assert_eq!(
        driver.submit_next(&mut entries),
        SubmitStep::Register(Registration { token: 1, arg: readable(3) })
    );
    driver.registered(Ok(()), &mut entries);
    assert_eq!(driver.try_cancel(1), Ok(()));
}

#[test]
fn mio_timers() {
    let mut timer = Scripted::new(Ok(Decision::Completed(TIMER_PENDING)), Vec::new());
    timer.delay = Some(Duration::zero());
    let mut driver: Driver<'_, Scripted> = Driver::with_entries(4);
    assert_eq!(driver.attach(3), Ok(()));
    assert!(driver.try_push_dyn(OpObject::new(&mut timer, 6)).is_ok());
    let mut entries: Vec<Entry> = Vec::new();
    assert_eq!(driver.submit_next(&mut entries), SubmitStep::Poll);
    assert_eq!(driver.poll_timeout(None), Some(Duration::zero()));
    assert_eq!(driver.polled(Ok(()), &mut entries), PollStep::Process);
    assert_eq!(results(&entries), vec![(6, Ok(0))]);
    assert_eq!(driver.poll_timeout(None), None);
}

#[test]
fn mio_timeout_operation() {
    let mut timeout = Timeout::new(Duration::from_millis(1));
    let mut driver: Driver<'_, Timeout> = Driver::new();
    assert!(driver.try_push(Operation::new(&mut timeout, 7)).is_ok());
    let mut entries: Vec<Entry> = Vec::new();
    assert_eq!(driver.submit_next(&mut entries), SubmitStep::Poll);
    // each round stands for a poll that ends when the timer falls due
    while entries.is_empty() {
        let wait = driver.poll_timeout(None).unwrap();
        assert!(wait.as_millis() <= 1);
        assert_eq!(driver.polled(Ok(()), &mut entries), PollStep::Process);
    }
    assert_eq!(results(&entries), vec![(7, Ok(0))]);
    let mut timeout = Timeout::new(Duration::zero());
    assert_eq!(OpCode::on_event(&mut timeout, &event(1)), Ok(ControlFlow::Continue(())));
}
