use std::collections::VecDeque;

use completeio::driver::attempts::{Operated, TIMER_PENDING};
use completeio::driver::kqueue::{
    Driver, Event, EventFilter, EventFlags, Fd, OpCode, Submitted, Wait,
};
use completeio::driver::{CompleteIo, Entry, OpObject, Operation};
use completeio::error::IoError;
use completeio::time::Duration;

/// An operation whose attempts come out as written down.
struct Scripted {
    filter: EventFilter,
    results: VecDeque<Operated>,
    delay: Option<Duration>,
    attempts: usize,
}

impl Scripted {
    fn reads(fd: i32, results: Vec<Operated>) -> Self {
        Scripted { filter: EventFilter::Read(fd), results: results.into(), delay: None, attempts: 0 }
    }

    fn writes(fd: i32, results: Vec<Operated>) -> Self {
        Scripted { filter: EventFilter::Write(fd), results: results.into(), delay: None, attempts: 0 }
    }

    fn timer(delay: Duration) -> Self {
        Scripted {
            filter: EventFilter::Read(0),
            results: vec![Some(Ok(TIMER_PENDING))].into(),
            delay: Some(delay),
            attempts: 0,
        }
    }
}

impl OpCode for Scripted {
    fn operate(&mut self) -> Operated {
        self.attempts += 1;
        self.results.pop_front().unwrap()
    }

    fn as_event(&self, user_data: usize) -> Event {
        Event::new(self.filter, user_data)
    }

    fn timer_delay(&self) -> Duration {
        self.delay.unwrap()
    }
}

fn ready(filter: EventFilter, udata: usize) -> Event {
    Event {
        filter,
        flags: EventFlags { add: false, enable: false, oneshot: true, error: false },
        udata,
        data: 1,
    }
}

fn failed(filter: EventFilter, udata: usize, code: i64) -> Event {
    Event {
        filter,
        flags: EventFlags { add: false, enable: false, oneshot: false, error: true },
        udata,
        data: code,
    }
}

fn results(entries: &[Entry]) -> Vec<(usize, Result<usize, IoError>)> {
    entries.iter().map(|e| (e.user_data(), e.into_result())).collect()
}

fn wait_of(submitted: Submitted) -> Wait {
    match submitted {
        Submitted::Wait(wait) => wait,
        Submitted::Completed => panic!("there is something to wait for"),
    }
}

#[test]
fn kqueue_completed_operations_need_no_wait() {
    let mut a = Scripted::reads(3, vec![Some(Ok(5))]);
    let mut b = Scripted::reads(4, vec![Some(Err(IoError::Os(9)))]);
    let mut driver: Driver<'_, Scripted> = Driver::new();
    assert_eq!(driver.capacity_left(), 1024);
    assert!(driver.try_push(Operation::new(&mut a, 1)).is_ok());
    assert!(driver.try_push(Operation::new(&mut b, 2)).is_ok());
    assert_eq!(driver.capacity_left(), 1022);
    let mut entries: Vec<Entry> = Vec::new();
    assert!(matches!(driver.submit(None, &mut entries), Submitted::Completed));
    assert_eq!(results(&entries), vec![(1, Ok(5)), (2, Err(IoError::Os(9)))]);
    assert_eq!(driver.capacity_left(), 1024);
}

#[test]
fn kqueue_each_direction_is_asked_for_once() {
    let mut a = Scripted::reads(3, vec![None, Some(Ok(1))]);
    let mut b = Scripted::reads(3, vec![None]);
    let mut c = Scripted::writes(3, vec![None, Some(Ok(2))]);
    let mut d = Scripted::reads(7, vec![None]);
    let mut driver: Driver<'_, Scripted> = Driver::with(8, 0);
    let mut ops: VecDeque<OpObject<'_, Scripted>> = VecDeque::new();
    for (i, op) in [&mut a, &mut b, &mut c, &mut d].into_iter().enumerate() {
        ops.push_back(OpObject::new(op, 10 + i));
    }
    driver.push_queue(&mut ops);
    assert!(ops.is_empty());
    let mut entries: Vec<Entry> = Vec::new();
    let wait = wait_of(driver.submit(Some(Duration::from_millis(5)), &mut entries));
    assert_eq!(
        driver.events_to_change(),
        &vec![
            Event::new(EventFilter::Read(3), 0),
            Event::new(EventFilter::Write(3), 2),
            Event::new(EventFilter::Read(7), 3),
        ]
    );
    assert_eq!(wait.scanned_till, 4);
    assert_eq!(wait.timeout, Some(Duration::from_millis(5)));
    assert!(entries.is_empty());
    let events = vec![ready(EventFilter::Read(3), 0), ready(EventFilter::Write(3), 2)];
    assert_eq!(driver.complete_submit(wait, Ok(events), &mut entries), Ok(()));
    assert_eq!(results(&entries), vec![(10, Ok(1)), (12, Ok(2))]);
    // the postponed one has its turn, and the completed ones are gone
    let wait = wait_of(driver.submit(None, &mut entries));
    assert_eq!(
        driver.events_to_change(),
        &vec![Event::new(EventFilter::Read(3), 0), Event::new(EventFilter::Read(7), 1)]
    );
    assert_eq!(wait.timeout, None);
}

#[test]
fn kqueue_no_more_events_than_entries() {
    let mut a = Scripted::reads(3, vec![None]);
    let mut b = Scripted::reads(4, vec![None]);
    let mut c = Scripted::reads(5, vec![None]);
    let mut driver: Driver<'_, Scripted> = Driver::with(2, 0);
    let mut entries: Vec<Entry> = Vec::new();
    assert!(driver.try_push(Operation::new(&mut a, 1)).is_ok());
    assert!(driver.try_push(Operation::new(&mut b, 2)).is_ok());
    match driver.try_push_dyn(OpObject::new(&mut c, 3)) {
        Ok(()) => panic!("the queue is full"),
        Err(op) => {
            assert_eq!(op.user_data(), 3);
            let _ = driver.submit(None, &mut entries);
            assert!(driver.try_push_dyn(op).is_ok());
        }
    }
    let wait = wait_of(driver.submit(None, &mut entries));
    assert_eq!(driver.events_to_change().len(), 2);
    assert_eq!(wait.scanned_till, 2);
    // nothing is ready: those that were looked at go behind the one that was not
    assert_eq!(driver.complete_submit(wait, Ok(Vec::new()), &mut entries), Ok(()));
    let _ = driver.submit(None, &mut entries);
    assert_eq!(driver.events_to_change()[0], Event::new(EventFilter::Read(5), 0));
}

#[test]
fn kqueue_completed_operation_is_reported_once() {
    let mut a = Scripted::reads(3, vec![None, Some(Ok(6))]);
    {
        let mut driver: Driver<'_, Scripted> = Driver::with(4, 0);
        let mut entries: Vec<Entry> = Vec::new();
        assert!(driver.try_push(Operation::new(&mut a, 1)).is_ok());
        let wait = wait_of(driver.submit(None, &mut entries));
        let events = vec![ready(EventFilter::Read(3), 0)];
        assert_eq!(driver.complete_submit(wait, Ok(events), &mut entries), Ok(()));
        assert_eq!(results(&entries), vec![(1, Ok(6))]);
        let _ = driver.submit(Some(Duration::zero()), &mut entries);
        assert!(driver.events_to_change().is_empty());
        assert_eq!(entries.len(), 1);
    }
    assert_eq!(a.attempts, 2);
}

#[test]
fn kqueue_reported_failure_completes_without_an_attempt() {
    let mut a = Scripted::reads(3, vec![None]);
    let mut b = Scripted::reads(4, vec![None]);
    {
        let mut driver: Driver<'_, Scripted> = Driver::with(4, 0);
        let mut entries: Vec<Entry> = Vec::new();
        assert!(driver.try_push(Operation::new(&mut a, 1)).is_ok());
        assert!(driver.try_push(Operation::new(&mut b, 2)).is_ok());
        let wait = wait_of(driver.submit(None, &mut entries));
        let events = vec![failed(EventFilter::Read(3), 0, 9)];
        assert_eq!(driver.complete_submit(wait, Ok(events), &mut entries), Ok(()));
        assert_eq!(results(&entries), vec![(1, Err(IoError::Os(9)))]);
        let _ = driver.submit(None, &mut entries);
        assert_eq!(driver.events_to_change(), &vec![Event::new(EventFilter::Read(4), 0)]);
    }
    assert_eq!(a.attempts, 1);
}

#[test]
fn kqueue_failed_wait_keeps_the_pending() {
    let mut a = Scripted::reads(3, vec![None]);
    let mut driver: Driver<'_, Scripted> = Driver::with(4, 0);
    let mut entries: Vec<Entry> = Vec::new();
    assert!(driver.try_push(Operation::new(&mut a, 1)).is_ok());
    let wait = wait_of(driver.submit(None, &mut entries));
    assert_eq!(driver.complete_submit(wait, Err(IoError::Os(4)), &mut entries), Err(IoError::Os(4)));
    assert!(entries.is_empty());
    let _ = driver.submit(None, &mut entries);
    assert_eq!(driver.events_to_change().len(), 1);
}

#[test]
fn kqueue_cancelled_operations_are_output() {
    let mut a = Scripted::reads(3, vec![None]);
    let mut b = Scripted::reads(4, vec![None]);
    let mut c = Scripted::reads(5, vec![Some(Ok(1))]);
    {
        let mut driver: Driver<'_, Scripted> = Driver::with(4, 0);
        let mut entries: Vec<Entry> = Vec::new();
        assert!(driver.try_push(Operation::new(&mut a, 1)).is_ok());
        assert!(driver.try_push(Operation::new(&mut b, 2)).is_ok());
        let _ = driver.submit(None, &mut entries);
        assert!(driver.try_push(Operation::new(&mut c, 3)).is_ok());
        assert_eq!(driver.try_cancel(1), Ok(()));
        assert_eq!(driver.try_cancel(3), Ok(()));
        // an operation that was never pushed is no error
        assert_eq!(driver.try_cancel(99), Ok(()));
        assert!(entries.is_empty());
        // what is output is not held back
        let wait = wait_of(driver.submit(None, &mut entries));
        assert_eq!(wait.timeout, Some(Duration::zero()));
        assert_eq!(driver.events_to_change(), &vec![Event::new(EventFilter::Read(4), 0)]);
        let cancelled = Err(IoError::Cancelled);
        assert_eq!(results(&entries), vec![(1, cancelled), (3, cancelled)]);
        assert_eq!(driver.complete_submit(wait, Ok(Vec::new()), &mut entries), Ok(()));
        // each of them is output once
        assert_eq!(driver.try_cancel(2), Ok(()));
        assert!(matches!(driver.submit(None, &mut entries), Submitted::Completed));
        assert_eq!(results(&entries)[2..], [(2, cancelled)]);
        assert_eq!(wait_of(driver.submit(Some(Duration::zero()), &mut entries)).scanned_till, 0);
        assert_eq!(entries.len(), 3);
    }
    assert_eq!((a.attempts, c.attempts), (1, 0));
}

#[test]
fn kqueue_full_queue_takes_no_cancellation() {
    let mut a = Scripted::reads(3, vec![Some(Ok(2))]);
    let mut driver: Driver<'_, Scripted> = Driver::with(1, 0);
    assert!(driver.try_push(Operation::new(&mut a, 1)).is_ok());
    assert_eq!(driver.try_cancel(1), Err(()));
    let mut entries: Vec<Entry> = Vec::new();
    assert!(matches!(driver.submit(None, &mut entries), Submitted::Completed));
    assert_eq!(results(&entries), vec![(1, Ok(2))]);
    assert_eq!(driver.try_cancel(1), Ok(()));
}

#[test]
fn kqueue_output_is_not_held_back() {
    let mut a = Scripted::reads(3, vec![Some(Ok(5))]);
    let mut b = Scripted::reads(4, vec![None]);
    let mut driver: Driver<'_, Scripted> = Driver::with(4, 0);
    let mut entries: Vec<Entry> = Vec::new();
    assert!(driver.try_push(Operation::new(&mut a, 1)).is_ok());
    assert!(driver.try_push(Operation::new(&mut b, 2)).is_ok());
    let wait = wait_of(driver.submit(None, &mut entries));
    assert_eq!(wait.timeout, Some(Duration::zero()));
    assert_eq!(results(&entries), vec![(1, Ok(5))]);
    assert_eq!(driver.complete_submit(wait, Ok(Vec::new()), &mut entries), Ok(()));
    // now nothing has completed
    assert_eq!(wait_of(driver.submit(None, &mut entries)).timeout, None);
}

#[test]
fn kqueue_timer_alone_is_waited_for() {
    let mut timer = Scripted::timer(Duration::new(3600, 0));
    let mut driver: Driver<'_, Scripted> = Driver::with(4, 0);
    let mut entries: Vec<Entry> = Vec::new();
    assert!(driver.try_push(Operation::new(&mut timer, 1)).is_ok());
    let wait = wait_of(driver.submit(None, &mut entries));
    assert!(driver.events_to_change().is_empty());
    let limit = wait.timeout.unwrap();
    assert!(limit.as_secs() <= 3600 && limit.as_secs() > 3500);
    assert_eq!(driver.complete_submit(wait, Ok(Vec::new()), &mut entries), Ok(()));
    assert!(entries.is_empty());
}

#[test]
fn kqueue_timers_cut_the_wait_short() {
    let mut timer = Scripted::timer(Duration::from_millis(60_000));
    let mut a = Scripted::reads(3, vec![None]);
    let mut driver: Driver<'_, Scripted> = Driver::with(4, 0);
    let mut entries: Vec<Entry> = Vec::new();
    assert!(driver.try_push(Operation::new(&mut timer, 1)).is_ok());
    assert!(driver.try_push(Operation::new(&mut a, 2)).is_ok());
    let wait = wait_of(driver.submit(None, &mut entries));
    let limit = wait.timeout.unwrap();
    assert!(limit.as_millis() <= 60_000 && limit.as_millis() > 50_000);
    assert!(entries.is_empty());
}

#[test]
fn kqueue_timer_that_is_over_is_reported() {
    let mut timer = Scripted::timer(Duration::zero());
    let mut driver: Driver<'_, Scripted> = Driver::with(4, 0);
    let mut entries: Vec<Entry> = Vec::new();
    assert!(driver.try_push(Operation::new(&mut timer, 7)).is_ok());
    let wait = wait_of(driver.submit(None, &mut entries));
    assert_eq!(wait.timeout, Some(Duration::zero()));
    assert_eq!(driver.complete_submit(wait, Ok(Vec::new()), &mut entries), Ok(()));
    assert_eq!(results(&entries), vec![(7, Ok(0))]);
}

#[test]
fn kqueue_operation_on_no_descriptor_reports_its_failure() {
    let mut a = Scripted::reads(-1, vec![Some(Err(IoError::Os(9)))]);
    let mut driver: Driver<'_, Scripted> = Driver::with(4, 0);
    let mut entries: Vec<Entry> = Vec::new();
    assert!(driver.try_push(Operation::new(&mut a, 3)).is_ok());
    assert!(matches!(driver.submit(None, &mut entries), Submitted::Completed));
    assert_eq!(results(&entries), vec![(3, Err(IoError::Os(9)))]);
}

#[test]
fn kqueue_each_operation_is_output_once() {
    let mut a = Scripted::reads(3, vec![None, Some(Ok(5))]);
    let mut b = Scripted::writes(4, vec![Some(Ok(6))]);
    let mut driver: Driver<'_, Scripted> = Driver::with(4, 0);
    let mut entries: Vec<Entry> = Vec::new();
    assert!(driver.try_push(Operation::new(&mut a, 1)).is_ok());
    assert!(driver.try_push(Operation::new(&mut b, 2)).is_ok());
    let wait = wait_of(driver.submit(None, &mut entries));
    assert_eq!(driver.complete_submit(wait, Ok(Vec::new()), &mut entries), Ok(()));
    assert_eq!(results(&entries), vec![(2, Ok(6))]);
    let wait = wait_of(driver.submit(None, &mut entries));
    let events = vec![ready(EventFilter::Read(3), 0)];
    assert_eq!(driver.complete_submit(wait, Ok(events), &mut entries), Ok(()));
    let wait = wait_of(driver.submit(Some(Duration::zero()), &mut entries));
    assert_eq!(driver.complete_submit(wait, Ok(Vec::new()), &mut entries), Ok(()));
    assert_eq!(results(&entries), vec![(2, Ok(6)), (1, Ok(5))]);
    assert_eq!((a.attempts, b.attempts), (2, 1));
}

#[test]
fn kqueue_descriptors_are_attached_as_they_are() {
    let mut driver: Driver<'_, Scripted> = Driver::new();
    assert_eq!(driver.attach(5), Ok(Fd { raw_fd: 5 }));
    let fixed = driver.register_fd(6, 1).unwrap();
    assert_eq!(fixed, Fd { raw_fd: 6 });
    assert_eq!(driver.unregister_fd(fixed), Ok(()));
}
