use completeio::driver::time::{TimerWheel, Timeout};
use completeio::driver::{iocp, iour, kqueue, Entry};
use completeio::driver::attempts::TIMER_PENDING;
use completeio::poll::Poll;
use completeio::time::{Clock, Duration, Moment};

fn at(millis: u64) -> Moment {
    Moment::since_start(Duration::from_millis(millis))
}

fn keys(entries: &[Entry]) -> Vec<usize> {
    entries.iter().map(|e| e.user_data()).collect()
}

#[test]
fn timers_expire_in_order_and_once() {
    let mut wheel = TimerWheel::with_capacity(16);
    for (key, delay) in [(1, 50), (2, 10), (3, 30), (4, 20), (5, 40)] {
        wheel.insert_at(at(100), key, Duration::from_millis(delay));
    }
    let mut entries: Vec<Entry> = Vec::new();
    let till_next = Some(Duration::from_millis(1));
    assert_eq!(wheel.expire_timers_at(at(109), &mut entries), (false, till_next));
    assert!(entries.is_empty());
    let till_next = Some(Duration::from_millis(10));
    assert_eq!(wheel.expire_timers_at(at(130), &mut entries), (true, till_next));
    assert_eq!(keys(&entries), vec![2, 4, 3]);
    assert!(entries.iter().all(|e| e.into_result() == Ok(0)));
    assert_eq!(wheel.expire_timers_at(at(130), &mut entries), (false, till_next));
    assert_eq!(entries.len(), 3);
    assert_eq!(wheel.duration_till_next_timer_at(at(130)), Some(Duration::from_millis(10)));
    assert_eq!(wheel.duration_till_next_timer_at(at(500)), Some(Duration::zero()));
    assert_eq!(wheel.expire_timers_at(at(500), &mut entries), (true, None));
    assert_eq!(keys(&entries), vec![2, 4, 3, 5, 1]);
    assert_eq!(wheel.duration_till_next_timer_at(at(500)), None);
}

#[test]
fn timers_and_timeouts() {
    let mut wheel = TimerWheel::with_capacity(1);
    let five = Some(Duration::from_millis(5));
    assert_eq!(wheel.till_next_timer_or_timeout_at(at(0), None), None);
    assert_eq!(wheel.till_next_timer_or_timeout_at(at(0), five), five);
    wheel.extend_at(at(0), &vec![(1, Duration::from_millis(7)), (2, Duration::from_millis(3))]);
    assert_eq!(wheel.till_next_timer_or_timeout_at(at(1), None), Some(Duration::from_millis(2)));
    assert_eq!(wheel.till_next_timer_or_timeout_at(at(1), five), Some(Duration::from_millis(2)));
    let one = Some(Duration::from_millis(1));
    assert_eq!(wheel.till_next_timer_or_timeout_at(at(1), one), one);
}

#[test]
fn timers_on_the_clock() {
    let mut wheel = TimerWheel::with_capacity(4);
    wheel.insert(1, Duration::zero());
    wheel.extend(&vec![(2, Duration::new(3600, 0))]);
    let mut entries: Vec<Entry> = Vec::new();
    let (expired, till_next) = wheel.expire_timers(&mut entries);
    assert!(expired && till_next.unwrap().as_secs() >= 3590);
    assert_eq!(keys(&entries), vec![1]);
    let left = wheel.duration_till_next_timer().unwrap();
    assert!(left.as_secs() <= 3600 && left.as_secs() >= 3590);
    assert_eq!(wheel.till_next_timer_or_timeout(Some(Duration::zero())), Some(Duration::zero()));
    assert!(!wheel.now().is_before(&at(0)));
}

#[test]
fn clock_goes_forward() {
    let clock = Clock::start();
    let first = clock.now();
    let second = clock.now();
    assert!(!second.is_before(&first));
    assert!(first.saturating_duration_since(at(0)).as_secs() < 60);
}

#[test]
fn durations() {
    let d = Duration::new(3, 500_000_001);
    assert_eq!(d.as_secs(), 3);
    assert_eq!(d.subsec_nanos(), 500_000_001);
    assert_eq!(d.as_millis(), 3500);
    assert_eq!(Duration::from_millis(3500).min(d), Duration::from_millis(3500));
    assert!(!d.is_zero());
    assert!(Duration::zero().is_zero());
    let far = Moment::since_start(Duration::new(u64::MAX, 999_999_999));
    assert_eq!(far.saturating_add(d), far);
    assert_eq!(at(5).saturating_add(Duration::from_millis(2)), at(7));
    assert_eq!(at(5).saturating_duration_since(at(7)), Duration::zero());
    assert_eq!(at(7).saturating_duration_since(at(5)), Duration::from_millis(2));
}

#[test]
fn timeout_operation_on_every_driver() {
    let mut op = Timeout::new(Duration::from_millis(1500));
    assert_eq!(kqueue::OpCode::operate(&mut op), Some(Ok(TIMER_PENDING)));
    assert_eq!(kqueue::OpCode::timer_delay(&op), Duration::from_millis(1500));
    assert_eq!(iocp::OpCode::operate(&mut op, 1), Poll::Ready(Ok(TIMER_PENDING)));
    assert_eq!(iocp::OpCode::timer_delay(&op), Duration::from_millis(1500));
    assert_eq!(
        iour::OpCode::create_entry(&mut op),
        iour::SqOp::Timeout { sec: 1, nsec: 500_000_000 }
    );
}
