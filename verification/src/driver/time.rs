//! A timer wheel on the suspend-aware clock, and the timeout operation.
use vstd::multiset::Multiset;
use vstd::prelude::*;

use crate::driver::Entry;
use crate::error::IoError;
use crate::time::{after, until, Clock, Duration, Moment, MAX_NANOS};

verus! {

/// A timer: the user data of its operation and the time it falls due.
#[derive(Clone, Copy, Debug)]
pub struct Timer {
    /// The user data of the operation.
    pub key: usize,
    /// When the timer falls due.
    pub deadline: Moment,
}

/// A timer as the contracts speak of it: its key, and its deadline in nanoseconds.
pub type TimerView = (usize, nat);

impl View for Timer {
    type V = TimerView;

    open spec fn view(&self) -> TimerView {
        (self.key, self.deadline@)
    }
}

/// The views of a sequence of timers.
pub open spec fn timer_views(timers: Seq<Timer>) -> Seq<TimerView> {
    timers.map_values(|t: Timer| t@)
}

/// Each timer but the first falls due no earlier than the one it hangs below.
spec fn heap_ordered(heap: Seq<Timer>) -> bool {
    forall|i: int| 0 < i < heap.len() ==> heap[(i - 1) / 2].deadline@ <= (#[trigger] heap[i]).deadline@
}

/// As [`heap_ordered`], leaving out what hangs below `hole` and what hangs below its children is still
/// bounded by what `hole` hangs below.
spec fn heap_ordered_below(heap: Seq<Timer>, hole: int) -> bool {
    &&& forall|i: int|
        0 < i < heap.len() && (i - 1) / 2 != hole ==> heap[(i - 1) / 2].deadline@ <= (
        #[trigger] heap[i]).deadline@
    &&& forall|i: int|
        0 < hole && 0 < i < heap.len() && (i - 1) / 2 == hole ==> heap[(hole - 1) / 2].deadline@ <= (
        #[trigger] heap[i]).deadline@
}

/// As [`heap_ordered`], leaving out the place `hole` itself.
spec fn heap_ordered_above(heap: Seq<Timer>, hole: int) -> bool {
    &&& forall|i: int|
        0 < i < heap.len() && i != hole ==> heap[(i - 1) / 2].deadline@ <= (
        #[trigger] heap[i]).deadline@
    &&& forall|i: int|
        0 < hole && 0 < i < heap.len() && (i - 1) / 2 == hole ==> heap[(hole - 1) / 2].deadline@ <= (
        #[trigger] heap[i]).deadline@
}

/// The first timer of an ordered heap is due first.
proof fn lemma_first_is_earliest(heap: Seq<Timer>, i: int)
    requires
        heap_ordered(heap),
        0 <= i < heap.len(),
    ensures
        heap[0].deadline@ <= heap[i].deadline@,
    decreases i,
{
    if i > 0 {
        lemma_first_is_earliest(heap, (i - 1) / 2);
        assert(heap[(i - 1) / 2].deadline@ <= heap[i].deadline@);
    }
}

/// Two places of a sequence can trade their items without a change in what it holds.
proof fn lemma_swap_keeps_items(items: Seq<TimerView>, i: int, j: int)
    requires
        0 <= i < items.len(),
        0 <= j < items.len(),
    ensures
        items.update(i, items[j]).update(j, items[i]).to_multiset() =~= items.to_multiset(),
{
    broadcast use vstd::seq_lib::group_to_multiset_ensures;

    let once = items.update(i, items[j]);
    assert(once.to_multiset() =~= items.to_multiset().insert(items[j]).remove(items[i]));
    assert(once.update(j, items[i]).to_multiset() =~= once.to_multiset().insert(items[i]).remove(
        once[j],
    ));
    assert(items.to_multiset().count(items[i]) > 0);
    assert(items.to_multiset().count(items[j]) > 0);
}

fn swap(heap: &mut Vec<Timer>, i: usize, j: usize)
    requires
        i < old(heap).len(),
        j < old(heap).len(),
    ensures
        final(heap)@ == old(heap)@.update(i as int, old(heap)@[j as int]).update(
            j as int,
            old(heap)@[i as int],
        ),
        timer_views(final(heap)@).to_multiset() == timer_views(old(heap)@).to_multiset(),
{
    let a = heap[i];
    let b = heap[j];
    heap.set(i, b);
    heap.set(j, a);
    proof {
        lemma_swap_keeps_items(timer_views(old(heap)@), i as int, j as int);
        assert(timer_views(heap@) =~= timer_views(old(heap)@).update(
            i as int,
            timer_views(old(heap)@)[j as int],
        ).update(j as int, timer_views(old(heap)@)[i as int]));
    }
}

/// Moves the timer at `start` towards the front until it hangs below one that is due no later.
fn sift_up(heap: &mut Vec<Timer>, start: usize)
    requires
        start < old(heap).len(),
        heap_ordered_above(old(heap)@, start as int),
    ensures
        heap_ordered(final(heap)@),
        final(heap).len() == old(heap).len(),
        timer_views(final(heap)@).to_multiset() == timer_views(old(heap)@).to_multiset(),
{
    let mut hole: usize = start;
    while hole > 0
        invariant
            hole < heap.len(),
            heap.len() == old(heap).len(),
            heap_ordered_above(heap@, hole as int),
            timer_views(heap@).to_multiset() == timer_views(old(heap)@).to_multiset(),
        ensures
            heap_ordered(heap@),
            heap.len() == old(heap).len(),
            timer_views(heap@).to_multiset() == timer_views(old(heap)@).to_multiset(),
        decreases hole,
    {
        let parent: usize = (hole - 1) / 2;
        if !heap[hole].deadline.is_before(&heap[parent].deadline) {
            break;
        }
        let ghost before = heap@;
        swap(heap, hole, parent);
        proof {
            assert forall|i: int| 0 < i < heap.len() && i != parent implies heap@[(i - 1)
                / 2].deadline@ <= (#[trigger] heap@[i]).deadline@ by {
                assert(before[i].deadline@ == before[i].deadline@);
                if i == hole {
                } else if (i - 1) / 2 == hole {
                    assert(before[parent as int].deadline@ <= before[i].deadline@);
                } else if (i - 1) / 2 == parent {
                    assert(before[parent as int].deadline@ <= before[i].deadline@);
                }
            }
            assert forall|i: int|
                0 < parent && 0 < i < heap.len() && (i - 1) / 2 == parent implies heap@[(parent - 1)
                / 2].deadline@ <= (#[trigger] heap@[i]).deadline@ by {
                assert(before[(parent - 1) / 2].deadline@ <= before[parent as int].deadline@);
                if i != hole {
                    assert(before[parent as int].deadline@ <= before[i].deadline@);
                }
            }
        }
        hole = parent;
    }
}

/// Moves the timer at the front towards the back until nothing below it is due earlier.
fn sift_down(heap: &mut Vec<Timer>)
    requires
        heap_ordered_below(old(heap)@, 0),
    ensures
        heap_ordered(final(heap)@),
        final(heap).len() == old(heap).len(),
        timer_views(final(heap)@).to_multiset() == timer_views(old(heap)@).to_multiset(),
{
    let len: usize = heap.len();
    let mut hole: usize = 0;
    loop
        invariant
            len == heap.len(),
            heap.len() == old(heap).len(),
            hole < len || len == 0,
            heap_ordered_below(heap@, hole as int),
            timer_views(heap@).to_multiset() == timer_views(old(heap)@).to_multiset(),
        ensures
            heap_ordered(heap@),
            heap.len() == old(heap).len(),
            timer_views(heap@).to_multiset() == timer_views(old(heap)@).to_multiset(),
        decreases len - hole,
    {
        if len == 0 || hole > (len - 1) / 2 || 2 * hole + 1 >= len {
            break;
        }
        let left: usize = 2 * hole + 1;
        let mut child: usize = left;
        if left + 1 < len && heap[left + 1].deadline.is_before(&heap[left].deadline) {
            child = left + 1;
        }
        if !heap[child].deadline.is_before(&heap[hole].deadline) {
            proof {
                assert forall|i: int| 0 < i < heap.len() implies heap@[(i - 1) / 2].deadline@ <= (
                #[trigger] heap@[i]).deadline@ by {
                    if (i - 1) / 2 == hole {
                        assert(i == left || i == left + 1);
                    }
                }
            }
            break;
        }
        let ghost before = heap@;
        swap(heap, hole, child);
        proof {
            assert forall|i: int| 0 < i < heap.len() && (i - 1) / 2 != child implies heap@[(i - 1)
                / 2].deadline@ <= (#[trigger] heap@[i]).deadline@ by {
                assert(before[i].deadline@ == before[i].deadline@);
                if (i - 1) / 2 == hole {
                    assert(i == left || i == left + 1);
                } else if i == hole {
                    assert(before[child as int].deadline@ >= before[(hole - 1) / 2].deadline@);
                }
            }
            assert forall|i: int|
                0 < child && 0 < i < heap.len() && (i - 1) / 2 == child implies heap@[(child - 1)
                / 2].deadline@ <= (#[trigger] heap@[i]).deadline@ by {
                assert(before[child as int].deadline@ <= before[i].deadline@);
            }
        }
        hole = child;
    }
}

/// Timers ordered by the time they fall due.
pub struct TimerWheel {
    clock: Clock,
    heap: Vec<Timer>,
}

/// A timer with this key runs.
pub open spec fn timer_runs(timers: Multiset<TimerView>, key: usize) -> bool {
    exists|t: TimerView| #[trigger] timers.contains(t) && t.0 == key
}

/// `deadline` is the earliest among the timers.
pub open spec fn is_earliest(timers: Multiset<TimerView>, deadline: nat) -> bool {
    &&& exists|t: TimerView| #[trigger] timers.contains(t) && t.1 == deadline
    &&& forall|t: TimerView| #[trigger] timers.contains(t) ==> deadline <= t.1
}

/// Each timer falls due no earlier than the ones before it.
pub open spec fn in_due_order(timers: Seq<TimerView>) -> bool {
    forall|i: int, j: int| 0 <= i <= j < timers.len() ==> (#[trigger] timers[i]).1 <= (
    #[trigger] timers[j]).1
}

/// The entries of timers that have fallen due, in their order.
pub open spec fn timer_entries(due: Seq<TimerView>) -> Seq<Entry> {
    due.map_values(|t: TimerView| Entry { user_data: t.0, result: Ok(0usize) })
}

/// `due` are the timers of `before` that have fallen due at `now`, the earliest first, and `left` are the
/// others.
pub open spec fn expires(
    before: Multiset<TimerView>,
    now: nat,
    due: Seq<TimerView>,
    left: Multiset<TimerView>,
) -> bool {
    &&& in_due_order(due)
    &&& due.to_multiset() == before.filter(|t: TimerView| t.1 <= now)
    &&& left == before.filter(|t: TimerView| now < t.1)
}

/// The timers that are set when each of `delays` starts at `now`, in any order.
pub open spec fn started(delays: Seq<(usize, Duration)>, now: nat) -> Multiset<TimerView> {
    delays.map_values(|d: (usize, Duration)| (d.0, after(now, d.1@))).to_multiset()
}

/// `wait` is the time from `now` until the first of the timers falls due, if there is a timer.
pub open spec fn till_first(timers: Multiset<TimerView>, now: nat, wait: Option<Duration>) -> bool {
    &&& wait is None <==> timers.len() == 0
    &&& wait is Some ==> exists|deadline: nat| #[trigger]
        is_earliest(timers, deadline) && wait->0@ == until(now, deadline)
}

/// What is left of a wait of `timeout` that the timers, at `now`, cut short: `wait`.
pub open spec fn cut_short(
    timers: Multiset<TimerView>,
    now: nat,
    timeout: Option<Duration>,
    wait: Option<Duration>,
) -> bool {
    if timers.len() == 0 {
        wait == timeout
    } else {
        exists|deadline: nat| #[trigger]
            is_earliest(timers, deadline) && wait is Some && wait->0@ == (match timeout {
                Some(t) if t@ < until(now, deadline) => t@,
                _ => until(now, deadline),
            })
    }
}

impl View for TimerWheel {
    type V = Multiset<TimerView>;

    closed spec fn view(&self) -> Multiset<TimerView> {
        timer_views(self.heap@).to_multiset()
    }
}

impl TimerWheel {
    /// The timers are kept in order.
    pub closed spec fn wf(&self) -> bool {
        heap_ordered(self.heap@)
    }

    /// Creates a wheel without timers and with room for `cap` of them.
    pub fn with_capacity(cap: usize) -> (w: Self)
        ensures
            w.wf(),
            w.clock().is_started(),
            w@ == Multiset::<TimerView>::empty(),
    {
        let w = TimerWheel { clock: Clock::start(), heap: Vec::with_capacity(cap) };
        proof {
            broadcast use vstd::seq_lib::group_to_multiset_ensures;

            assert(timer_views(w.heap@) =~= Seq::empty());
            assert(w@ =~= Multiset::<TimerView>::empty());
        }
        w
    }

    /// The clock that the timers run on.
    pub closed spec fn clock(&self) -> Clock {
        self.clock
    }

    /// The wheel's clock can show the time `now`.
    pub open spec fn shows(&self, now: nat) -> bool {
        self.clock().shows(now)
    }

    /// The time on the wheel's clock.
    pub fn now(&self) -> (now: Moment)
        ensures
            self.shows(now@),
    {
        self.clock.now()
    }

    /// Sets a timer that falls due when `delay` has passed since `now`.
    pub fn insert_at(&mut self, now: Moment, key: usize, delay: Duration)
        requires
            old(self).wf(),
        ensures
            final(self).wf(),
            final(self).clock() == old(self).clock(),
            final(self)@ == old(self)@.insert((key, after(now@, delay@))),
    {
        let timer = Timer { key, deadline: now.saturating_add(delay) };
        let last: usize = self.heap.len();
        self.heap.push(timer);
        proof {
            broadcast use vstd::seq_lib::group_to_multiset_ensures;

            assert(timer_views(self.heap@) =~= timer_views(old(self).heap@).push(timer@));
            assert forall|i: int| 0 < i < self.heap.len() && i != last implies self.heap@[(i - 1)
                / 2].deadline@ <= (#[trigger] self.heap@[i]).deadline@ by {
                assert(old(self).heap@[i].deadline@ >= old(self).heap@[(i - 1) / 2].deadline@);
            }
        }
        sift_up(&mut self.heap, last);
    }

    /// Sets a timer that falls due when `delay` has passed from now on.
    pub fn insert(&mut self, key: usize, delay: Duration)
        requires
            old(self).wf(),
        ensures
            final(self).wf(),
            final(self).clock() == old(self).clock(),
            exists|now: nat| #[trigger]
                old(self).shows(now) && final(self)@ == old(self)@.insert((key, after(now, delay@))),
    {
        let now = self.now();
        self.insert_at(now, key, delay);
    }

    /// Takes out the timer that is due first.
    fn pop(&mut self) -> (first: Timer)
        requires
            old(self).wf(),
            old(self).heap.len() > 0,
        ensures
            final(self).wf(),
            final(self).clock() == old(self).clock(),
            final(self).heap.len() == old(self).heap.len() - 1,
            first == old(self).heap@[0],
            old(self)@ == final(self)@.insert(first@),
            forall|t: TimerView| #[trigger] old(self)@.contains(t) ==> first@.1 <= t.1,
    {
        let last: usize = self.heap.len() - 1;
        proof {
            self.lemma_front();
        }
        swap(&mut self.heap, 0, last);
        let ghost swapped = self.heap@;
        let first = self.heap.pop().unwrap();
        proof {
            broadcast use vstd::seq_lib::group_to_multiset_ensures;

            assert(timer_views(swapped) =~= timer_views(self.heap@).push(first@));
            assert forall|i: int| 0 < i < self.heap.len() && (i - 1) / 2 != 0 implies self.heap@[(i
                - 1) / 2].deadline@ <= (#[trigger] self.heap@[i]).deadline@ by {
                assert(old(self).heap@[i].deadline@ >= old(self).heap@[(i - 1) / 2].deadline@);
            }
        }
        sift_down(&mut self.heap);
        first
    }

    /// The wheel is empty exactly when its heap is, and otherwise the front of the heap is due first.
    proof fn lemma_front(&self)
        requires
            self.wf(),
        ensures
            self@.len() == self.heap.len(),
            forall|t: TimerView| self.heap.len() > 0 && #[trigger] self@.contains(t) ==> self.heap@[0].deadline@
                <= t.1,
            self.heap.len() > 0 ==> self@.contains(self.heap@[0]@),
    {
        broadcast use vstd::seq_lib::group_to_multiset_ensures;

        let views = timer_views(self.heap@);
        assert forall|t: TimerView| self.heap.len() > 0 && #[trigger] self@.contains(t) implies self.heap@[0].deadline@
            <= t.1 by {
            assert(views.contains(t));
            let i = choose|i: int| 0 <= i < views.len() && views[i] == t;
            lemma_first_is_earliest(self.heap@, i);
        }
        if self.heap.len() > 0 {
            assert(views[0] == self.heap@[0]@);
            assert(views.contains(views[0]));
        }
    }

    /// The time from `now` until the first timer falls due, if there is a timer.
    pub fn duration_till_next_timer_at(&self, now: Moment) -> (wait: Option<Duration>)
        requires
            self.wf(),
        ensures
            till_first(self@, now@, wait),
    {
        proof {
            self.lemma_front();
        }
        if self.heap.len() == 0 {
            None
        } else {
            let first = self.heap[0];
            proof {
                assert(is_earliest(self@, first.deadline@));
            }
            Some(first.deadline.saturating_duration_since(now))
        }
    }

    /// The time until the first timer falls due, if there is a timer.
    pub fn duration_till_next_timer(&self) -> (wait: Option<Duration>)
        requires
            self.wf(),
        ensures
            exists|now: nat| self.shows(now) && #[trigger] till_first(self@, now, wait),
    {
        let now = self.now();
        self.duration_till_next_timer_at(now)
    }

    /// The given timeout, or the time from `now` until the first timer falls due, whichever is shorter.
    pub fn till_next_timer_or_timeout_at(&self, now: Moment, timeout: Option<Duration>) -> (wait: Option<
        Duration,
    >)
        requires
            self.wf(),
        ensures
            cut_short(self@, now@, timeout, wait),
    {
        match self.duration_till_next_timer_at(now) {
            Some(next_timer_delay) => match timeout {
                Some(t) => Some(t.min(next_timer_delay)),
                None => Some(next_timer_delay),
            },
            None => timeout,
        }
    }

    /// The given timeout, or the time until the first timer falls due, whichever is shorter.
    pub fn till_next_timer_or_timeout(&self, timeout: Option<Duration>) -> (wait: Option<Duration>)
        requires
            self.wf(),
        ensures
            exists|now: nat| self.shows(now) && #[trigger] cut_short(self@, now, timeout, wait),
    {
        let now = self.now();
        self.till_next_timer_or_timeout_at(now, timeout)
    }

    /// Takes out the timers that have fallen due at `now` and reports them as completed with the result 0,
    /// the earliest first. Returns whether there were any, and the time until the next timer.
    pub fn expire_timers_at(&mut self, now: Moment, entries: &mut Vec<Entry>) -> (r: (
        bool,
        Option<Duration>,
    ))
        requires
            old(self).wf(),
        ensures
            final(self).wf(),
            final(self).clock() == old(self).clock(),
            exists|due: Seq<TimerView>| #[trigger]
                expires(old(self)@, now@, due, final(self)@) && final(entries)@ == old(entries)@
                    + timer_entries(due) && r.0 == (due.len() > 0),
            till_first(final(self)@, now@, r.1),
    {
        broadcast use vstd::seq_lib::group_to_multiset_ensures;

        let mut expired = false;
        let ghost mut due = Seq::<TimerView>::empty();
        proof {
            assert(due.to_multiset() =~= Multiset::empty());
        }
        loop
            invariant
                self.wf(),
                self.clock() == old(self).clock(),
                expired == (due.len() > 0),
                in_due_order(due),
                old(self)@ =~= self@.add(due.to_multiset()),
                forall|i: int| 0 <= i < due.len() ==> (#[trigger] due[i]).1 <= now@,
                forall|i: int, t: TimerView|
                    0 <= i < due.len() && self@.contains(t) ==> (#[trigger] due[i]).1 <= (#[trigger] t.1),
                entries@ =~= old(entries)@ + timer_entries(due),
            ensures
                forall|t: TimerView| #[trigger] self@.contains(t) ==> now@ < t.1,
            decreases self.heap.len(),
        {
            proof {
                self.lemma_front();
            }
            if self.heap.len() == 0 {
                break;
            }
            let till_due = self.heap[0].deadline.saturating_duration_since(now);
            if !till_due.is_zero() {
                break;
            }
            let ghost before = self@;
            let timer = self.pop();
            expired = true;
            entries.push(Entry::new(timer.key, Ok(0)));
            proof {
                broadcast use vstd::seq_lib::group_to_multiset_ensures;

                let next = due.push(timer@);
                assert(next.to_multiset() =~= due.to_multiset().insert(timer@));
                assert forall|i: int, t: TimerView|
                    0 <= i < next.len() && self@.contains(t) implies (#[trigger] next[i]).1 <= (#[trigger] t.1) by {
                    assert(before.contains(t));
                }
                assert(before.contains(timer@));
                due = next;
            }
        }
        proof {
            self.lemma_front();
            assert(due.to_multiset() =~= old(self)@.filter(|t: TimerView| t.1 <= now@)) by {
                assert forall|t: TimerView| #![auto]
                    due.to_multiset().count(t) == old(self)@.filter(|t: TimerView| t.1 <= now@).count(
                        t,
                    ) by {
                    if due.to_multiset().contains(t) {
                        assert(due.contains(t));
                    }
                    if self@.contains(t) {
                    }
                }
            }
            assert(self@ =~= old(self)@.filter(|t: TimerView| now@ < t.1)) by {
                assert forall|t: TimerView| #![auto]
                    self@.count(t) == old(self)@.filter(|t: TimerView| now@ < t.1).count(t) by {
                    if due.to_multiset().contains(t) {
                        assert(due.contains(t));
                    }
                    if self@.contains(t) {
                    }
                }
            }
            assert(expires(old(self)@, now@, due, self@));
        }
        (expired, self.duration_till_next_timer_at(now))
    }

    /// Takes out the timers that have fallen due and reports them as completed with the result 0, the
    /// earliest first. Returns the expired flag and the duration till the next timer.
    pub fn expire_timers(&mut self, entries: &mut Vec<Entry>) -> (r: (bool, Option<Duration>))
        requires
            old(self).wf(),
        ensures
            final(self).wf(),
            final(self).clock() == old(self).clock(),
            exists|now: nat, due: Seq<TimerView>| #[trigger]
                expires(old(self)@, now, due, final(self)@) && old(self).shows(now) && final(entries)@
                    == old(entries)@ + timer_entries(due) && r.0 == (due.len() > 0) && till_first(
                    final(self)@,
                    now,
                    r.1,
                ),
    {
        let now = self.now();
        self.expire_timers_at(now, entries)
    }

    /// Sets all the given timers, each to fall due when its delay has passed since `now`.
    pub fn extend_at(&mut self, now: Moment, delays: &Vec<(usize, Duration)>)
        requires
            old(self).wf(),
        ensures
            final(self).wf(),
            final(self).clock() == old(self).clock(),
            final(self)@ == old(self)@.add(started(delays@, now@)),
    {
        broadcast use vstd::seq_lib::group_to_multiset_ensures;

        let mut i: usize = 0;
        proof {
            assert(started(delays@.take(0), now@) =~= Multiset::empty());
        }
        while i < delays.len()
            invariant
                i <= delays.len(),
                self.wf(),
                self.clock() == old(self).clock(),
                self@ =~= old(self)@.add(started(delays@.take(i as int), now@)),
            decreases delays.len() - i,
        {
            let (key, delay) = delays[i];
            self.insert_at(now, key, delay);
            proof {
                broadcast use vstd::seq_lib::group_to_multiset_ensures;

                let views = |s: Seq<(usize, Duration)>|
                    s.map_values(|d: (usize, Duration)| (d.0, after(now@, d.1@)));
                assert(views(delays@.take(i + 1)) =~= views(delays@.take(i as int)).push(
                    (key, after(now@, delay@)),
                ));
            }
            i += 1;
        }
        proof {
            assert(delays@.take(i as int) =~= delays@);
        }
    }

    /// Sets all the given timers, each to fall due when its delay has passed from now on.
    pub fn extend(&mut self, delays: &Vec<(usize, Duration)>)
        requires
            old(self).wf(),
        ensures
            final(self).wf(),
            final(self).clock() == old(self).clock(),
            exists|now: nat| #[trigger]
                old(self).shows(now) && final(self)@ == old(self)@.add(started(delays@, now)),
    {
        let now = self.now();
        self.extend_at(now, delays);
    }
}

/// Timeout operation completes after the given relative timeout duration.
///
/// If supported by the platform, the time spent in low power modes or suspend is taken into account.
#[derive(Clone, Copy, Debug)]
pub struct Timeout {
    /// The delay.
    pub delay: Duration,
}

impl Timeout {
    /// Creates `Timeout` with the provided duration.
    pub fn new(delay: Duration) -> (op: Self)
        ensures
            op.delay == delay,
    {
        Timeout { delay }
    }
}

/// A timer is reported as soon as its delay has passed since it was set, and not before. Once reported it is
/// gone.
pub proof fn law_timer_expires_when_due(
    before: Multiset<TimerView>,
    key: usize,
    start: nat,
    delay: nat,
    now: nat,
    due: Seq<TimerView>,
    left: Multiset<TimerView>,
)
    requires
        start + delay <= MAX_NANOS,
        !before.contains((key, start + delay)),
        expires(before.insert((key, after(start, delay))), now, due, left),
    ensures
        start + delay <= now ==> due.contains((key, start + delay)) && !left.contains(
            (key, start + delay),
        ),
        now < start + delay ==> !due.contains((key, start + delay)) && left.contains(
            (key, start + delay),
        ),
{
    broadcast use vstd::seq_lib::group_to_multiset_ensures;

    let timer = (key, start + delay);
    assert(due.to_multiset().count(timer) == before.insert(timer).filter(
        |t: TimerView| t.1 <= now,
    ).count(timer));
    assert(left.count(timer) == before.insert(timer).filter(|t: TimerView| now < t.1).count(timer));
}

/// No timer is lost or reported twice: each is either reported or still runs.
pub proof fn law_expiry_conserves_timers(
    before: Multiset<TimerView>,
    now: nat,
    due: Seq<TimerView>,
    left: Multiset<TimerView>,
)
    requires
        expires(before, now, due, left),
    ensures
        before == left.add(due.to_multiset()),
{
    assert(before =~= left.add(due.to_multiset()));
}

/// A wait is over when the first timer falls due at the latest, and never takes longer than the timeout.
pub proof fn law_wait_ends_in_time(
    timers: Multiset<TimerView>,
    now: nat,
    timeout: Option<Duration>,
    wait: Option<Duration>,
)
    requires
        cut_short(timers, now, timeout, wait),
    ensures
        timeout is Some ==> wait is Some && wait->0@ <= timeout->0@,
        forall|t: TimerView| #[trigger]
            timers.contains(t) ==> wait is Some && (now + wait->0@ <= t.1 || (t.1 < now && wait->0@ == 0)),
{
    if timers.len() > 0 {
        let deadline = choose|deadline: nat| #[trigger]
            is_earliest(timers, deadline) && wait is Some && wait->0@ == (match timeout {
                Some(t) if t@ < until(now, deadline) => t@,
                _ => until(now, deadline),
            });
        assert(is_earliest(timers, deadline));
    } else {
        assert forall|t: TimerView| !(#[trigger] timers.contains(t)) by {
            if timers.contains(t) {
                assert(timers.remove(t).len() + 1 == timers.len());
            }
        }
    }
}

/// A timer that is set falls due exactly when its delay has passed, under its key, and leaves the others as they are.
pub proof fn law_timer_is_set(before: TimerWheel, now: Moment, key: usize, delay: Duration)
    requires
        now@ + delay@ <= u64::MAX * 1_000_000_000 + 999_999_999,
    ensures
        forall|wheel: &mut TimerWheel|
            *wheel == before && #[trigger] call_ensures(TimerWheel::insert_at, (wheel, now, key, delay), ())
                ==> final(wheel)@ == before@.insert((key, now@ + delay@)) && final(wheel).clock() == before.clock(),
        forall|wheel: &mut TimerWheel|
            *wheel == before && #[trigger] call_ensures(TimerWheel::insert, (wheel, key, delay), ()) ==> exists|
                start: nat,
            |
                #[trigger] before.shows(start) && (start + delay@ <= u64::MAX * 1_000_000_000 + 999_999_999
                    ==> final(wheel)@ == before@.insert((key, start + delay@))),
{
}

/// The timers whose time has come are taken out and reported, each once and under its key, with the result 0, the
/// earliest first; the others stay. The result tells whether there were any, and how long the next one will take.
pub proof fn law_expired_timers_are_reported(before: TimerWheel, now: Moment, output: Seq<Entry>)
    requires
        before.wf(),
    ensures
        forall|wheel: &mut TimerWheel, entries: &mut Vec<Entry>, r: (bool, Option<Duration>)|
            *wheel == before && entries@ == output && #[trigger] call_ensures(
                TimerWheel::expire_timers_at,
                (wheel, now, entries),
                r,
            ) ==> {
                let more = final(entries)@.skip(output.len() as int);
                &&& final(entries)@.len() >= output.len()
                &&& final(entries)@.take(output.len() as int) == output
                &&& forall|i: int| 0 <= i < more.len() ==> (#[trigger] more[i]).result == Ok::<usize, IoError>(0)
                &&& forall|t: TimerView| #[trigger]
                    final(wheel)@.count(t) == if t.1 <= now@ {
                        0
                    } else {
                        before@.count(t)
                    }
                &&& exists|due: Seq<TimerView>|
                    {
                        &&& #[trigger] in_due_order(due)
                        &&& forall|i: int, j: int|
                            0 <= i < j < due.len() ==> (#[trigger] due[i]).1 <= (#[trigger] due[j]).1
                        &&& due.len() == more.len()
                        &&& forall|i: int| 0 <= i < due.len() ==> (#[trigger] more[i]).user_data == due[i].0
                        &&& forall|t: TimerView| #[trigger]
                            due.to_multiset().count(t) == if t.1 <= now@ {
                                before@.count(t)
                            } else {
                                0
                            }
                    }
                &&& r.0 <==> more.len() > 0
            },
{
    assert forall|wheel: &mut TimerWheel, entries: &mut Vec<Entry>, r: (bool, Option<Duration>)|
        *wheel == before && entries@ == output && #[trigger] call_ensures(
            TimerWheel::expire_timers_at,
            (wheel, now, entries),
            r,
        ) implies {
        let more = final(entries)@.skip(output.len() as int);
        &&& final(entries)@.len() >= output.len()
        &&& final(entries)@.take(output.len() as int) == output
        &&& forall|i: int| 0 <= i < more.len() ==> (#[trigger] more[i]).result == Ok::<usize, IoError>(0)
        &&& forall|t: TimerView| #[trigger]
            final(wheel)@.count(t) == if t.1 <= now@ {
                0
            } else {
                before@.count(t)
            }
        &&& exists|due: Seq<TimerView>|
            {
                &&& #[trigger] in_due_order(due)
                &&& forall|i: int, j: int|
                    0 <= i < j < due.len() ==> (#[trigger] due[i]).1 <= (#[trigger] due[j]).1
                &&& due.len() == more.len()
                &&& forall|i: int| 0 <= i < due.len() ==> (#[trigger] more[i]).user_data == due[i].0
                &&& forall|t: TimerView| #[trigger]
                    due.to_multiset().count(t) == if t.1 <= now@ {
                        before@.count(t)
                    } else {
                        0
                    }
            }
        &&& r.0 <==> more.len() > 0
    } by {
        let due = choose|due: Seq<TimerView>| #[trigger]
            expires(before@, now@, due, final(wheel)@) && final(entries)@ == output + timer_entries(due) && r.0
                == (due.len() > 0);
        assert(expires(before@, now@, due, final(wheel)@));
        let more = final(entries)@.skip(output.len() as int);
        assert(more =~= timer_entries(due));
        assert(final(entries)@.take(output.len() as int) =~= output);
        assert(in_due_order(due));
    }
}

/// A wait that timers cut short is over exactly when the first of them falls due, or with the timeout if that is
/// earlier; without timers it takes as long as the timeout says.
pub proof fn law_wait_takes_as_long_as_it_can(
    wheel: TimerWheel,
    now: Moment,
    timeout: Option<Duration>,
    wait: Option<Duration>,
)
    requires
        call_ensures(TimerWheel::till_next_timer_or_timeout_at, (&wheel, now, timeout), wait),
    ensures
        wheel@.len() == 0 ==> wait == timeout,
        wheel@.len() > 0 ==> {
            &&& wait is Some
            &&& timeout is Some ==> wait->0@ <= timeout->0@
            &&& forall|t: TimerView| #[trigger]
                wheel@.contains(t) ==> now@ + wait->0@ <= t.1 || (t.1 <= now@ && wait->0@ == 0)
            &&& (timeout is Some && wait->0@ == timeout->0@) || exists|t: TimerView| #[trigger]
                wheel@.contains(t) && (now@ + wait->0@ == t.1 || (t.1 <= now@ && wait->0@ == 0))
        },
{
    if wheel@.len() > 0 {
        let deadline = choose|deadline: nat| #[trigger]
            is_earliest(wheel@, deadline) && wait is Some && wait->0@ == (match timeout {
                Some(t) if t@ < until(now@, deadline) => t@,
                _ => until(now@, deadline),
            });
        assert(is_earliest(wheel@, deadline));
        let t = choose|t: TimerView| #[trigger] wheel@.contains(t) && t.1 == deadline;
        assert(wheel@.contains(t));
    }
}

/// The time till the next timer is the time till the earliest, and there is none exactly if there is no timer.
pub proof fn law_next_timer_is_the_earliest(wheel: TimerWheel, now: Moment, wait: Option<Duration>)
    requires
        call_ensures(TimerWheel::duration_till_next_timer_at, (&wheel, now), wait),
    ensures
        wait is None <==> wheel@.len() == 0,
        wait is Some ==> {
            &&& forall|t: TimerView| #[trigger]
                wheel@.contains(t) ==> now@ + wait->0@ <= t.1 || (t.1 <= now@ && wait->0@ == 0)
            &&& exists|t: TimerView| #[trigger]
                wheel@.contains(t) && (now@ + wait->0@ == t.1 || (t.1 <= now@ && wait->0@ == 0))
        },
{
    if wait is Some {
        let deadline = choose|deadline: nat| #[trigger]
            is_earliest(wheel@, deadline) && wait->0@ == until(now@, deadline);
        assert(is_earliest(wheel@, deadline));
        let t = choose|t: TimerView| #[trigger] wheel@.contains(t) && t.1 == deadline;
        assert(wheel@.contains(t));
    }
}

/// Timers that are set together are set as if one after the other.
pub proof fn law_timers_set_together(before: TimerWheel, now: Moment, delays: Vec<(usize, Duration)>)
    requires
        forall|i: int|
            0 <= i < delays@.len() ==> now@ + (#[trigger] delays@[i]).1@ <= u64::MAX * 1_000_000_000
                + 999_999_999,
    ensures
        forall|wheel: &mut TimerWheel|
            *wheel == before && #[trigger] call_ensures(TimerWheel::extend_at, (wheel, now, &delays), ()) ==> {
                &&& final(wheel)@ == before@.add(
                    delays@.map_values(|d: (usize, Duration)| (d.0, now@ + d.1@)).to_multiset(),
                )
                &&& final(wheel).clock() == before.clock()
            },
{
    assert(delays@.map_values(|d: (usize, Duration)| (d.0, after(now@, d.1@))) =~= delays@.map_values(
        |d: (usize, Duration)| (d.0, now@ + d.1@),
    ));
}

/// A new wheel has no timers, and a timeout operation has the delay that it was made with.
pub proof fn law_new_wheel(cap: usize, wheel: TimerWheel, delay: Duration, op: Timeout)
    requires
        call_ensures(TimerWheel::with_capacity, (cap,), wheel),
        call_ensures(Timeout::new, (delay,), op),
    ensures
        wheel@.len() == 0,
        op.delay == delay,
{
}

/// By the clock, a wait takes no longer than the timeout, and as long as that if no timer runs. Where one runs, it ends
/// when the first falls due at the latest, and not before unless the timeout is over.
pub proof fn law_wait_by_the_clock(wheel: TimerWheel, timeout: Option<Duration>, wait: Option<Duration>)
    requires
        call_ensures(TimerWheel::till_next_timer_or_timeout, (&wheel, timeout), wait),
    ensures
        wheel@.len() == 0 ==> wait == timeout,
        timeout is Some ==> wait is Some && wait->0@ <= timeout->0@,
        wheel@.len() > 0 ==> exists|now: nat| #[trigger]
            wheel.shows(now) && wait is Some && (forall|t: TimerView| #[trigger]
                wheel@.contains(t) ==> now + wait->0@ <= t.1 || (t.1 <= now && wait->0@ == 0)) && ((timeout is Some
                && wait->0@ == timeout->0@) || exists|t: TimerView| #[trigger]
                wheel@.contains(t) && (now + wait->0@ == t.1 || (t.1 <= now && wait->0@ == 0))),
{
    let now = choose|now: nat| wheel.shows(now) && #[trigger] cut_short(wheel@, now, timeout, wait);
    assert(wheel.shows(now) && cut_short(wheel@, now, timeout, wait));
    law_wait_ends_in_time(wheel@, now, timeout, wait);
    if wheel@.len() > 0 {
        let deadline = choose|deadline: nat| #[trigger]
            is_earliest(wheel@, deadline) && wait is Some && wait->0@ == (match timeout {
                Some(t) if t@ < until(now, deadline) => t@,
                _ => until(now, deadline),
            });
        assert(is_earliest(wheel@, deadline));
        let t = choose|t: TimerView| #[trigger] wheel@.contains(t) && t.1 == deadline;
        assert(wheel@.contains(t));
    }
}

/// By the clock, the time until the next timer is that until the earliest of them, and there is none without a timer.
pub proof fn law_next_timer_by_the_clock(wheel: TimerWheel, wait: Option<Duration>)
    requires
        call_ensures(TimerWheel::duration_till_next_timer, (&wheel,), wait),
    ensures
        wait is None <==> wheel@.len() == 0,
        wait is Some ==> exists|now: nat| #[trigger]
            wheel.shows(now) && (forall|t: TimerView| #[trigger]
                wheel@.contains(t) ==> now + wait->0@ <= t.1 || (t.1 <= now && wait->0@ == 0)) && exists|t: TimerView|
                #[trigger] wheel@.contains(t) && (now + wait->0@ == t.1 || (t.1 <= now && wait->0@ == 0)),
{
    let now = choose|now: nat| wheel.shows(now) && #[trigger] till_first(wheel@, now, wait);
    assert(wheel.shows(now) && till_first(wheel@, now, wait));
    if wait is Some {
        let deadline = choose|deadline: nat| #[trigger]
            is_earliest(wheel@, deadline) && wait->0@ == until(now, deadline);
        assert(is_earliest(wheel@, deadline));
        let t = choose|t: TimerView| #[trigger] wheel@.contains(t) && t.1 == deadline;
        assert(wheel@.contains(t));
    }
}

/// By the clock, the timers whose time has come are taken out and reported, each once and under its key, with the
/// result 0, the earliest first; the others stay. The result tells whether there were any, and how long the next one
/// will take.
pub proof fn law_expired_by_the_clock(before: TimerWheel, output: Seq<Entry>)
    requires
        before.wf(),
    ensures
        forall|wheel: &mut TimerWheel, entries: &mut Vec<Entry>, r: (bool, Option<Duration>)|
            *wheel == before && entries@ == output && #[trigger] call_ensures(
                TimerWheel::expire_timers,
                (wheel, entries),
                r,
            ) ==> {
                let more = final(entries)@.skip(output.len() as int);
                &&& final(entries)@.len() >= output.len()
                &&& final(entries)@.take(output.len() as int) == output
                &&& r.0 <==> more.len() > 0
                &&& r.1 is None <==> final(wheel)@.len() == 0
                &&& forall|i: int| 0 <= i < more.len() ==> (#[trigger] more[i]).result == Ok::<usize, IoError>(0)
                &&& exists|now: nat, due: Seq<TimerView>|
                    {
                        &&& #[trigger] before.shows(now)
                        &&& #[trigger] in_due_order(due)
                        &&& forall|i: int, j: int|
                            0 <= i < j < due.len() ==> (#[trigger] due[i]).1 <= (#[trigger] due[j]).1
                        &&& due.len() == more.len()
                        &&& forall|i: int| 0 <= i < due.len() ==> (#[trigger] more[i]).user_data == due[i].0
                        &&& forall|t: TimerView| #[trigger]
                            due.to_multiset().count(t) == if t.1 <= now {
                                before@.count(t)
                            } else {
                                0
                            }
                        &&& forall|t: TimerView| #[trigger]
                            final(wheel)@.count(t) == if t.1 <= now {
                                0
                            } else {
                                before@.count(t)
                            }
                    }
            },
{
    assert forall|wheel: &mut TimerWheel, entries: &mut Vec<Entry>, r: (bool, Option<Duration>)|
        *wheel == before && entries@ == output && #[trigger] call_ensures(
            TimerWheel::expire_timers,
            (wheel, entries),
            r,
        ) implies {
        let more = final(entries)@.skip(output.len() as int);
        &&& final(entries)@.len() >= output.len()
        &&& final(entries)@.take(output.len() as int) == output
        &&& r.0 <==> more.len() > 0
        &&& r.1 is None <==> final(wheel)@.len() == 0
        &&& forall|i: int| 0 <= i < more.len() ==> (#[trigger] more[i]).result == Ok::<usize, IoError>(0)
        &&& exists|now: nat, due: Seq<TimerView>|
            {
                &&& #[trigger] before.shows(now)
                &&& #[trigger] in_due_order(due)
                &&& forall|i: int, j: int|
                    0 <= i < j < due.len() ==> (#[trigger] due[i]).1 <= (#[trigger] due[j]).1
                &&& due.len() == more.len()
                &&& forall|i: int| 0 <= i < due.len() ==> (#[trigger] more[i]).user_data == due[i].0
                &&& forall|t: TimerView| #[trigger]
                    due.to_multiset().count(t) == if t.1 <= now {
                        before@.count(t)
                    } else {
                        0
                    }
                &&& forall|t: TimerView| #[trigger]
                    final(wheel)@.count(t) == if t.1 <= now {
                        0
                    } else {
                        before@.count(t)
                    }
            }
    } by {
        let left = final(wheel)@;
        let (now, due) = choose|now: nat, due: Seq<TimerView>| #[trigger]
            expires(before@, now, due, left) && before.shows(now) && final(entries)@ == output
                + timer_entries(due) && r.0 == (due.len() > 0) && till_first(left, now, r.1);
        assert(expires(before@, now, due, left));
        let more = final(entries)@.skip(output.len() as int);
        assert(final(entries)@.take(output.len() as int) =~= output);
        assert(more =~= timer_entries(due));
        assert(before.shows(now) && in_due_order(due));
    }
}

/// Of the timers `before`, those whose time has come at `now` are gone from `after` and stand in `due`, the earliest
/// first, and `more` reports each of them under its key, with the result 0; the others are still there.
pub open spec fn reports_what_is_due(
    before: Multiset<TimerView>,
    after: Multiset<TimerView>,
    now: nat,
    due: Seq<TimerView>,
    more: Seq<Entry>,
) -> bool {
    &&& forall|i: int, j: int| 0 <= i < j < due.len() ==> (#[trigger] due[i]).1 <= (#[trigger] due[j]).1
    &&& forall|t: TimerView| #[trigger]
        due.to_multiset().count(t) == if t.1 <= now {
            before.count(t)
        } else {
            0
        }
    &&& forall|t: TimerView| #[trigger]
        after.count(t) == if t.1 <= now {
            0
        } else {
            before.count(t)
        }
    &&& more.len() == due.len()
    &&& forall|i: int|
        0 <= i < due.len() ==> (#[trigger] more[i]).user_data == due[i].0 && more[i].result == Ok::<usize, IoError>(0)
}

/// What expires is what is due.
pub proof fn law_what_expires_is_due(
    before: Multiset<TimerView>,
    after: Multiset<TimerView>,
    now: nat,
    due: Seq<TimerView>,
)
    requires
        expires(before, now, due, after),
    ensures
        reports_what_is_due(before, after, now, due, timer_entries(due)),
{
}

/// A wait that starts at `now` is over, at the latest, when the timeout is or when the first of the timers falls due,
/// and not before.
pub open spec fn waits_as_long_as_it_can(
    timers: Multiset<TimerView>,
    now: nat,
    timeout: Option<Duration>,
    wait: Option<Duration>,
) -> bool {
    &&& timers.len() == 0 ==> wait == timeout
    &&& timers.len() > 0 ==> {
        &&& wait is Some
        &&& timeout is Some ==> wait->0@ <= timeout->0@
        &&& forall|t: TimerView| #[trigger]
            timers.contains(t) ==> now + wait->0@ <= t.1 || (t.1 <= now && wait->0@ == 0)
        &&& (timeout is Some && wait->0@ == timeout->0@) || exists|t: TimerView| #[trigger]
            timers.contains(t) && (now + wait->0@ == t.1 || (t.1 <= now && wait->0@ == 0))
    }
}

/// A wait that is cut short is as long as it can be.
pub proof fn law_cut_short_as_little_as_possible(
    timers: Multiset<TimerView>,
    now: nat,
    timeout: Option<Duration>,
    wait: Option<Duration>,
)
    requires
        cut_short(timers, now, timeout, wait),
    ensures
        waits_as_long_as_it_can(timers, now, timeout, wait),
{
    law_wait_ends_in_time(timers, now, timeout, wait);
    if timers.len() > 0 {
        let deadline = choose|deadline: nat| #[trigger]
            is_earliest(timers, deadline) && wait is Some && wait->0@ == (match timeout {
                Some(t) if t@ < until(now, deadline) => t@,
                _ => until(now, deadline),
            });
        assert(is_earliest(timers, deadline));
        let t = choose|t: TimerView| #[trigger] timers.contains(t) && t.1 == deadline;
        assert(timers.contains(t));
    }
}

/// By the clock, timers that are set together are set as if one after the other, all from the same time on.
pub proof fn law_set_together_by_the_clock(before: TimerWheel, delays: Vec<(usize, Duration)>)
    ensures
        forall|wheel: &mut TimerWheel|
            *wheel == before && #[trigger] call_ensures(TimerWheel::extend, (wheel, &delays), ()) ==> exists|now: nat|
                #[trigger] before.shows(now) && ((forall|i: int|
                    0 <= i < delays@.len() ==> now + (#[trigger] delays@[i]).1@ <= u64::MAX * 1_000_000_000
                        + 999_999_999) ==> final(wheel)@ == before@.add(
                    delays@.map_values(|d: (usize, Duration)| (d.0, now + d.1@)).to_multiset(),
                )),
{
    assert forall|wheel: &mut TimerWheel|
        *wheel == before && #[trigger] call_ensures(TimerWheel::extend, (wheel, &delays), ()) implies exists|now: nat|
        #[trigger] before.shows(now) && ((forall|i: int|
            0 <= i < delays@.len() ==> now + (#[trigger] delays@[i]).1@ <= u64::MAX * 1_000_000_000 + 999_999_999)
            ==> final(wheel)@ == before@.add(
            delays@.map_values(|d: (usize, Duration)| (d.0, now + d.1@)).to_multiset(),
        )) by {
        let now = choose|now: nat| #[trigger]
            before.shows(now) && final(wheel)@ == before@.add(started(delays@, now));
        assert(before.shows(now));
        if forall|i: int|
            0 <= i < delays@.len() ==> now + (#[trigger] delays@[i]).1@ <= u64::MAX * 1_000_000_000 + 999_999_999 {
            assert(delays@.map_values(|d: (usize, Duration)| (d.0, after(now, d.1@))) =~= delays@.map_values(
                |d: (usize, Duration)| (d.0, now + d.1@),
            ));
        }
    }
}

} // verus!
