//! Spans and points of time, and the clock that timers run on.
use vstd::prelude::*;

verus! {

/// Nanoseconds in a second.
pub const NANOS_PER_SEC: u128 = 1_000_000_000;

/// The longest span: `u64::MAX` seconds and all but one of the next second's nanoseconds.
pub const MAX_NANOS: u128 = 18_446_744_073_709_551_615_999_999_999;

/// A span of time. Its view is the number of nanoseconds.
#[derive(Clone, Copy, Debug, PartialEq, Eq, Structural)]
pub struct Duration {
    nanos: u128,
}

impl View for Duration {
    type V = nat;

    closed spec fn view(&self) -> nat {
        self.nanos as nat
    }
}

impl Duration {
    #[verifier::type_invariant]
    closed spec fn in_range(self) -> bool {
        self.nanos <= MAX_NANOS
    }

    /// A span of whole seconds and nanoseconds below the second.
    pub fn new(secs: u64, subsec_nanos: u32) -> (d: Self)
        requires
            subsec_nanos < NANOS_PER_SEC,
        ensures
            d@ == secs * NANOS_PER_SEC + subsec_nanos,
    {
        let nanos: u128 = secs as u128 * NANOS_PER_SEC + subsec_nanos as u128;
        Duration { nanos }
    }

    /// The empty span.
    pub fn zero() -> (d: Self)
        ensures
            d@ == 0,
    {
        Duration { nanos: 0 }
    }

    /// A span of milliseconds.
    pub fn from_millis(millis: u64) -> (d: Self)
        ensures
            d@ == millis * 1_000_000,
    {
        Duration { nanos: millis as u128 * 1_000_000 }
    }

    /// Whether the span is empty.
    pub fn is_zero(&self) -> (empty: bool)
        ensures
            empty == (self@ == 0),
    {
        self.nanos == 0
    }

    /// The whole seconds of the span.
    pub fn as_secs(&self) -> (secs: u64)
        ensures
            secs as nat == self@ / (NANOS_PER_SEC as nat),
    {
        proof {
            use_type_invariant(self);
        }
        (self.nanos / NANOS_PER_SEC) as u64
    }

    /// The nanoseconds of the span below its last whole second.
    pub fn subsec_nanos(&self) -> (nanos: u32)
        ensures
            nanos as nat == self@ % (NANOS_PER_SEC as nat),
    {
        (self.nanos % NANOS_PER_SEC) as u32
    }

    /// The whole milliseconds of the span.
    pub fn as_millis(&self) -> (millis: u128)
        ensures
            millis as nat == self@ / 1_000_000,
    {
        self.nanos / 1_000_000
    }

    /// The shorter of two spans.
    pub fn min(self, other: Self) -> (d: Self)
        ensures
            d == if other@ < self@ {
                other
            } else {
                self
            },
    {
        if other.nanos < self.nanos {
            other
        } else {
            self
        }
    }

    /// A span is determined by its view.
    pub proof fn law_determined_by_view(a: Self, b: Self)
        requires
            a@ == b@,
        ensures
            a == b,
    {
    }

    /// Seconds and nanoseconds below the second make up the span.
    pub proof fn law_seconds_and_nanoseconds(d: Self)
        ensures
            d@ == (d@ / (NANOS_PER_SEC as nat)) * NANOS_PER_SEC + d@ % (NANOS_PER_SEC as nat),
    {
        vstd::arithmetic::div_mod::lemma_fundamental_div_mod(d@ as int, NANOS_PER_SEC as int);
    }
}

/// A point in time. Its view is the number of nanoseconds since the clock it was read from was started.
#[derive(Clone, Copy, Debug, PartialEq, Eq, Structural)]
pub struct Moment {
    nanos: u128,
}

impl View for Moment {
    type V = nat;

    closed spec fn view(&self) -> nat {
        self.nanos as nat
    }
}

/// The point that lies `delay` nanoseconds after `start`, or the last representable point.
pub open spec fn after(start: nat, delay: nat) -> nat {
    if start + delay <= MAX_NANOS {
        start + delay
    } else {
        MAX_NANOS as nat
    }
}

/// The nanoseconds from `earlier` to `later`, none if `later` comes first.
pub open spec fn until(earlier: nat, later: nat) -> nat {
    if earlier <= later {
        (later - earlier) as nat
    } else {
        0
    }
}

impl Moment {
    #[verifier::type_invariant]
    closed spec fn in_range(self) -> bool {
        self.nanos <= MAX_NANOS
    }

    /// The point that lies the given span after the start of the clock.
    pub fn since_start(elapsed: Duration) -> (i: Self)
        ensures
            i@ == elapsed@,
    {
        proof {
            use_type_invariant(elapsed);
        }
        Moment { nanos: elapsed.nanos }
    }

    /// The point that lies the given span later, or the last representable point.
    pub fn saturating_add(self, delay: Duration) -> (i: Self)
        ensures
            i@ == after(self@, delay@),
    {
        proof {
            use_type_invariant(self);
            use_type_invariant(delay);
        }
        let sum: u128 = self.nanos + delay.nanos;
        if sum <= MAX_NANOS {
            Moment { nanos: sum }
        } else {
            Moment { nanos: MAX_NANOS }
        }
    }

    /// The span from an earlier point to this one, empty if that point is later.
    pub fn saturating_duration_since(&self, earlier: Moment) -> (d: Duration)
        ensures
            d@ == until(earlier@, self@),
    {
        proof {
            use_type_invariant(self);
        }
        if earlier.nanos <= self.nanos {
            Duration { nanos: self.nanos - earlier.nanos }
        } else {
            Duration { nanos: 0 }
        }
    }

    /// Whether this point comes before another.
    pub fn is_before(&self, other: &Moment) -> (b: bool)
        ensures
            b == (self@ < other@),
    {
        self.nanos < other.nanos
    }
}

#[verifier::external_type_specification]
#[verifier::external_body]
pub struct ExBootInstant(boot_time::Instant);

/// The current time of the suspend-aware clock, read by `boot_time::Instant::now`. Nothing is claimed of
/// the value: it depends on when the call is made.
#[verifier::external_body]
fn boot_now() -> (now: boot_time::Instant) {
    boot_time::Instant::now()
}

/// The time that passed since `start`, read by `boot_time::Instant::elapsed` and split into whole seconds
/// and nanoseconds below the second. Of the value only the range of the second part is claimed: the rest
/// depends on when the call is made.
#[verifier::external_body]
fn boot_elapsed(start: &boot_time::Instant) -> (elapsed: (u64, u32))
    ensures
        elapsed.1 < 1_000_000_000,
{
    let elapsed = start.elapsed();
    (elapsed.as_secs(), elapsed.subsec_nanos())
}

/// A clock that takes into account the time the system spent suspended, where the platform has one.
pub struct Clock {
    start: boot_time::Instant,
}

impl Clock {
    /// The clock was started: it counts from an instant that [`boot_now`] gave.
    pub closed spec fn is_started(&self) -> bool {
        call_ensures(boot_now, (), self.start)
    }

    /// The clock can show the time `now`: the seconds and nanoseconds that [`boot_elapsed`] gave for the
    /// instant that the clock counts from.
    pub closed spec fn shows(&self, now: nat) -> bool {
        exists|elapsed: (u64, u32)| #[trigger]
            call_ensures(boot_elapsed, (&self.start,), elapsed) && now == elapsed.0 * NANOS_PER_SEC
                + elapsed.1
    }

    /// Starts a clock, at the current time of the suspend-aware clock.
    pub fn start() -> (clock: Self)
        ensures
            clock.is_started(),
    {
        Clock { start: boot_now() }
    }

    /// The time that the clock shows: what has passed since it was started.
    pub fn now(&self) -> (now: Moment)
        ensures
            self.shows(now@),
    {
        let (secs, subsec_nanos) = boot_elapsed(&self.start);
        Moment::since_start(Duration::new(secs, subsec_nanos))
    }
}

/// The longest span has the largest number of seconds and all but one of the nanoseconds of the next.
pub proof fn law_longest_span()
    ensures
        NANOS_PER_SEC == 1_000_000_000,
        MAX_NANOS == u64::MAX * 1_000_000_000 + 999_999_999,
{
}

/// A span that is made of seconds and nanoseconds is taken apart into them again, and is as long as they say.
pub proof fn law_span_is_made_of_its_parts(secs: u64, subsec_nanos: u32, d: Duration, s: u64, n: u32, millis: u128)
    requires
        subsec_nanos < 1_000_000_000,
        call_ensures(Duration::new, (secs, subsec_nanos), d),
        call_ensures(Duration::as_secs, (&d,), s),
        call_ensures(Duration::subsec_nanos, (&d,), n),
        call_ensures(Duration::as_millis, (&d,), millis),
    ensures
        d@ == secs * 1_000_000_000 + subsec_nanos,
        s == secs,
        n == subsec_nanos,
        millis * 1_000_000 <= d@ < (millis + 1) * 1_000_000,
{
}

/// A span of milliseconds has as many of them, and a thousand of them make up a second.
pub proof fn law_span_of_milliseconds(millis: u64, d: Duration, back: u128, s: u64)
    requires
        call_ensures(Duration::from_millis, (millis,), d),
        call_ensures(Duration::as_millis, (&d,), back),
        call_ensures(Duration::as_secs, (&d,), s),
    ensures
        back == millis,
        s == millis / 1000,
        d@ == millis * 1_000_000,
{
}

/// A span is empty exactly if it has no nanoseconds, and the empty span is.
pub proof fn law_empty_span(d: Duration, zero: Duration, empty: bool)
    requires
        call_ensures(Duration::zero, (), zero),
        call_ensures(Duration::is_zero, (&d,), empty),
    ensures
        zero@ == 0,
        empty <==> d@ == zero@,
{
}

/// The shorter of two spans is one of them, and no longer than either.
pub proof fn law_shorter_span(a: Duration, b: Duration, d: Duration)
    requires
        call_ensures(Duration::min, (a, b), d),
    ensures
        d == a || d == b,
        d@ <= a@,
        d@ <= b@,
{
}

/// What lies a span after a point is that span away from it, and lies no earlier, unless it cannot be represented.
pub proof fn law_points_and_spans(start: Moment, delay: Duration, end: Moment, span: Duration, back: Duration, b: bool)
    requires
        call_ensures(Moment::saturating_add, (start, delay), end),
        call_ensures(Moment::saturating_duration_since, (&end, start), span),
        call_ensures(Moment::saturating_duration_since, (&start, end), back),
        call_ensures(Moment::is_before, (&start, &end), b),
        start@ + delay@ <= u64::MAX * 1_000_000_000 + 999_999_999,
    ensures
        end@ == start@ + delay@,
        span@ == delay@,
        back@ == 0,
        b <==> delay@ > 0,
{
}

/// A point that cannot be represented is the last that can.
pub proof fn law_last_point(start: Moment, delay: Duration, end: Moment)
    requires
        call_ensures(Moment::saturating_add, (start, delay), end),
        start@ + delay@ > u64::MAX * 1_000_000_000 + 999_999_999,
    ensures
        end@ == u64::MAX * 1_000_000_000 + 999_999_999,
{
}

/// A point is as far from the start of the clock as it was said to be.
pub proof fn law_points_since_start(elapsed: Duration, point: Moment)
    requires
        call_ensures(Moment::since_start, (elapsed,), point),
    ensures
        point@ == elapsed@,
{
}

} // verus!
