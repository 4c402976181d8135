use vstd::prelude::*;

verus! {

/// The longest span a [`Duration`] can hold, in nanoseconds.
pub open spec fn max_duration() -> nat {
    (u64::MAX * 1_000_000_000 + 1_000_000_000 - 1) as nat
}

/// A span of time with nanosecond precision; its view is its length in nanoseconds.
#[derive(Clone, Copy, Debug, PartialEq, Eq)]
pub struct Duration {
    secs: u64,
    nanos: u32,
}

impl View for Duration {
    type V = nat;

    closed spec fn view(&self) -> nat {
        (self.secs * 1_000_000_000 + self.nanos) as nat
    }
}

impl Duration {
    /// The nanoseconds do not make up another second.
    #[verifier::type_invariant]
    pub closed spec fn wf(self) -> bool {
        self.nanos < 1_000_000_000
    }

    /// No span is longer than the longest one.
    pub(crate) proof fn lemma_bounded(self)
        requires
            self.wf(),
        ensures
            self@ <= max_duration(),
    {
    }

    /// The span of `secs` seconds and `nanos` nanoseconds.
    pub fn new(secs: u64, nanos: u32) -> (d: Duration)
        requires
            secs * 1_000_000_000 + nanos <= max_duration(),
        ensures
            d@ == secs * 1_000_000_000 + nanos,
    {
        let carry: u64 = (nanos / 1_000_000_000) as u64;
        Duration { secs: secs + carry, nanos: nanos % 1_000_000_000 }
    }

    /// The span of `secs` seconds.
    pub fn from_secs(secs: u64) -> (d: Duration)
        ensures
            d@ == secs * 1_000_000_000,
    {
        Duration { secs, nanos: 0 }
    }

    /// The whole seconds of the span.
    pub fn as_secs(&self) -> (secs: u64)
        ensures
            secs == self@ / 1_000_000_000,
    {
        proof {
            use_type_invariant(self);
        }
        self.secs
    }

    fn as_nanos(&self) -> (nanos: i128)
        ensures
            nanos == self@,
            self@ <= max_duration(),
    {
        proof {
            use_type_invariant(self);
        }
        let whole: i128 = self.secs as i128 * 1_000_000_000;
        whole + self.nanos as i128
    }

    /// Whether the span is shorter than `other`.
    pub fn is_shorter_than(&self, other: &Duration) -> (shorter: bool)
        ensures
            shorter == (self@ < other@),
    {
        self.as_nanos() < other.as_nanos()
    }

    /// Whether the span is empty.
    pub fn is_zero(&self) -> (zero: bool)
        ensures
            zero == (self@ == 0),
    {
        self.secs == 0 && self.nanos == 0
    }
}

/// A reading of a [`Clock`]. Its view counts the nanoseconds since the clock was started, negative
/// before that.
#[derive(Clone, Copy, Debug, PartialEq, Eq)]
pub struct Moment {
    nanos: i128,
}

impl View for Moment {
    type V = int;

    closed spec fn view(&self) -> int {
        self.nanos as int
    }
}

/// Whether a [`Moment`] can lie `nanos` nanoseconds after the start of its clock.
pub open spec fn representable(nanos: int) -> bool {
    -max_duration() <= nanos <= max_duration()
}

/// The time from `earlier` to `later`: nothing where `earlier` is the later one, and never more than
/// the longest [`Duration`].
pub open spec fn time_between(earlier: int, later: int) -> nat {
    if later <= earlier {
        0
    } else if later - earlier >= max_duration() {
        max_duration()
    } else {
        (later - earlier) as nat
    }
}

/// The time between two moments leads from the earlier to the later one, as far as it is a duration,
/// and the longest duration is a nanosecond short of the seconds that a `u64` cannot count.
pub proof fn law_time_between_leads_there(earlier: int, later: int)
    ensures
        max_duration() + 1 == 0x1_0000_0000_0000_0000int * 1_000_000_000,
        earlier <= later <= earlier + max_duration() ==> earlier + time_between(earlier, later)
            == later,
        later <= earlier ==> time_between(earlier, later) == 0,
        later > earlier + max_duration() ==> time_between(earlier, later) == max_duration(),
        representable(later) <==> later <= max_duration() && -later <= max_duration(),
{
}

impl Moment {
    /// The moment lies within the longest duration of the start of the clock.
    #[verifier::type_invariant]
    pub open spec fn wf(self) -> bool {
        representable(self@)
    }

    /// The moment `span` after this one.
    pub fn plus(&self, span: &Duration) -> (later: Moment)
        requires
            representable(self@ + span@),
        ensures
            later@ == self@ + span@,
    {
        proof {
            use_type_invariant(self);
        }
        Moment { nanos: self.nanos + span.as_nanos() }
    }

    /// The moment `span` before this one.
    pub fn minus(&self, span: &Duration) -> (earlier: Moment)
        requires
            representable(self@ - span@),
        ensures
            earlier@ == self@ - span@,
    {
        proof {
            use_type_invariant(self);
        }
        Moment { nanos: self.nanos - span.as_nanos() }
    }

    /// The time from `earlier` to this moment, or nothing where `earlier` is the later one.
    pub fn duration_since(&self, earlier: &Moment) -> (span: Duration)
        ensures
            span@ == time_between(earlier@, self@),
    {
        proof {
            use_type_invariant(self);
            use_type_invariant(earlier);
        }
        if self.nanos <= earlier.nanos {
            Duration { secs: 0, nanos: 0 }
        } else {
            let span: i128 = self.nanos - earlier.nanos;
            let secs: i128 = span / 1_000_000_000;
            if secs > u64::MAX as i128 {
                Duration { secs: u64::MAX, nanos: 999_999_999 }
            } else {
                Duration { secs: secs as u64, nanos: (span % 1_000_000_000) as u32 }
            }
        }
    }

    /// Whether `times` spans have gone by between `start` and this moment.
    pub fn is_past(&self, start: &Moment, times: u8, span: &Duration) -> (past: bool)
        ensures
            past == (self@ >= start@ + times * span@),
    {
        proof {
            use_type_invariant(self);
            use_type_invariant(start);
        }
        let one: i128 = span.as_nanos();
        assert(0 <= times * one <= 255 * max_duration()) by (nonlinear_arith)
            requires
                0 <= times <= 255,
                0 <= one <= max_duration(),
        ;
        self.nanos >= start.nanos + times as i128 * one
    }

    /// Whether this moment lies at or after `other`.
    pub fn is_at_or_after(&self, other: &Moment) -> (after: bool)
        ensures
            after == (self@ >= other@),
    {
        self.nanos >= other.nanos
    }
}

/// The instants of the tokio clock.
#[verifier::external_type_specification]
#[verifier::external_body]
pub struct ExTokioInstant(tokio::time::Instant);

/// `tokio::time::Instant::now` reads the tokio clock. Nothing is claimed of the reading.
pub assume_specification[ tokio::time::Instant::now ]() -> tokio::time::Instant
;

/// Calls `tokio::time::Instant::elapsed`, the time that has gone by since `origin`, and takes the
/// result apart into whole seconds and the nanoseconds after them, of which there are fewer than a
/// second's worth. How much time has gone by is left open.
#[verifier::external_body]
fn elapsed_since(origin: &tokio::time::Instant) -> (elapsed: (u64, u32))
    ensures
        elapsed.1 < 1_000_000_000,
{
    let elapsed = origin.elapsed();
    (elapsed.as_secs(), elapsed.subsec_nanos())
}

/// What a clock reads is the very time that tokio says has gone by since its origin: as many whole
/// seconds, and as many nanoseconds after them.
proof fn law_reading_is_what_has_gone_by(clock: Clock, now: Moment)
    requires
        clock.reads(now),
    ensures
        exists|elapsed: (u64, u32)| #[trigger]
            call_ensures(elapsed_since, (&clock.origin,), elapsed) && now@ / 1_000_000_000
                == elapsed.0 && now@ % 1_000_000_000 == elapsed.1,
        clock.origin() == clock.origin,
{
    let elapsed = choose|elapsed: (u64, u32)| #[trigger]
        call_ensures(elapsed_since, (&clock.origin,), elapsed) && now@ == elapsed.0 * 1_000_000_000
            + elapsed.1;
    assert(elapsed.1 < 1_000_000_000);
}

/// Measures time on the tokio clock from the moment it is started.
#[derive(Clone, Copy, Debug)]
pub struct Clock {
    origin: tokio::time::Instant,
}

impl Clock {
    /// The instant of the tokio clock from which this clock counts.
    pub closed spec fn origin(&self) -> tokio::time::Instant {
        self.origin
    }

    /// Whether `now` is what this clock can read: the time that tokio says has gone by since the
    /// origin of this clock, and of no other.
    pub closed spec fn reads(&self, now: Moment) -> bool {
        exists|elapsed: (u64, u32)| #[trigger]
            call_ensures(elapsed_since, (&self.origin,), elapsed) && now@ == elapsed.0
                * 1_000_000_000 + elapsed.1
    }

    /// Starts a clock at the instant that tokio gives. Which one that is depends on the time of the
    /// call, and is left open.
    pub fn start() -> (clock: Clock)
        ensures
            call_ensures(tokio::time::Instant::now, (), clock.origin()),
    {
        Clock { origin: tokio::time::Instant::now() }
    }

    /// The current time, which never lies before the start of the clock.
    pub fn now(&self) -> (now: Moment)
        ensures
            self.reads(now),
            0 <= now@ <= max_duration(),
    {
        let (secs, nanos) = elapsed_since(&self.origin);
        let elapsed = Duration { secs, nanos };
        assert(call_ensures(elapsed_since, (&self.origin,), (secs, nanos)));
        Moment { nanos: elapsed.as_nanos() }
    }

    /// The time that has gone by since `moment`, or nothing where it is yet to come.
    pub fn elapsed(&self, moment: &Moment) -> (elapsed: Duration)
        ensures
            exists|now: Moment| #[trigger]
                self.reads(now) && 0 <= now@ <= max_duration() && elapsed@ == time_between(
                    moment@,
                    now@,
                ),
    {
        self.now().duration_since(moment)
    }
}

} // verus!
