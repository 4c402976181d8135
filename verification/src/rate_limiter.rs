use crate::ip::IpAddr;
use crate::rate_limiter::bucket::RateLimiterBucket;
use crate::rate_limiter::laws::law_share_is_in_proportion;
use crate::rate_limiter::model::{
    approx_count, prev_window, sanitized_limit, valid_period, BucketModel, LimiterModel,
};
use crate::time::{max_duration, representable, time_between, Clock, Duration, Moment};
use vstd::prelude::*;

pub mod bucket;
pub mod laws;
pub mod model;

verus! {

/// What a client is answered: whether it may go on, or that it cannot be counted.
pub type Response = Result<bool, ()>;

/// The HTTP status for a client that is not let through: 429 where it is over the limit, 503 where
/// it cannot be counted.
pub fn refusal_status(answer: &Response) -> (status: Option<u16>)
    ensures
        status == match *answer {
            Ok(true) => None::<u16>,
            Ok(false) => Some(429),
            Err(()) => Some(503),
        },
{
    match answer {
        Ok(true) => None,
        Ok(false) => Some(429),
        Err(()) => Some(503),
    }
}

/// The settings of a rate limiter.
#[derive(Clone, Copy, Debug, PartialEq, Eq)]
pub struct RateLimit {
    /// How many requests a client may make within one window.
    pub max: u16,
    /// The length of a window in seconds.
    pub window: u16,
    /// How many clients a window counts.
    pub capacity: usize,
}

/// Limits the requests of each client to a number per period. The requests of the current window
/// count, and a share of those of the window before it.
#[derive(Debug)]
pub struct RateLimiter {
    limit: u16,
    sampling_period: Duration,
    bucket_green: RateLimiterBucket,
    bucket_blue: RateLimiterBucket,
    clock: Clock,
}

impl View for RateLimiter {
    type V = LimiterModel;

    closed spec fn view(&self) -> LimiterModel {
        LimiterModel {
            limit: self.limit,
            period: self.sampling_period@,
            green: self.bucket_green@,
            blue: self.bucket_blue@,
        }
    }
}

/// The limiter that is made at `now`, when `elapsed` goes by before its windows are laid out.
pub open spec fn new_limiter(
    limit: u16,
    period: nat,
    capacity: usize,
    now: int,
    elapsed: nat,
) -> LimiterModel {
    LimiterModel {
        limit: sanitized_limit(limit),
        period,
        green: BucketModel::fresh(now, capacity),
        blue: BucketModel::fresh(prev_window(now, elapsed, period), capacity),
    }
}

/// The limiter after a request of `ip` that finds it in the state `before`, and the answer. The
/// clock reads `now` when the request comes and `later` when the answer is given. The table of the
/// green window has `green_slots` slots first, that of the current one `slots` slots later.
pub open spec fn resumed(
    before: LimiterModel,
    ip: IpAddr,
    now: int,
    green_slots: usize,
    slots: usize,
    later: int,
) -> (LimiterModel, Response) {
    let rolled = before.rolled(now, green_slots);
    if before.limit == 0 {
        (before, Ok(false))
    } else if rolled.lacks_room(ip, slots) {
        (rolled, Err(()))
    } else {
        (rolled.counted(ip), Ok(rolled.counted(ip).allows(ip, later)))
    }
}

impl RateLimiter {
    /// The clock that the limiter goes by.
    pub closed spec fn clock(&self) -> Clock {
        self.clock
    }

    /// The counters of the green window.
    pub closed spec fn green_bucket(&self) -> RateLimiterBucket {
        self.bucket_green
    }

    /// The counters of the current window.
    pub closed spec fn current_bucket(&self) -> RateLimiterBucket {
        if self@.green_is_current() {
            self.bucket_green
        } else {
            self.bucket_blue
        }
    }

    /// A limiter that lets each client make `limit` requests in `sampling_period`, and that counts
    /// at least `capacity` clients in each window. A limit above all that can be counted is lowered
    /// to the largest one that can be exceeded.
    pub fn new(limit: u16, sampling_period: Duration, capacity: usize) -> (limiter: RateLimiter)
        ensures
            limit < u16::MAX ==> limiter@.limit == limit,
            limit == u16::MAX ==> limiter@.limit == u16::MAX - 1,
            limiter@.period == sampling_period@,
            limiter@.green.capacity == capacity,
            limiter@.blue.capacity == capacity,
            limiter@.green.counts == Map::<IpAddr, u16>::empty(),
            limiter@.blue.counts == Map::<IpAddr, u16>::empty(),
            exists|now: Moment, later: Moment| #[trigger]
                limiter.clock().reads(now) && #[trigger] limiter.clock().reads(later) && 0 <= now@
                    <= max_duration() && 0 <= later@ <= max_duration() && limiter@ == new_limiter(
                    limit,
                    sampling_period@,
                    capacity,
                    now@,
                    time_between(now@, later@),
                ),
    {
        let sanitized: u16 = if limit == u16::MAX {
            limit - 1
        } else {
            limit
        };
        let clock = Clock::start();
        let now = clock.now();
        proof {
            use_type_invariant(&sampling_period);
            sampling_period.lemma_bounded();
        }
        let before = create_prev_window(&clock, &now, &sampling_period);
        let limiter = RateLimiter {
            limit: sanitized,
            sampling_period,
            bucket_green: RateLimiterBucket::new(now, capacity),
            bucket_blue: RateLimiterBucket::new(before, capacity),
            clock,
        };
        assert(limiter.clock().reads(now));
        limiter
    }

    /// The limiter with the given settings.
    pub fn from_config(config: &RateLimit) -> (limiter: RateLimiter)
        ensures
            valid_period(limiter@.period),
            config.max < u16::MAX ==> limiter@.limit == config.max,
            config.max == u16::MAX ==> limiter@.limit == u16::MAX - 1,
            limiter@.period == config.window * 1_000_000_000,
            limiter@.green.capacity == config.capacity,
            limiter@.blue.capacity == config.capacity,
            limiter@.green.counts == Map::<IpAddr, u16>::empty(),
            limiter@.blue.counts == Map::<IpAddr, u16>::empty(),
            exists|now: Moment, later: Moment| #[trigger]
                limiter.clock().reads(now) && #[trigger] limiter.clock().reads(later) && 0 <= now@
                    <= max_duration() && 0 <= later@ <= max_duration() && limiter@ == new_limiter(
                    config.max,
                    config.window as nat * 1_000_000_000,
                    config.capacity,
                    now@,
                    time_between(now@, later@),
                ),
    {
        let period = Duration::from_secs(config.window as u64);
        assert(period@ == config.window as nat * 1_000_000_000);
        RateLimiter::new(config.max, period, config.capacity)
    }

    /// Counts a request of `ip` and answers whether it may go on. A client that is not in the
    /// current window yet is an error where that window is full. With a limit of none nothing is
    /// counted and nobody may go on. The time is that of the limiter's own clock, and the slots are
    /// those of its own tables; what they say is left open.
    pub fn can_resume(&mut self, ip: IpAddr) -> (answer: Response)
        requires
            old(self)@.limit == 0 || valid_period(old(self)@.period),
        ensures
            old(self)@.limit == 0 ==> answer == Ok::<bool, ()>(false) && final(self)@ == old(self)@,
            final(self).clock() == old(self).clock(),
            old(self)@.limit > 0 ==> exists|
                now: Moment,
                green_slots: usize,
                bucket: RateLimiterBucket,
                slots: usize,
                later: Moment,
            |
                #![trigger resumed(old(self)@, ip, now@, green_slots, slots, later@), bucket.has_slots(slots)]
                {
                    let rolled = old(self)@.rolled(now@, green_slots);
                    &&& old(self).clock().reads(now)
                    &&& 0 <= now@ <= max_duration()
                    &&& old(self).green_bucket().has_slots(green_slots)
                    &&& green_slots >= old(self)@.green.capacity
                    &&& bucket@ == rolled.current()
                    &&& !old(self)@.window_is_over(now@) ==> bucket == old(self).current_bucket()
                    &&& bucket.has_slots(slots)
                    &&& slots >= bucket@.capacity
                    &&& old(self).clock().reads(later)
                    &&& 0 <= later@ <= max_duration()
                    &&& (final(self)@, answer) == resumed(
                        old(self)@,
                        ip,
                        now@,
                        green_slots,
                        slots,
                        later@,
                    )
                },
    {
        if self.limit == 0 {
            return Ok(false);
        }
        let now = self.clock.now();
        let green_slots: usize = self.bucket_green.slots();
        self.roll(now, green_slots);
        let ghost bucket = self.current_bucket();
        let slots: usize = if self.green_is_current() {
            self.bucket_green.slots()
        } else {
            self.bucket_blue.slots()
        };
        match self.count(ip, slots) {
            Err(()) => {
                assert(resumed(old(self)@, ip, now@, green_slots, slots, now@) == (
                    self@,
                    Err::<bool, ()>(()),
                ));
                assert(bucket.has_slots(slots));
                Err(())
            },
            Ok(()) => {
                let later = self.clock.now();
                let allowed = self.allows(&ip, later);
                assert(resumed(old(self)@, ip, now@, green_slots, slots, later@) == (
                    self@,
                    Ok::<bool, ()>(allowed),
                ));
                assert(bucket.has_slots(slots));
                Ok(allowed)
            },
        }
    }

    fn green_is_current(&self) -> (green: bool)
        ensures
            green == self@.green_is_current(),
    {
        self.bucket_green.starts_at().is_at_or_after(&self.bucket_blue.starts_at())
    }

    /// Moves on to the window of `now`, where the table of the green window has `slots` slots.
    pub fn roll(&mut self, now: Moment, slots: usize)
        ensures
            final(self)@ == old(self)@.rolled(now@, slots),
            !old(self)@.window_is_over(now@) ==> *final(self) == *old(self),
            final(self).clock() == old(self).clock(),
    {
        let green_is_current = self.green_is_current();
        let starts_at = if green_is_current {
            self.bucket_green.starts_at()
        } else {
            self.bucket_blue.starts_at()
        };
        proof {
            use_type_invariant(&now);
            use_type_invariant(&starts_at);
        }
        if !self.is_within_curr_bucket_window(now, starts_at) && !self.sampling_period.is_zero() {
            if self.is_outside_next_monothonic_window(now, starts_at) {
                self.bucket_green = RateLimiterBucket::new(now, slots);
                self.bucket_blue = RateLimiterBucket::new(now, slots);
            } else if green_is_current {
                // the current bucket becomes the previous one
                let starts_at = starts_at.plus(&self.sampling_period);
                self.bucket_blue = RateLimiterBucket::new(starts_at, slots);
            } else {
                let starts_at = starts_at.plus(&self.sampling_period);
                self.bucket_green = RateLimiterBucket::new(starts_at, slots);
            }
        }
    }

    /// Counts a request of `ip` in the current window, where the table of that window has `slots`
    /// slots. It is an error, and nothing is counted, where the client is a new one and the window
    /// is full.
    pub fn count(&mut self, ip: IpAddr, slots: usize) -> (done: Result<(), ()>)
        ensures
            done is Err <==> old(self)@.lacks_room(ip, slots),
            done is Err ==> final(self)@ == old(self)@,
            done is Ok ==> final(self)@ == old(self)@.counted(ip),
            done is Err <==> {
                let current = old(self)@.current();
                !current.counts.contains_key(ip) && current.counts.len() == slots
            },
            final(self).clock() == old(self).clock(),
    {
        if self.green_is_current() {
            if self.bucket_green.count(&ip).is_none() && self.bucket_green.is_full(slots) {
                return Err(());
            }
            self.bucket_green.add(&ip);
        } else {
            if self.bucket_blue.count(&ip).is_none() && self.bucket_blue.is_full(slots) {
                return Err(());
            }
            self.bucket_blue.add(&ip);
        }
        Ok(())
    }

    /// Whether the rate of `ip` at `now` lies within the limit.
    pub fn allows(&self, ip: &IpAddr, now: Moment) -> (allowed: bool)
        requires
            valid_period(self@.period),
        ensures
            allowed == self@.allows(*ip, now@),
    {
        let (curr_bucket, prev_bucket) = if self.green_is_current() {
            (&self.bucket_green, &self.bucket_blue)
        } else {
            (&self.bucket_blue, &self.bucket_green)
        };
        let curr_sum: u16 = match curr_bucket.count(ip) {
            Some(sum) => sum,
            None => 0,
        };
        let prev_sum: u16 = match prev_bucket.count(ip) {
            Some(sum) => sum,
            None => 0,
        };
        let needle = now.duration_since(&curr_bucket.starts_at());
        let approx: u64 = get_approx(prev_sum, needle, self.sampling_period);
        self.limit as u64 >= approx + curr_sum as u64
    }

    /// Whether the window that started at `curr_starts_at` is not over at `now`.
    pub fn is_within_curr_bucket_window(&self, now: Moment, curr_starts_at: Moment) -> (within: bool)
        ensures
            within == (now@ < curr_starts_at@ + self@.period),
    {
        !now.is_past(&curr_starts_at, 1, &self.sampling_period)
    }

    /// Whether the window after the one that started at `curr_starts_at` is over at `now`.
    pub fn is_outside_next_monothonic_window(&self, now: Moment, curr_starts_at: Moment) -> (outside:
        bool)
        ensures
            outside == (now@ >= curr_starts_at@ + 2 * self@.period),
    {
        now.is_past(&curr_starts_at, 2, &self.sampling_period)
    }
}

/// The windows that a limiter asks for their slots are its own: the green one, and the one that
/// counts requests, which is the one that started last.
pub proof fn law_buckets_are_the_windows(limiter: RateLimiter)
    ensures
        limiter.green_bucket()@ == limiter@.green,
        limiter.current_bucket()@ == limiter@.current(),
        limiter.current_bucket()@.starts_at >= limiter@.green.starts_at,
        limiter.current_bucket()@.starts_at >= limiter@.blue.starts_at,
{
}

/// A limiter is what its own fields hold.
proof fn law_view_is_of_the_fields(limiter: RateLimiter)
    ensures
        limiter@.limit == limiter.limit,
        limiter@.period == limiter.sampling_period@,
        limiter@.green == limiter.bucket_green@,
        limiter@.blue == limiter.bucket_blue@,
        limiter.clock() == limiter.clock,
        limiter.green_bucket() == limiter.bucket_green,
        limiter@.green.starts_at >= limiter@.blue.starts_at ==> limiter.current_bucket()
            == limiter.bucket_green,
        limiter@.green.starts_at < limiter@.blue.starts_at ==> limiter.current_bucket()
            == limiter.bucket_blue,
{
}

/// The part of `prev_counter` requests of the previous window that counts once `window_needle` of
/// the current one has gone by.
pub fn get_approx(prev_counter: u16, window_needle: Duration, sampling_period: Duration) -> (approx:
    u64)
    requires
        window_needle@ < sampling_period@ ==> sampling_period@ >= 1_000_000_000,
    ensures
        approx == approx_count(prev_counter, window_needle@, sampling_period@),
        approx <= prev_counter,
        window_needle@ >= sampling_period@ ==> approx == 0,
        window_needle@ < sampling_period@ ==> ({
            let whole = (sampling_period@ / 1_000_000_000) as int;
            let gone = (window_needle@ / 1_000_000_000) as int;
            approx * whole <= prev_counter * (whole - gone) < (approx + 1) * whole
        }),
{
    if !window_needle.is_shorter_than(&sampling_period) {
        return 0;
    }
    let whole: u64 = sampling_period.as_secs();
    let gone: u64 = window_needle.as_secs();
    let left: u64 = whole - gone;
    assert(prev_counter * left <= prev_counter * whole <= u16::MAX * u64::MAX) by (nonlinear_arith)
        requires
            0 <= left <= whole <= u64::MAX,
            0 <= prev_counter <= u16::MAX,
    ;
    let weighted: u128 = prev_counter as u128 * left as u128;
    assert(weighted as int / whole as int <= prev_counter) by {
        vstd::arithmetic::div_mod::lemma_div_is_ordered(
            weighted as int,
            prev_counter * whole,
            whole as int,
        );
        vstd::arithmetic::div_mod::lemma_div_by_multiple(prev_counter as int, whole as int);
    }
    let approx: u64 = (weighted / whole as u128) as u64;
    proof {
        law_share_is_in_proportion(
            prev_counter,
            window_needle@,
            sampling_period@,
            whole as nat,
            gone as nat,
        );
    }
    approx
}

/// Where the window before the one that started at `moment` begins: a period earlier, once the
/// period has gone by on `clock`.
pub fn create_prev_window(clock: &Clock, moment: &Moment, sampling_period: &Duration) -> (before:
    Moment)
    requires
        representable(moment@ - sampling_period@),
    ensures
        before@ == moment@ || before@ + sampling_period@ == moment@,
        exists|now: Moment| #[trigger]
            clock.reads(now) && 0 <= now@ <= max_duration() && before@ == prev_window(
                moment@,
                time_between(moment@, now@),
                sampling_period@,
            ),
{
    prev_window_after(moment, &clock.elapsed(moment), sampling_period)
}

/// Where the window before the one that started at `moment` begins, when `elapsed` has gone by
/// since: a period earlier, once that is no less than the period.
pub fn prev_window_after(moment: &Moment, elapsed: &Duration, sampling_period: &Duration) -> (before:
    Moment)
    requires
        representable(moment@ - sampling_period@),
    ensures
        before@ == prev_window(moment@, elapsed@, sampling_period@),
        elapsed@ < sampling_period@ ==> before@ == moment@,
        elapsed@ >= sampling_period@ ==> before@ + sampling_period@ == moment@,
{
    if elapsed.is_shorter_than(sampling_period) {
        return *moment;
    }
    moment.minus(sampling_period)
}

} // verus!
