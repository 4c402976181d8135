use crate::ip::IpAddr;
use crate::rate_limiter::model::{
    approx_count, next_count, prev_window, sanitized_limit, valid_period, BucketModel, LimiterModel,
};
use crate::rate_limiter::{get_approx, new_limiter, resumed, RateLimiter, Response};
use crate::time::{time_between, Duration};
use vstd::prelude::*;

verus! {

/// The limiter after `n` more requests of `ip` in the current window.
pub open spec fn after_requests(limiter: LimiterModel, ip: IpAddr, n: nat) -> LimiterModel
    decreases n,
{
    if n == 0 {
        limiter
    } else {
        after_requests(limiter, ip, (n - 1) as nat).counted(ip)
    }
}

/// What holds of a limiter from the start: its windows have room for `capacity` clients at least,
/// follow each other without a gap or coincide, and a client that is counted has made a request.
pub open spec fn invariant_of(limiter: LimiterModel, capacity: usize) -> bool {
    &&& limiter.limit < u16::MAX
    &&& limiter.green.capacity >= capacity
    &&& limiter.blue.capacity >= capacity
    &&& limiter.previous().starts_at == limiter.current().starts_at
        || limiter.previous().starts_at + limiter.period == limiter.current().starts_at
    &&& forall|ip: IpAddr| #[trigger]
        limiter.green.counts.contains_key(ip) ==> limiter.green.counts[ip] > 0
    &&& forall|ip: IpAddr| #[trigger]
        limiter.blue.counts.contains_key(ip) ==> limiter.blue.counts[ip] > 0
    &&& limiter.green.counts.dom().finite()
    &&& limiter.blue.counts.dom().finite()
}

/// A new limiter satisfies the invariant.
pub proof fn law_new_limiter_is_valid(
    limit: u16,
    period: nat,
    capacity: usize,
    now: int,
    elapsed: nat,
)
    ensures
        invariant_of(new_limiter(limit, period, capacity, now, elapsed), capacity),
{
}

/// Each request keeps the invariant, the limit and the period, where the green table has the slots
/// it was made with.
pub proof fn law_requests_keep_invariant(
    limiter: LimiterModel,
    capacity: usize,
    ip: IpAddr,
    now: int,
    green_slots: usize,
    slots: usize,
    later: int,
)
    requires
        invariant_of(limiter, capacity),
        green_slots >= limiter.green.capacity,
    ensures
        invariant_of(resumed(limiter, ip, now, green_slots, slots, later).0, capacity),
        resumed(limiter, ip, now, green_slots, slots, later).0.limit == limiter.limit,
        resumed(limiter, ip, now, green_slots, slots, later).0.period == limiter.period,
{
}

/// With a limit of none nobody may ever go on, and nothing is counted.
pub proof fn law_zero_limit_refuses(
    limiter: LimiterModel,
    ip: IpAddr,
    now: int,
    green_slots: usize,
    slots: usize,
    later: int,
)
    requires
        limiter.limit == 0,
    ensures
        resumed(limiter, ip, now, green_slots, slots, later) == (limiter, Ok::<bool, ()>(false)),
{
}

/// A client is turned away uncounted exactly where there is a limit, the current window does not
/// count it, and that window counts as many clients as its table has slots. No count changes then.
pub proof fn law_turned_away_exactly_when_new_and_full(
    limiter: LimiterModel,
    ip: IpAddr,
    now: int,
    green_slots: usize,
    slots: usize,
    later: int,
)
    ensures
        ({
            let rolled = limiter.rolled(now, green_slots);
            let (after, answer) = resumed(limiter, ip, now, green_slots, slots, later);
            &&& answer is Err <==> limiter.limit > 0 && !rolled.current().counts.contains_key(ip)
                && rolled.current().counts.len() == slots
            &&& answer is Err ==> after == rolled
        }),
{
}

/// A window never counts more clients than its table has slots.
pub proof fn law_counts_stay_within_slots(
    limiter: LimiterModel,
    ip: IpAddr,
    now: int,
    green_slots: usize,
    slots: usize,
    later: int,
)
    requires
        limiter.rolled(now, green_slots).current().counts.dom().finite(),
        limiter.limit > 0,
        limiter.rolled(now, green_slots).current().counts.len() <= slots,
    ensures
        resumed(limiter, ip, now, green_slots, slots, later).0.current().counts.len() <= slots,
{
}

/// Where the tables have at least the slots they were made with, a client is turned away uncounted
/// only where the current window already counts as many other clients as the limiter was made for.
pub proof fn law_turned_away_only_when_full(
    limiter: LimiterModel,
    capacity: usize,
    ip: IpAddr,
    now: int,
    green_slots: usize,
    slots: usize,
    later: int,
)
    requires
        invariant_of(limiter, capacity),
        green_slots >= limiter.green.capacity,
        slots >= limiter.rolled(now, green_slots).current().capacity,
        resumed(limiter, ip, now, green_slots, slots, later).1 is Err,
    ensures
        ({
            let after = resumed(limiter, ip, now, green_slots, slots, later).0;
            &&& after == limiter.rolled(now, green_slots)
            &&& after.current().counts.len() >= capacity
            &&& !after.current().counts.contains_key(ip)
        }),
{
    law_requests_keep_invariant(limiter, capacity, ip, now, green_slots, slots, later);
}

/// A client that the current window counts is never turned away uncounted.
pub proof fn law_known_client_is_counted(
    limiter: LimiterModel,
    ip: IpAddr,
    now: int,
    green_slots: usize,
    slots: usize,
    later: int,
)
    requires
        limiter.limit > 0,
        limiter.rolled(now, green_slots).current().counts.contains_key(ip),
    ensures
        resumed(limiter, ip, now, green_slots, slots, later).1 is Ok,
{
}

/// Counting leaves the windows of a limiter where they are.
proof fn lemma_after_requests(limiter: LimiterModel, ip: IpAddr, n: nat)
    ensures
        ({
            let after = after_requests(limiter, ip, n);
            &&& after.limit == limiter.limit
            &&& after.period == limiter.period
            &&& after.green_is_current() == limiter.green_is_current()
            &&& after.current().starts_at == limiter.current().starts_at
            &&& after.previous() == limiter.previous()
            &&& after.current().count(ip) == if limiter.current().count(ip) + n <= u16::MAX {
                limiter.current().count(ip) + n
            } else {
                u16::MAX as int
            }
        }),
    decreases n,
{
    if n > 0 {
        lemma_after_requests(limiter, ip, (n - 1) as nat);
    }
}

/// The sliding window: a client that is new to the current window may make as many requests in it
/// as the limit leaves beside the share of its requests in the previous one.
pub proof fn law_sliding_window(limiter: LimiterModel, ip: IpAddr, n: nat, now: int)
    requires
        limiter.limit < u16::MAX,
        limiter.current().count(ip) == 0,
        n > 0,
    ensures
        after_requests(limiter, ip, n).allows(ip, now) == (n + approx_count(
            limiter.previous().count(ip),
            time_between(limiter.current().starts_at, now),
            limiter.period,
        ) <= limiter.limit),
{
    lemma_after_requests(limiter, ip, n);
}

/// A client that neither window has seen may make exactly as many requests as the limit says.
pub proof fn law_fresh_client_has_the_whole_limit(
    limiter: LimiterModel,
    ip: IpAddr,
    n: nat,
    now: int,
)
    requires
        limiter.limit < u16::MAX,
        valid_period(limiter.period),
        limiter.current().count(ip) == 0,
        limiter.previous().count(ip) == 0,
        n > 0,
    ensures
        after_requests(limiter, ip, n).allows(ip, now) == (n <= limiter.limit),
{
    law_sliding_window(limiter, ip, n, now);
    law_share_of_previous_window(
        0,
        time_between(limiter.current().starts_at, now),
        limiter.period,
    );
}

/// Within one window no more requests of a client are let through than the limit says, whenever
/// they come and whatever the previous window holds.
pub proof fn law_window_admits_at_most_the_limit(
    limiter: LimiterModel,
    ip: IpAddr,
    n: nat,
    now: int,
)
    requires
        limiter.limit < u16::MAX,
        after_requests(limiter, ip, n).allows(ip, now),
    ensures
        limiter.current().count(ip) + n <= limiter.limit,
{
    lemma_after_requests(limiter, ip, n);
}

/// A request of a client, the readings of the clock when it comes and when it is answered, and the
/// slots of the tables.
pub struct Arrival {
    pub ip: IpAddr,
    pub now: int,
    pub green_slots: usize,
    pub slots: usize,
    pub later: int,
}

impl Arrival {
    /// The limiter after the request, and the answer.
    pub open spec fn at(self, limiter: LimiterModel) -> (LimiterModel, Response) {
        resumed(limiter, self.ip, self.now, self.green_slots, self.slots, self.later)
    }
}

/// The limiter after all of `arrivals`, one after the other.
pub open spec fn after_arrivals(limiter: LimiterModel, arrivals: Seq<Arrival>) -> LimiterModel
    decreases arrivals.len(),
{
    if arrivals.len() == 0 {
        limiter
    } else {
        arrivals.last().at(after_arrivals(limiter, arrivals.drop_last())).0
    }
}

/// How many of `arrivals` are requests of `ip` that the limiter counts.
pub open spec fn counted_arrivals(
    limiter: LimiterModel,
    arrivals: Seq<Arrival>,
    ip: IpAddr,
) -> nat
    decreases arrivals.len(),
{
    if arrivals.len() == 0 {
        0
    } else {
        let before = arrivals.drop_last();
        let last = arrivals.last();
        let counted = last.ip == ip && last.at(after_arrivals(limiter, before)).1 is Ok;
        counted_arrivals(limiter, before, ip) + if counted {
            1nat
        } else {
            0nat
        }
    }
}

/// Within one window a limiter counts the requests of each client, and nothing else changes.
proof fn lemma_after_arrivals(limiter: LimiterModel, arrivals: Seq<Arrival>, ip: IpAddr)
    requires
        limiter.limit > 0,
        forall|i: int|
            0 <= i < arrivals.len() ==> !limiter.window_is_over(#[trigger] arrivals[i].now),
    ensures
        ({
            let after = after_arrivals(limiter, arrivals);
            let total = limiter.current().count(ip) + counted_arrivals(limiter, arrivals, ip);
            &&& after.limit == limiter.limit
            &&& after.period == limiter.period
            &&& after.green_is_current() == limiter.green_is_current()
            &&& after.current().starts_at == limiter.current().starts_at
            &&& after.previous() == limiter.previous()
            &&& after.current().count(ip) == if total <= u16::MAX {
                total
            } else {
                u16::MAX as int
            }
        }),
    decreases arrivals.len(),
{
    if arrivals.len() > 0 {
        let before = arrivals.drop_last();
        assert forall|i: int| 0 <= i < before.len() implies !limiter.window_is_over(
            #[trigger] before[i].now,
        ) by {
            assert(before[i] == arrivals[i]);
        }
        lemma_after_arrivals(limiter, before, ip);
        assert(!limiter.window_is_over(arrivals[arrivals.len() - 1].now));
    }
}

/// Whatever other clients do, and whenever the requests of one window come: a request of a client
/// that is counted is allowed exactly where the requests of that client that were counted in the
/// window, with this one, and the share of the previous window lie within the limit.
pub proof fn law_requests_in_a_window(
    limiter: LimiterModel,
    arrivals: Seq<Arrival>,
    next: Arrival,
)
    requires
        0 < limiter.limit < u16::MAX,
        forall|i: int|
            0 <= i < arrivals.len() ==> !limiter.window_is_over(#[trigger] arrivals[i].now),
        !limiter.window_is_over(next.now),
    ensures
        next.at(after_arrivals(limiter, arrivals)).1 matches Ok(allowed) ==> allowed == (
        limiter.current().count(next.ip) + counted_arrivals(limiter, arrivals, next.ip) + 1
            + approx_count(
            limiter.previous().count(next.ip),
            time_between(limiter.current().starts_at, next.later),
            limiter.period,
        ) <= limiter.limit),
{
    lemma_after_arrivals(limiter, arrivals, next.ip);
}

/// In the first window of a new limiter, whatever other clients do, the n-th request of a client
/// that is counted is allowed exactly where n is no more than the limit that was asked for. The
/// largest limit there is counts as one less.
pub proof fn law_first_window_allows_the_limit(
    limit: u16,
    period: nat,
    capacity: usize,
    start: int,
    elapsed: nat,
    arrivals: Seq<Arrival>,
    next: Arrival,
)
    requires
        limit > 0,
        valid_period(period),
        forall|i: int|
            0 <= i < arrivals.len() ==> period == 0 || (#[trigger] arrivals[i]).now < start + period,
        period == 0 || next.now < start + period,
    ensures
        ({
            let limiter = new_limiter(limit, period, capacity, start, elapsed);
            let n = counted_arrivals(limiter, arrivals, next.ip) + 1;
            next.at(after_arrivals(limiter, arrivals)).1 matches Ok(allowed) ==> allowed == if limit
                == u16::MAX {
                n < limit
            } else {
                n <= limit
            }
        }),
{
    let limiter = new_limiter(limit, period, capacity, start, elapsed);
    law_requests_in_a_window(limiter, arrivals, next);
    law_share_of_previous_window(
        0,
        time_between(limiter.current().starts_at, next.later),
        period,
    );
}

/// A client that is refused stays refused, if it asks again at once.
pub proof fn law_asking_again_does_not_help(limiter: LimiterModel, ip: IpAddr, now: int)
    requires
        !limiter.allows(ip, now),
    ensures
        !limiter.counted(ip).allows(ip, now),
{
}

/// The share of the previous window: all of it in the first second, nothing once the window is
/// over, and never more than all of it.
pub proof fn law_share_of_previous_window(prev: u16, needle: nat, period: nat)
    requires
        valid_period(period),
    ensures
        approx_count(prev, needle, period) <= prev,
        needle < 1_000_000_000 && needle < period ==> approx_count(prev, needle, period) == prev,
        needle >= period ==> approx_count(prev, needle, period) == 0,
{
    if needle < period {
        let whole = period / 1_000_000_000;
        let left = whole - needle / 1_000_000_000;
        assert(prev * left <= prev * whole) by (nonlinear_arith)
            requires
                left <= whole,
                prev >= 0,
        ;
        assert(0 <= prev * left) by (nonlinear_arith)
            requires
                0 <= left,
                prev >= 0,
        ;
        vstd::arithmetic::div_mod::lemma_div_is_ordered(prev * left, prev * whole, whole as int);
        vstd::arithmetic::div_mod::lemma_div_by_multiple(prev as int, whole as int);
    }
}

/// The share of the previous window is in proportion to what is left of the current one. Of `prev`
/// requests it is the largest number that is no more than `prev` times the seconds left, out of the
/// seconds of the period, where `gone` of them have gone by.
pub proof fn law_share_is_in_proportion(prev: u16, needle: nat, period: nat, whole: nat, gone: nat)
    requires
        whole > 0,
        needle < period,
        whole * 1_000_000_000 <= period < (whole + 1) * 1_000_000_000,
        gone * 1_000_000_000 <= needle < (gone + 1) * 1_000_000_000,
    ensures
        approx_count(prev, needle, period) * whole <= prev * (whole - gone),
        prev * (whole - gone) < (approx_count(prev, needle, period) + 1) * whole,
{
    assert(period / 1_000_000_000 == whole);
    assert(needle / 1_000_000_000 == gone);
    let weighted = prev * (whole - gone);
    assert(weighted >= 0) by (nonlinear_arith)
        requires
            weighted == prev * (whole - gone),
            prev >= 0,
            gone <= whole,
    ;
    let share = weighted / (whole as int);
    vstd::arithmetic::div_mod::lemma_fundamental_div_mod(weighted, whole as int);
    vstd::arithmetic::div_mod::lemma_div_pos_is_pos(weighted, whole as int);
    assert(share * whole == whole * share) by (nonlinear_arith);
    assert((share + 1) * whole == whole * share + whole) by (nonlinear_arith);
}

/// Each second that goes by takes the same share away, but for rounding: two shares of one window
/// differ by the requests of the seconds between them.
pub proof fn law_share_falls_evenly(
    prev: u16,
    sooner: nat,
    later: nat,
    period: nat,
    whole: nat,
    seconds: nat,
)
    requires
        whole > 0,
        period == whole * 1_000_000_000,
        later == sooner + seconds * 1_000_000_000,
        later < period,
    ensures
        (approx_count(prev, sooner, period) - approx_count(prev, later, period) - 1) * whole < prev
            * seconds,
        prev * seconds < (approx_count(prev, sooner, period) - approx_count(prev, later, period)
            + 1) * whole,
{
    let gone = sooner / 1_000_000_000;
    let a = approx_count(prev, sooner, period) as int;
    let b = approx_count(prev, later, period) as int;
    law_share_is_in_proportion(prev, sooner, period, whole, gone);
    law_share_is_in_proportion(prev, later, period, whole, gone + seconds);
    assert(prev * (whole - gone) - prev * (whole - (gone + seconds)) == prev * seconds)
        by (nonlinear_arith);
    assert((a - b - 1) * whole == a * whole - (b + 1) * whole) by (nonlinear_arith);
    assert((a - b + 1) * whole == (a + 1) * whole - b * whole) by (nonlinear_arith);
}

/// What a client may do follows from the numbers alone. While the current window lasts, one with
/// `count` requests in it and `prev` in the window before may go on exactly where `prev` times the
/// seconds left lies below the period times what the limit leaves, and one more. After that only the
/// current window counts.
pub proof fn law_allowed_by_the_numbers(
    limiter: LimiterModel,
    ip: IpAddr,
    now: int,
    whole: nat,
    gone: nat,
)
    requires
        valid_period(limiter.period),
        limiter.current().starts_at <= now,
        whole * 1_000_000_000 <= limiter.period < (whole + 1) * 1_000_000_000,
        gone * 1_000_000_000 <= now - limiter.current().starts_at < (gone + 1) * 1_000_000_000,
    ensures
        ({
            let count = limiter.current().count(ip) as int;
            let prev = limiter.previous().count(ip) as int;
            limiter.allows(ip, now) == if now - limiter.current().starts_at < limiter.period {
                prev * (whole - gone) < (limiter.limit + 1 - count) * whole
            } else {
                count <= limiter.limit
            }
        }),
{
    let needle = (now - limiter.current().starts_at) as nat;
    if needle < limiter.period {
        let count = limiter.current().count(ip) as int;
        let prev = limiter.previous().count(ip);
        let share = approx_count(prev, needle, limiter.period) as int;
        let room = limiter.limit + 1 - count;
        law_share_is_in_proportion(prev, needle, limiter.period, whole, gone);
        if share + 1 <= room {
            assert((share + 1) * whole <= room * whole) by (nonlinear_arith)
                requires
                    share + 1 <= room,
                    whole >= 0,
            ;
        } else {
            assert(room * whole <= share * whole) by (nonlinear_arith)
                requires
                    room <= share,
                    whole >= 0,
            ;
        }
    }
}

/// At the very start of the current window, and before it, all requests of the previous window count.
pub proof fn law_all_counts_at_the_start(limiter: LimiterModel, ip: IpAddr, now: int)
    requires
        limiter.period >= 1_000_000_000,
        now <= limiter.current().starts_at,
    ensures
        limiter.allows(ip, now) == (limiter.previous().count(ip) + limiter.current().count(ip)
            <= limiter.limit),
{
    let whole = limiter.period / 1_000_000_000;
    let prev = limiter.previous().count(ip);
    assert(prev * whole / (whole as int) == prev) by {
        vstd::arithmetic::div_mod::lemma_div_by_multiple(prev as int, whole as int);
    }
}

/// What `get_approx` gives is in proportion to the seconds of the current window that are left.
pub proof fn law_approx_is_in_proportion(prev: u16, needle: Duration, period: Duration, approx: u64)
    requires
        period@ >= 1_000_000_000,
        call_ensures(get_approx, (prev, needle, period), approx),
    ensures
        needle@ >= period@ ==> approx == 0,
        needle@ < period@ ==> ({
            let whole = (period@ / 1_000_000_000) as int;
            let gone = (needle@ / 1_000_000_000) as int;
            approx * whole <= prev * (whole - gone) < (approx + 1) * whole
        }),
{
    if needle@ < period@ {
        law_share_is_in_proportion(
            prev,
            needle@,
            period@,
            period@ / 1_000_000_000,
            needle@ / 1_000_000_000,
        );
    }
}

/// A limiter has the limit that `RateLimiter::new` was asked for, whatever the other settings, and
/// the largest limit there is counts as one less.
pub proof fn law_limit_is_as_asked(
    limit: u16,
    period: Duration,
    capacity: usize,
    limiter: RateLimiter,
)
    requires
        call_ensures(RateLimiter::new, (limit, period, capacity), limiter),
    ensures
        limit < u16::MAX ==> limiter@.limit == limit,
        limit == u16::MAX ==> limiter@.limit == u16::MAX - 1,
        limiter@.period == period@,
        limiter@.current().capacity == capacity,
        limiter@.previous().capacity == capacity,
{
}

/// The share of the previous window shrinks as the current one goes by.
pub proof fn law_share_shrinks(prev: u16, sooner: nat, later: nat, period: nat)
    requires
        valid_period(period),
        sooner <= later,
    ensures
        approx_count(prev, later, period) <= approx_count(prev, sooner, period),
{
    law_share_of_previous_window(prev, sooner, period);
    if later < period {
        let whole = period / 1_000_000_000;
        let left_sooner = whole - sooner / 1_000_000_000;
        let left_later = whole - later / 1_000_000_000;
        assert(0 <= prev * left_later <= prev * left_sooner) by (nonlinear_arith)
            requires
                0 <= left_later <= left_sooner,
                prev >= 0,
        ;
        vstd::arithmetic::div_mod::lemma_div_is_ordered(
            prev * left_later,
            prev * left_sooner,
            whole as int,
        );
        vstd::arithmetic::div_mod::lemma_div_pos_is_pos(prev * left_later, whole as int);
    }
}

/// Waiting only helps: what is allowed at some time is allowed later in the same window.
pub proof fn law_waiting_only_helps(limiter: LimiterModel, ip: IpAddr, sooner: int, later: int)
    requires
        valid_period(limiter.period),
        sooner <= later,
        limiter.allows(ip, sooner),
    ensures
        limiter.allows(ip, later),
{
    law_share_shrinks(
        limiter.previous().count(ip),
        time_between(limiter.current().starts_at, sooner),
        time_between(limiter.current().starts_at, later),
        limiter.period,
    );
}

/// The requests of one client do not touch the rate of another.
pub proof fn law_clients_are_independent(
    limiter: LimiterModel,
    ip: IpAddr,
    other: IpAddr,
    now: int,
)
    requires
        ip != other,
    ensures
        limiter.counted(ip).rate(other, now) == limiter.rate(other, now),
{
}

/// When the current window is over and the next is not, its counts are those of the previous
/// window, and the next window starts where it ended, with nobody counted.
pub proof fn law_current_becomes_previous(limiter: LimiterModel, now: int, slots: usize)
    requires
        limiter.period > 0,
        limiter.current().starts_at + limiter.period <= now,
        now < limiter.current().starts_at + 2 * limiter.period,
    ensures
        limiter.window_is_over(now),
        limiter.rolled(now, slots).previous() == limiter.current(),
        limiter.rolled(now, slots).current().starts_at == limiter.current().starts_at
            + limiter.period,
        limiter.rolled(now, slots).current().counts == Map::<IpAddr, u16>::empty(),
        limiter.rolled(now, slots).current().capacity == slots,
        limiter.rolled(now, slots).limit == limiter.limit,
        limiter.rolled(now, slots).period == limiter.period,
{
}

/// As long as the current window is not over, nothing is forgotten, and one without a period is
/// never over.
pub proof fn law_window_lasts_a_period(limiter: LimiterModel, now: int, slots: usize)
    requires
        limiter.period == 0 || now < limiter.current().starts_at + limiter.period,
    ensures
        !limiter.window_is_over(now),
        limiter.rolled(now, slots) == limiter,
{
}

/// After two periods without a request everything is forgotten.
pub proof fn law_two_periods_forget(limiter: LimiterModel, now: int, slots: usize, ip: IpAddr)
    requires
        limiter.period > 0,
        now >= limiter.current().starts_at + 2 * limiter.period,
    ensures
        limiter.window_is_over(now),
        limiter.rolled(now, slots).current().starts_at == now,
        limiter.rolled(now, slots).current().count(ip) == 0,
        limiter.rolled(now, slots).previous().count(ip) == 0,
        limiter.rolled(now, slots).current().counts == Map::<IpAddr, u16>::empty(),
        limiter.rolled(now, slots).previous().counts == Map::<IpAddr, u16>::empty(),
        limiter.rolled(now, slots).previous().starts_at == now,
        limiter.rolled(now, slots).current().capacity == slots,
        limiter.rolled(now, slots).previous().capacity == slots,
        limiter.rolled(now, slots).limit == limiter.limit,
        limiter.rolled(now, slots).period == limiter.period,
{
}

/// Moving on leads to a window that is not over, and moving on again at the same time changes
/// nothing.
pub proof fn law_rolling_settles(limiter: LimiterModel, now: int, slots: usize, again: usize)
    requires
        limiter.period > 0,
        limiter.current().starts_at <= now,
    ensures
        limiter.rolled(now, slots).current().starts_at <= now,
        now < limiter.rolled(now, slots).current().starts_at + limiter.period,
        limiter.rolled(now, slots).rolled(now, again) == limiter.rolled(now, slots),
{
}

/// The current window is the one that started last, and the other is the previous one. Where both
/// start together the green one is current.
pub proof fn law_current_window_started_last(limiter: LimiterModel)
    ensures
        limiter.previous().starts_at <= limiter.current().starts_at,
        limiter.current() == limiter.green && limiter.previous() == limiter.blue || limiter.current()
            == limiter.blue && limiter.previous() == limiter.green,
        limiter.green.starts_at == limiter.blue.starts_at ==> limiter.current() == limiter.green,
{
}

/// One more request of a client adds one to what its window counts of it, up to the largest count.
/// Nothing else in the window changes, and a window that starts has seen nobody.
pub proof fn law_one_request_adds_one(
    bucket: BucketModel,
    ip: IpAddr,
    other: IpAddr,
    starts_at: int,
    capacity: usize,
)
    requires
        other != ip,
    ensures
        bucket.count(ip) < u16::MAX ==> bucket.counted(ip).count(ip) == bucket.count(ip) + 1,
        bucket.count(ip) == u16::MAX ==> bucket.counted(ip).count(ip) == u16::MAX,
        bucket.counted(ip).counts.contains_key(ip),
        bucket.counted(ip).counts.remove(ip) == bucket.counts.remove(ip),
        bucket.counted(ip).count(other) == bucket.count(other),
        bucket.counted(ip).starts_at == bucket.starts_at,
        bucket.counted(ip).capacity == bucket.capacity,
        bucket.counts.contains_key(ip) ==> bucket.count(ip) == bucket.counts[ip],
        !bucket.counts.contains_key(ip) ==> bucket.count(ip) == 0,
        BucketModel::fresh(starts_at, capacity).counts.dom() == Set::<IpAddr>::empty(),
        BucketModel::fresh(starts_at, capacity).starts_at == starts_at,
        BucketModel::fresh(starts_at, capacity).capacity == capacity,
{
    assert(bucket.counted(ip).counts.remove(ip) =~= bucket.counts.remove(ip));
    assert(BucketModel::fresh(starts_at, capacity).counts.dom() =~= Set::<IpAddr>::empty());
}

/// Counts go up by one until they reach the largest.
pub proof fn law_counts_go_up_by_one(sum: u16)
    ensures
        next_count(sum) - sum == if sum < 65535 {
            1int
        } else {
            0int
        },
{
}

/// A new limiter has the limit it was asked for, and the largest limit there is counts as one less.
/// Its windows have the period and the capacity it was asked for, have seen nobody, and the current
/// one starts now. The other starts now as well, or ended now if a period has gone by since.
pub proof fn law_new_limiter_is_as_asked(
    limit: u16,
    period: nat,
    capacity: usize,
    now: int,
    elapsed: nat,
)
    ensures
        ({
            let limiter = new_limiter(limit, period, capacity, now, elapsed);
            &&& limit < u16::MAX ==> limiter.limit == limit
            &&& limit == u16::MAX ==> limiter.limit + 1 == limit
            &&& limiter.period == period
            &&& limiter.green.capacity == capacity
            &&& limiter.blue.capacity == capacity
            &&& limiter.green.counts.dom() == Set::<IpAddr>::empty()
            &&& limiter.blue.counts.dom() == Set::<IpAddr>::empty()
            &&& limiter.current() == limiter.green
            &&& limiter.green.starts_at == now
            &&& elapsed < period ==> limiter.blue.starts_at == now
            &&& elapsed >= period ==> limiter.blue.starts_at + period == now
        }),
{
    let limiter = new_limiter(limit, period, capacity, now, elapsed);
    assert(limiter.green.counts.dom() =~= Set::<IpAddr>::empty());
    assert(limiter.blue.counts.dom() =~= Set::<IpAddr>::empty());
}

/// A limiter that is asked for a larger limit works with a larger one, but for the two largest
/// limits, which are the same.
pub proof fn law_limits_keep_their_order(smaller: u16, larger: u16)
    requires
        smaller < larger,
    ensures
        sanitized_limit(smaller) < sanitized_limit(larger) || larger == u16::MAX && smaller
            == u16::MAX - 1,
{
}

/// The window before another starts with it while the period has not gone by, and ends where it
/// starts once it has.
pub proof fn law_previous_window_ends_at_the_start(start: int, elapsed: nat, period: nat)
    ensures
        elapsed < period ==> prev_window(start, elapsed, period) == start,
        elapsed >= period ==> prev_window(start, elapsed, period) + period == start,
{
}

/// The periods of whole seconds are valid as far as two of them are a duration, and so are those
/// between them. A part of a second alone is not.
pub proof fn law_valid_periods_have_a_second(seconds: nat, rest: nat)
    requires
        2 * (seconds + 1) <= u64::MAX,
        rest < 1_000_000_000,
    ensures
        valid_period(seconds * 1_000_000_000),
        seconds > 0 ==> valid_period(seconds * 1_000_000_000 + rest),
        rest > 0 ==> !valid_period(rest),
        !valid_period((u64::MAX / 2 + 1) as nat * 1_000_000_000 + rest),
{
}

/// A request that is not turned away counts for its client in the current window and changes nothing
/// else. The client may go on by the count that includes the request.
pub proof fn law_request_is_counted_then_answered(
    limiter: LimiterModel,
    ip: IpAddr,
    other: IpAddr,
    now: int,
    green_slots: usize,
    slots: usize,
    later: int,
)
    requires
        limiter.limit > 0,
        other != ip,
        ({
            let current = limiter.rolled(now, green_slots).current();
            current.counts.contains_key(ip) || current.counts.len() != slots
        }),
    ensures
        ({
            let rolled = limiter.rolled(now, green_slots);
            let (after, answer) = resumed(limiter, ip, now, green_slots, slots, later);
            let count = rolled.current().count(ip);
            &&& after.limit == limiter.limit
            &&& after.period == limiter.period
            &&& after.previous() == rolled.previous()
            &&& after.current().starts_at == rolled.current().starts_at
            &&& after.current().capacity == rolled.current().capacity
            &&& after.current().counts.remove(ip) == rolled.current().counts.remove(ip)
            &&& after.current().count(other) == rolled.current().count(other)
            &&& after.current().counts.contains_key(ip)
            &&& count < u16::MAX ==> after.current().counts[ip] == count + 1
            &&& count == u16::MAX ==> after.current().counts[ip] == u16::MAX
            &&& answer == Ok::<bool, ()>(after.allows(ip, later))
        }),
{
    let rolled = limiter.rolled(now, green_slots);
    let after = resumed(limiter, ip, now, green_slots, slots, later).0;
    assert(after.current().counts.remove(ip) =~= rolled.current().counts.remove(ip));
}

/// The answer to a request by the numbers alone: the requests of the client in the current window,
/// with this one, and those in the previous window.
pub proof fn law_answer_by_the_numbers(
    limiter: LimiterModel,
    ip: IpAddr,
    now: int,
    green_slots: usize,
    slots: usize,
    later: int,
    whole: nat,
    gone: nat,
)
    requires
        limiter.limit > 0,
        valid_period(limiter.period),
        whole * 1_000_000_000 <= limiter.period < (whole + 1) * 1_000_000_000,
        ({
            let current = limiter.rolled(now, green_slots).current();
            &&& current.counts.contains_key(ip) || current.counts.len() != slots
            &&& current.count(ip) < u16::MAX
            &&& gone * 1_000_000_000 <= later - current.starts_at < (gone + 1) * 1_000_000_000
        }),
    ensures
        ({
            let rolled = limiter.rolled(now, green_slots);
            let count = rolled.current().count(ip) + 1;
            let prev = rolled.previous().count(ip) as int;
            resumed(limiter, ip, now, green_slots, slots, later).1 == Ok::<bool, ()>(
                if later - rolled.current().starts_at < limiter.period {
                    prev * (whole - gone) < (limiter.limit + 1 - count) * whole
                } else {
                    count <= limiter.limit
                },
            )
        }),
{
    let rolled = limiter.rolled(now, green_slots);
    let after = rolled.counted(ip);
    law_allowed_by_the_numbers(after, ip, later, whole, gone);
}

/// Without a period the window is never over: the limit is all there is.
pub proof fn law_no_period_counts_forever(
    limiter: LimiterModel,
    ip: IpAddr,
    now: int,
    slots: usize,
)
    requires
        limiter.period == 0,
    ensures
        limiter.rolled(now, slots) == limiter,
        limiter.rate(ip, now) == limiter.current().count(ip),
{
}

} // verus!
