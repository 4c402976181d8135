use crate::ip::IpAddr;
use crate::time::{max_duration, time_between};
use vstd::prelude::*;

verus! {

/// What one window of a rate limiter holds.
#[verifier::ext_equal]
pub struct BucketModel {
    /// Where the window starts, on the clock of the limiter.
    pub starts_at: int,
    /// How many clients the window was made to count.
    pub capacity: usize,
    /// How many requests each client that was seen in the window has made.
    pub counts: Map<IpAddr, u16>,
}

/// What a rate limiter holds: the counts of two neighbouring windows.
#[verifier::ext_equal]
pub struct LimiterModel {
    /// How many requests a client may make within one period.
    pub limit: u16,
    /// The length of a window in nanoseconds.
    pub period: nat,
    pub green: BucketModel,
    pub blue: BucketModel,
}

/// The count that follows `sum`; the largest one stays.
pub open spec fn next_count(sum: u16) -> u16 {
    if sum == u16::MAX {
        sum
    } else {
        (sum + 1) as u16
    }
}

/// The limit that a limiter works with. The largest count must lie above it.
pub open spec fn sanitized_limit(limit: u16) -> u16 {
    if limit == u16::MAX {
        (u16::MAX - 1) as u16
    } else {
        limit
    }
}

/// The part of the previous window's requests that counts once `needle` of the current window has
/// gone by: the share that the rest of the window has in all of it, in whole seconds.
pub open spec fn approx_count(prev: u16, needle: nat, period: nat) -> nat {
    if needle >= period {
        0
    } else {
        (prev * (period / 1_000_000_000 - needle / 1_000_000_000) / (period
            / 1_000_000_000) as int) as nat
    }
}

/// The periods for which a sliding window is defined: none at all, or at least a second, and short
/// enough for two of them to be a duration.
pub open spec fn valid_period(period: nat) -> bool {
    (period == 0 || period >= 1_000_000_000) && 2 * period <= max_duration()
}

/// Where the window before the one that starts at `start` begins, if it was over when `elapsed` had
/// gone by since.
pub open spec fn prev_window(start: int, elapsed: nat, period: nat) -> int {
    if elapsed < period {
        start
    } else {
        start - period
    }
}

impl BucketModel {
    /// A window in which nobody was seen yet.
    pub open spec fn fresh(starts_at: int, capacity: usize) -> BucketModel {
        BucketModel { starts_at, capacity, counts: Map::empty() }
    }

    /// How many requests of `ip` the window has seen.
    pub open spec fn count(self, ip: IpAddr) -> u16 {
        if self.counts.contains_key(ip) {
            self.counts[ip]
        } else {
            0
        }
    }

    /// The window after one more request of `ip`.
    pub open spec fn counted(self, ip: IpAddr) -> BucketModel {
        BucketModel { counts: self.counts.insert(ip, next_count(self.count(ip))), ..self }
    }

    /// Whether the window has no room for another client, where its table has `slots` slots.
    pub open spec fn is_full(self, slots: usize) -> bool {
        self.counts.len() == slots
    }
}

impl LimiterModel {
    /// Whether the green window is the current one.
    pub open spec fn green_is_current(self) -> bool {
        self.green.starts_at >= self.blue.starts_at
    }

    /// The window that requests are counted in.
    pub open spec fn current(self) -> BucketModel {
        if self.green_is_current() {
            self.green
        } else {
            self.blue
        }
    }

    /// The window before the current one.
    pub open spec fn previous(self) -> BucketModel {
        if self.green_is_current() {
            self.blue
        } else {
            self.green
        }
    }

    /// Whether the current window is over at `now`. A period of no length is never over.
    pub open spec fn window_is_over(self, now: int) -> bool {
        self.period > 0 && now >= self.current().starts_at + self.period
    }

    /// The limiter at `now`, where the table of the green window has `slots` slots. Once the current
    /// window is over it becomes the previous one, and after another period both are forgotten.
    pub open spec fn rolled(self, now: int, slots: usize) -> LimiterModel {
        let start = self.current().starts_at;
        if !self.window_is_over(now) {
            self
        } else if now >= start + 2 * self.period {
            LimiterModel {
                green: BucketModel::fresh(now, slots),
                blue: BucketModel::fresh(now, slots),
                ..self
            }
        } else if self.green_is_current() {
            LimiterModel { blue: BucketModel::fresh(start + self.period, slots), ..self }
        } else {
            LimiterModel { green: BucketModel::fresh(start + self.period, slots), ..self }
        }
    }

    /// Whether `ip` cannot be counted, where the table of the current window has `slots` slots.
    pub open spec fn lacks_room(self, ip: IpAddr, slots: usize) -> bool {
        !self.current().counts.contains_key(ip) && self.current().is_full(slots)
    }

    /// The limiter after one more request of `ip`.
    pub open spec fn counted(self, ip: IpAddr) -> LimiterModel {
        if self.green_is_current() {
            LimiterModel { green: self.green.counted(ip), ..self }
        } else {
            LimiterModel { blue: self.blue.counted(ip), ..self }
        }
    }

    /// The rate of `ip` at `now`: its requests in the current window, and a share of those in the
    /// previous one that shrinks as the current window goes by.
    pub open spec fn rate(self, ip: IpAddr, now: int) -> nat {
        approx_count(
            self.previous().count(ip),
            time_between(self.current().starts_at, now),
            self.period,
        ) + self.current().count(ip) as nat
    }

    /// Whether a client whose request was counted may go on at `now`.
    pub open spec fn allows(self, ip: IpAddr, now: int) -> bool {
        self.limit >= self.rate(ip, now)
    }
}

} // verus!
