use crate::ip::{IpAddr, Ipv4Addr, Ipv6Addr};
use crate::rate_limiter::model::{next_count, BucketModel};
use crate::time::Moment;
use std::collections::HashMap;
use vstd::prelude::*;

verus! {

/// Counts the requests of one client.
#[derive(Clone, Copy, Debug)]
pub struct Counter {
    pub sum: u16,
}

impl Counter {
    /// A counter that has counted nothing.
    pub fn new() -> (counter: Counter)
        ensures
            counter.sum == 0,
    {
        Counter { sum: 0 }
    }

    /// Counts one more request, up to the largest count.
    pub fn increment(&mut self)
        ensures
            final(self).sum == next_count(old(self).sum),
            old(self).sum < u16::MAX ==> final(self).sum == old(self).sum + 1,
            old(self).sum == u16::MAX ==> final(self).sum == u16::MAX,
    {
        self.sum = self.sum.saturating_add(1);
    }
}

/// The counters of the clients of one window, by the family of their addresses.
#[derive(Debug)]
pub struct RateLimiterBucket {
    starts_at: Moment,
    capacity: usize,
    v4: HashMap<u32, Counter>,
    v6: HashMap<u128, Counter>,
}

/// The counts of both families as one map.
spec fn merged(v4: Map<u32, Counter>, v6: Map<u128, Counter>) -> Map<IpAddr, u16> {
    Map::new(
        |ip: IpAddr|
            match ip {
                IpAddr::V4(a) => v4.contains_key(a.bits),
                IpAddr::V6(a) => v6.contains_key(a.bits),
            },
        |ip: IpAddr|
            match ip {
                IpAddr::V4(a) => v4[a.bits].sum,
                IpAddr::V6(a) => v6[a.bits].sum,
            },
    )
}

impl View for RateLimiterBucket {
    type V = BucketModel;

    closed spec fn view(&self) -> BucketModel {
        BucketModel {
            starts_at: self.starts_at@,
            capacity: self.capacity,
            counts: merged(self.v4@, self.v6@),
        }
    }
}

/// Calls `HashMap::capacity`, the number of slots the table has. It depends on what was allocated,
/// so nothing is claimed of it.
#[verifier::external_body]
fn table_slots(table: &HashMap<u32, Counter>) -> usize {
    table.capacity()
}

impl RateLimiterBucket {
    /// A window that starts at `starts_at` and has room for at least `capacity` clients. Its tables
    /// are allocated at once.
    pub fn new(starts_at: Moment, capacity: usize) -> (bucket: RateLimiterBucket)
        ensures
            bucket@ == BucketModel::fresh(starts_at@, capacity),
            bucket@.starts_at == starts_at@,
            bucket@.capacity == capacity,
            bucket@.counts == Map::<IpAddr, u16>::empty(),
    {
        let bucket = RateLimiterBucket {
            starts_at,
            capacity,
            v4: HashMap::with_capacity(capacity),
            v6: HashMap::with_capacity(capacity),
        };
        assert(bucket@.counts =~= Map::empty());
        bucket
    }

    /// Where the window starts.
    pub fn starts_at(&self) -> (starts_at: Moment)
        ensures
            starts_at@ == self@.starts_at,
    {
        self.starts_at
    }

    /// Whether `allocated` is what the table of this window reports of its slots.
    pub closed spec fn table_reports(&self, allocated: usize) -> bool {
        call_ensures(table_slots, (&self.v4,), allocated)
    }

    /// Whether `slots` is what the table of this window can say of its slots: the number that it
    /// gives itself, but no less than the window was made for.
    pub closed spec fn has_slots(&self, slots: usize) -> bool {
        exists|allocated: usize| #[trigger]
            call_ensures(table_slots, (&self.v4,), allocated) && slots == if allocated
                >= self.capacity {
                allocated
            } else {
                self.capacity
            }
    }

    /// How many slots the table of the window has, which are at least those it was made with. How
    /// many more there are depends on what was allocated, and is left open.
    pub fn slots(&self) -> (slots: usize)
        ensures
            self.has_slots(slots),
            slots >= self@.capacity,
            exists|allocated: usize| #[trigger]
                self.table_reports(allocated) && slots >= allocated && (slots <= allocated || slots
                    <= self@.capacity),
    {
        let allocated: usize = table_slots(&self.v4);
        assert(self.table_reports(allocated));
        if allocated >= self.capacity {
            allocated
        } else {
            self.capacity
        }
    }

    /// How many requests of `ip` the window has seen, if any.
    pub fn count(&self, ip: &IpAddr) -> (count: Option<u16>)
        ensures
            match count {
                Some(sum) => self@.counts.contains_key(*ip) && sum == self@.counts[*ip],
                None => !self@.counts.contains_key(*ip),
            },
    {
        let counter = match ip {
            IpAddr::V4(a) => self.v4.get(&a.bits),
            IpAddr::V6(a) => self.v6.get(&a.bits),
        };
        match counter {
            Some(counter) => Some(counter.sum),
            None => None,
        }
    }

    /// Whether the window has no room for another client, where its table has `slots` slots.
    pub fn is_full(&self, slots: usize) -> (full: bool)
        ensures
            full == self@.is_full(slots),
            full == (self@.counts.len() == slots),
    {
        let clients: u128 = self.v4.len() as u128 + self.v6.len() as u128;
        proof {
            lemma_merged_len(self.v4@, self.v6@);
        }
        clients == slots as u128
    }

    /// Counts one more request of `ip`.
    pub fn add(&mut self, ip: &IpAddr)
        ensures
            final(self)@ == old(self)@.counted(*ip),
            final(self)@.starts_at == old(self)@.starts_at,
            final(self)@.capacity == old(self)@.capacity,
            final(self)@.counts.contains_key(*ip),
            !old(self)@.counts.contains_key(*ip) ==> final(self)@.counts[*ip] == 1,
            old(self)@.counts.contains_key(*ip) && old(self)@.counts[*ip] < u16::MAX
                ==> final(self)@.counts[*ip] == old(self)@.counts[*ip] + 1,
            old(self)@.counts.contains_key(*ip) && old(self)@.counts[*ip] == u16::MAX
                ==> final(self)@.counts[*ip] == u16::MAX,
            final(self)@.counts.remove(*ip) == old(self)@.counts.remove(*ip),
    {
        match ip {
            IpAddr::V4(a) => {
                self.v4.entry(a.bits).or_insert(Counter::new()).increment();
            },
            IpAddr::V6(a) => {
                self.v6.entry(a.bits).or_insert(Counter::new()).increment();
            },
        }
        assert(self@.counts =~= old(self)@.counted(*ip).counts);
    }
}

/// The slots that a window can say it has are those of its own table, or those it was made with
/// where the table reports fewer: no fewer than either, and no more than the larger.
pub proof fn law_slots_are_those_of_the_table(bucket: RateLimiterBucket, slots: usize)
    requires
        bucket.has_slots(slots),
    ensures
        slots >= bucket@.capacity,
        exists|allocated: usize| #[trigger]
            bucket.table_reports(allocated) && slots >= allocated && (slots <= allocated || slots
                <= bucket@.capacity),
{
    law_report_is_the_tables_own(bucket, slots);
}

/// What a table reports of its slots is what `table_slots` gives for that very table, and the slots
/// of the window are no more than the larger of that and the capacity.
proof fn law_report_is_the_tables_own(bucket: RateLimiterBucket, slots: usize)
    requires
        bucket.has_slots(slots),
    ensures
        exists|allocated: usize| #[trigger]
            call_ensures(table_slots, (&bucket.v4,), allocated) && bucket.table_reports(allocated)
                && slots >= allocated && slots >= bucket.capacity && (slots <= allocated || slots
                <= bucket.capacity),
        forall|allocated: usize| #[trigger]
            bucket.table_reports(allocated) ==> call_ensures(
                table_slots,
                (&bucket.v4,),
                allocated,
            ),
{
}

/// A window counts what its own tables hold, each address in the table of its family.
proof fn law_view_is_of_the_tables(bucket: RateLimiterBucket, v4: Ipv4Addr, v6: Ipv6Addr)
    ensures
        bucket@.starts_at == bucket.starts_at@,
        bucket@.capacity == bucket.capacity,
        bucket@.counts.contains_key(IpAddr::V4(v4)) == bucket.v4@.contains_key(v4.bits),
        bucket@.counts.contains_key(IpAddr::V6(v6)) == bucket.v6@.contains_key(v6.bits),
        bucket.v4@.contains_key(v4.bits) ==> bucket@.counts[IpAddr::V4(v4)]
            == bucket.v4@[v4.bits].sum,
        bucket.v6@.contains_key(v6.bits) ==> bucket@.counts[IpAddr::V6(v6)]
            == bucket.v6@[v6.bits].sum,
{
}

proof fn lemma_merged_len(v4: Map<u32, Counter>, v6: Map<u128, Counter>)
    requires
        v4.dom().finite(),
        v6.dom().finite(),
    ensures
        merged(v4, v6).dom().finite(),
        merged(v4, v6).len() == v4.len() + v6.len(),
{
    let to_v4 = |bits: u32| IpAddr::V4(Ipv4Addr { bits });
    let to_v6 = |bits: u128| IpAddr::V6(Ipv6Addr { bits });
    let clients4 = v4.dom().map(to_v4);
    let clients6 = v6.dom().map(to_v6);
    vstd::set_lib::lemma_map_size(v4.dom(), clients4, to_v4);
    vstd::set_lib::lemma_map_size(v6.dom(), clients6, to_v6);
    vstd::set_lib::lemma_set_disjoint_lens(clients4, clients6);
    assert forall|ip: IpAddr| #[trigger]
        merged(v4, v6).contains_key(ip) implies (clients4 + clients6).contains(ip) by {
        match ip {
            IpAddr::V4(a) => {
                assert(to_v4(a.bits) == ip);
            },
            IpAddr::V6(a) => {
                assert(to_v6(a.bits) == ip);
            },
        }
    }
    assert(merged(v4, v6).dom() =~= clients4 + clients6);
}

} // verus!
