//! A token bucket that throttles the analysis calls.
//!
//! The bucket holds the number of available permits. A clock calls `tick`
//! at a fixed cadence; each tick adds one permit unless the bucket is full.
//! An acquirer takes one permit, which is consumed and never returned:
//! capacity comes back through ticks only. The bucket starts with one permit
//! so that the first call need not wait for the first tick.
use vstd::prelude::*;

verus! {

/// Milliseconds in one minute.
pub const MILLIS_PER_MINUTE: u64 = 60_000;

/// The available count after one tick.
pub open spec fn tick_step(available: nat, max_outstanding: nat) -> nat {
    if available < max_outstanding {
        available + 1
    } else {
        available
    }
}

/// The available count after `n` ticks with no acquisition in between.
pub open spec fn after_ticks(available: nat, max_outstanding: nat, n: nat) -> nat
    decreases n,
{
    if n == 0 {
        available
    } else {
        tick_step(after_ticks(available, max_outstanding, (n - 1) as nat), max_outstanding)
    }
}

/// How many of `k` acquisitions in a row, with no tick in between, are
/// granted from `available` permits.
pub open spec fn granted(available: nat, k: nat) -> nat
    decreases k,
{
    if k == 0 {
        0
    } else if available > 0 {
        1 + granted((available - 1) as nat, (k - 1) as nat)
    } else {
        granted(available, (k - 1) as nat)
    }
}

/// Period of the replenishment clock for a per-minute budget: the minute
/// split into `requests_per_minute` even ticks, rounded down to whole
/// milliseconds. A zero budget never ticks.
pub open spec fn spec_tick_interval_ms(requests_per_minute: u32) -> u64 {
    if requests_per_minute == 0 {
        u64::MAX
    } else {
        (MILLIS_PER_MINUTE / requests_per_minute as u64) as u64
    }
}

pub fn tick_interval_ms(requests_per_minute: u32) -> (r: u64)
    ensures
        r == spec_tick_interval_ms(requests_per_minute),
{
    if requests_per_minute == 0 {
        u64::MAX
    } else {
        MILLIS_PER_MINUTE / requests_per_minute as u64
    }
}

/// Token-bucket state: available permits, capped at `max_outstanding`.
pub struct RateLimiter {
    available: usize,
    max_outstanding: usize,
    requests_per_minute: u32,
}

impl RateLimiter {
    pub closed spec fn spec_available(&self) -> nat {
        self.available as nat
    }

    pub closed spec fn spec_max_outstanding(&self) -> nat {
        self.max_outstanding as nat
    }

    pub closed spec fn spec_requests_per_minute(&self) -> u32 {
        self.requests_per_minute
    }

    /// The available count never exceeds the cap, but for the one permit
    /// a bucket starts with.
    pub open spec fn well_formed(&self) -> bool {
        self.spec_available() <= self.spec_max_outstanding() || self.spec_available() <= 1
    }

    /// A bucket refilled at `requests_per_minute` and capped at that many
    /// available permits.
    pub fn new(requests_per_minute: u32) -> (r: RateLimiter)
        ensures
            r.well_formed(),
            r.spec_available() == 1,
            r.spec_max_outstanding() == requests_per_minute,
            r.spec_requests_per_minute() == requests_per_minute,
    {
        RateLimiter::with_max_outstanding(requests_per_minute, requests_per_minute as usize)
    }

    /// A bucket refilled at `requests_per_minute` and capped at
    /// `max_outstanding` available permits.
    pub fn with_max_outstanding(requests_per_minute: u32, max_outstanding: usize) -> (r:
        RateLimiter)
        ensures
            r.well_formed(),
            r.spec_available() == 1,
            r.spec_max_outstanding() == max_outstanding,
            r.spec_requests_per_minute() == requests_per_minute,
    {
        RateLimiter { available: 1, max_outstanding, requests_per_minute }
    }

    /// One beat of the replenishment clock: adds a permit unless the bucket
    /// is full. Returns whether one was added.
    pub fn tick(&mut self) -> (r: bool)
        requires
            old(self).well_formed(),
        ensures
            final(self).well_formed(),
            r == (old(self).spec_available() < old(self).spec_max_outstanding()),
            final(self).spec_available() == tick_step(
                old(self).spec_available(),
                old(self).spec_max_outstanding(),
            ),
            final(self).spec_max_outstanding() == old(self).spec_max_outstanding(),
            final(self).spec_requests_per_minute() == old(self).spec_requests_per_minute(),
    {
        if self.available < self.max_outstanding {
            self.available = self.available + 1;
            true
        } else {
            false
        }
    }

    /// Takes one permit if one is available. Returns whether it did; the
    /// caller waits for a tick and tries again otherwise.
    pub fn try_acquire(&mut self) -> (r: bool)
        requires
            old(self).well_formed(),
        ensures
            final(self).well_formed(),
            r == (old(self).spec_available() > 0),
            r ==> final(self).spec_available() == old(self).spec_available() - 1,
            !r ==> final(self).spec_available() == old(self).spec_available(),
            final(self).spec_max_outstanding() == old(self).spec_max_outstanding(),
            final(self).spec_requests_per_minute() == old(self).spec_requests_per_minute(),
    {
        if self.available > 0 {
            self.available = self.available - 1;
            true
        } else {
            false
        }
    }

    pub fn available_permits(&self) -> (r: usize)
        ensures
            r == self.spec_available(),
    {
        self.available
    }

    pub fn max_outstanding(&self) -> (r: usize)
        ensures
            r == self.spec_max_outstanding(),
    {
        self.max_outstanding
    }

    pub fn requests_per_minute(&self) -> (r: u32)
        ensures
            r == self.spec_requests_per_minute(),
    {
        self.requests_per_minute
    }

    /// Period of this bucket's replenishment clock in milliseconds.
    pub fn tick_interval_ms(&self) -> (r: u64)
        ensures
            r == spec_tick_interval_ms(self.spec_requests_per_minute()),
    {
        tick_interval_ms(self.requests_per_minute)
    }
}

/// With a cap of at least one, no state of a bucket holds more available
/// permits than the cap.
pub proof fn lemma_available_within_cap(b: RateLimiter)
    requires
        b.well_formed(),
        b.spec_max_outstanding() >= 1,
    ensures
        b.spec_available() <= b.spec_max_outstanding(),
{
}

/// With no acquisition in between, `n` ticks add `n` permits until the cap
/// is reached, and never pass it.
pub proof fn lemma_ticks_fill_to_cap(available: nat, max_outstanding: nat, n: nat)
    requires
        available <= max_outstanding,
    ensures
        after_ticks(available, max_outstanding, n) == if available + n <= max_outstanding {
            available + n
        } else {
            max_outstanding
        },
        after_ticks(available, max_outstanding, n) <= max_outstanding,
    decreases n,
{
    if n > 0 {
        lemma_ticks_fill_to_cap(available, max_outstanding, (n - 1) as nat);
    }
}

/// The clock fits `requests_per_minute` ticks in one minute, and one tick
/// more per minute would not fit: over a minute the permits added differ
/// from the budget by less than one tick's share.
pub proof fn lemma_tick_rate(requests_per_minute: u32)
    requires
        0 < requests_per_minute <= MILLIS_PER_MINUTE,
    ensures
        spec_tick_interval_ms(requests_per_minute) > 0,
        spec_tick_interval_ms(requests_per_minute) * requests_per_minute <= MILLIS_PER_MINUTE,
        MILLIS_PER_MINUTE < (spec_tick_interval_ms(requests_per_minute) + 1)
            * requests_per_minute,
{
    let r = requests_per_minute as int;
    let q = MILLIS_PER_MINUTE as int / r;
    assert(q * r <= 60000int < (q + 1) * r) by (nonlinear_arith)
        requires
            q == 60000int / r,
            r > 0,
    {
    }
    assert(q > 0) by (nonlinear_arith)
        requires
            q == 60000int / r,
            0 < r <= 60000int,
    {
    }
}

/// Permits are never issued twice: of `k` acquisitions made in a row with
/// no tick in between, exactly as many are granted as there were permits,
/// or all of them where permits were left over.
pub proof fn lemma_grants_match_permits(available: nat, k: nat)
    ensures
        granted(available, k) == if k <= available {
            k
        } else {
            available
        },
    decreases k,
{
    if k > 0 {
        if available > 0 {
            lemma_grants_match_permits((available - 1) as nat, (k - 1) as nat);
        } else {
            lemma_grants_match_permits(available, (k - 1) as nat);
        }
    }
}

} // verus!
