//! Token bucket limiting the requests per minute (RPM) of each provider.
//!
//! A provider's bucket holds at most `capacity` tokens (its RPM limit) and starts
//! full; it refills continuously at `capacity` tokens per minute; each request
//! takes one token. Token amounts are counted exactly in units of
//! 1/60_000_000_000 of a token, so that a refill over `n` nanoseconds adds exactly
//! `n * capacity` units. Times are nanoseconds of monotonic time since the limiter
//! was created.
use vstd::prelude::*;
use dashmap::DashMap;
use std::time::Instant;
use crate::clock::{instant_now, nanos_since};

verus! {

/// Units in one token.
pub const UNITS_PER_TOKEN: u128 = 60_000_000_000;

/// The bucket of one provider.
#[derive(Debug, Clone, Copy, PartialEq, Eq, Structural)]
pub struct TokenBucket {
    /// Maximum number of tokens (the RPM limit the bucket was made with).
    pub capacity: u32,
    /// Tokens held, in units.
    pub units: u128,
    /// Time of the last refill.
    pub last_refill: u64,
}

/// What a map of buckets holds: provider id to bucket.
pub uninterp spec fn bucket_entries(m: DashMap<String, TokenBucket>) -> Map<Seq<char>, TokenBucket>;

/// No bucket at all.
pub open spec fn no_buckets() -> Map<Seq<char>, TokenBucket> {
    Map::empty()
}

/// Calls `DashMap::new`: an empty map.
#[verifier::external_body]
fn bucket_map_new() -> (map: DashMap<String, TokenBucket>)
    ensures
        bucket_entries(map) == no_buckets(),
{
    DashMap::new()
}

/// Calls `DashMap::get` and copies the value found: the bucket of `key`, if any.
#[verifier::external_body]
fn bucket_map_get(m: &DashMap<String, TokenBucket>, key: &str) -> (r: Option<TokenBucket>)
    ensures
        r == (if bucket_entries(*m).contains_key(key@) { Some(bucket_entries(*m)[key@]) } else { None }),
{
    m.get(key).map(|e| *e.value())
}

/// Calls `DashMap::insert`: afterwards `key` maps to `v`, other keys unchanged.
#[verifier::external_body]
fn bucket_map_insert(m: &mut DashMap<String, TokenBucket>, key: String, v: TokenBucket)
    ensures
        bucket_entries(*final(m)) == bucket_entries(*old(m)).insert(key@, v),
{
    m.insert(key, v);
}

/// Calls `DashMap::remove`: afterwards `key` is absent, other keys unchanged.
#[verifier::external_body]
fn bucket_map_remove(m: &mut DashMap<String, TokenBucket>, key: &str)
    ensures
        bucket_entries(*final(m)) == bucket_entries(*old(m)).remove(key@),
{
    m.remove(key);
}

/// A full bucket for an RPM limit of `rpm`, made at `now`.
pub open spec fn new_bucket(rpm: u32, now: u64) -> TokenBucket {
    TokenBucket { capacity: rpm, units: (rpm * UNITS_PER_TOKEN) as u128, last_refill: now }
}

/// The bucket refilled at `now`: it gains `capacity` units per nanosecond elapsed
/// since its last refill (none if the clock went back), up to its capacity.
pub open spec fn refilled(b: TokenBucket, now: u64) -> TokenBucket {
    let elapsed: int = if now >= b.last_refill { now - b.last_refill } else { 0 };
    let cap: int = b.capacity * UNITS_PER_TOKEN;
    let sum: int = b.units + elapsed * b.capacity;
    TokenBucket { units: (if sum < cap { sum } else { cap }) as u128, last_refill: now, ..b }
}

/// Whole seconds, rounded up, until a bucket refilled at the given point holds a
/// full token again.
pub open spec fn retry_after(b: TokenBucket) -> int {
    let missing: int = UNITS_PER_TOKEN - b.units;
    let per_sec: int = b.capacity * 1_000_000_000;
    (missing + per_sec - 1) / per_sec
}

/// A bucket is well-formed when its capacity is positive and it holds no more
/// than its capacity.
pub open spec fn bucket_wf(b: TokenBucket) -> bool {
    b.capacity > 0 && b.units <= b.capacity * UNITS_PER_TOKEN
}

/// RPM limiter keeping one bucket per provider.
pub struct TokenBucketLimiter {
    buckets: DashMap<String, TokenBucket>,
    origin: Instant,
}

impl TokenBucketLimiter {
    /// The bucket of each provider seen so far.
    pub closed spec fn buckets(&self) -> Map<Seq<char>, TokenBucket> {
        bucket_entries(self.buckets)
    }

    /// All buckets are well-formed.
    pub open spec fn wf(&self) -> bool {
        forall|k: Seq<char>| #[trigger] self.buckets().contains_key(k) ==> bucket_wf(self.buckets()[k])
    }

    /// The bucket of `id` that a request with limit `rpm` at `now` would use:
    /// the stored one, else a full new one.
    pub open spec fn bucket_for(&self, id: Seq<char>, rpm: u32, now: u64) -> TokenBucket {
        if self.buckets().contains_key(id) { self.buckets()[id] } else { new_bucket(rpm, now) }
    }

    pub fn new() -> (l: Self)
        ensures
            l.buckets() == no_buckets(),
            l.wf(),
    {
        TokenBucketLimiter { buckets: bucket_map_new(), origin: instant_now() }
    }

    /// Admits a request at `now` under an RPM limit of `rpm`. A limit of 0 admits
    /// every request and touches nothing. Otherwise the provider's bucket (a full
    /// new one on first use) is refilled; a request is admitted, and one token
    /// taken, when the bucket holds at least one token; else it is refused with
    /// the seconds to wait until a token is back.
    pub fn check_and_consume_at(&mut self, provider_id: &str, rpm: u32, now: u64) -> (r: Result<(), u64>)
        requires
            old(self).wf(),
        ensures
            final(self).wf(),
            rpm == 0 ==> r is Ok && final(self).buckets() == old(self).buckets(),
            rpm != 0 ==> {
                let b = refilled(old(self).bucket_for(provider_id@, rpm, now), now);
                &&& (r is Ok <==> b.units >= UNITS_PER_TOKEN)
                &&& r is Ok ==> final(self).buckets() == old(self).buckets().insert(
                    provider_id@,
                    TokenBucket { units: (b.units - UNITS_PER_TOKEN) as u128, ..b },
                )
                &&& r matches Err(secs) ==> secs == retry_after(b)
                    && final(self).buckets() == old(self).buckets().insert(provider_id@, b)
                &&& final(self).buckets()[provider_id@] == bucket_step(old(self).bucket_for(provider_id@, rpm, now), now).0
                &&& (r is Ok) == bucket_step(old(self).bucket_for(provider_id@, rpm, now), now).1
            },
    {
        if rpm == 0 {
            return Ok(());
        }
        let bucket = match bucket_map_get(&self.buckets, provider_id) {
            Some(b) => {
                assert(old(self).buckets().contains_key(provider_id@));
                b
            },
            None => {
                let b = TokenBucket { capacity: rpm, units: (rpm as u128) * UNITS_PER_TOKEN, last_refill: now };
                bucket_map_insert(&mut self.buckets, String::from_str(provider_id), b);
                b
            },
        };
        assert(bucket_wf(bucket));
        let b = Self::refill(bucket, now);
        if b.units >= UNITS_PER_TOKEN {
            let taken = TokenBucket { units: b.units - UNITS_PER_TOKEN, ..b };
            bucket_map_insert(&mut self.buckets, String::from_str(provider_id), taken);
            proof {
                assert(bucket_entries(self.buckets) =~= old(self).buckets().insert(provider_id@, taken));
            }
            Ok(())
        } else {
            bucket_map_insert(&mut self.buckets, String::from_str(provider_id), b);
            proof {
                assert(bucket_entries(self.buckets) =~= old(self).buckets().insert(provider_id@, b));
            }
            let missing: u128 = UNITS_PER_TOKEN - b.units;
            let per_sec: u128 = (b.capacity as u128) * 1_000_000_000u128;
            let secs: u128 = (missing + per_sec - 1) / per_sec;
            assert(secs <= UNITS_PER_TOKEN) by (nonlinear_arith)
                requires
                    per_sec >= 1,
                    missing <= UNITS_PER_TOKEN,
                    secs as int == (missing + per_sec - 1) as int / per_sec as int,
            ;
            Err(secs as u64)
        }
    }

    /// The bucket refilled at `now`.
    fn refill(b: TokenBucket, now: u64) -> (r: TokenBucket)
        requires
            bucket_wf(b),
        ensures
            r == refilled(b, now),
            bucket_wf(r),
    {
        let elapsed: u64 = if now >= b.last_refill { now - b.last_refill } else { 0 };
        let cap: u128 = (b.capacity as u128) * UNITS_PER_TOKEN;
        assert((elapsed as u128) * (b.capacity as u128) <= 0xffff_ffff_ffff_ffffu128 * 0xffff_ffffu128) by (nonlinear_arith)
            requires
                elapsed <= 0xffff_ffff_ffff_ffffu64,
                b.capacity <= 0xffff_ffffu32,
        ;
        let add: u128 = (elapsed as u128) * (b.capacity as u128);
        let sum: u128 = b.units + add;
        TokenBucket { units: if sum < cap { sum } else { cap }, last_refill: now, ..b }
    }

    /// Admits a request now (see `check_and_consume_at`).
    pub fn check_and_consume(&mut self, provider_id: &str, rpm: u32) -> (r: Result<(), u64>)
        requires
            old(self).wf(),
        ensures
            final(self).wf(),
            rpm == 0 ==> r is Ok && final(self).buckets() == old(self).buckets(),
            rpm != 0 ==> exists|now: u64| {
                let b = #[trigger] refilled(old(self).bucket_for(provider_id@, rpm, now), now);
                &&& (r is Ok <==> b.units >= UNITS_PER_TOKEN)
                &&& r is Ok ==> final(self).buckets() == old(self).buckets().insert(
                    provider_id@,
                    TokenBucket { units: (b.units - UNITS_PER_TOKEN) as u128, ..b },
                )
                &&& r matches Err(secs) ==> secs == retry_after(b)
                    && final(self).buckets() == old(self).buckets().insert(provider_id@, b)
            },
    {
        let now = nanos_since(&self.origin);
        self.check_and_consume_at(provider_id, rpm, now)
    }

    /// The limiter's clock: nanoseconds since it was created. Nothing is promised
    /// of the reading.
    pub fn now_nanos(&self) -> u64 {
        nanos_since(&self.origin)
    }

    /// The tokens (in units) the provider's bucket holds once refilled at `now`;
    /// `None` for a provider without a bucket.
    pub fn get_tokens_at(&mut self, provider_id: &str, now: u64) -> (r: Option<u128>)
        requires
            old(self).wf(),
        ensures
            final(self).wf(),
            !old(self).buckets().contains_key(provider_id@) ==> r is None && final(self).buckets() == old(self).buckets(),
            old(self).buckets().contains_key(provider_id@) ==> {
                let b = refilled(old(self).buckets()[provider_id@], now);
                &&& r == Some(b.units)
                &&& final(self).buckets() == old(self).buckets().insert(provider_id@, b)
            },
    {
        match bucket_map_get(&self.buckets, provider_id) {
            Some(bucket) => {
                assert(old(self).buckets().contains_key(provider_id@));
                let b = Self::refill(bucket, now);
                bucket_map_insert(&mut self.buckets, String::from_str(provider_id), b);
                proof {
                    assert(bucket_entries(self.buckets) =~= old(self).buckets().insert(provider_id@, b));
                }
                Some(b.units)
            },
            None => None,
        }
    }

    /// The tokens (in units) the provider's bucket holds now.
    pub fn get_tokens(&mut self, provider_id: &str) -> (r: Option<u128>)
        requires
            old(self).wf(),
        ensures
            final(self).wf(),
            r is Some <==> old(self).buckets().contains_key(provider_id@),
    {
        let now = nanos_since(&self.origin);
        self.get_tokens_at(provider_id, now)
    }

    /// Forgets the provider's bucket: its next request gets a full one.
    pub fn reset(&mut self, provider_id: &str)
        requires
            old(self).wf(),
        ensures
            final(self).wf(),
            final(self).buckets() == old(self).buckets().remove(provider_id@),
    {
        bucket_map_remove(&mut self.buckets, provider_id);
    }
}


// ============================================================================
// Laws
// ============================================================================

/// How many of `k` requests in a row at `now` a bucket lets through.
pub open spec fn bucket_admitted(b: TokenBucket, now: u64, k: nat) -> nat
    decreases k,
{
    if k == 0 {
        0
    } else {
        let r = refilled(b, now);
        if r.units >= UNITS_PER_TOKEN {
            1 + bucket_admitted(TokenBucket { units: (r.units - UNITS_PER_TOKEN) as u128, ..r }, now, (k - 1) as nat)
        } else {
            bucket_admitted(r, now, (k - 1) as nat)
        }
    }
}

/// One request at `now` against bucket `b`: the bucket afterwards, and
/// whether the request is admitted (as `check_and_consume_at` handles it).
pub open spec fn bucket_step(b: TokenBucket, now: u64) -> (TokenBucket, bool) {
    let r = refilled(b, now);
    if r.units >= UNITS_PER_TOKEN {
        (TokenBucket { units: (r.units - UNITS_PER_TOKEN) as u128, ..r }, true)
    } else {
        (r, false)
    }
}

/// Requests at the times `ts`, one after the other: the bucket afterwards
/// and how many were admitted.
pub open spec fn bucket_run(b: TokenBucket, ts: Seq<u64>) -> (TokenBucket, nat)
    decreases ts.len(),
{
    if ts.len() == 0 {
        (b, 0)
    } else {
        let prev = bucket_run(b, ts.drop_last());
        let step = bucket_step(prev.0, ts.last());
        (step.0, if step.1 { prev.1 + 1 } else { prev.1 })
    }
}

/// The times are in order and none is before `start`.
pub open spec fn times_from(ts: Seq<u64>, start: u64) -> bool {
    &&& forall|i: int| 0 <= i < ts.len() ==> start <= #[trigger] ts[i]
    &&& forall|i: int, j: int| 0 <= i <= j < ts.len() ==> ts[i] <= ts[j]
}

proof fn lemma_bucket_run_budget(b: TokenBucket, ts: Seq<u64>)
    requires
        times_from(ts, b.last_refill),
    ensures
        bucket_run(b, ts).0.capacity == b.capacity,
        bucket_run(b, ts).0.last_refill == (if ts.len() == 0 { b.last_refill } else { ts.last() }),
        bucket_run(b, ts).0.units + bucket_run(b, ts).1 * UNITS_PER_TOKEN
            <= b.units + ((if ts.len() == 0 { b.last_refill } else { ts.last() }) - b.last_refill) * b.capacity,
    decreases ts.len(),
{
    if ts.len() > 0 {
        let init = ts.drop_last();
        assert(times_from(init, b.last_refill)) by {
            assert forall|i: int, j: int| 0 <= i <= j < init.len() implies init[i] <= init[j] by {
                assert(init[i] == ts[i] && init[j] == ts[j]);
            }
        }
        lemma_bucket_run_budget(b, init);
        let prev = bucket_run(b, init);
        let t_prev: int = if init.len() == 0 { b.last_refill as int } else { init.last() as int };
        let t: int = ts.last() as int;
        assert(t_prev <= t) by {
            if init.len() > 0 {
                assert(init.last() == ts[init.len() - 1]);
            }
        }
        let r = refilled(prev.0, ts.last());
        let c: int = b.capacity as int;
        assert((t - t_prev) * c >= 0) by (nonlinear_arith)
            requires
                t_prev <= t,
                c >= 0,
        ;
        assert(r.units <= prev.0.units + (t - t_prev) * c);
        let l: int = b.last_refill as int;
        assert((t_prev - l) * c + (t - t_prev) * c == (t - l) * c) by (nonlinear_arith);
    }
}

/// The RPM limit holds over time: of requests made at times in order from
/// the bucket's last refill on, the bucket admits at most the tokens it held
/// plus `capacity` tokens per minute elapsed until the last request (token
/// amounts in units of 1/60_000_000_000 of a token, times in nanoseconds).
pub proof fn lemma_rate_over_time(b: TokenBucket, ts: Seq<u64>)
    requires
        ts.len() > 0,
        times_from(ts, b.last_refill),
    ensures
        bucket_run(b, ts).1 * UNITS_PER_TOKEN <= b.units + (ts.last() - b.last_refill) * b.capacity,
{
    lemma_bucket_run_budget(b, ts);
}

proof fn lemma_refill_same_time(b: TokenBucket, now: u64)
    requires
        b.last_refill == now,
        b.units <= b.capacity * UNITS_PER_TOKEN,
    ensures
        refilled(b, now) == b,
{
    let cap: int = b.capacity * UNITS_PER_TOKEN;
    let elapsed: int = 0;
    assert(elapsed * b.capacity == 0);
    assert(cap <= 0xffff_ffff * 60_000_000_000) by (nonlinear_arith)
        requires
            cap == b.capacity * 60_000_000_000,
            b.capacity <= 0xffff_ffff,
    ;
    let r = refilled(b, now);
    assert(r.units == b.units);
}

proof fn lemma_refill_bounded(b: TokenBucket, now: u64)
    ensures
        refilled(b, now).units <= b.capacity * UNITS_PER_TOKEN,
        refilled(b, now).last_refill == now,
        refilled(b, now).capacity == b.capacity,
{
    let cap: int = b.capacity * UNITS_PER_TOKEN;
    let elapsed: int = if now >= b.last_refill { now - b.last_refill } else { 0 };
    assert(elapsed * b.capacity >= 0) by (nonlinear_arith)
        requires
            elapsed >= 0,
            b.capacity >= 0,
    ;
    assert(cap <= 0xffff_ffff * 60_000_000_000) by (nonlinear_arith)
        requires
            cap == b.capacity * 60_000_000_000,
            b.capacity <= 0xffff_ffff,
    ;
}

proof fn lemma_admitted_units(b: TokenBucket, now: u64, k: nat)
    requires
        b.units <= b.capacity * UNITS_PER_TOKEN,
    ensures
        bucket_admitted(b, now, k) * UNITS_PER_TOKEN <= refilled(b, now).units,
    decreases k,
{
    if k > 0 {
        let r = refilled(b, now);
        if r.units >= UNITS_PER_TOKEN {
            lemma_refill_bounded(b, now);
            let b2 = TokenBucket { units: (r.units - UNITS_PER_TOKEN) as u128, ..r };
            lemma_admitted_units(b2, now, (k - 1) as nat);
            lemma_refill_same_time(b2, now);
        } else {
            lemma_refill_bounded(b, now);
            lemma_admitted_units(r, now, (k - 1) as nat);
            lemma_refill_same_time(r, now);
        }
    }
}

/// A bucket lets at most its capacity (the RPM limit) of requests through
/// at one instant, however many are tried: bursts are bounded by the limit.
pub proof fn lemma_burst_limit(b: TokenBucket, now: u64, k: nat)
    requires
        bucket_wf(b),
    ensures
        bucket_admitted(b, now, k) <= b.capacity,
{
    lemma_admitted_units(b, now, k);
    lemma_refill_bounded(b, now);
    let a = bucket_admitted(b, now, k);
    let r = refilled(b, now);
    assert(r.units <= b.capacity * UNITS_PER_TOKEN);
    assert(a <= b.capacity) by (nonlinear_arith)
        requires
            a * UNITS_PER_TOKEN <= r.units,
            r.units <= b.capacity * UNITS_PER_TOKEN,
            UNITS_PER_TOKEN > 0,
    ;
}

/// A full bucket lets its whole capacity through at once.
pub proof fn lemma_new_bucket_admits_capacity(rpm: u32, now: u64)
    requires
        rpm > 0,
    ensures
        bucket_admitted(new_bucket(rpm, now), now, rpm as nat) == rpm,
{
    lemma_full_admits(new_bucket(rpm, now), now, rpm as nat);
}

proof fn lemma_full_admits(b: TokenBucket, now: u64, k: nat)
    requires
        b.last_refill == now,
        b.units == k * UNITS_PER_TOKEN,
        b.units <= b.capacity * UNITS_PER_TOKEN,
    ensures
        bucket_admitted(b, now, k) == k,
    decreases k,
{
    if k > 0 {
        lemma_refill_same_time(b, now);
        let b2 = TokenBucket { units: (b.units - UNITS_PER_TOKEN) as u128, ..b };
        assert(b2.units == (k - 1) * UNITS_PER_TOKEN) by (nonlinear_arith)
            requires
                b.units == k * UNITS_PER_TOKEN,
                b2.units == b.units - UNITS_PER_TOKEN,
        ;
        lemma_full_admits(b2, now, (k - 1) as nat);
    }
}

} // verus!
