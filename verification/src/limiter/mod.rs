//! Rate limiting: requests per minute (token bucket) and token quotas over
//! 5-hour, weekly and monthly windows (sliding windows).
pub mod token_bucket;
pub mod sliding_window;

use vstd::prelude::*;
use crate::clock::unix_secs_u64;
use crate::error::RateLimitError;
use crate::models::RateLimitConfig;
use self::sliding_window::{SlidingWindowLimiter, WindowsModel, quota_verdict, consumption_fits_at};
use self::token_bucket::{TokenBucketLimiter, TokenBucket, refilled, retry_after, UNITS_PER_TOKEN};

verus! {

/// The outcome of the RPM check of a request at `now` (in the limiter's
/// monotonic nanoseconds): `Ok`, or the seconds to wait.
pub open spec fn rpm_outcome(rl: &RateLimiter, id: Seq<char>, rpm: Option<u32>, now: u64) -> Result<(), u64> {
    match rpm {
        None => Ok(()),
        Some(r) => if r == 0 {
            Ok(())
        } else {
            let b = refilled(rl.rpm_limiter().bucket_for(id, r, now), now);
            if b.units >= UNITS_PER_TOKEN { Ok(()) } else { Err(retry_after(b) as u64) }
        },
    }
}

/// The buckets after the RPM check of a request.
pub open spec fn rpm_buckets_after(rl: &RateLimiter, id: Seq<char>, rpm: Option<u32>, now: u64) -> Map<Seq<char>, TokenBucket> {
    match rpm {
        None => rl.rpm_limiter().buckets(),
        Some(r) => if r == 0 {
            rl.rpm_limiter().buckets()
        } else {
            let b = refilled(rl.rpm_limiter().bucket_for(id, r, now), now);
            if b.units >= UNITS_PER_TOKEN {
                rl.rpm_limiter().buckets().insert(id, TokenBucket { units: (b.units - UNITS_PER_TOKEN) as u128, ..b })
            } else {
                rl.rpm_limiter().buckets().insert(id, b)
            }
        },
    }
}

/// The token windows after the quota check of a request (made only when some
/// token limit is configured).
pub open spec fn quota_windows_after(rl: &RateLimiter, id: Seq<char>, c: RateLimitConfig) -> Map<Seq<char>, WindowsModel> {
    if c.tokens_per_5h is None && c.tokens_per_week is None && c.tokens_per_month is None {
        rl.token_limiter().providers()
    } else {
        rl.token_limiter().providers().insert(id, rl.token_limiter().windows_of(id))
    }
}

/// The window whose quota a request of `tokens` would exceed at `now_secs`, if any.
pub open spec fn quota_outcome(rl: &RateLimiter, id: Seq<char>, tokens: u64, c: RateLimitConfig, now_secs: u64) -> Option<Seq<char>> {
    if c.tokens_per_5h is None && c.tokens_per_week is None && c.tokens_per_month is None {
        None
    } else {
        quota_verdict(rl.token_limiter().windows_of(id), tokens, c.tokens_per_5h, c.tokens_per_week, c.tokens_per_month, now_secs)
    }
}

/// What a check of a request of `tokens` for provider `id` under `c`, at
/// `now_ns` (RPM) and `now_secs` (quotas), does: the limiter goes from
/// `before` to `after` and `r` is the answer (see `check_limit_at`).
pub open spec fn limit_checked(
    before: RateLimiter,
    after: RateLimiter,
    id: Seq<char>,
    tokens: u64,
    c: RateLimitConfig,
    now_ns: u64,
    now_secs: u64,
    r: Result<(), RateLimitError>,
) -> bool {
    let rpm = rpm_outcome(&before, id, c.rpm, now_ns);
    let quota = quota_outcome(&before, id, tokens, c, now_secs);
    &&& after.spec_fail_open() == before.spec_fail_open()
    &&& after.rpm_limiter().buckets() == rpm_buckets_after(&before, id, c.rpm, now_ns)
    &&& if rpm is Err && !before.spec_fail_open() {
        &&& after.token_limiter().providers() == before.token_limiter().providers()
        &&& r matches Err(RateLimitError::RpmExceeded { provider_id: p, retry_after_secs: s })
            && p@ == id && rpm == Err::<(), u64>(s)
    } else {
        &&& after.token_limiter().providers() == quota_windows_after(&before, id, c)
        &&& match quota {
            Some(name) => if before.spec_fail_open() {
                r is Ok
            } else {
                r matches Err(RateLimitError::TokenQuotaExceeded { provider_id: p, window: w })
                    && p@ == id && w@ == name
            },
            None => r is Ok,
        }
    }
}

/// The status of provider `id` read at `now_ns` (RPM) and `now_secs`
/// (quotas): the limiter goes from `before` to `after` (only the provider's
/// bucket is refilled) and `st` is the report (see `get_status_at`).
pub open spec fn status_read(
    before: RateLimiter,
    after: RateLimiter,
    id: Seq<char>,
    now_ns: u64,
    now_secs: u64,
    st: (Option<u128>, u64, u64, u64),
) -> bool {
    let buckets = before.rpm_limiter().buckets();
    &&& after.spec_fail_open() == before.spec_fail_open()
    &&& after.token_limiter() == before.token_limiter()
    &&& after.rpm_limiter().buckets() == (if buckets.contains_key(id) {
        buckets.insert(id, refilled(buckets[id], now_ns))
    } else {
        buckets
    })
    &&& st.0 == (if buckets.contains_key(id) { Some(refilled(buckets[id], now_ns).units) } else { None::<u128> })
    &&& (st.1 as int, st.2 as int, st.3 as int) == reported_consumption(before, id, now_secs)
}

/// What asking for the status of `id` at `now_ns`/`now_secs` gives: the
/// status (see `status_read`) when the provider's consumption fits in `u64`
/// counters, else `None` with the limiter unchanged.
pub open spec fn status_reported(
    before: RateLimiter,
    after: RateLimiter,
    id: Seq<char>,
    now_ns: u64,
    now_secs: u64,
    r: Option<(Option<u128>, u64, u64, u64)>,
) -> bool {
    let windows = before.token_limiter().providers();
    if windows.contains_key(id) ==> consumption_fits_at(windows[id], now_secs) {
        r matches Some(st) && status_read(before, after, id, now_ns, now_secs, st)
    } else {
        r is None && after == before
    }
}

/// The token consumption of `id` over 5 hours, a week and a month at
/// `now_secs`, as a status report gives it (0 without windows).
pub open spec fn reported_consumption(rl: RateLimiter, id: Seq<char>, now_secs: u64) -> (int, int, int) {
    let windows = rl.token_limiter().providers();
    if windows.contains_key(id) {
        (sliding_window::consumed(windows[id].window_5h, now_secs),
            sliding_window::consumed(windows[id].window_week, now_secs),
            sliding_window::consumed(windows[id].window_month, now_secs))
    } else {
        (0, 0, 0)
    }
}

/// Checking never records token usage, only `consume` does: whatever a check
/// answers, the consumption that a status report gives afterwards, of any
/// provider and at any time, is what it gave before.
pub proof fn lemma_check_records_no_usage(
    before: RateLimiter,
    after: RateLimiter,
    id: Seq<char>,
    tokens: u64,
    c: RateLimitConfig,
    now_ns: u64,
    now_secs: u64,
    r: Result<(), RateLimitError>,
    other: Seq<char>,
    t: u64,
)
    requires
        limit_checked(before, after, id, tokens, c, now_ns, now_secs, r),
    ensures
        reported_consumption(after, other, t) == reported_consumption(before, other, t),
{
}

/// Rate limiter combining the RPM token buckets and the token-quota windows.
/// In fail-open mode a request over a limit is let through all the same.
pub struct RateLimiter {
    rpm_limiter: TokenBucketLimiter,
    token_limiter: SlidingWindowLimiter,
    fail_open: bool,
}

impl RateLimiter {
    pub closed spec fn rpm_limiter(&self) -> TokenBucketLimiter {
        self.rpm_limiter
    }

    pub closed spec fn token_limiter(&self) -> SlidingWindowLimiter {
        self.token_limiter
    }

    pub closed spec fn spec_fail_open(&self) -> bool {
        self.fail_open
    }

    /// The limiter's buckets are well-formed.
    pub open spec fn wf(&self) -> bool {
        self.rpm_limiter().wf()
    }

    /// A limiter with no history; `fail_open` lets requests over a limit through.
    pub fn new(fail_open: bool) -> (rl: Self)
        ensures
            rl.wf(),
            rl.spec_fail_open() == fail_open,
            rl.rpm_limiter().buckets().dom().is_empty(),
            rl.token_limiter().providers().dom().is_empty(),
    {
        let rl = RateLimiter {
            rpm_limiter: TokenBucketLimiter::new(),
            token_limiter: SlidingWindowLimiter::new(),
            fail_open,
        };
        assert(rl.rpm_limiter.buckets().dom() =~= Set::empty());
        assert(rl.token_limiter.providers().dom() =~= Set::empty());
        rl
    }

    /// Checks whether a request of about `estimated_tokens` tokens may go to the
    /// provider under `config`, without recording any token consumption (see
    /// `consume`). The RPM limit is checked first (taking one request from the
    /// bucket when admitted), then the token quotas. A refusal is an error unless
    /// the limiter is fail-open. `now_ns` is the RPM limiter's clock, `now_secs`
    /// Unix time.
    pub fn check_limit_at(
        &mut self,
        provider_id: &str,
        estimated_tokens: u64,
        config: &RateLimitConfig,
        now_ns: u64,
        now_secs: u64,
    ) -> (r: Result<(), RateLimitError>)
        requires
            old(self).wf(),
        ensures
            final(self).wf(),
            final(self).spec_fail_open() == old(self).spec_fail_open(),
            final(self).rpm_limiter().buckets() == rpm_buckets_after(old(self), provider_id@, config.rpm, now_ns),
            ({
                let rpm = rpm_outcome(old(self), provider_id@, config.rpm, now_ns);
                let quota = quota_outcome(old(self), provider_id@, estimated_tokens, *config, now_secs);
                if rpm is Err && !old(self).spec_fail_open() {
                    &&& final(self).token_limiter().providers() == old(self).token_limiter().providers()
                    &&& r matches Err(RateLimitError::RpmExceeded { provider_id: p, retry_after_secs: s })
                        && p@ == provider_id@ && rpm == Err::<(), u64>(s)
                } else {
                    &&& final(self).token_limiter().providers() == quota_windows_after(old(self), provider_id@, *config)
                    &&& match quota {
                        Some(name) => if old(self).spec_fail_open() {
                            r is Ok
                        } else {
                            r matches Err(RateLimitError::TokenQuotaExceeded { provider_id: p, window: w })
                                && p@ == provider_id@ && w@ == name
                        },
                        None => r is Ok,
                    }
                }
            }),
    {
        if let Some(rpm) = config.rpm {
            match self.rpm_limiter.check_and_consume_at(provider_id, rpm, now_ns) {
                Ok(()) => {},
                Err(retry_after_secs) => {
                    if !self.fail_open {
                        return Err(RateLimitError::RpmExceeded {
                            provider_id: String::from_str(provider_id),
                            retry_after_secs,
                        });
                    }
                },
            }
        }
        match self.token_limiter.check_limit_at(
            provider_id,
            estimated_tokens,
            config.tokens_per_5h,
            config.tokens_per_week,
            config.tokens_per_month,
            now_secs,
        ) {
            Ok(()) => Ok(()),
            Err(window) => {
                if self.fail_open {
                    Ok(())
                } else {
                    Err(RateLimitError::TokenQuotaExceeded { provider_id: String::from_str(provider_id), window })
                }
            },
        }
    }

    /// Checks a request now (see `check_limit_at`).
    pub fn check_limit(&mut self, provider_id: &str, estimated_tokens: u64, config: &RateLimitConfig) -> (r: Result<(), RateLimitError>)
        requires
            old(self).wf(),
        ensures
            final(self).wf(),
            final(self).spec_fail_open() == old(self).spec_fail_open(),
            old(self).spec_fail_open() ==> r is Ok,
            config.rpm is None && config.tokens_per_5h is None && config.tokens_per_week is None
                && config.tokens_per_month is None ==> r is Ok,
            r matches Err(RateLimitError::RpmExceeded { provider_id: p, .. }) ==> p@ == provider_id@,
            r matches Err(RateLimitError::TokenQuotaExceeded { provider_id: p, .. }) ==> p@ == provider_id@,
            r is Err ==> (r matches Err(RateLimitError::RpmExceeded { .. }) || r matches Err(RateLimitError::TokenQuotaExceeded { .. })),
            exists|now_ns: u64, now_secs: u64| #[trigger] limit_checked(*old(self), *final(self), provider_id@,
                estimated_tokens, *config, now_ns, now_secs, r),
    {
        let now_ns = self.rpm_limiter.now_nanos();
        let now_secs = unix_secs_u64();
        let r = self.check_limit_at(provider_id, estimated_tokens, config, now_ns, now_secs);
        assert(limit_checked(*old(self), *self, provider_id@, estimated_tokens, *config, now_ns, now_secs, r));
        r
    }

    /// Records an actual consumption of `actual_tokens` at `now_secs`.
    pub fn consume_at(&mut self, provider_id: &str, actual_tokens: u64, now_secs: u64) -> (r: Result<(), RateLimitError>)
        requires
            old(self).wf(),
        ensures
            final(self).wf(),
            r is Ok,
            final(self).spec_fail_open() == old(self).spec_fail_open(),
            final(self).rpm_limiter() == old(self).rpm_limiter(),
            final(self).token_limiter().providers() == old(self).token_limiter().providers().insert(
                provider_id@,
                sliding_window::after_consume(old(self).token_limiter().windows_of(provider_id@), actual_tokens, now_secs),
            ),
    {
        self.token_limiter.consume_at(provider_id, actual_tokens, now_secs);
        Ok(())
    }

    /// Records an actual consumption now.
    pub fn consume(&mut self, provider_id: &str, actual_tokens: u64) -> (r: Result<(), RateLimitError>)
        requires
            old(self).wf(),
        ensures
            final(self).wf(),
            r is Ok,
            final(self).spec_fail_open() == old(self).spec_fail_open(),
            final(self).rpm_limiter() == old(self).rpm_limiter(),
            exists|now: u64| final(self).token_limiter().providers() == old(self).token_limiter().providers().insert(
                provider_id@,
                #[trigger] sliding_window::after_consume(old(self).token_limiter().windows_of(provider_id@), actual_tokens, now),
            ),
    {
        let now = unix_secs_u64();
        self.consume_at(provider_id, actual_tokens, now)
    }

    /// Whether the token consumption of the provider fits in `u64` counters at `now_secs`.
    pub fn status_fits(&self, provider_id: &str, now_secs: u64) -> (b: bool)
        ensures
            b == (self.token_limiter().providers().contains_key(provider_id@)
                ==> consumption_fits_at(self.token_limiter().providers()[provider_id@], now_secs)),
    {
        self.token_limiter.consumption_fits(provider_id, now_secs)
    }

    /// The provider's RPM tokens (in units of 1/60_000_000_000 token, refilled at
    /// `now_ns`; `None` without a bucket) and its consumption over 5 hours, a week
    /// and a month at `now_secs` (0 without windows).
    pub fn get_status_at(&mut self, provider_id: &str, now_ns: u64, now_secs: u64) -> (r: (Option<u128>, u64, u64, u64))
        requires
            old(self).wf(),
            old(self).token_limiter().providers().contains_key(provider_id@)
                ==> consumption_fits_at(old(self).token_limiter().providers()[provider_id@], now_secs),
        ensures
            final(self).wf(),
            final(self).spec_fail_open() == old(self).spec_fail_open(),
            final(self).token_limiter() == old(self).token_limiter(),
            final(self).rpm_limiter().buckets() == (if old(self).rpm_limiter().buckets().contains_key(provider_id@) {
                old(self).rpm_limiter().buckets().insert(provider_id@,
                    refilled(old(self).rpm_limiter().buckets()[provider_id@], now_ns))
            } else {
                old(self).rpm_limiter().buckets()
            }),
            r.0 == (if old(self).rpm_limiter().buckets().contains_key(provider_id@) {
                Some(refilled(old(self).rpm_limiter().buckets()[provider_id@], now_ns).units)
            } else {
                None::<u128>
            }),
            old(self).token_limiter().providers().contains_key(provider_id@) ==> {
                let ws = old(self).token_limiter().providers()[provider_id@];
                &&& r.1 == sliding_window::consumed(ws.window_5h, now_secs)
                &&& r.2 == sliding_window::consumed(ws.window_week, now_secs)
                &&& r.3 == sliding_window::consumed(ws.window_month, now_secs)
            },
            !old(self).token_limiter().providers().contains_key(provider_id@) ==> r.1 == 0 && r.2 == 0 && r.3 == 0,
    {
        let rpm_tokens = self.rpm_limiter.get_tokens_at(provider_id, now_ns);
        let (a, b, c) = match self.token_limiter.get_consumption_at(provider_id, now_secs) {
            Some(t) => t,
            None => (0, 0, 0),
        };
        (rpm_tokens, a, b, c)
    }

    /// The provider's status now (see `get_status_at`), when its consumption
    /// fits in `u64` counters (`None` otherwise).
    pub fn get_status(&mut self, provider_id: &str) -> (r: Option<(Option<u128>, u64, u64, u64)>)
        requires
            old(self).wf(),
        ensures
            final(self).wf(),
            final(self).spec_fail_open() == old(self).spec_fail_open(),
            final(self).token_limiter() == old(self).token_limiter(),
            r matches Some(st) ==> (!old(self).token_limiter().providers().contains_key(provider_id@)
                ==> st.1 == 0 && st.2 == 0 && st.3 == 0),
            r is None ==> old(self).token_limiter().providers().contains_key(provider_id@),
            exists|now_ns: u64, now_secs: u64| #[trigger] status_reported(*old(self), *final(self), provider_id@,
                now_ns, now_secs, r),
    {
        let now_ns = self.rpm_limiter.now_nanos();
        let now_secs = unix_secs_u64();
        if self.status_fits(provider_id, now_secs) {
            let st = self.get_status_at(provider_id, now_ns, now_secs);
            assert(status_read(*old(self), *self, provider_id@, now_ns, now_secs, st));
            let r = Some(st);
            assert(status_reported(*old(self), *self, provider_id@, now_ns, now_secs, r));
            r
        } else {
            assert(status_reported(*old(self), *self, provider_id@, now_ns, now_secs, None));
            None
        }
    }

    /// Forgets the provider's bucket and windows.
    pub fn reset(&mut self, provider_id: &str)
        requires
            old(self).wf(),
        ensures
            final(self).wf(),
            final(self).spec_fail_open() == old(self).spec_fail_open(),
            final(self).rpm_limiter().buckets() == old(self).rpm_limiter().buckets().remove(provider_id@),
            final(self).token_limiter().providers() == old(self).token_limiter().providers().remove(provider_id@),
    {
        self.rpm_limiter.reset(provider_id);
        self.token_limiter.reset(provider_id);
    }

    /// Drops the token entries that left their windows, at `now_secs`.
    pub fn cleanup_at(&mut self, now_secs: u64)
        requires
            old(self).wf(),
        ensures
            final(self).wf(),
            final(self).spec_fail_open() == old(self).spec_fail_open(),
            final(self).rpm_limiter() == old(self).rpm_limiter(),
            final(self).token_limiter().providers().dom() == old(self).token_limiter().providers().dom(),
            forall|k: Seq<char>| #[trigger] final(self).token_limiter().providers().contains_key(k) ==>
                final(self).token_limiter().providers()[k]
                    == sliding_window::all_cleaned(old(self).token_limiter().providers()[k], now_secs),
    {
        self.token_limiter.cleanup_old_entries_at(now_secs);
    }

    /// Whether the limiter is fail-open.
    pub fn is_fail_open(&self) -> (b: bool)
        ensures
            b == self.spec_fail_open(),
    {
        self.fail_open
    }
}

} // verus!
