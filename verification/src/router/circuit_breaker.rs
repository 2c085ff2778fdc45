//! Circuit breaker: tracks the error rate of each provider over a sliding time
//! window and isolates failing providers.
//!
//! Each provider's breaker is a state machine with three states. `Closed` lets
//! every request through; a failure that brings the error rate of the window to
//! the threshold (with at least five requests in the window) opens it. `Open`
//! refuses requests until the cooldown has passed since it opened, then turns
//! `HalfOpen`, which lets a limited number of test requests through: a success
//! closes the breaker, a failure opens it again.
//!
//! Times are nanoseconds of monotonic time since the breaker was created.
use vstd::prelude::*;
use dashmap::DashMap;
use std::time::Instant;
use crate::clock::{instant_now, nanos_since, now_unix_secs};
use crate::config::{CircuitBreakerConfig, default_circuit_breaker_config};
use crate::error::CircuitBreakerError;
use crate::models::CircuitState;

verus! {

/// Result of one request in the sliding window.
#[derive(Debug, Clone, Copy, PartialEq, Eq, Structural)]
pub struct RequestResult {
    pub success: bool,
    pub timestamp: u64,
}

/// The breaker of one provider.
#[derive(Debug, Clone)]
pub struct ProviderCircuitState {
    pub state: CircuitState,
    /// Results of the requests within the window, oldest first.
    pub window: Vec<RequestResult>,
    /// When the breaker last opened.
    pub opened_at: Option<u64>,
    /// Test requests let through since the breaker turned half-open.
    pub half_open_attempts: u32,
}

/// Mathematical model of one provider's breaker.
pub struct CircuitModel {
    pub state: CircuitState,
    pub window: Seq<RequestResult>,
    pub opened_at: Option<u64>,
    pub half_open_attempts: u32,
}

impl View for ProviderCircuitState {
    type V = CircuitModel;

    open spec fn view(&self) -> CircuitModel {
        CircuitModel {
            state: self.state,
            window: self.window@,
            opened_at: self.opened_at,
            half_open_attempts: self.half_open_attempts,
        }
    }
}

// ============================================================================
// The map of breakers
// ============================================================================

/// What a map of breakers holds: provider id to breaker.
pub uninterp spec fn circuit_entries(m: DashMap<String, ProviderCircuitState>) -> Map<Seq<char>, CircuitModel>;

/// No breaker at all.
pub open spec fn no_breakers() -> Map<Seq<char>, CircuitModel> {
    Map::empty()
}

/// Calls `DashMap::new`: an empty map.
#[verifier::external_body]
fn circuit_map_new() -> (map: DashMap<String, ProviderCircuitState>)
    ensures
        circuit_entries(map) == no_breakers(),
{
    DashMap::new()
}

/// Calls `DashMap::get` and clones the value found: the breaker of `key`, if any.
#[verifier::external_body]
fn circuit_map_get(m: &DashMap<String, ProviderCircuitState>, key: &str) -> (r: Option<ProviderCircuitState>)
    ensures
        match r {
            Some(v) => circuit_entries(*m).contains_key(key@) && v@ == circuit_entries(*m)[key@],
            None => !circuit_entries(*m).contains_key(key@),
        },
{
    m.get(key).map(|e| e.value().clone())
}

/// Calls `DashMap::insert`: afterwards `key` maps to `v`, other keys unchanged.
#[verifier::external_body]
fn circuit_map_insert(m: &mut DashMap<String, ProviderCircuitState>, key: String, v: ProviderCircuitState)
    ensures
        circuit_entries(*final(m)) == circuit_entries(*old(m)).insert(key@, v@),
{
    m.insert(key, v);
}

// ============================================================================
// Specification of one breaker
// ============================================================================

/// The breaker of a provider seen for the first time.
pub open spec fn fresh_model() -> CircuitModel {
    CircuitModel { state: CircuitState::Closed, window: Seq::empty(), opened_at: None, half_open_attempts: 0 }
}

/// Nanoseconds in `secs` seconds.
pub open spec fn secs_to_nanos(secs: u64) -> int {
    secs * 1_000_000_000
}

/// Time elapsed from `since` to `now`, never negative.
pub open spec fn elapsed(now: int, since: int) -> int {
    if now >= since { now - since } else { 0 }
}

/// The results still within the window of `window_ns` nanoseconds before `now`
/// (strictly newer than `now - window_ns`), in their order.
pub open spec fn keep_recent(w: Seq<RequestResult>, now: int, window_ns: int) -> Seq<RequestResult>
    decreases w.len(),
{
    if w.len() == 0 {
        Seq::empty()
    } else {
        let r = keep_recent(w.drop_last(), now, window_ns);
        if w.last().timestamp + window_ns > now { r.push(w.last()) } else { r }
    }
}

/// Number of failed requests among the results.
pub open spec fn failures(w: Seq<RequestResult>) -> nat
    decreases w.len(),
{
    if w.len() == 0 {
        0
    } else {
        failures(w.drop_last()) + if w.last().success { 0nat } else { 1nat }
    }
}

/// The error rate `failed / total` meets a threshold of `ppm` parts per million.
pub open spec fn meets_threshold(failed: int, total: int, ppm: int) -> bool {
    failed * 1_000_000 >= ppm * total
}

/// Whether an open breaker is still cooling down at `now`.
pub open spec fn cooling_down(m: CircuitModel, now: int, cfg: CircuitBreakerConfig) -> bool {
    m.state == CircuitState::Open && m.opened_at is Some
        && elapsed(now, m.opened_at->0 as int) < secs_to_nanos(cfg.cooldown_duration_secs)
}

/// The breaker after its cooldown check: an open breaker whose cooldown has
/// passed turns half-open with no test request made yet.
pub open spec fn after_cooldown(m: CircuitModel, now: int, cfg: CircuitBreakerConfig) -> CircuitModel {
    if m.state == CircuitState::Open && m.opened_at is Some && !cooling_down(m, now, cfg) {
        CircuitModel { state: CircuitState::HalfOpen, half_open_attempts: 0, ..m }
    } else {
        m
    }
}

/// Whether a request may go to the provider at `now`.
pub open spec fn check_allows(m: CircuitModel, now: int, cfg: CircuitBreakerConfig) -> bool {
    let m1 = after_cooldown(m, now, cfg);
    !cooling_down(m, now, cfg) && !(m1.state == CircuitState::HalfOpen
        && m1.half_open_attempts >= cfg.half_open_max_requests)
}

/// The breaker after a request was checked at `now`: cooled-down breakers turn
/// half-open, and a test request let through a half-open breaker is counted.
pub open spec fn after_check(m: CircuitModel, now: int, cfg: CircuitBreakerConfig) -> CircuitModel {
    let m1 = after_cooldown(m, now, cfg);
    if check_allows(m, now, cfg) && m1.state == CircuitState::HalfOpen {
        CircuitModel { half_open_attempts: (m1.half_open_attempts + 1) as u32, ..m1 }
    } else {
        m1
    }
}

/// The window after a result recorded at `now`.
pub open spec fn window_after(m: CircuitModel, success: bool, now: int, cfg: CircuitBreakerConfig) -> Seq<RequestResult> {
    keep_recent(
        m.window.push(RequestResult { success, timestamp: now as u64 }),
        now,
        secs_to_nanos(cfg.window_duration_secs),
    )
}

/// The breaker after a successful request at `now`: a half-open breaker closes.
pub open spec fn after_success(m: CircuitModel, now: int, cfg: CircuitBreakerConfig) -> CircuitModel {
    let w = window_after(m, true, now, cfg);
    if m.state == CircuitState::HalfOpen {
        CircuitModel { state: CircuitState::Closed, window: w, opened_at: None, half_open_attempts: 0 }
    } else {
        CircuitModel { window: w, ..m }
    }
}

/// The breaker after a failed request at `now`: a closed breaker opens when the
/// window holds at least five results and its error rate meets the threshold; a
/// half-open breaker opens again; an open breaker restarts its cooldown.
pub open spec fn after_failure(m: CircuitModel, now: int, cfg: CircuitBreakerConfig) -> CircuitModel {
    let w = window_after(m, false, now, cfg);
    match m.state {
        CircuitState::Closed => {
            if w.len() >= 5 && meets_threshold(failures(w) as int, w.len() as int, cfg.failure_threshold_ppm as int) {
                CircuitModel { state: CircuitState::Open, window: w, opened_at: Some(now as u64), ..m }
            } else {
                CircuitModel { window: w, ..m }
            }
        },
        CircuitState::HalfOpen => {
            CircuitModel { state: CircuitState::Open, window: w, opened_at: Some(now as u64), half_open_attempts: 0 }
        },
        CircuitState::Open => {
            CircuitModel { window: w, opened_at: Some(now as u64), ..m }
        },
    }
}

// ============================================================================
// Executable breaker
// ============================================================================

/// The stored state of a provider's breaker, for display.
#[derive(Debug, Clone)]
pub struct CircuitBreakerStatus {
    pub provider_id: String,
    pub provider_name: String,
    pub state: String,
    pub failure_count: u32,
    pub success_count: u32,
    pub last_failure: Option<i64>,
    pub opened_at: Option<i64>,
}

/// Metrics of one provider's breaker.
#[derive(Debug, Clone)]
pub struct CircuitBreakerMetrics {
    pub state: CircuitState,
    pub total_requests: usize,
    pub failed_requests: usize,
    /// Unix time (seconds) at which the breaker last opened.
    pub opened_at: Option<i64>,
}

/// Circuit breakers of all providers.
pub struct CircuitBreaker {
    config: CircuitBreakerConfig,
    states: DashMap<String, ProviderCircuitState>,
    origin: Instant,
}

impl CircuitBreaker {
    /// The configuration.
    pub closed spec fn spec_config(&self) -> CircuitBreakerConfig {
        self.config
    }

    /// The breakers of the providers seen so far.
    pub closed spec fn breakers(&self) -> Map<Seq<char>, CircuitModel> {
        circuit_entries(self.states)
    }

    /// The breaker of a provider (a fresh one if it was never seen).
    pub open spec fn breaker(&self, id: Seq<char>) -> CircuitModel {
        if self.breakers().contains_key(id) { self.breakers()[id] } else { fresh_model() }
    }

    /// The state of a provider's breaker.
    pub open spec fn spec_state(&self, id: Seq<char>) -> CircuitState {
        self.breaker(id).state
    }

    /// A breaker with the given configuration and no provider seen yet.
    pub fn new(config: CircuitBreakerConfig) -> (cb: Self)
        ensures
            cb.spec_config() == config,
            cb.breakers() == Map::<Seq<char>, CircuitModel>::empty(),
    {
        CircuitBreaker { config, states: circuit_map_new(), origin: instant_now() }
    }

    /// A breaker with the default configuration.
    pub fn with_defaults() -> (cb: Self)
        ensures
            cb.spec_config() == default_circuit_breaker_config(),
            cb.breakers() == Map::<Seq<char>, CircuitModel>::empty(),
    {
        Self::new(CircuitBreakerConfig::default())
    }

    fn stored_or_fresh(&self, provider_id: &str) -> (s: ProviderCircuitState)
        ensures
            s@ == self.breaker(provider_id@),
    {
        match circuit_map_get(&self.states, provider_id) {
            Some(s) => s,
            None => {
                let s = ProviderCircuitState {
                    state: CircuitState::Closed,
                    window: Vec::new(),
                    opened_at: None,
                    half_open_attempts: 0,
                };
                assert(s@.window =~= Seq::<RequestResult>::empty());
                s
            },
        }
    }

    /// Checks at time `now` whether the provider may be used: `Ok` exactly when
    /// `check_allows`; the provider's breaker becomes `after_check`.
    pub fn check_available_at(&mut self, provider_id: &str, now: u64) -> (r: Result<(), CircuitBreakerError>)
        ensures
            final(self).spec_config() == old(self).spec_config(),
            final(self).breakers() == old(self).breakers().insert(
                provider_id@,
                after_check(old(self).breaker(provider_id@), now as int, old(self).spec_config()),
            ),
            r is Ok <==> check_allows(old(self).breaker(provider_id@), now as int, old(self).spec_config()),
            r matches Err(e) ==> e matches CircuitBreakerError::Open(id) && id@ == provider_id@,
    {
        let mut s = self.stored_or_fresh(provider_id);
        let ghost m = s@;
        let cfg = self.config;
        let mut result: Result<(), CircuitBreakerError> = Ok(());
        let mut refused = false;
        if s.state == CircuitState::Open {
            if let Some(opened_at) = s.opened_at {
                let el: u64 = if now >= opened_at { now - opened_at } else { 0 };
                let cooldown: u128 = (cfg.cooldown_duration_secs as u128) * 1_000_000_000u128;
                if (el as u128) >= cooldown {
                    s.state = CircuitState::HalfOpen;
                    s.half_open_attempts = 0;
                } else {
                    result = Err(CircuitBreakerError::Open(String::from_str(provider_id)));
                    refused = true;
                }
            }
        }
        if !refused && s.state == CircuitState::HalfOpen {
            if s.half_open_attempts >= cfg.half_open_max_requests {
                result = Err(CircuitBreakerError::Open(String::from_str(provider_id)));
            } else {
                s.half_open_attempts = s.half_open_attempts + 1;
            }
        }
        assert(s@ == after_check(m, now as int, cfg));
        circuit_map_insert(&mut self.states, String::from_str(provider_id), s);
        result
    }

    /// The breaker's clock: nanoseconds since it was created.
    pub fn clock_nanos(&self) -> u64 {
        nanos_since(&self.origin)
    }

    /// Checks now whether the provider may be used (see `check_available_at`).
    pub fn check_available(&mut self, provider_id: &str) -> (r: Result<(), CircuitBreakerError>)
        ensures
            final(self).spec_config() == old(self).spec_config(),
            exists|now: u64| {
                &&& final(self).breakers() == old(self).breakers().insert(
                    provider_id@,
                    #[trigger] after_check(old(self).breaker(provider_id@), now as int, old(self).spec_config()),
                )
                &&& (r is Ok <==> check_allows(old(self).breaker(provider_id@), now as int, old(self).spec_config()))
            },
            r matches Err(e) ==> e matches CircuitBreakerError::Open(id) && id@ == provider_id@,
    {
        let now = nanos_since(&self.origin);
        self.check_available_at(provider_id, now)
    }

    /// The results of `w` newer than `now - window_ns`.
    fn recent(w: &Vec<RequestResult>, now: u64, window_secs: u64) -> (r: Vec<RequestResult>)
        ensures
            r@ == keep_recent(w@, now as int, secs_to_nanos(window_secs)),
    {
        let win: u128 = (window_secs as u128) * 1_000_000_000u128;
        let mut r: Vec<RequestResult> = Vec::new();
        let mut i: usize = 0;
        while i < w.len()
            invariant
                i <= w@.len(),
                win == secs_to_nanos(window_secs),
                r@ == keep_recent(w@.take(i as int), now as int, secs_to_nanos(window_secs)),
            decreases w@.len() - i,
        {
            assert(w@.take(i + 1).drop_last() =~= w@.take(i as int));
            let e = w[i];
            if (e.timestamp as u128) + win > (now as u128) {
                r.push(e);
            }
            i = i + 1;
        }
        assert(w@.take(w@.len() as int) =~= w@);
        r
    }

    /// Number of failed requests in the window.
    fn count_failures(w: &Vec<RequestResult>) -> (n: usize)
        ensures
            n == failures(w@),
    {
        let mut n: usize = 0;
        let mut i: usize = 0;
        while i < w.len()
            invariant
                i <= w@.len(),
                n == failures(w@.take(i as int)),
                n <= i,
            decreases w@.len() - i,
        {
            assert(w@.take(i + 1).drop_last() =~= w@.take(i as int));
            if !w[i].success {
                n = n + 1;
            }
            i = i + 1;
        }
        assert(w@.take(w@.len() as int) =~= w@);
        n
    }

    /// Records at time `now` a successful request: the provider's breaker
    /// becomes `after_success`.
    pub fn record_success_at(&mut self, provider_id: &str, now: u64)
        ensures
            final(self).spec_config() == old(self).spec_config(),
            final(self).breakers() == old(self).breakers().insert(
                provider_id@,
                after_success(old(self).breaker(provider_id@), now as int, old(self).spec_config()),
            ),
    {
        let mut s = self.stored_or_fresh(provider_id);
        let ghost m = s@;
        let cfg = self.config;
        let mut w = s.window;
        w.push(RequestResult { success: true, timestamp: now });
        let w = Self::recent(&w, now, cfg.window_duration_secs);
        let s2 = match s.state {
            CircuitState::HalfOpen => ProviderCircuitState {
                state: CircuitState::Closed,
                window: w,
                opened_at: None,
                half_open_attempts: 0,
            },
            _ => ProviderCircuitState { window: w, ..s },
        };
        assert(s2@ == after_success(m, now as int, cfg));
        circuit_map_insert(&mut self.states, String::from_str(provider_id), s2);
    }

    /// Records now a successful request (see `record_success_at`).
    pub fn record_success(&mut self, provider_id: &str)
        ensures
            final(self).spec_config() == old(self).spec_config(),
            exists|now: u64| final(self).breakers() == old(self).breakers().insert(
                provider_id@,
                #[trigger] after_success(old(self).breaker(provider_id@), now as int, old(self).spec_config()),
            ),
    {
        let now = nanos_since(&self.origin);
        self.record_success_at(provider_id, now);
    }

    /// Records at time `now` a failed request: the provider's breaker becomes
    /// `after_failure`.
    pub fn record_failure_at(&mut self, provider_id: &str, now: u64)
        ensures
            final(self).spec_config() == old(self).spec_config(),
            final(self).breakers() == old(self).breakers().insert(
                provider_id@,
                after_failure(old(self).breaker(provider_id@), now as int, old(self).spec_config()),
            ),
    {
        let s = self.stored_or_fresh(provider_id);
        let ghost m = s@;
        let cfg = self.config;
        let mut w = s.window;
        w.push(RequestResult { success: false, timestamp: now });
        let w = Self::recent(&w, now, cfg.window_duration_secs);
        let failed = Self::count_failures(&w);
        let total = w.len();
        let ppm: u128 = cfg.failure_threshold_ppm as u128;
        let tot: u128 = total as u128;
        assert(ppm * tot <= 0xffff_ffff_ffff_ffff_ffff_ffff_ffffu128) by (nonlinear_arith)
            requires
                ppm <= 0xffff_ffff,
                tot <= 0xffff_ffff_ffff_ffff,
        ;
        let s2 = match s.state {
            CircuitState::Closed => {
                if total >= 5 && (failed as u128) * 1_000_000u128 >= ppm * tot {
                    ProviderCircuitState {
                        state: CircuitState::Open,
                        window: w,
                        opened_at: Some(now),
                        half_open_attempts: s.half_open_attempts,
                    }
                } else {
                    ProviderCircuitState { window: w, ..s }
                }
            },
            CircuitState::HalfOpen => ProviderCircuitState {
                state: CircuitState::Open,
                window: w,
                opened_at: Some(now),
                half_open_attempts: 0,
            },
            CircuitState::Open => ProviderCircuitState {
                state: CircuitState::Open,
                window: w,
                opened_at: Some(now),
                half_open_attempts: s.half_open_attempts,
            },
        };
        assert(s2@ == after_failure(m, now as int, cfg));
        circuit_map_insert(&mut self.states, String::from_str(provider_id), s2);
    }

    /// Records now a failed request (see `record_failure_at`).
    pub fn record_failure(&mut self, provider_id: &str)
        ensures
            final(self).spec_config() == old(self).spec_config(),
            exists|now: u64| final(self).breakers() == old(self).breakers().insert(
                provider_id@,
                #[trigger] after_failure(old(self).breaker(provider_id@), now as int, old(self).spec_config()),
            ),
    {
        let now = nanos_since(&self.origin);
        self.record_failure_at(provider_id, now);
    }

    /// The state of the provider's breaker; `Closed` for a provider never seen.
    pub fn get_state(&self, provider_id: &str) -> (s: CircuitState)
        ensures
            s == self.spec_state(provider_id@),
    {
        match circuit_map_get(&self.states, provider_id) {
            Some(s) => s.state,
            None => CircuitState::Closed,
        }
    }

    /// Metrics of the provider's breaker, with the opening time converted to Unix
    /// time as `unix_now - elapsed seconds` from the given clock readings.
    pub fn get_metrics_at(&self, provider_id: &str, now: u64, unix_now: i64) -> (r: CircuitBreakerMetrics)
        ensures
            r.state == self.spec_state(provider_id@),
            r.total_requests == self.breaker(provider_id@).window.len(),
            r.failed_requests == failures(self.breaker(provider_id@).window),
            r.opened_at == match self.breaker(provider_id@).opened_at {
                Some(o) => Some((unix_now - elapsed(now as int, o as int) / 1_000_000_000) as i64),
                None => None::<i64>,
            },
    {
        let s = self.stored_or_fresh(provider_id);
        let failed = Self::count_failures(&s.window);
        let opened = match s.opened_at {
            Some(o) => {
                let el: u64 = if now >= o { now - o } else { 0 };
                let secs: u64 = el / 1_000_000_000;
                Some(((unix_now as i128) - (secs as i128)) as i64)
            },
            None => None,
        };
        CircuitBreakerMetrics {
            state: s.state,
            total_requests: s.window.len(),
            failed_requests: failed,
            opened_at: opened,
        }
    }

    /// Metrics of the provider's breaker now.
    pub fn get_metrics(&self, provider_id: &str) -> (r: CircuitBreakerMetrics)
        ensures
            r.state == self.spec_state(provider_id@),
            r.total_requests == self.breaker(provider_id@).window.len(),
            r.failed_requests == failures(self.breaker(provider_id@).window),
            r.opened_at is Some <==> self.breaker(provider_id@).opened_at is Some,
    {
        let now = nanos_since(&self.origin);
        let unix_now = now_unix_secs();
        self.get_metrics_at(provider_id, now, unix_now)
    }

    /// Resets a known provider's breaker to closed with an empty window; a
    /// provider never seen stays unknown.
    pub fn reset(&mut self, provider_id: &str)
        ensures
            final(self).spec_config() == old(self).spec_config(),
            old(self).breakers().contains_key(provider_id@) ==>
                final(self).breakers() == old(self).breakers().insert(provider_id@, fresh_model()),
            !old(self).breakers().contains_key(provider_id@) ==>
                final(self).breakers() == old(self).breakers(),
    {
        if let Some(s) = circuit_map_get(&self.states, provider_id) {
            let s2 = ProviderCircuitState {
                state: CircuitState::Closed,
                window: Vec::new(),
                opened_at: None,
                half_open_attempts: 0,
            };
            assert(s2@.window =~= Seq::<RequestResult>::empty());
            circuit_map_insert(&mut self.states, String::from_str(provider_id), s2);
        }
    }
}


// ============================================================================
// Laws
// ============================================================================

/// A closed breaker lets every request through and is not changed by the
/// check; in particular a provider never seen, or just reset, is available.
pub proof fn lemma_closed_admits(m: CircuitModel, now: int, cfg: CircuitBreakerConfig)
    requires
        m.state == CircuitState::Closed,
    ensures
        check_allows(m, now, cfg),
        after_check(m, now, cfg) == m,
{
}

/// The breaker of a provider never seen is closed.
pub proof fn lemma_fresh_is_closed()
    ensures
        fresh_model().state == CircuitState::Closed,
{
}

/// An open breaker refuses every request until its cooldown has passed, and
/// the refusal does not change it.
pub proof fn lemma_open_refuses_during_cooldown(m: CircuitModel, now: int, cfg: CircuitBreakerConfig)
    requires
        m.state == CircuitState::Open,
        m.opened_at matches Some(o) && elapsed(now, o as int) < secs_to_nanos(cfg.cooldown_duration_secs),
    ensures
        !check_allows(m, now, cfg),
        after_check(m, now, cfg) == m,
{
}

/// Once the cooldown has passed, an open breaker turns half-open and lets a
/// test request through (when test requests are allowed at all).
pub proof fn lemma_open_tries_after_cooldown(m: CircuitModel, now: int, cfg: CircuitBreakerConfig)
    requires
        m.state == CircuitState::Open,
        m.opened_at matches Some(o) && elapsed(now, o as int) >= secs_to_nanos(cfg.cooldown_duration_secs),
        cfg.half_open_max_requests > 0,
    ensures
        check_allows(m, now, cfg),
        after_check(m, now, cfg).state == CircuitState::HalfOpen,
        after_check(m, now, cfg).half_open_attempts == 1,
{
}

/// A success while half-open closes the breaker.
pub proof fn lemma_success_closes_half_open(m: CircuitModel, now: int, cfg: CircuitBreakerConfig)
    requires
        m.state == CircuitState::HalfOpen,
    ensures
        after_success(m, now, cfg).state == CircuitState::Closed,
        after_success(m, now, cfg).opened_at is None,
        after_success(m, now, cfg).half_open_attempts == 0,
{
}

/// A failure while half-open opens the breaker again, its cooldown starting
/// anew.
pub proof fn lemma_failure_reopens_half_open(m: CircuitModel, now: int, cfg: CircuitBreakerConfig)
    requires
        m.state == CircuitState::HalfOpen,
        0 <= now <= u64::MAX,
    ensures
        after_failure(m, now, cfg).state == CircuitState::Open,
        after_failure(m, now, cfg).opened_at == Some(now as u64),
{
}

/// A closed breaker opens only on a failure, when the window then holds at
/// least five results whose error rate meets the threshold.
pub proof fn lemma_opening_needs_error_rate(m: CircuitModel, now: int, cfg: CircuitBreakerConfig)
    requires
        m.state == CircuitState::Closed,
    ensures
        after_success(m, now, cfg).state == CircuitState::Closed,
        after_failure(m, now, cfg).state == CircuitState::Open <==> ({
            let w = window_after(m, false, now, cfg);
            w.len() >= 5 && meets_threshold(failures(w) as int, w.len() as int, cfg.failure_threshold_ppm as int)
        }),
{
}

/// How many of `k` checks in a row at `now`, with no result recorded in
/// between, the breaker lets through.
pub open spec fn admitted(m: CircuitModel, now: int, cfg: CircuitBreakerConfig, k: nat) -> nat
    decreases k,
{
    if k == 0 {
        0
    } else {
        (if check_allows(m, now, cfg) { 1nat } else { 0nat }) + admitted(after_check(m, now, cfg), now, cfg, (k - 1) as nat)
    }
}

/// A breaker that is not closed lets at most the configured number of test
/// requests through before a result comes back, however many are tried (an
/// open breaker always knows when it opened).
pub proof fn lemma_half_open_limit(m: CircuitModel, now: int, cfg: CircuitBreakerConfig, k: nat)
    requires
        m.state != CircuitState::Closed,
        m.state == CircuitState::Open ==> m.opened_at is Some,
    ensures
        admitted(m, now, cfg, k) <= cfg.half_open_max_requests,
        m.state == CircuitState::HalfOpen && m.half_open_attempts <= cfg.half_open_max_requests ==>
            admitted(m, now, cfg, k) <= cfg.half_open_max_requests - m.half_open_attempts,
    decreases k,
{
    if k > 0 {
        let m1 = after_check(m, now, cfg);
        lemma_half_open_limit(m1, now, cfg, (k - 1) as nat);
    }
}

/// An open breaker knows when it opened.
pub open spec fn breaker_wf(m: CircuitModel) -> bool {
    m.state == CircuitState::Open ==> m.opened_at is Some
}

/// Every operation keeps a breaker well formed, and a fresh one is.
pub proof fn lemma_breaker_wf_kept(m: CircuitModel, now: int, cfg: CircuitBreakerConfig)
    requires
        breaker_wf(m),
    ensures
        breaker_wf(fresh_model()),
        breaker_wf(after_check(m, now, cfg)),
        breaker_wf(after_success(m, now, cfg)),
        breaker_wf(after_failure(m, now, cfg)),
{
}

} // verus!
