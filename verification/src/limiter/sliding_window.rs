//! Sliding windows limiting the tokens each provider consumes over 5 hours,
//! a week and a month (30 days). Times are Unix seconds.
use vstd::prelude::*;
use dashmap::DashMap;
use crate::clock::unix_secs_u64;

verus! {

/// Tokens consumed by one request, and when.
#[derive(Debug, Clone, Copy, PartialEq, Eq, Structural)]
pub struct TokenEntry {
    pub timestamp: u64,
    pub tokens: u64,
}

/// One window: the entries of the last `duration_secs` seconds.
#[derive(Debug, Clone)]
pub struct TimeWindow {
    pub duration_secs: u64,
    pub entries: Vec<TokenEntry>,
}

/// The three windows of one provider.
#[derive(Debug, Clone)]
pub struct ProviderWindows {
    pub window_5h: TimeWindow,
    pub window_week: TimeWindow,
    pub window_month: TimeWindow,
}

pub struct WindowModel {
    pub duration_secs: u64,
    pub entries: Seq<TokenEntry>,
}

pub struct WindowsModel {
    pub window_5h: WindowModel,
    pub window_week: WindowModel,
    pub window_month: WindowModel,
}

impl View for TimeWindow {
    type V = WindowModel;

    open spec fn view(&self) -> WindowModel {
        WindowModel { duration_secs: self.duration_secs, entries: self.entries@ }
    }
}

impl View for ProviderWindows {
    type V = WindowsModel;

    open spec fn view(&self) -> WindowsModel {
        WindowsModel { window_5h: self.window_5h@, window_week: self.window_week@, window_month: self.window_month@ }
    }
}

// ============================================================================
// The map of windows
// ============================================================================

/// What a map of windows holds: provider id to its windows.
pub uninterp spec fn window_entries(m: DashMap<String, ProviderWindows>) -> Map<Seq<char>, WindowsModel>;

/// No window at all.
pub open spec fn no_windows() -> Map<Seq<char>, WindowsModel> {
    Map::empty()
}

/// Calls `DashMap::new`: an empty map.
#[verifier::external_body]
fn window_map_new() -> (map: DashMap<String, ProviderWindows>)
    ensures
        window_entries(map) == no_windows(),
{
    DashMap::new()
}

/// Calls `DashMap::get` and clones the value found: the windows of `key`, if any.
#[verifier::external_body]
fn window_map_get(m: &DashMap<String, ProviderWindows>, key: &str) -> (r: Option<ProviderWindows>)
    ensures
        match r {
            Some(v) => window_entries(*m).contains_key(key@) && v@ == window_entries(*m)[key@],
            None => !window_entries(*m).contains_key(key@),
        },
{
    m.get(key).map(|e| e.value().clone())
}

/// Calls `DashMap::insert`: afterwards `key` maps to `v`, other keys unchanged.
#[verifier::external_body]
fn window_map_insert(m: &mut DashMap<String, ProviderWindows>, key: String, v: ProviderWindows)
    ensures
        window_entries(*final(m)) == window_entries(*old(m)).insert(key@, v@),
{
    m.insert(key, v);
}

/// Calls `DashMap::remove`: afterwards `key` is absent, other keys unchanged.
#[verifier::external_body]
fn window_map_remove(m: &mut DashMap<String, ProviderWindows>, key: &str)
    ensures
        window_entries(*final(m)) == window_entries(*old(m)).remove(key@),
{
    m.remove(key);
}

/// Walks the map with `DashMap::iter` and gives the keys, each once, in the
/// order of the walk (which the map does not fix).
#[verifier::external_body]
fn window_map_keys(m: &DashMap<String, ProviderWindows>) -> (keys: Vec<String>)
    ensures
        forall|i: int| 0 <= i < keys@.len() ==> window_entries(*m).contains_key(#[trigger] keys@[i]@),
        forall|k: Seq<char>| window_entries(*m).contains_key(k) ==> exists|i: int| 0 <= i < keys@.len() && #[trigger] keys@[i]@ == k,
        forall|i: int, j: int| 0 <= i < j < keys@.len() ==> keys@[i]@ != keys@[j]@,
{
    m.iter().map(|e| e.key().clone()).collect()
}

// ============================================================================
// Specification
// ============================================================================

/// Seconds in 5 hours, a week and 30 days.
pub const SECS_5H: u64 = 18_000;
pub const SECS_WEEK: u64 = 604_800;
pub const SECS_MONTH: u64 = 2_592_000;

/// The oldest timestamp still within a window of `duration` seconds at `now`.
pub open spec fn cutoff(now: u64, duration: u64) -> u64 {
    if now >= duration { (now - duration) as u64 } else { 0 }
}

/// Tokens of the entries at or after `cutoff`.
pub open spec fn tokens_since(entries: Seq<TokenEntry>, cutoff: u64) -> int
    decreases entries.len(),
{
    if entries.len() == 0 {
        0
    } else {
        tokens_since(entries.drop_last(), cutoff)
            + if entries.last().timestamp >= cutoff { entries.last().tokens as int } else { 0 }
    }
}

/// The entries at or after `cutoff`, in their order.
pub open spec fn entries_since(entries: Seq<TokenEntry>, cutoff: u64) -> Seq<TokenEntry>
    decreases entries.len(),
{
    if entries.len() == 0 {
        Seq::empty()
    } else {
        let r = entries_since(entries.drop_last(), cutoff);
        if entries.last().timestamp >= cutoff { r.push(entries.last()) } else { r }
    }
}

/// Tokens consumed within the window at `now`.
pub open spec fn consumed(w: WindowModel, now: u64) -> int {
    tokens_since(w.entries, cutoff(now, w.duration_secs))
}

/// The window without its entries older than the window at `now`.
pub open spec fn cleaned(w: WindowModel, now: u64) -> WindowModel {
    WindowModel { entries: entries_since(w.entries, cutoff(now, w.duration_secs)), ..w }
}

/// The window after recording `e` at `now`.
pub open spec fn with_entry(w: WindowModel, e: TokenEntry, now: u64) -> WindowModel {
    cleaned(WindowModel { entries: w.entries.push(e), ..w }, now)
}

/// The windows of a provider seen for the first time.
pub open spec fn fresh_windows() -> WindowsModel {
    WindowsModel {
        window_5h: WindowModel { duration_secs: SECS_5H, entries: Seq::empty() },
        window_week: WindowModel { duration_secs: SECS_WEEK, entries: Seq::empty() },
        window_month: WindowModel { duration_secs: SECS_MONTH, entries: Seq::empty() },
    }
}

/// Whether a request of `tokens` exceeds a limit given the tokens consumed.
pub open spec fn exceeds(used: int, tokens: u64, limit: Option<u64>) -> bool {
    limit matches Some(l) && used + tokens > l
}

/// The first window (5h, then week, then month) whose limit a request of
/// `tokens` would exceed at `now`, by its name; `None` when all are respected.
pub open spec fn quota_verdict(ws: WindowsModel, tokens: u64, l5: Option<u64>, lw: Option<u64>, lm: Option<u64>, now: u64) -> Option<Seq<char>> {
    if exceeds(consumed(ws.window_5h, now), tokens, l5) {
        Some("5h"@)
    } else if exceeds(consumed(ws.window_week, now), tokens, lw) {
        Some("week"@)
    } else if exceeds(consumed(ws.window_month, now), tokens, lm) {
        Some("month"@)
    } else {
        None
    }
}

/// The windows after a consumption of `tokens` at `now`.
pub open spec fn after_consume(ws: WindowsModel, tokens: u64, now: u64) -> WindowsModel {
    let e = TokenEntry { timestamp: now, tokens };
    WindowsModel {
        window_5h: with_entry(ws.window_5h, e, now),
        window_week: with_entry(ws.window_week, e, now),
        window_month: with_entry(ws.window_month, e, now),
    }
}

/// The windows cleaned at `now`.
pub open spec fn all_cleaned(ws: WindowsModel, now: u64) -> WindowsModel {
    WindowsModel {
        window_5h: cleaned(ws.window_5h, now),
        window_week: cleaned(ws.window_week, now),
        window_month: cleaned(ws.window_month, now),
    }
}

/// The consumption of every window fits in a `u64`.
pub open spec fn consumption_fits_at(ws: WindowsModel, now: u64) -> bool {
    consumed(ws.window_5h, now) <= u64::MAX
        && consumed(ws.window_week, now) <= u64::MAX
        && consumed(ws.window_month, now) <= u64::MAX
}

/// The window's consumption at `now` respects `limit` (when there is one).
pub open spec fn within_limit(w: WindowModel, now: u64, limit: Option<u64>) -> bool {
    limit matches Some(l) ==> consumed(w, now) <= l
}

proof fn lemma_cleaning_keeps_tokens(entries: Seq<TokenEntry>, c: u64)
    ensures
        tokens_since(entries_since(entries, c), c) == tokens_since(entries, c),
    decreases entries.len(),
{
    if entries.len() > 0 {
        lemma_cleaning_keeps_tokens(entries.drop_last(), c);
        let r = entries_since(entries.drop_last(), c);
        if entries.last().timestamp >= c {
            assert(r.push(entries.last()).drop_last() =~= r);
        }
    }
}

proof fn lemma_entry_adds(w: WindowModel, e: TokenEntry, now: u64)
    requires
        e.timestamp == now,
    ensures
        consumed(with_entry(w, e, now), now) == consumed(w, now) + e.tokens,
{
    let c = cutoff(now, w.duration_secs);
    let s = w.entries.push(e);
    lemma_cleaning_keeps_tokens(s, c);
    assert(s.drop_last() =~= w.entries);
}

/// The token quotas hold: a request that `check_limit_at` admits at `now`, once its
/// tokens are consumed at `now`, leaves every limited window within its
/// limit.
pub proof fn lemma_admitted_stays_within_quota(
    ws: WindowsModel,
    tokens: u64,
    l5: Option<u64>,
    lw: Option<u64>,
    lm: Option<u64>,
    now: u64,
)
    requires
        quota_verdict(ws, tokens, l5, lw, lm, now) is None,
    ensures
        within_limit(after_consume(ws, tokens, now).window_5h, now, l5),
        within_limit(after_consume(ws, tokens, now).window_week, now, lw),
        within_limit(after_consume(ws, tokens, now).window_month, now, lm),
{
    let e = TokenEntry { timestamp: now, tokens };
    lemma_entry_adds(ws.window_5h, e, now);
    lemma_entry_adds(ws.window_week, e, now);
    lemma_entry_adds(ws.window_month, e, now);
}

proof fn lemma_tokens_since_bound(entries: Seq<TokenEntry>, cutoff: u64)
    ensures
        0 <= tokens_since(entries, cutoff) <= entries.len() * 0xffff_ffff_ffff_ffff,
    decreases entries.len(),
{
    if entries.len() > 0 {
        lemma_tokens_since_bound(entries.drop_last(), cutoff);
    }
}

// ============================================================================
// Executable windows
// ============================================================================

impl TimeWindow {
    pub fn new(duration_secs: u64) -> (w: Self)
        ensures
            w@ == (WindowModel { duration_secs, entries: Seq::empty() }),
    {
        TimeWindow { duration_secs, entries: Vec::new() }
    }

    /// Tokens consumed within the window at `now`, computed exactly.
    pub fn get_consumed_tokens(&self, now: u64) -> (t: u128)
        ensures
            t == consumed(self@, now),
            t < 0xffff_ffff_ffff_ffff_0000_0000_0000_0000u128,
    {
        let cut: u64 = if now >= self.duration_secs { now - self.duration_secs } else { 0 };
        let mut sum: u128 = 0;
        let mut i: usize = 0;
        while i < self.entries.len()
            invariant
                i <= self.entries@.len(),
                cut == cutoff(now, self.duration_secs),
                sum == tokens_since(self.entries@.take(i as int), cut),
            decreases self.entries@.len() - i,
        {
            assert(self.entries@.take(i + 1).drop_last() =~= self.entries@.take(i as int));
            proof {
                lemma_tokens_since_bound(self.entries@.take(i + 1), cut);
                assert((i + 1) * 0xffff_ffff_ffff_ffff < 0xffff_ffff_ffff_ffff_ffff_ffff_ffff_ffffu128) by (nonlinear_arith)
                    requires
                        i < 0xffff_ffff_ffff_ffff,
                ;
            }
            let e = self.entries[i];
            if e.timestamp >= cut {
                sum = sum + (e.tokens as u128);
            }
            i = i + 1;
        }
        assert(self.entries@.take(self.entries@.len() as int) =~= self.entries@);
        proof {
            lemma_tokens_since_bound(self.entries@, cut);
            let n = self.entries@.len();
            assert(n * 0xffff_ffff_ffff_ffff < 0xffff_ffff_ffff_ffff_0000_0000_0000_0000u128) by (nonlinear_arith)
                requires
                    n <= 0xffff_ffff_ffff_ffff,
            ;
        }
        sum
    }

    /// Drops the entries older than the window at `now`.
    pub fn cleanup(&mut self, now: u64)
        ensures
            final(self)@ == cleaned(old(self)@, now),
    {
        let cut: u64 = if now >= self.duration_secs { now - self.duration_secs } else { 0 };
        let mut kept: Vec<TokenEntry> = Vec::new();
        let mut i: usize = 0;
        while i < self.entries.len()
            invariant
                i <= self.entries@.len(),
                self.entries@ == old(self).entries@,
                self.duration_secs == old(self).duration_secs,
                cut == cutoff(now, self.duration_secs),
                kept@ == entries_since(self.entries@.take(i as int), cut),
            decreases self.entries@.len() - i,
        {
            assert(self.entries@.take(i + 1).drop_last() =~= self.entries@.take(i as int));
            let e = self.entries[i];
            if e.timestamp >= cut {
                kept.push(e);
            }
            i = i + 1;
        }
        assert(self.entries@.take(self.entries@.len() as int) =~= self.entries@);
        self.entries = kept;
    }

    /// Records `entry` and drops the entries older than the window at `now`.
    pub fn add_entry(&mut self, entry: TokenEntry, now: u64)
        ensures
            final(self)@ == with_entry(old(self)@, entry, now),
    {
        self.entries.push(entry);
        self.cleanup(now);
    }
}

impl ProviderWindows {
    pub fn new() -> (ws: Self)
        ensures
            ws@ == fresh_windows(),
    {
        ProviderWindows {
            window_5h: TimeWindow::new(SECS_5H),
            window_week: TimeWindow::new(SECS_WEEK),
            window_month: TimeWindow::new(SECS_MONTH),
        }
    }
}

/// What a check of `tokens` for provider `id` at `now` does to the windows
/// (`before` to `after`) and answers: nothing without limits; otherwise the
/// provider gets windows if it had none, and the answer names the first
/// window whose limit would be exceeded, if any.
pub open spec fn check_outcome(
    before: Map<Seq<char>, WindowsModel>,
    after: Map<Seq<char>, WindowsModel>,
    id: Seq<char>,
    tokens: u64,
    l5: Option<u64>,
    lw: Option<u64>,
    lm: Option<u64>,
    now: u64,
    r: Result<(), String>,
) -> bool {
    if l5 is None && lw is None && lm is None {
        r is Ok && after == before
    } else {
        let ws = if before.contains_key(id) { before[id] } else { fresh_windows() };
        &&& after == before.insert(id, ws)
        &&& match quota_verdict(ws, tokens, l5, lw, lm, now) {
            Some(name) => r matches Err(w) && w@ == name,
            None => r is Ok,
        }
    }
}

/// The consumption of provider `id` at `now` as a report gives it: the
/// tokens of its three windows, or `None` for a provider without windows or
/// whose consumption does not fit in a `u64`.
pub open spec fn consumption_report(m: Map<Seq<char>, WindowsModel>, id: Seq<char>, now: u64, r: Option<(u64, u64, u64)>) -> bool {
    match r {
        Some((a, b, c)) => {
            &&& m.contains_key(id)
            &&& a == consumed(m[id].window_5h, now)
            &&& b == consumed(m[id].window_week, now)
            &&& c == consumed(m[id].window_month, now)
        },
        None => !m.contains_key(id) || !consumption_fits_at(m[id], now),
    }
}

/// `after` holds the providers of `before`, each with its windows cleaned at
/// `now`.
pub open spec fn all_windows_cleaned(before: Map<Seq<char>, WindowsModel>, after: Map<Seq<char>, WindowsModel>, now: u64) -> bool {
    &&& after.dom() == before.dom()
    &&& forall|k: Seq<char>| #[trigger] after.contains_key(k) ==> after[k] == all_cleaned(before[k], now)
}

/// Token-quota limiter keeping three windows per provider.
pub struct SlidingWindowLimiter {
    windows: DashMap<String, ProviderWindows>,
}

impl SlidingWindowLimiter {
    /// The windows of each provider seen so far.
    pub closed spec fn providers(&self) -> Map<Seq<char>, WindowsModel> {
        window_entries(self.windows)
    }

    /// The windows of `id` (fresh ones if it was never seen).
    pub open spec fn windows_of(&self, id: Seq<char>) -> WindowsModel {
        if self.providers().contains_key(id) { self.providers()[id] } else { fresh_windows() }
    }

    pub fn new() -> (l: Self)
        ensures
            l.providers() == no_windows(),
    {
        SlidingWindowLimiter { windows: window_map_new() }
    }

    fn get_or_create_windows(&mut self, provider_id: &str) -> (ws: ProviderWindows)
        ensures
            ws@ == old(self).windows_of(provider_id@),
            final(self).providers() == old(self).providers().insert(provider_id@, ws@),
    {
        match window_map_get(&self.windows, provider_id) {
            Some(ws) => {
                proof {
                    assert(old(self).providers().insert(provider_id@, ws@) =~= old(self).providers());
                }
                ws
            },
            None => {
                let ws = ProviderWindows::new();
                window_map_insert(&mut self.windows, String::from_str(provider_id), ProviderWindows::new());
                ws
            },
        }
    }

    /// Checks at `now` whether a request of `tokens` respects the configured
    /// limits. With no limit configured it is admitted and nothing changes.
    /// Otherwise the provider gets windows if it had none, and the result is the
    /// name of the first window whose limit would be exceeded, if any.
    pub fn check_limit_at(
        &mut self,
        provider_id: &str,
        tokens: u64,
        limit_5h: Option<u64>,
        limit_week: Option<u64>,
        limit_month: Option<u64>,
        now: u64,
    ) -> (r: Result<(), String>)
        ensures
            limit_5h is None && limit_week is None && limit_month is None ==>
                r is Ok && final(self).providers() == old(self).providers(),
            !(limit_5h is None && limit_week is None && limit_month is None) ==> {
                let ws = old(self).windows_of(provider_id@);
                &&& final(self).providers() == old(self).providers().insert(provider_id@, ws)
                &&& match quota_verdict(ws, tokens, limit_5h, limit_week, limit_month, now) {
                    Some(name) => r matches Err(w) && w@ == name,
                    None => r is Ok,
                }
            },
    {
        if limit_5h.is_none() && limit_week.is_none() && limit_month.is_none() {
            return Ok(());
        }
        let ws = self.get_or_create_windows(provider_id);
        if let Some(limit) = limit_5h {
            let used = ws.window_5h.get_consumed_tokens(now);
            if used + (tokens as u128) > (limit as u128) {
                return Err(String::from_str("5h"));
            }
        }
        if let Some(limit) = limit_week {
            let used = ws.window_week.get_consumed_tokens(now);
            if used + (tokens as u128) > (limit as u128) {
                return Err(String::from_str("week"));
            }
        }
        if let Some(limit) = limit_month {
            let used = ws.window_month.get_consumed_tokens(now);
            if used + (tokens as u128) > (limit as u128) {
                return Err(String::from_str("month"));
            }
        }
        Ok(())
    }

    /// Records a consumption of `tokens` at `now` in the provider's three windows
    /// (made if it had none), each then dropping its entries older than itself.
    pub fn consume_at(&mut self, provider_id: &str, tokens: u64, now: u64)
        ensures
            final(self).providers() == old(self).providers().insert(
                provider_id@,
                after_consume(old(self).windows_of(provider_id@), tokens, now),
            ),
    {
        let mut ws = self.get_or_create_windows(provider_id);
        let entry = TokenEntry { timestamp: now, tokens };
        ws.window_5h.add_entry(entry, now);
        ws.window_week.add_entry(entry, now);
        ws.window_month.add_entry(entry, now);
        window_map_insert(&mut self.windows, String::from_str(provider_id), ws);
        proof {
            assert(window_entries(self.windows) =~= old(self).providers().insert(
                provider_id@,
                after_consume(old(self).windows_of(provider_id@), tokens, now),
            ));
        }
    }

    /// Whether the consumption of each of the provider's windows at `now` fits in a `u64`.
    pub fn consumption_fits(&self, provider_id: &str, now: u64) -> (b: bool)
        ensures
            b == (self.providers().contains_key(provider_id@) ==> consumption_fits_at(self.providers()[provider_id@], now)),
    {
        match window_map_get(&self.windows, provider_id) {
            Some(ws) => {
                let a = ws.window_5h.get_consumed_tokens(now);
                let b = ws.window_week.get_consumed_tokens(now);
                let c = ws.window_month.get_consumed_tokens(now);
                a <= 0xffff_ffff_ffff_ffffu128 && b <= 0xffff_ffff_ffff_ffffu128 && c <= 0xffff_ffff_ffff_ffffu128
            },
            None => true,
        }
    }

    /// Tokens consumed by the provider at `now` in its 5-hour, weekly and monthly
    /// windows; `None` for a provider without windows.
    pub fn get_consumption_at(&self, provider_id: &str, now: u64) -> (r: Option<(u64, u64, u64)>)
        requires
            self.providers().contains_key(provider_id@) ==> consumption_fits_at(self.providers()[provider_id@], now),
        ensures
            match r {
                Some((a, b, c)) => {
                    let ws = self.providers()[provider_id@];
                    &&& self.providers().contains_key(provider_id@)
                    &&& a == consumed(ws.window_5h, now)
                    &&& b == consumed(ws.window_week, now)
                    &&& c == consumed(ws.window_month, now)
                },
                None => !self.providers().contains_key(provider_id@),
            },
    {
        match window_map_get(&self.windows, provider_id) {
            Some(ws) => {
                let a = ws.window_5h.get_consumed_tokens(now);
                let b = ws.window_week.get_consumed_tokens(now);
                let c = ws.window_month.get_consumed_tokens(now);
                Some((a as u64, b as u64, c as u64))
            },
            None => None,
        }
    }

    /// Forgets the provider's windows.
    pub fn reset(&mut self, provider_id: &str)
        ensures
            final(self).providers() == old(self).providers().remove(provider_id@),
    {
        window_map_remove(&mut self.windows, provider_id);
    }

    /// Checks now (see `check_limit_at`).
    pub fn check_limit(
        &mut self,
        provider_id: &str,
        tokens: u64,
        limit_5h: Option<u64>,
        limit_week: Option<u64>,
        limit_month: Option<u64>,
    ) -> (r: Result<(), String>)
        ensures
            exists|now: u64| #[trigger] check_outcome(old(self).providers(), final(self).providers(), provider_id@,
                tokens, limit_5h, limit_week, limit_month, now, r),
    {
        let now = unix_secs_u64();
        let r = self.check_limit_at(provider_id, tokens, limit_5h, limit_week, limit_month, now);
        assert(check_outcome(old(self).providers(), self.providers(), provider_id@, tokens, limit_5h, limit_week,
            limit_month, now, r));
        r
    }

    /// Records now that the provider consumed `tokens` (see `consume_at`).
    pub fn consume(&mut self, provider_id: &str, tokens: u64)
        ensures
            exists|now: u64| final(self).providers() == old(self).providers().insert(
                provider_id@,
                #[trigger] after_consume(old(self).windows_of(provider_id@), tokens, now),
            ),
    {
        let now = unix_secs_u64();
        self.consume_at(provider_id, tokens, now);
    }

    /// Tokens consumed by the provider now in its 5-hour, weekly and monthly
    /// windows (see `get_consumption_at`); `None` for a provider without
    /// windows, or whose consumption no longer fits in a `u64`.
    pub fn get_consumption(&self, provider_id: &str) -> (r: Option<(u64, u64, u64)>)
        ensures
            exists|now: u64| #[trigger] consumption_report(self.providers(), provider_id@, now, r),
    {
        let now = unix_secs_u64();
        if !self.consumption_fits(provider_id, now) {
            assert(consumption_report(self.providers(), provider_id@, now, None));
            return None;
        }
        let r = self.get_consumption_at(provider_id, now);
        assert(consumption_report(self.providers(), provider_id@, now, r));
        r
    }

    /// Drops now the entries older than their window (see
    /// `cleanup_old_entries_at`).
    pub fn cleanup_old_entries(&mut self)
        ensures
            exists|now: u64| #[trigger] all_windows_cleaned(old(self).providers(), final(self).providers(), now),
    {
        let now = unix_secs_u64();
        self.cleanup_old_entries_at(now);
        assert(all_windows_cleaned(old(self).providers(), self.providers(), now));
    }

    /// Drops, in the windows of every provider, the entries older than the window at `now`.
    pub fn cleanup_old_entries_at(&mut self, now: u64)
        ensures
            final(self).providers().dom() == old(self).providers().dom(),
            forall|k: Seq<char>| #[trigger] final(self).providers().contains_key(k) ==>
                final(self).providers()[k] == all_cleaned(old(self).providers()[k], now),
    {
        let keys = window_map_keys(&self.windows);
        let ghost start = self.providers();
        let mut i: usize = 0;
        while i < keys.len()
            invariant
                i <= keys@.len(),
                forall|j: int| 0 <= j < keys@.len() ==> start.contains_key(#[trigger] keys@[j]@),
                forall|k: Seq<char>| start.contains_key(k) ==> exists|j: int| 0 <= j < keys@.len() && #[trigger] keys@[j]@ == k,
                forall|a: int, b: int| 0 <= a < b < keys@.len() ==> keys@[a]@ != keys@[b]@,
                self.providers().dom() == start.dom(),
                forall|k: Seq<char>| #[trigger] self.providers().contains_key(k) ==> {
                    if exists|j: int| 0 <= j < i && #[trigger] keys@[j]@ == k {
                        self.providers()[k] == all_cleaned(start[k], now)
                    } else {
                        self.providers()[k] == start[k]
                    }
                },
            decreases keys@.len() - i,
        {
            let ghost before = self.providers();
            let key = &keys[i];
            if let Some(mut ws) = window_map_get(&self.windows, key.as_str()) {
                ws.window_5h.cleanup(now);
                ws.window_week.cleanup(now);
                ws.window_month.cleanup(now);
                window_map_insert(&mut self.windows, key.clone(), ws);
            }
            proof {
                assert forall|k: Seq<char>| #[trigger] self.providers().contains_key(k) implies {
                    if exists|j: int| 0 <= j < i + 1 && #[trigger] keys@[j]@ == k {
                        self.providers()[k] == all_cleaned(start[k], now)
                    } else {
                        self.providers()[k] == start[k]
                    }
                } by {
                    if k == keys@[i as int]@ {
                        assert(!(exists|j: int| 0 <= j < i && #[trigger] keys@[j]@ == k));
                    } else {
                        if exists|j: int| 0 <= j < i + 1 && #[trigger] keys@[j]@ == k {
                            let j = choose|j: int| 0 <= j < i + 1 && #[trigger] keys@[j]@ == k;
                            assert(j < i);
                        }
                    }
                }
                assert(self.providers().dom() =~= start.dom());
            }
            i = i + 1;
        }
        proof {
            assert forall|k: Seq<char>| #[trigger] self.providers().contains_key(k) implies
                self.providers()[k] == all_cleaned(start[k], now) by {
                let j = choose|j: int| 0 <= j < keys@.len() && #[trigger] keys@[j]@ == k;
                assert(0 <= j < i && keys@[j]@ == k);
            }
        }
    }
}

} // verus!
