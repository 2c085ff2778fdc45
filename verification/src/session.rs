//! Sessions kept in memory: which backend a caller used last, and the
//! decisions taken for it. Storing sessions in the database is left to the
//! caller, which is told what to store.
use vstd::prelude::*;
use dashmap::DashMap;
use crate::clock::{new_uuid_v4, now_unix_secs};
use crate::models::{DecisionRecord, Session};

verus! {

/// A session in memory, with the decisions taken for it.
#[derive(Debug, Clone)]
pub struct ActiveSession {
    pub session: Session,
    pub decision_chain: Vec<DecisionRecord>,
}

/// What a map of sessions holds: session id to session.
pub uninterp spec fn session_entries(m: DashMap<String, ActiveSession>) -> Map<Seq<char>, ActiveSession>;

/// No session at all.
pub open spec fn no_sessions() -> Map<Seq<char>, ActiveSession> {
    Map::empty()
}

/// Calls `DashMap::new`: an empty map.
#[verifier::external_body]
fn session_map_new() -> (m: DashMap<String, ActiveSession>)
    ensures
        session_entries(m) == no_sessions(),
{
    DashMap::new()
}

/// Calls `DashMap::get` and clones the session found under `key`, if any.
#[verifier::external_body]
fn session_map_get(m: &DashMap<String, ActiveSession>, key: &str) -> (r: Option<ActiveSession>)
    ensures
        match r {
            Some(v) => session_entries(*m).contains_key(key@) && v == session_entries(*m)[key@],
            None => !session_entries(*m).contains_key(key@),
        },
{
    m.get(key).map(|e| e.value().clone())
}

/// Calls `DashMap::insert`: afterwards `key` maps to `v`, other keys unchanged.
#[verifier::external_body]
fn session_map_insert(m: &mut DashMap<String, ActiveSession>, key: String, v: ActiveSession)
    ensures
        session_entries(*final(m)) == session_entries(*old(m)).insert(key@, v),
{
    m.insert(key, v);
}

/// Calls `DashMap::remove`: afterwards `key` is gone, other keys unchanged.
#[verifier::external_body]
fn session_map_remove(m: &mut DashMap<String, ActiveSession>, key: &str)
    ensures
        session_entries(*final(m)) == session_entries(*old(m)).remove(key@),
{
    m.remove(key);
}

/// Walks the map (`DashMap::iter`), cloning each key and session. The order
/// of the walk is not stated: every key comes exactly once, with its session.
#[verifier::external_body]
fn session_map_snapshot(m: &DashMap<String, ActiveSession>) -> (r: Vec<(String, ActiveSession)>)
    ensures
        snapshot_keys(r@).no_duplicates(),
        snapshot_keys(r@).to_set() == session_entries(*m).dom(),
        forall|i: int| 0 <= i < r@.len() ==> (#[trigger] r@[i]).1 == session_entries(*m)[r@[i].0@],
{
    m.iter().map(|e| (e.key().clone(), e.value().clone())).collect()
}

/// The keys of a snapshot, in its order.
pub open spec fn snapshot_keys(r: Seq<(String, ActiveSession)>) -> Seq<Seq<char>> {
    r.map_values(|e: (String, ActiveSession)| e.0@)
}

/// The session under `id` is live at `now` and, when `backend` is given,
/// uses that backend.
pub open spec fn selected(m: Map<Seq<char>, ActiveSession>, id: Seq<char>, now: i64, ttl: i64, backend: Option<Seq<char>>) -> bool {
    &&& live(m, id, now, ttl)
    &&& match backend {
        Some(b) => m[id].session.backend_id@ == b,
        None => true,
    }
}

/// The ids of the selected sessions.
pub open spec fn selected_ids(m: Map<Seq<char>, ActiveSession>, now: i64, ttl: i64, backend: Option<Seq<char>>) -> Set<Seq<char>> {
    m.dom().filter(|id: Seq<char>| selected(m, id, now, ttl, backend))
}

/// The ids of the sessions expired at `now`.
pub open spec fn expired_ids(m: Map<Seq<char>, ActiveSession>, now: i64, ttl: i64) -> Set<Seq<char>> {
    m.dom().filter(|id: Seq<char>| m[id].session.spec_is_expired_at(now as int, ttl as int))
}

/// The sessions in memory, and how long a session lives without activity.
pub struct SessionStore {
    sessions: DashMap<String, ActiveSession>,
    ttl_seconds: i64,
}

/// The session under `id` is there and has not expired at `now`.
pub open spec fn live(m: Map<Seq<char>, ActiveSession>, id: Seq<char>, now: i64, ttl: i64) -> bool {
    m.contains_key(id) && !m[id].session.spec_is_expired_at(now as int, ttl as int)
}

impl SessionStore {
    /// The sessions, by id.
    pub closed spec fn entries(&self) -> Map<Seq<char>, ActiveSession> {
        session_entries(self.sessions)
    }

    pub closed spec fn ttl(&self) -> i64 {
        self.ttl_seconds
    }

    /// No session yet; sessions live `ttl_seconds` without activity.
    pub fn new(ttl_seconds: i64) -> (s: Self)
        ensures
            s.entries() == Map::<Seq<char>, ActiveSession>::empty(),
            s.ttl() == ttl_seconds,
    {
        SessionStore { sessions: session_map_new(), ttl_seconds }
    }

    /// The session of `session_id` when it is there and live at `now`;
    /// otherwise a new session on `backend_id` with id `fresh_id`, created at
    /// `now` and stored (an expired one under `session_id` is dropped). The
    /// flag tells whether the session is new, and so must be stored in the
    /// database.
    pub fn get_or_create_session_at(
        &mut self,
        session_id: Option<String>,
        backend_id: String,
        now: i64,
        fresh_id: String,
    ) -> (r: (ActiveSession, bool))
        ensures
            final(self).ttl() == old(self).ttl(),
            match session_id {
                Some(id) if live(old(self).entries(), id@, now, old(self).ttl()) => {
                    &&& !r.1
                    &&& r.0 == old(self).entries()[id@]
                    &&& final(self).entries() == old(self).entries()
                },
                _ => {
                    let dropped = match session_id {
                        Some(id) => old(self).entries().remove(id@),
                        None => old(self).entries(),
                    };
                    &&& r.1
                    &&& r.0.session == (Session { id: fresh_id, backend_id, created_at: now, last_activity: now, expired: false })
                    &&& r.0.decision_chain@.len() == 0
                    &&& final(self).entries() == dropped.insert(fresh_id@, r.0)
                },
            },
    {
        if let Some(id) = &session_id {
            if let Some(a) = session_map_get(&self.sessions, id.as_str()) {
                if !a.session.is_expired_at(now, self.ttl_seconds) {
                    return (a, false);
                } else {
                    session_map_remove(&mut self.sessions, id.as_str());
                }
            } else {
                proof {
                    assert(old(self).entries().remove(id@) =~= old(self).entries());
                }
            }
        }
        let session = Session::new_at(fresh_id, backend_id, now);
        let key = session.id.clone();
        let lookup = session.id.clone();
        let active = ActiveSession { session, decision_chain: Vec::new() };
        session_map_insert(&mut self.sessions, key, active);
        let stored = session_map_get(&self.sessions, lookup.as_str()).unwrap();
        (stored, true)
    }

    /// The session of `session_id` when live now, else a new one with a
    /// random id created now (see `get_or_create_session_at`).
    pub fn get_or_create_session(&mut self, session_id: Option<String>, backend_id: String) -> (r: (ActiveSession, bool))
        ensures
            final(self).ttl() == old(self).ttl(),
            r.1 ==> r.0.session.id@.len() == 36 && r.0.session.backend_id == backend_id,
            r.1 ==> final(self).entries().contains_key(r.0.session.id@),
            !r.1 ==> final(self).entries() == old(self).entries(),
            !r.1 ==> (session_id matches Some(id) && old(self).entries().contains_key(id@)
                && r.0 == old(self).entries()[id@]),
    {
        let now = now_unix_secs();
        let fresh = new_uuid_v4();
        self.get_or_create_session_at(session_id, backend_id, now, fresh)
    }

    /// Marks activity at `now` on the session `session_id`, if it is there;
    /// gives the new last-activity time to store.
    pub fn update_activity_at(&mut self, session_id: &str, now: i64) -> (r: Option<i64>)
        ensures
            final(self).ttl() == old(self).ttl(),
            old(self).entries().contains_key(session_id@) ==> {
                let a = old(self).entries()[session_id@];
                &&& r == Some(now)
                &&& final(self).entries() == old(self).entries().insert(session_id@,
                    ActiveSession { session: Session { last_activity: now, ..a.session }, ..a })
            },
            !old(self).entries().contains_key(session_id@) ==> r is None && final(self).entries() == old(self).entries(),
    {
        match session_map_get(&self.sessions, session_id) {
            Some(mut a) => {
                a.session.update_activity_at(now);
                session_map_insert(&mut self.sessions, String::from_str(session_id), a);
                Some(now)
            },
            None => None,
        }
    }

    /// Marks activity now (see `update_activity_at`).
    pub fn update_activity(&mut self, session_id: &str) -> (r: Option<i64>)
        ensures
            final(self).ttl() == old(self).ttl(),
            old(self).entries().contains_key(session_id@) <==> r is Some,
    {
        let now = now_unix_secs();
        self.update_activity_at(session_id, now)
    }

    /// The session `session_id`, if it is there (expired or not).
    pub fn get_session(&self, session_id: &str) -> (r: Option<ActiveSession>)
        ensures
            match r {
                Some(a) => self.entries().contains_key(session_id@) && a == self.entries()[session_id@],
                None => !self.entries().contains_key(session_id@),
            },
    {
        session_map_get(&self.sessions, session_id)
    }

    /// Appends a decision to the chain of the session `session_id`, if it is
    /// there.
    pub fn add_decision(&mut self, session_id: &str, decision: DecisionRecord)
        ensures
            final(self).ttl() == old(self).ttl(),
            old(self).entries().contains_key(session_id@) ==> {
                let a = old(self).entries()[session_id@];
                &&& final(self).entries().contains_key(session_id@)
                &&& final(self).entries()[session_id@].session == a.session
                &&& final(self).entries()[session_id@].decision_chain@ == a.decision_chain@.push(decision)
                &&& forall|k: Seq<char>| k != session_id@ ==> #[trigger] final(self).entries().contains_key(k)
                    == old(self).entries().contains_key(k) && (old(self).entries().contains_key(k)
                    ==> final(self).entries()[k] == old(self).entries()[k])
            },
            !old(self).entries().contains_key(session_id@) ==> final(self).entries() == old(self).entries(),
    {
        match session_map_get(&self.sessions, session_id) {
            Some(mut a) => {
                a.decision_chain.push(decision);
                session_map_insert(&mut self.sessions, String::from_str(session_id), a);
            },
            None => {},
        }
    }

    /// The decisions of the session `session_id` (none when it is not there).
    pub fn get_decision_chain(&self, session_id: &str) -> (r: Vec<DecisionRecord>)
        ensures
            self.entries().contains_key(session_id@) ==> r@ == self.entries()[session_id@].decision_chain@,
            !self.entries().contains_key(session_id@) ==> r@.len() == 0,
    {
        match session_map_get(&self.sessions, session_id) {
            Some(a) => a.decision_chain,
            None => Vec::new(),
        }
    }

    /// Empties the decision chain of the session `session_id`, if it is there.
    pub fn clear_decision_chain(&mut self, session_id: &str)
        ensures
            final(self).ttl() == old(self).ttl(),
            old(self).entries().contains_key(session_id@) ==> {
                let a = old(self).entries()[session_id@];
                &&& final(self).entries().contains_key(session_id@)
                &&& final(self).entries()[session_id@].session == a.session
                &&& final(self).entries()[session_id@].decision_chain@.len() == 0
            },
            !old(self).entries().contains_key(session_id@) ==> final(self).entries() == old(self).entries(),
    {
        match session_map_get(&self.sessions, session_id) {
            Some(mut a) => {
                a.decision_chain = Vec::new();
                session_map_insert(&mut self.sessions, String::from_str(session_id), a);
            },
            None => {},
        }
    }
}

proof fn lemma_push_contains<A>(s: Seq<A>, x: A, y: A)
    ensures
        s.push(x).contains(y) <==> (s.contains(y) || y == x),
{
    if s.contains(y) {
        let j = choose|j: int| 0 <= j < s.len() && s[j] == y;
        assert(s.push(x)[j] == y);
    }
    if y == x {
        assert(s.push(x)[s.len() as int] == y);
    }
    if s.push(x).contains(y) {
        let j = choose|j: int| 0 <= j < s.push(x).len() && s.push(x)[j] == y;
        if j < s.len() {
            assert(s[j] == y);
        }
    }
}

impl SessionStore {
    /// The selected sessions, in the order of a walk of the map, with their
    /// ids.
    fn select(&self, now: i64, backend: Option<&str>) -> (r: (Vec<ActiveSession>, Ghost<Seq<Seq<char>>>))
        ensures
            ({
                let m = self.entries();
                let bv = match backend { Some(b) => Some(b@), None => None };
                &&& r.1@.no_duplicates()
                &&& r.1@.to_set() == selected_ids(m, now, self.ttl(), bv)
                &&& r.0@ == r.1@.map_values(|k: Seq<char>| m[k])
            }),
    {
        let ghost m = self.entries();
        let ghost bv: Option<Seq<char>> = match backend { Some(b) => Some(b@), None => None };
        let snap = session_map_snapshot(&self.sessions);
        let ghost ks = snapshot_keys(snap@);
        let mut out: Vec<ActiveSession> = Vec::new();
        let ghost mut chosen: Seq<Seq<char>> = Seq::empty();
        let mut i: usize = 0;
        while i < snap.len()
            invariant
                i <= snap@.len(),
                m == self.entries(),
                bv == (match backend { Some(b) => Some(b@), None => None::<Seq<char>> }),
                ks == snapshot_keys(snap@),
                ks.no_duplicates(),
                ks.to_set() == m.dom(),
                forall|j: int| 0 <= j < snap@.len() ==> (#[trigger] snap@[j]).1 == m[snap@[j].0@],
                chosen.no_duplicates(),
                forall|k: Seq<char>| chosen.contains(k) <==> (ks.take(i as int).contains(k) && selected(m, k, now, self.ttl(), bv)),
                out@ == chosen.map_values(|k: Seq<char>| m[k]),
            decreases snap@.len() - i,
        {
            let e = &snap[i];
            let ghost k = ks[i as int];
            assert(k == e.0@);
            assert(ks.to_set().contains(k));
            assert(ks.take(i + 1) =~= ks.take(i as int).push(k));
            assert(!ks.take(i as int).contains(k)) by {
                if ks.take(i as int).contains(k) {
                    let j = choose|j: int| 0 <= j < i && ks.take(i as int)[j] == k;
                    assert(ks[j] == ks[i as int]);
                }
            }
            let alive = !e.1.session.is_expired_at(now, self.ttl_seconds);
            let matches_backend = match backend {
                Some(b) => crate::text::str_eq(e.1.session.backend_id.as_str(), b),
                None => true,
            };
            assert(e.1 == m[k]);
            let ghost prev = chosen;
            let ghost pre = ks.take(i as int);
            if alive && matches_backend {
                assert(selected(m, k, now, self.ttl(), bv));
                let copy = session_map_get(&self.sessions, e.0.as_str()).unwrap();
                out.push(copy);
                proof {
                    chosen = chosen.push(k);
                    assert(out@ =~= chosen.map_values(|k: Seq<char>| m[k]));
                    assert(!prev.contains(k));
                    assert forall|a: int, b: int| 0 <= a < b < chosen.len() implies chosen[a] != chosen[b] by {
                        if b == chosen.len() - 1 {
                            assert(prev[a] == chosen[a]);
                        }
                    }
                }
            } else {
                assert(!selected(m, k, now, self.ttl(), bv));
            }
            proof {
                assert forall|k2: Seq<char>| chosen.contains(k2) <==> (ks.take(i + 1).contains(k2)
                    && selected(m, k2, now, self.ttl(), bv)) by {
                    lemma_push_contains(pre, k, k2);
                    lemma_push_contains(prev, k, k2);
                }
            }
            i = i + 1;
        }
        proof {
            assert(ks.take(snap@.len() as int) =~= ks);
            assert(chosen.to_set() =~= selected_ids(m, now, self.ttl(), bv)) by {
                assert forall|k: Seq<char>| chosen.to_set().contains(k) <==> selected_ids(m, now, self.ttl(), bv).contains(k) by {
                    if selected(m, k, now, self.ttl(), bv) {
                        assert(m.dom().contains(k));
                        assert(ks.to_set().contains(k));
                    }
                }
            }
        }
        (out, Ghost(chosen))
    }

    /// The sessions live at `now`, in no stated order: each once.
    pub fn get_active_sessions_at(&self, now: i64) -> (r: Vec<ActiveSession>)
        ensures
            exists|ids: Seq<Seq<char>>| {
                &&& ids.no_duplicates()
                &&& #[trigger] ids.to_set() == selected_ids(self.entries(), now, self.ttl(), None)
                &&& r@ == ids.map_values(|k: Seq<char>| self.entries()[k])
            },
    {
        let (v, Ghost(ids)) = self.select(now, None);
        v
    }

    /// How many sessions are live at `now`.
    pub fn active_session_count_at(&self, now: i64) -> (n: usize)
        ensures
            n == selected_ids(self.entries(), now, self.ttl(), None).len(),
    {
        let (v, Ghost(ids)) = self.select(now, None);
        proof { ids.unique_seq_to_set(); }
        v.len()
    }

    /// How many sessions live at `now` use the backend `backend_id`.
    pub fn active_session_count_for_backend_at(&self, backend_id: &str, now: i64) -> (n: usize)
        ensures
            n == selected_ids(self.entries(), now, self.ttl(), Some(backend_id@)).len(),
    {
        let (v, Ghost(ids)) = self.select(now, Some(backend_id));
        proof { ids.unique_seq_to_set(); }
        v.len()
    }

    /// The sessions live now (see `get_active_sessions_at`).
    pub fn get_active_sessions(&self) -> (r: Vec<ActiveSession>)
        ensures
            exists|now: i64, ids: Seq<Seq<char>>| {
                &&& ids.no_duplicates()
                &&& #[trigger] ids.to_set() == #[trigger] selected_ids(self.entries(), now, self.ttl(), None)
                &&& r@ == ids.map_values(|k: Seq<char>| self.entries()[k])
            },
    {
        self.get_active_sessions_at(now_unix_secs())
    }

    /// How many sessions are live now.
    pub fn active_session_count(&self) -> (n: usize)
        ensures
            exists|now: i64| n == #[trigger] selected_ids(self.entries(), now, self.ttl(), None).len(),
    {
        self.active_session_count_at(now_unix_secs())
    }

    /// How many sessions live now use the backend `backend_id`.
    pub fn active_session_count_for_backend(&self, backend_id: &str) -> (n: usize)
        ensures
            exists|now: i64| n == #[trigger] selected_ids(self.entries(), now, self.ttl(), Some(backend_id@)).len(),
    {
        self.active_session_count_for_backend_at(backend_id, now_unix_secs())
    }

    /// Drops the sessions expired at `now`, and gives their ids (to mark them
    /// expired in the database), in no stated order.
    pub fn cleanup_expired_at(&mut self, now: i64) -> (ids: Vec<String>)
        ensures
            final(self).ttl() == old(self).ttl(),
            final(self).entries() == old(self).entries().remove_keys(expired_ids(old(self).entries(), now, old(self).ttl())),
            ids@.map_values(|s: String| s@).no_duplicates(),
            ids@.map_values(|s: String| s@).to_set() == expired_ids(old(self).entries(), now, old(self).ttl()),
    {
        let ghost m = self.entries();
        let ghost ttl = self.ttl();
        let snap = session_map_snapshot(&self.sessions);
        let ghost ks = snapshot_keys(snap@);
        let mut out: Vec<String> = Vec::new();
        let ghost mut gone: Set<Seq<char>> = Set::empty();
        let mut i: usize = 0;
        while i < snap.len()
            invariant
                i <= snap@.len(),
                ttl == self.ttl(),
                ks == snapshot_keys(snap@),
                ks.no_duplicates(),
                ks.to_set() == m.dom(),
                forall|j: int| 0 <= j < snap@.len() ==> (#[trigger] snap@[j]).1 == m[snap@[j].0@],
                out@.map_values(|s: String| s@).no_duplicates(),
                forall|k: Seq<char>| gone.contains(k) <==> (ks.take(i as int).contains(k) && m.contains_key(k)
                    && m[k].session.spec_is_expired_at(now as int, ttl as int)),
                out@.map_values(|s: String| s@).to_set() == gone,
                self.entries() == m.remove_keys(gone),
            decreases snap@.len() - i,
        {
            let e = &snap[i];
            let ghost k = ks[i as int];
            assert(k == e.0@);
            assert(ks.to_set().contains(k));
            assert(ks.take(i + 1) =~= ks.take(i as int).push(k));
            assert(!ks.take(i as int).contains(k)) by {
                if ks.take(i as int).contains(k) {
                    let j = choose|j: int| 0 <= j < i && ks.take(i as int)[j] == k;
                    assert(ks[j] == ks[i as int]);
                }
            }
            assert(e.1 == m[k]);
            let ghost pre = ks.take(i as int);
            let ghost gone0 = gone;
            if e.1.session.is_expired_at(now, self.ttl_seconds) {
                session_map_remove(&mut self.sessions, e.0.as_str());
                let ghost before = out@.map_values(|s: String| s@);
                out.push(e.0.clone());
                proof {
                    let after = out@.map_values(|s: String| s@);
                    assert(after =~= before.push(k));
                    assert(!gone.contains(k));
                    gone = gone.insert(k);
                    before.lemma_push_to_set_commute(k);
                    assert(after.to_set() =~= gone);
                    assert forall|a: int, b: int| 0 <= a < b < after.len() implies after[a] != after[b] by {
                        if b == after.len() - 1 {
                            assert(before[a] == after[a]);
                            assert(before.to_set().contains(before[a]));
                        }
                    }
                    assert(self.entries() =~= m.remove_keys(gone));
                }
            }
            proof {
                assert forall|k2: Seq<char>| gone.contains(k2) <==> (ks.take(i + 1).contains(k2) && m.contains_key(k2)
                    && m[k2].session.spec_is_expired_at(now as int, ttl as int)) by {
                    lemma_push_contains(pre, k, k2);
                }
            }
            i = i + 1;
        }
        proof {
            assert(ks.take(snap@.len() as int) =~= ks);
            assert(gone =~= expired_ids(m, now, ttl)) by {
                assert forall|k: Seq<char>| gone.contains(k) <==> expired_ids(m, now, ttl).contains(k) by {
                    if m.contains_key(k) {
                        assert(ks.to_set().contains(k));
                    }
                }
            }
        }
        out
    }

    /// Drops the sessions expired now (see `cleanup_expired_at`).
    pub fn cleanup_expired(&mut self) -> (ids: Vec<String>)
        ensures
            final(self).ttl() == old(self).ttl(),
            exists|now: i64| final(self).entries() == old(self).entries().remove_keys(
                #[trigger] expired_ids(old(self).entries(), now, old(self).ttl())),
    {
        self.cleanup_expired_at(now_unix_secs())
    }
}

/// Cleaning up at `now` keeps exactly the sessions live at `now`: what
/// remains is live, and every live session remains, unchanged.
pub proof fn lemma_cleanup_keeps_exactly_live(m: Map<Seq<char>, ActiveSession>, now: i64, ttl: i64)
    ensures
        forall|id: Seq<char>| #[trigger] m.remove_keys(expired_ids(m, now, ttl)).contains_key(id) <==> live(m, id, now, ttl),
        forall|id: Seq<char>| live(m, id, now, ttl) ==> #[trigger] m.remove_keys(expired_ids(m, now, ttl))[id] == m[id],
{
}

/// A session expires by idleness alone: it has not expired while at most
/// the TTL has passed since its last activity, it has expired once more than
/// that has passed, and when it was created plays no part.
pub proof fn lemma_expiry_by_idleness(s: Session, now: int, ttl: int, created_at: i64)
    ensures
        now - s.last_activity <= ttl ==> !s.spec_is_expired_at(now, ttl),
        now - s.last_activity > ttl ==> s.spec_is_expired_at(now, ttl),
        (Session { created_at, ..s }).spec_is_expired_at(now, ttl) == s.spec_is_expired_at(now, ttl),
{
}

/// A stored session whose last activity lies within the TTL of `now` is
/// live, so asking for it by id gives it back instead of a new session.
pub proof fn lemma_recent_session_is_live(m: Map<Seq<char>, ActiveSession>, id: Seq<char>, now: i64, ttl: i64)
    requires
        m.contains_key(id),
        now - m[id].session.last_activity <= ttl,
    ensures
        live(m, id, now, ttl),
{
}

/// Activity keeps a session alive: once the session under `id` was touched
/// at `t`, it is live at every `now` no more than the TTL after `t`, however
/// long ago it was created.
pub proof fn lemma_touched_session_is_live(m: Map<Seq<char>, ActiveSession>, id: Seq<char>, t: i64, now: i64, ttl: i64)
    requires
        m.contains_key(id),
        now - t <= ttl,
    ensures
        live(m.insert(id, ActiveSession { session: Session { last_activity: t, ..m[id].session }, ..m[id] }), id, now, ttl),
{
}

} // verus!
