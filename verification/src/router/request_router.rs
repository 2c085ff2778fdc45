//! Routing decisions: which backend serves a request.
//!
//! The router first prefers the backend of the caller's session, then applies the
//! model redirect rule of the requested model, and finally balances among the
//! enabled providers whose circuit breaker lets requests through. Each step is
//! written down in the request's decision chain. The data these steps read (the
//! session's backend, the redirect rule, the providers) is looked up by the
//! caller and handed over; the circuit breaker and the load balancer are consulted
//! here.
use vstd::prelude::*;
use crate::config::CircuitBreakerConfig;
use crate::error::{AppError, RateLimitError, RouterError};
use crate::models::{Backend, ChatCompletionRequest, DecisionAction, DecisionRecord, Message, ModelRedirect, Provider};
use crate::router::circuit_breaker::{CircuitBreaker, CircuitModel, after_check, check_allows, fresh_model};
use crate::router::load_balancer::{
    LoadBalancer, lb_selects, eff_weight, max_priority, priority_weight, selectable, lemma_choice_has_top_priority,
    lemma_priority_weight_selectable,
};
use crate::text::{byte_len, concat2, concat3, dec_int, dec_nat, push_dec_i64, push_dec_u64};
use vstd::arithmetic::power2::{pow2, lemma_pow2_adds, lemma_pow2_pos, lemma2_to64};

verus! {

// ============================================================================
// Decision records
// ============================================================================

/// A decision record as the router specifies it (its timestamp aside).
pub struct RecordSpec {
    pub step: int,
    pub action: DecisionAction,
    pub provider_id: Option<Seq<char>>,
    pub reason: Seq<char>,
}

pub open spec fn rec(step: int, action: DecisionAction, provider_id: Option<Seq<char>>, reason: Seq<char>) -> RecordSpec {
    RecordSpec { step, action, provider_id, reason }
}

/// The record `r` is the one `s` specifies.
pub open spec fn record_matches(r: DecisionRecord, s: RecordSpec) -> bool {
    &&& r.step_number == s.step
    &&& r.action == s.action
    &&& r.reason@ == s.reason
    &&& match s.provider_id {
        Some(id) => r.provider_id matches Some(p) && p@ == id,
        None => r.provider_id is None,
    }
}

/// The chain `after` is `before` followed by the records `added` specifies.
pub open spec fn chain_extended(before: Seq<DecisionRecord>, after: Seq<DecisionRecord>, added: Seq<RecordSpec>) -> bool {
    &&& after.len() == before.len() + added.len()
    &&& forall|i: int| 0 <= i < before.len() ==> #[trigger] after[i] == before[i]
    &&& forall|i: int| 0 <= i < added.len() ==> record_matches(#[trigger] after[before.len() + i], added[i])
}

/// The record of a backend chosen by the load balancer.
pub open spec fn selected_record(step: int, p: Provider) -> RecordSpec {
    rec(step, DecisionAction::Selected, Some(p.id@),
        "Selected backend "@ + p.name@ + " (priority: "@ + dec_int(p.priority as int) + ", weight: "@
            + dec_int(p.weight as int) + ")"@)
}

// ============================================================================
// Specification of the phases
// ============================================================================

/// Map of circuit breakers, by provider id.
pub open spec fn breaker_in(bk: Map<Seq<char>, CircuitModel>, id: Seq<char>) -> CircuitModel {
    if bk.contains_key(id) { bk[id] } else { fresh_model() }
}

/// A circuit-breaker check of `id` at `now`: the breakers afterwards, and
/// whether the provider may be used.
pub open spec fn cb_check(bk: Map<Seq<char>, CircuitModel>, id: Seq<char>, now: u64, cfg: CircuitBreakerConfig) -> (Map<Seq<char>, CircuitModel>, bool) {
    (bk.insert(id, after_check(breaker_in(bk, id), now as int, cfg)), check_allows(breaker_in(bk, id), now as int, cfg))
}

/// Messages of the session and redirect phases.
pub open spec fn msg_disabled(prefix: Seq<char>, name: Seq<char>) -> Seq<char> {
    prefix + name + " is disabled"@
}

pub open spec fn msg_open(prefix: Seq<char>, name: Seq<char>) -> Seq<char> {
    prefix + name + " has open circuit breaker"@
}

/// Trying a known candidate `found` (the session's backend, or the redirect's
/// target): the breakers afterwards, the one record written, and the provider
/// if it is usable. `logged` says whether refusals are written down.
pub open spec fn candidate_phase(
    found: Option<Provider>,
    bk: Map<Seq<char>, CircuitModel>,
    now: u64,
    cfg: CircuitBreakerConfig,
    step: int,
    chosen_msg: Seq<char>,
    refused_prefix: Seq<char>,
    missing_msg: Seq<char>,
    logged: bool,
) -> (Map<Seq<char>, CircuitModel>, Seq<RecordSpec>, Option<Provider>) {
    match found {
        None => (bk, if logged { seq![rec(step, DecisionAction::Failed, None, missing_msg)] } else { Seq::empty() }, None),
        Some(p) => if !p.enabled {
            (bk, if logged {
                seq![rec(step, DecisionAction::Failed, Some(p.id@), msg_disabled(refused_prefix, p.name@))]
            } else {
                Seq::empty()
            }, None)
        } else {
            let (bk2, ok) = cb_check(bk, p.id@, now, cfg);
            if ok {
                (bk2, seq![rec(step, DecisionAction::Selected, Some(p.id@), chosen_msg + p.name@)], Some(p))
            } else {
                (bk2, if logged {
                    seq![rec(step, DecisionAction::CircuitBreakerOpen, Some(p.id@), msg_open(refused_prefix, p.name@))]
                } else {
                    Seq::empty()
                }, None)
            }
        },
    }
}

/// The session phase: `sb` is `None` without an active session, else the lookup
/// of the session's backend (`None` when it was not found).
pub open spec fn session_phase(sb: Option<Option<Provider>>, bk: Map<Seq<char>, CircuitModel>, now: u64, cfg: CircuitBreakerConfig, step: int, logged: bool) -> (Map<Seq<char>, CircuitModel>, Seq<RecordSpec>, Option<Provider>) {
    match sb {
        None => (bk, Seq::empty(), None),
        Some(found) => candidate_phase(found, bk, now, cfg, step,
            "Reusing backend from session: "@, "Previous backend "@, "Previous backend not found"@, logged),
    }
}

/// The redirect phase: an enabled rule for the model is written down and
/// changes the target model; its target provider (`target`, the lookup of the
/// rule's provider) is then tried unless `skip_target`.
pub open spec fn redirect_phase(
    model: Seq<char>,
    rd: Option<ModelRedirect>,
    target: Option<Provider>,
    bk: Map<Seq<char>, CircuitModel>,
    now: u64,
    cfg: CircuitBreakerConfig,
    step: int,
    logged: bool,
    skip_target: bool,
) -> (Map<Seq<char>, CircuitModel>, Seq<RecordSpec>, Option<Provider>, Seq<char>) {
    match rd {
        Some(r) => if r.enabled {
            let first = rec(step, DecisionAction::Redirected, Some(r.target_provider_id@),
                "Model redirected from "@ + model + " to "@ + r.target_model@);
            if skip_target {
                (bk, seq![first], None, r.target_model@)
            } else {
                let (bk2, recs, chosen) = candidate_phase(target, bk, now, cfg, step + 1,
                    "Using redirected provider: "@, "Redirected provider "@, "Redirected provider not found"@, logged);
                (bk2, seq![first] + recs, chosen, r.target_model@)
            }
        } else {
            (bk, Seq::empty(), None, model)
        },
        None => (bk, Seq::empty(), None, model),
    }
}

/// Whether `id` is among the excluded provider ids.
pub open spec fn is_excluded(excluded: Seq<String>, id: Seq<char>) -> bool {
    exists|i: int| 0 <= i < excluded.len() && #[trigger] excluded[i]@ == id
}

/// The providers of `ps` whose breaker lets requests through, checked in order
/// (excluded providers are skipped without a check), and the breakers afterwards.
pub open spec fn filter_phase(ps: Seq<Provider>, excluded: Seq<String>, bk: Map<Seq<char>, CircuitModel>, now: u64, cfg: CircuitBreakerConfig) -> (Map<Seq<char>, CircuitModel>, Seq<Provider>)
    decreases ps.len(),
{
    if ps.len() == 0 {
        (bk, Seq::empty())
    } else {
        let (bk1, av) = filter_phase(ps.drop_last(), excluded, bk, now, cfg);
        let p = ps.last();
        if is_excluded(excluded, p.id@) {
            (bk1, av)
        } else {
            let (bk2, ok) = cb_check(bk1, p.id@, now, cfg);
            (bk2, if ok { av.push(p) } else { av })
        }
    }
}

/// The providers as backends without rate-limit configuration.
pub open spec fn backends_of(ps: Seq<Provider>) -> Seq<Backend> {
    ps.map_values(|p: Provider| Backend { provider: p, rate_limit_config: None })
}

/// Sum of the effective weights of the providers of `ps` of priority `q` that
/// are not excluded.
pub open spec fn priority_weight_of(ps: Seq<Provider>, excluded: Seq<String>, q: i32) -> int
    decreases ps.len(),
{
    if ps.len() == 0 {
        0
    } else {
        priority_weight_of(ps.drop_last(), excluded, q) + if ps.last().priority == q && !is_excluded(excluded, ps.last().id@) {
            eff_weight(Backend { provider: ps.last(), rate_limit_config: None })
        } else {
            0
        }
    }
}

/// Of the enabled providers that are not excluded, those of each priority
/// weigh at most `i32::MAX` together: whichever of them the breakers let
/// through, the load balancer can add up the weights of the group it
/// chooses from.
pub open spec fn groups_fit(enabled: Result<Vec<Provider>, AppError>, excluded: Seq<String>) -> bool {
    enabled matches Ok(ps) ==> forall|q: i32| #[trigger] priority_weight_of(ps@, excluded, q) <= i32::MAX
}

/// A plan that ends with the load balancer offers it a list it can select from.
pub open spec fn balance_fits(plan: RoutePlan) -> bool {
    plan matches RoutePlan::Balance(av) ==> selectable(backends_of(av))
}

proof fn lemma_filter_priority_weight(
    ps: Seq<Provider>,
    excluded: Seq<String>,
    bk: Map<Seq<char>, CircuitModel>,
    now: u64,
    cfg: CircuitBreakerConfig,
    q: i32,
)
    ensures
        priority_weight(backends_of(filter_phase(ps, excluded, bk, now, cfg).1), q) <= priority_weight_of(ps, excluded, q),
    decreases ps.len(),
{
    if ps.len() > 0 {
        lemma_filter_priority_weight(ps.drop_last(), excluded, bk, now, cfg, q);
        let av = filter_phase(ps.drop_last(), excluded, bk, now, cfg).1;
        assert(backends_of(av.push(ps.last())).drop_last() =~= backends_of(av));
    }
}

// ============================================================================
// Executable phases
// ============================================================================

/// What a selection gives: the provider to use.
#[derive(Debug)]
pub struct Selection {
    pub provider: Provider,
}

fn push_record(chain: &mut Vec<DecisionRecord>, step: u32, action: DecisionAction, provider_id: Option<&String>, reason: String)
    ensures
        final(chain)@.len() == old(chain)@.len() + 1,
        final(chain)@.drop_last() == old(chain)@,
        record_matches(final(chain)@.last(), rec(step as int, action, match provider_id {
            Some(p) => Some(p@),
            None => None,
        }, reason@)),
{
    let r = DecisionRecord::new(step, action, reason);
    let r = match provider_id {
        Some(p) => r.with_provider(p.clone()),
        None => r,
    };
    chain.push(r);
    assert(chain@.drop_last() =~= old(chain)@);
}

/// Runs `candidate_phase` on the circuit breaker and the chain.
fn run_candidate(
    cb: &mut CircuitBreaker,
    found: Option<Provider>,
    now: u64,
    chain: &mut Vec<DecisionRecord>,
    step: u32,
    chosen_msg: &str,
    refused_prefix: &str,
    missing_msg: &str,
    logged: bool,
) -> (chosen: Option<Provider>)
    ensures
        final(cb).spec_config() == old(cb).spec_config(),
        ({
            let (bk, recs, ch) = candidate_phase(found, old(cb).breakers(), now, old(cb).spec_config(), step as int,
                chosen_msg@, refused_prefix@, missing_msg@, logged);
            &&& final(cb).breakers() == bk
            &&& chain_extended(old(chain)@, final(chain)@, recs)
            &&& chosen == ch
        }),
{
    let ghost bk0 = cb.breakers();
    match found {
        None => {
            if logged {
                push_record(chain, step, DecisionAction::Failed, None, String::from_str(missing_msg));
                proof { lemma_extended_one(old(chain)@, chain@); }
            } else {
                proof { lemma_extended_none(chain@); }
            }
            None
        },
        Some(p) => {
            if !p.enabled {
                if logged {
                    push_record(chain, step, DecisionAction::Failed, Some(&p.id), concat3(refused_prefix, p.name.as_str(), " is disabled"));
                    proof { lemma_extended_one(old(chain)@, chain@); }
                } else {
                    proof { lemma_extended_none(chain@); }
                }
                None
            } else {
                let ok = cb.check_available_at(p.id.as_str(), now).is_ok();
                proof {
                    assert(bk0 == old(cb).breakers());
                    assert(breaker_in(bk0, p.id@) == old(cb).breaker(p.id@));
                }
                if ok {
                    push_record(chain, step, DecisionAction::Selected, Some(&p.id), concat2(chosen_msg, p.name.as_str()));
                    proof { lemma_extended_one(old(chain)@, chain@); }
                    Some(p)
                } else {
                    if logged {
                        push_record(chain, step, DecisionAction::CircuitBreakerOpen, Some(&p.id),
                            concat3(refused_prefix, p.name.as_str(), " has open circuit breaker"));
                        proof { lemma_extended_one(old(chain)@, chain@); }
                    } else {
                        proof { lemma_extended_none(chain@); }
                    }
                    None
                }
            }
        },
    }
}

proof fn lemma_extended_none(c: Seq<DecisionRecord>)
    ensures
        chain_extended(c, c, Seq::empty()),
{
}

proof fn lemma_extended_one(before: Seq<DecisionRecord>, after: Seq<DecisionRecord>)
    requires
        after.len() == before.len() + 1,
        after.drop_last() == before,
    ensures
        forall|s: RecordSpec| record_matches(after.last(), s) ==> chain_extended(before, after, seq![s]),
{
    assert forall|i: int| 0 <= i < before.len() implies #[trigger] after[i] == before[i] by {
        assert(after.drop_last()[i] == after[i]);
    }
}

proof fn lemma_extended_trans(a: Seq<DecisionRecord>, b: Seq<DecisionRecord>, c: Seq<DecisionRecord>, x: Seq<RecordSpec>, y: Seq<RecordSpec>)
    requires
        chain_extended(a, b, x),
        chain_extended(b, c, y),
    ensures
        chain_extended(a, c, x + y),
{
    assert forall|i: int| 0 <= i < (x + y).len() implies record_matches(#[trigger] c[a.len() + i], (x + y)[i]) by {
        if i < x.len() {
            assert(c[a.len() + i] == b[a.len() + i]);
        } else {
            assert(c[b.len() + (i - x.len())] == c[a.len() + i]);
        }
    }
}

/// Runs `filter_phase` on the circuit breaker.
fn run_filter(cb: &mut CircuitBreaker, providers: Vec<Provider>, excluded: &Vec<String>, now: u64) -> (av: Vec<Provider>)
    ensures
        final(cb).spec_config() == old(cb).spec_config(),
        ({
            let (bk, ps) = filter_phase(providers@, excluded@, old(cb).breakers(), now, old(cb).spec_config());
            &&& final(cb).breakers() == bk
            &&& av@ == ps
        }),
{
    let mut av: Vec<Provider> = Vec::new();
    let mut rest = providers;
    let ghost all = rest@;
    let ghost cfg = cb.spec_config();
    let ghost bk0 = cb.breakers();
    // Walk the providers in order, moving each out of the list; `taken` is the
    // part already walked.
    let ghost mut taken: Seq<Provider> = Seq::empty();
    assert(taken + rest@ =~= all);
    while rest.len() > 0
        invariant
            taken + rest@ == all,
            cb.spec_config() == cfg,
            ({
                let (bk, ps) = filter_phase(taken, excluded@, bk0, now, cfg);
                &&& cb.breakers() == bk
                &&& av@ == ps
            }),
        decreases rest@.len(),
    {
        let ghost prev = taken;
        let ghost rest0 = rest@;
        let p = rest.remove(0);
        proof {
            assert(all[prev.len() as int] == rest0[0]);
            taken = taken.push(p);
            assert(taken.drop_last() =~= prev);
            assert(taken + rest@ =~= all);
        }
        let ex = contains_id(excluded, &p.id);
        if !ex {
            let ok = cb.check_available_at(p.id.as_str(), now).is_ok();
            if ok {
                av.push(p);
            }
        }
    }
    assert(taken =~= all);
    av
}

/// Whether the id is among the excluded ids.
fn contains_id(excluded: &Vec<String>, id: &String) -> (b: bool)
    ensures
        b == is_excluded(excluded@, id@),
{
    let mut i: usize = 0;
    while i < excluded.len()
        invariant
            i <= excluded@.len(),
            forall|j: int| 0 <= j < i ==> excluded@[j]@ != id@,
        decreases excluded@.len() - i,
    {
        if excluded[i] == *id {
            return true;
        }
        i = i + 1;
    }
    false
}


/// Runs `redirect_phase` on the circuit breaker and the chain; gives the chosen
/// provider and the model that is asked for afterwards.
fn run_redirect(
    cb: &mut CircuitBreaker,
    model: &str,
    redirect: Option<ModelRedirect>,
    target: Option<Provider>,
    now: u64,
    chain: &mut Vec<DecisionRecord>,
    logged: bool,
    excluded: &Vec<String>,
) -> (res: (Option<Provider>, String))
    requires
        old(chain)@.len() + 3 <= u32::MAX,
    ensures
        final(cb).spec_config() == old(cb).spec_config(),
        ({
            let skip = match redirect {
                Some(r) => is_excluded(excluded@, r.target_provider_id@),
                None => false,
            };
            let (bk, recs, ch, tm) = redirect_phase(model@, redirect, target, old(cb).breakers(), now,
                old(cb).spec_config(), old(chain)@.len() + 1int, logged, skip);
            &&& final(cb).breakers() == bk
            &&& chain_extended(old(chain)@, final(chain)@, recs)
            &&& res.0 == ch
            &&& res.1@ == tm
        }),
{
    match redirect {
        Some(r) => {
            if r.enabled {
                let step = chain.len() as u32 + 1;
                let mut reason = concat3("Model redirected from ", model, " to ");
                reason.append(r.target_model.as_str());
                push_record(chain, step, DecisionAction::Redirected, Some(&r.target_provider_id), reason);
                proof { lemma_extended_one(old(chain)@, chain@); }
                let ghost mid = chain@;
                if contains_id(excluded, &r.target_provider_id) {
                    (None, r.target_model)
                } else {
                    let chosen = run_candidate(cb, target, now, chain, step + 1,
                        "Using redirected provider: ", "Redirected provider ", "Redirected provider not found", logged);
                    proof {
                        let recs = candidate_phase(target, old(cb).breakers(), now, old(cb).spec_config(), step + 1,
                            "Using redirected provider: "@, "Redirected provider "@, "Redirected provider not found"@, logged).1;
                        let first = rec(step as int, DecisionAction::Redirected, Some(r.target_provider_id@),
                            "Model redirected from "@ + model@ + " to "@ + r.target_model@);
                        lemma_extended_trans(old(chain)@, mid, chain@, seq![first], recs);
                        assert(seq![first] + recs == seq![first] + recs);
                    }
                    (chosen, r.target_model)
                }
            } else {
                proof { lemma_extended_none(chain@); }
                (None, String::from_str(model))
            }
        },
        None => {
            proof { lemma_extended_none(chain@); }
            (None, String::from_str(model))
        },
    }
}


// ============================================================================
// The whole selection
// ============================================================================

/// Why a selection was refused.
pub enum Refusal {
    /// The lookup of the enabled providers failed with this error.
    Lookup(AppError),
    /// No backend is available for the (possibly redirected) model.
    NoBackends(Seq<char>),
    /// Every enabled provider has an open circuit breaker.
    AllOpen,
}

/// How a selection ends.
pub enum RoutePlan {
    /// A provider chosen by the session or redirect step.
    Chosen(Provider),
    Refused(Refusal),
    /// The load balancer chooses among these providers.
    Balance(Seq<Provider>),
}

pub open spec fn refusal_matches(e: AppError, f: Refusal) -> bool {
    match f {
        Refusal::Lookup(x) => e == x,
        Refusal::NoBackends(m) => e matches AppError::Router(RouterError::NoAvailableBackends(s)) && s@ == m,
        Refusal::AllOpen => e matches AppError::CircuitBreakerOpen(s) && s@ == "All providers have open circuit breakers"@,
    }
}

/// The last phase: the enabled providers are looked up, filtered by the
/// circuit breakers (and the exclusions), and handed to the load balancer.
pub open spec fn final_phase(
    enabled: Result<Vec<Provider>, AppError>,
    excluded: Seq<String>,
    bk: Map<Seq<char>, CircuitModel>,
    now: u64,
    cfg: CircuitBreakerConfig,
    step: int,
    target_model: Seq<char>,
    logged: bool,
) -> (Map<Seq<char>, CircuitModel>, Seq<RecordSpec>, RoutePlan) {
    match enabled {
        Err(e) => (bk, Seq::empty(), RoutePlan::Refused(Refusal::Lookup(e))),
        Ok(ps) => if logged && ps@.len() == 0 {
            (bk, seq![rec(step, DecisionAction::Failed, None, "No enabled providers available"@)],
                RoutePlan::Refused(Refusal::NoBackends(target_model)))
        } else {
            let (bk2, av) = filter_phase(ps@, excluded, bk, now, cfg);
            if av.len() > 0 {
                (bk2, Seq::empty(), RoutePlan::Balance(av))
            } else if logged {
                (bk2, seq![rec(step, DecisionAction::CircuitBreakerOpen, None, "All providers have open circuit breakers"@)],
                    RoutePlan::Refused(Refusal::AllOpen))
            } else {
                (bk2, seq![rec(step, DecisionAction::Failed, None, "No available backends after exclusions"@)],
                    RoutePlan::Refused(Refusal::NoBackends(target_model)))
            }
        },
    }
}

/// The backend of the caller's active session: its id, and the provider stored
/// under that id (`None` when the lookup failed).
pub struct SessionBackend {
    pub backend_id: String,
    pub provider: Option<Provider>,
}

/// What the routing steps read from storage, looked up by the caller: the
/// session's backend (`None` without an active session), the redirect rule of
/// the requested model, the provider the rule points to, and the enabled
/// providers.
pub struct RouteContext {
    pub session_backend: Option<SessionBackend>,
    pub redirect: Option<ModelRedirect>,
    pub redirect_target: Option<Provider>,
    pub enabled_providers: Result<Vec<Provider>, AppError>,
}

/// The session input as the session phase reads it: an excluded session
/// backend is skipped.
pub open spec fn session_input(sb: Option<SessionBackend>, excluded: Seq<String>) -> Option<Option<Provider>> {
    match sb {
        Some(s) => if is_excluded(excluded, s.backend_id@) { None } else { Some(s.provider) },
        None => None,
    }
}

pub open spec fn skip_redirect_target(rd: Option<ModelRedirect>, excluded: Seq<String>) -> bool {
    match rd {
        Some(r) => is_excluded(excluded, r.target_provider_id@),
        None => false,
    }
}

/// The whole selection for `model`: the breakers afterwards, the records
/// written, and how it ends. With `logged`, refusals along the way are written
/// down; `excluded` lists providers that must not be chosen.
pub open spec fn route_plan(
    model: Seq<char>,
    ctx: RouteContext,
    excluded: Seq<String>,
    bk: Map<Seq<char>, CircuitModel>,
    now: u64,
    cfg: CircuitBreakerConfig,
    step: int,
    logged: bool,
) -> (Map<Seq<char>, CircuitModel>, Seq<RecordSpec>, RoutePlan) {
    let (bk1, r1, c1) = session_phase(session_input(ctx.session_backend, excluded), bk, now, cfg, step, logged);
    match c1 {
        Some(p) => (bk1, r1, RoutePlan::Chosen(p)),
        None => {
            let (bk2, r2, plan) = rest_plan(model, ctx, excluded, bk1, now, cfg, step + r1.len(), logged);
            (bk2, r1 + r2, plan)
        },
    }
}

/// The steps after the session step: the redirect step, then the last phase.
pub open spec fn rest_plan(
    model: Seq<char>,
    ctx: RouteContext,
    excluded: Seq<String>,
    bk: Map<Seq<char>, CircuitModel>,
    now: u64,
    cfg: CircuitBreakerConfig,
    step: int,
    logged: bool,
) -> (Map<Seq<char>, CircuitModel>, Seq<RecordSpec>, RoutePlan) {
    let (bk2, r2, c2, tm) = redirect_phase(model, ctx.redirect, ctx.redirect_target, bk, now, cfg,
        step, logged, skip_redirect_target(ctx.redirect, excluded));
    match c2 {
        Some(p) => (bk2, r2, RoutePlan::Chosen(p)),
        None => {
            let (bk3, r3, plan) = final_phase(ctx.enabled_providers, excluded, bk2, now, cfg,
                step + r2.len(), tm, logged);
            (bk3, r2 + r3, plan)
        },
    }
}

/// The result `r` and the load balancer before and after agree with `plan`.
pub open spec fn outcome_matches(plan: RoutePlan, lb0: LoadBalancer, lb1: LoadBalancer, r: Result<Selection, AppError>) -> bool {
    match plan {
        RoutePlan::Chosen(p) => r matches Ok(sel) && sel.provider == p && lb1 == lb0,
        RoutePlan::Refused(f) => r matches Err(e) && refusal_matches(e, f) && lb1 == lb0,
        RoutePlan::Balance(av) => balanced(av, lb0, lb1, r),
    }
}

/// The load balancer, turned from `lb0` into `lb1`, chose the provider of `r`
/// among `av`.
pub open spec fn balanced(av: Seq<Provider>, lb0: LoadBalancer, lb1: LoadBalancer, r: Result<Selection, AppError>) -> bool {
    &&& r is Ok
    &&& exists|b: Backend| #[trigger] lb_selects(lb0, backends_of(av), lb1, b) && b.provider == r->Ok_0.provider
}

/// The records written for `plan`: those of its phases, `recs`, and, when the
/// load balancer chose, the record of that choice at step `step`.
pub open spec fn records_written(plan: RoutePlan, recs: Seq<RecordSpec>, step: int, r: Result<Selection, AppError>) -> Seq<RecordSpec> {
    match plan {
        RoutePlan::Balance(_) => match r {
            Ok(sel) => recs.push(selected_record(step, sel.provider)),
            Err(_) => recs,
        },
        _ => recs,
    }
}

/// Routes requests: keeps the load balancer and the circuit breaker, and the
/// retry settings of the request loop.
pub struct RequestRouter {
    pub load_balancer: LoadBalancer,
    pub circuit_breaker: CircuitBreaker,
    pub max_retries: usize,
    pub base_backoff_ms: u64,
}

/// What `select_backend` (with `logged`) or `select_backend_with_exclusions`
/// does: `before` and `chain0` become `after` and `chain1`, and `r` is given.
pub open spec fn route_done(
    before: RequestRouter,
    after: RequestRouter,
    model: Seq<char>,
    ctx: RouteContext,
    excluded: Seq<String>,
    logged: bool,
    now: u64,
    chain0: Seq<DecisionRecord>,
    chain1: Seq<DecisionRecord>,
    r: Result<Selection, AppError>,
) -> bool {
    let cfg = before.circuit_breaker.spec_config();
    let (bk, recs, plan) = route_plan(model, ctx, excluded, before.circuit_breaker.breakers(), now, cfg,
        chain0.len() + 1int, logged);
    &&& after.circuit_breaker.spec_config() == cfg
    &&& after.circuit_breaker.breakers() == bk
    &&& after.max_retries == before.max_retries
    &&& after.base_backoff_ms == before.base_backoff_ms
    &&& chain_extended(chain0, chain1, records_written(plan, recs, chain0.len() + 1int + recs.len(), r))
    &&& outcome_matches(plan, before.load_balancer, after.load_balancer, r)
}

/// The reason written down for a backend chosen by the load balancer.
fn selected_reason(p: &Provider) -> (s: String)
    ensures
        s@ == selected_record(0, *p).reason,
{
    let mut s = concat3("Selected backend ", p.name.as_str(), " (priority: ");
    push_dec_i64(&mut s, p.priority as i64);
    s.append(", weight: ");
    push_dec_i64(&mut s, p.weight as i64);
    s.append(")");
    s
}

/// The providers as backends without rate-limit configuration, in order.
fn into_backends(ps: Vec<Provider>) -> (bs: Vec<Backend>)
    ensures
        bs@ == backends_of(ps@),
{
    let mut bs: Vec<Backend> = Vec::new();
    let mut rest = ps;
    let ghost all = rest@;
    let ghost mut taken: Seq<Provider> = Seq::empty();
    assert(taken + rest@ =~= all);
    while rest.len() > 0
        invariant
            taken + rest@ == all,
            bs@ == backends_of(taken),
        decreases rest@.len(),
    {
        let ghost prev = taken;
        let p = rest.remove(0);
        proof {
            taken = taken.push(p);
            assert(taken + rest@ =~= all);
        }
        bs.push(Backend::new(p));
        assert(bs@ =~= backends_of(taken));
    }
    assert(taken =~= all);
    bs
}

impl RequestRouter {
    /// A router with these components, three retries and a base backoff of
    /// 100 ms.
    pub fn new(load_balancer: LoadBalancer, circuit_breaker: CircuitBreaker) -> (r: Self)
        ensures
            r.load_balancer == load_balancer,
            r.circuit_breaker == circuit_breaker,
            r.max_retries == 3,
            r.base_backoff_ms == 100,
    {
        RequestRouter { load_balancer, circuit_breaker, max_retries: 3, base_backoff_ms: 100 }
    }

    /// Runs `final_phase`.
    fn run_final(
        &mut self,
        enabled: Result<Vec<Provider>, AppError>,
        excluded: &Vec<String>,
        logged: bool,
        now: u64,
        target_model: String,
        chain: &mut Vec<DecisionRecord>,
    ) -> (r: Result<Selection, AppError>)
        requires
            old(chain)@.len() + 2 <= u32::MAX,
            balance_fits(final_phase(enabled, excluded@, old(self).circuit_breaker.breakers(), now,
                old(self).circuit_breaker.spec_config(), old(chain)@.len() + 1int, target_model@, logged).2),
        ensures
            ({
                let cfg = old(self).circuit_breaker.spec_config();
                let (bk, recs, plan) = final_phase(enabled, excluded@, old(self).circuit_breaker.breakers(), now, cfg,
                    old(chain)@.len() + 1int, target_model@, logged);
                &&& final(self).circuit_breaker.spec_config() == cfg
                &&& final(self).circuit_breaker.breakers() == bk
                &&& final(self).max_retries == old(self).max_retries
                &&& final(self).base_backoff_ms == old(self).base_backoff_ms
                &&& chain_extended(old(chain)@, final(chain)@, records_written(plan, recs, old(chain)@.len() + 1int + recs.len(), r))
                &&& outcome_matches(plan, old(self).load_balancer, final(self).load_balancer, r)
            }),
    {
        let step = chain.len() as u32 + 1;
        let ps = match enabled {
            Err(e) => {
                proof { lemma_extended_none(chain@); }
                return Err(e);
            },
            Ok(ps) => ps,
        };
        if logged && ps.len() == 0 {
            push_record(chain, step, DecisionAction::Failed, None, String::from_str("No enabled providers available"));
            proof { lemma_extended_one(old(chain)@, chain@); }
            return Err(AppError::Router(RouterError::NoAvailableBackends(target_model)));
        }
        let ghost ps_all = ps@;
        let av = run_filter(&mut self.circuit_breaker, ps, excluded, now);
        if av.len() == 0 {
            if logged {
                push_record(chain, step, DecisionAction::CircuitBreakerOpen, None,
                    String::from_str("All providers have open circuit breakers"));
                proof { lemma_extended_one(old(chain)@, chain@); }
                return Err(AppError::CircuitBreakerOpen(String::from_str("All providers have open circuit breakers")));
            } else {
                push_record(chain, step, DecisionAction::Failed, None,
                    String::from_str("No available backends after exclusions"));
                proof { lemma_extended_one(old(chain)@, chain@); }
                return Err(AppError::Router(RouterError::NoAvailableBackends(target_model)));
            }
        }
        assert(selectable(backends_of(av@)));
        let ghost av_all = av@;
        let ghost lb0 = self.load_balancer;
        let backends = into_backends(av);
        match self.load_balancer.select_backend(backends) {
            Some(b) => {
                let ghost chosen = b;
                assert(lb_selects(lb0, backends_of(av_all), self.load_balancer, chosen));
                let reason = selected_reason(&b.provider);
                push_record(chain, step, DecisionAction::Selected, Some(&b.provider.id), reason);
                proof {
                    lemma_extended_one(old(chain)@, chain@);
                    assert(record_matches(chain@.last(), selected_record(step as int, b.provider)));
                    assert(seq![selected_record(step as int, b.provider)] =~= Seq::<RecordSpec>::empty().push(selected_record(step as int, b.provider)));
                }
                let res: Result<Selection, AppError> = Ok(Selection { provider: b.provider });
                assert(balanced(av_all, lb0, self.load_balancer, res));
                res
            },
            None => {
                if logged {
                    push_record(chain, step, DecisionAction::Failed, None,
                        String::from_str("Load balancer failed to select backend"));
                }
                Err(AppError::Router(RouterError::SelectionFailed(String::from_str("Load balancer returned no backend"))))
            },
        }
    }
}


/// The session step writes at most one record, the redirect step at most two.
proof fn lemma_phase_lengths(
    sb: Option<Option<Provider>>,
    model: Seq<char>,
    rd: Option<ModelRedirect>,
    target: Option<Provider>,
    bk: Map<Seq<char>, CircuitModel>,
    now: u64,
    cfg: CircuitBreakerConfig,
    step: int,
    logged: bool,
    skip: bool,
)
    ensures
        session_phase(sb, bk, now, cfg, step, logged).1.len() <= 1,
        redirect_phase(model, rd, target, bk, now, cfg, step, logged, skip).1.len() <= 2,
{
}

impl RequestRouter {
    /// The steps after the session step (see `rest_plan`).
    fn select_rest(
        &mut self,
        model: &str,
        redirect: Option<ModelRedirect>,
        redirect_target: Option<Provider>,
        enabled_providers: Result<Vec<Provider>, AppError>,
        excluded: &Vec<String>,
        logged: bool,
        now: u64,
        chain: &mut Vec<DecisionRecord>,
        Ghost(ctx): Ghost<RouteContext>,
    ) -> (r: Result<Selection, AppError>)
        requires
            old(chain)@.len() + 4 <= u32::MAX,
            balance_fits(rest_plan(model@, ctx, excluded@, old(self).circuit_breaker.breakers(), now,
                old(self).circuit_breaker.spec_config(), old(chain)@.len() + 1int, logged).2),
            ctx.redirect == redirect,
            ctx.redirect_target == redirect_target,
            ctx.enabled_providers == enabled_providers,
        ensures
            ({
                let cfg = old(self).circuit_breaker.spec_config();
                let (bk, recs, plan) = rest_plan(model@, ctx, excluded@, old(self).circuit_breaker.breakers(), now, cfg,
                    old(chain)@.len() + 1int, logged);
                &&& final(self).circuit_breaker.spec_config() == cfg
                &&& final(self).circuit_breaker.breakers() == bk
                &&& final(self).max_retries == old(self).max_retries
                &&& final(self).base_backoff_ms == old(self).base_backoff_ms
                &&& chain_extended(old(chain)@, final(chain)@, records_written(plan, recs, old(chain)@.len() + 1int + recs.len(), r))
                &&& outcome_matches(plan, old(self).load_balancer, final(self).load_balancer, r)
            }),
    {
        let ghost cfg = self.circuit_breaker.spec_config();
        let ghost bk0 = self.circuit_breaker.breakers();
        let ghost chain0 = chain@;
        let ghost skip = skip_redirect_target(redirect, excluded@);
        let ghost p2 = redirect_phase(model@, redirect, redirect_target, bk0, now, cfg, chain0.len() + 1int, logged, skip);
        proof {
            lemma_phase_lengths(None, model@, redirect, redirect_target, bk0, now, cfg, chain0.len() + 1int, logged, skip);
        }
        let (c2, tm) = run_redirect(&mut self.circuit_breaker, model, redirect, redirect_target, now, chain, logged, excluded);
        if let Some(p) = c2 {
            return Ok(Selection { provider: p });
        }
        let ghost chain2 = chain@;
        let r = self.run_final(enabled_providers, excluded, logged, now, tm, chain);
        proof {
            let p3 = final_phase(ctx.enabled_providers, excluded@, p2.0, now, cfg, chain0.len() + 1int + p2.1.len(), p2.3, logged);
            let w3 = records_written(p3.2, p3.1, chain2.len() + 1int + p3.1.len(), r);
            lemma_extended_trans(chain0, chain2, chain@, p2.1, w3);
            if let RoutePlan::Balance(_) = p3.2 {
                if r is Ok {
                    assert(p2.1 + w3 =~= (p2.1 + p3.1).push(selected_record(chain2.len() + 1int + p3.1.len(), r->Ok_0.provider)));
                }
            }
        }
        r
    }

    #[verifier::spinoff_prover]
    #[verifier::rlimit(30)]
    fn select_inner(
        &mut self,
        model: &str,
        ctx: RouteContext,
        excluded: &Vec<String>,
        logged: bool,
        now: u64,
        chain: &mut Vec<DecisionRecord>,
    ) -> (r: Result<Selection, AppError>)
        requires
            old(chain)@.len() + 5 <= u32::MAX,
            balance_fits(route_plan(model@, ctx, excluded@, old(self).circuit_breaker.breakers(), now,
                old(self).circuit_breaker.spec_config(), old(chain)@.len() + 1int, logged).2),
        ensures
            route_done(*old(self), *final(self), model@, ctx, excluded@, logged, now, old(chain)@, final(chain)@, r),
    {
        let ghost ctx0 = ctx;
        let ghost cfg = self.circuit_breaker.spec_config();
        let ghost bk0 = self.circuit_breaker.breakers();
        let ghost chain0 = chain@;
        let RouteContext { session_backend, redirect, redirect_target, enabled_providers } = ctx;
        let step = chain.len() as u32 + 1;
        let sb: Option<Option<Provider>> = match session_backend {
            Some(s) => if contains_id(excluded, &s.backend_id) { None } else { Some(s.provider) },
            None => None,
        };
        assert(sb == session_input(ctx0.session_backend, excluded@));
        let c1 = match sb {
            None => {
                proof { lemma_extended_none(chain@); }
                None
            },
            Some(found) => run_candidate(&mut self.circuit_breaker, found, now, chain, step,
                "Reusing backend from session: ", "Previous backend ", "Previous backend not found", logged),
        };
        let ghost p1 = session_phase(sb, bk0, now, cfg, step as int, logged);
        proof {
            lemma_phase_lengths(sb, model@, None, None, bk0, now, cfg, step as int, logged, false);
        }
        if let Some(p) = c1 {
            return Ok(Selection { provider: p });
        }
        let ghost chain1 = chain@;
        let r = self.select_rest(model, redirect, redirect_target, enabled_providers, excluded, logged, now, chain, Ghost(ctx0));
        proof {
            let p2 = rest_plan(model@, ctx0, excluded@, p1.0, now, cfg, chain1.len() + 1int, logged);
            let w2 = records_written(p2.2, p2.1, chain1.len() + 1int + p2.1.len(), r);
            lemma_extended_trans(chain0, chain1, chain@, p1.1, w2);
            if let RoutePlan::Balance(_) = p2.2 {
                if r is Ok {
                    assert(p1.1 + w2 =~= (p1.1 + p2.1).push(selected_record(chain1.len() + 1int + p2.1.len(), r->Ok_0.provider)));
                }
            }
        }
        r
    }

    /// Selects a backend for `model` at time `now` (nanoseconds of the
    /// breaker's clock), writing each decision to `decision_chain`: the
    /// session's backend first, then the model's redirect rule, then the load
    /// balancer among the enabled providers whose breaker lets requests
    /// through.
    pub fn select_backend_at(
        &mut self,
        model: &str,
        ctx: RouteContext,
        now: u64,
        decision_chain: &mut Vec<DecisionRecord>,
    ) -> (r: Result<Selection, AppError>)
        requires
            old(decision_chain)@.len() + 5 <= u32::MAX,
            balance_fits(route_plan(model@, ctx, Seq::<String>::empty(), old(self).circuit_breaker.breakers(), now,
                old(self).circuit_breaker.spec_config(), old(decision_chain)@.len() + 1int, true).2),
        ensures
            route_done(*old(self), *final(self), model@, ctx, Seq::<String>::empty(), true, now,
                old(decision_chain)@, final(decision_chain)@, r),
    {
        let excluded: Vec<String> = Vec::new();
        assert(excluded@ =~= Seq::<String>::empty());
        self.select_inner(model, ctx, &excluded, true, now, decision_chain)
    }

    /// Selects a backend now (see `select_backend_at`).
    pub fn select_backend(
        &mut self,
        model: &str,
        ctx: RouteContext,
        decision_chain: &mut Vec<DecisionRecord>,
    ) -> (r: Result<Selection, AppError>)
        requires
            old(decision_chain)@.len() + 5 <= u32::MAX,
            groups_fit(ctx.enabled_providers, Seq::<String>::empty()),
        ensures
            exists|now: u64| route_done(*old(self), *final(self), model@, ctx, Seq::<String>::empty(), true, now,
                old(decision_chain)@, final(decision_chain)@, r),
    {
        let now = self.circuit_breaker.clock_nanos();
        proof {
            lemma_groups_fit_balance(model@, ctx, Seq::<String>::empty(), self.circuit_breaker.breakers(), now,
                self.circuit_breaker.spec_config(), decision_chain@.len() + 1int, true);
        }
        self.select_backend_at(model, ctx, now, decision_chain)
    }

    /// Selects a backend at time `now` for a retry: the providers listed in
    /// `excluded_backends` are not chosen, and refusals along the way are not
    /// written down.
    pub fn select_backend_with_exclusions_at(
        &mut self,
        model: &str,
        ctx: RouteContext,
        excluded_backends: &Vec<String>,
        now: u64,
        decision_chain: &mut Vec<DecisionRecord>,
    ) -> (r: Result<Selection, AppError>)
        requires
            old(decision_chain)@.len() + 5 <= u32::MAX,
            balance_fits(route_plan(model@, ctx, excluded_backends@, old(self).circuit_breaker.breakers(), now,
                old(self).circuit_breaker.spec_config(), old(decision_chain)@.len() + 1int, false).2),
        ensures
            route_done(*old(self), *final(self), model@, ctx, excluded_backends@, false, now,
                old(decision_chain)@, final(decision_chain)@, r),
    {
        self.select_inner(model, ctx, excluded_backends, false, now, decision_chain)
    }

    /// Selects a backend now for a retry (see `select_backend_with_exclusions_at`).
    pub fn select_backend_with_exclusions(
        &mut self,
        model: &str,
        ctx: RouteContext,
        excluded_backends: &Vec<String>,
        decision_chain: &mut Vec<DecisionRecord>,
    ) -> (r: Result<Selection, AppError>)
        requires
            old(decision_chain)@.len() + 5 <= u32::MAX,
            groups_fit(ctx.enabled_providers, excluded_backends@),
        ensures
            exists|now: u64| route_done(*old(self), *final(self), model@, ctx, excluded_backends@, false, now,
                old(decision_chain)@, final(decision_chain)@, r),
    {
        let now = self.circuit_breaker.clock_nanos();
        proof {
            lemma_groups_fit_balance(model@, ctx, excluded_backends@, self.circuit_breaker.breakers(), now,
                self.circuit_breaker.spec_config(), decision_chain@.len() + 1int, false);
        }
        self.select_backend_with_exclusions_at(model, ctx, excluded_backends, now, decision_chain)
    }
}


// ============================================================================
// Laws of the selection
// ============================================================================

/// The lookups agree with the ids asked for: the provider found for the
/// session is the one stored under the session's backend id, and the
/// redirect's target is the one stored under the rule's target id.
pub open spec fn ctx_consistent(ctx: RouteContext) -> bool {
    &&& (ctx.session_backend matches Some(s) ==> (s.provider matches Some(p) ==> p.id@ == s.backend_id@))
    &&& (ctx.redirect matches Some(r) ==> (ctx.redirect_target matches Some(p) ==> p.id@ == r.target_provider_id@))
    &&& (ctx.enabled_providers matches Ok(ps) ==> forall|i: int| 0 <= i < ps@.len() ==> (#[trigger] ps@[i]).enabled)
}

proof fn lemma_filter_not_excluded(ps: Seq<Provider>, excluded: Seq<String>, bk: Map<Seq<char>, CircuitModel>, now: u64, cfg: CircuitBreakerConfig)
    ensures
        forall|i: int| 0 <= i < filter_phase(ps, excluded, bk, now, cfg).1.len() ==>
            !is_excluded(excluded, (#[trigger] filter_phase(ps, excluded, bk, now, cfg).1[i]).id@),
        forall|i: int| 0 <= i < filter_phase(ps, excluded, bk, now, cfg).1.len() ==>
            ps.contains(#[trigger] filter_phase(ps, excluded, bk, now, cfg).1[i]),
    decreases ps.len(),
{
    if ps.len() > 0 {
        lemma_filter_not_excluded(ps.drop_last(), excluded, bk, now, cfg);
        let av = filter_phase(ps.drop_last(), excluded, bk, now, cfg).1;
        let out = filter_phase(ps, excluded, bk, now, cfg).1;
        assert forall|i: int| 0 <= i < out.len() implies ps.contains(#[trigger] out[i]) by {
            if i < av.len() {
                assert(out[i] == av[i]);
                let k = choose|k: int| 0 <= k < ps.drop_last().len() && ps.drop_last()[k] == av[i];
                assert(ps[k] == av[i]);
            } else {
                assert(out[i] == ps.last());
                assert(ps[ps.len() - 1] == ps.last());
            }
        }
        assert forall|i: int| 0 <= i < out.len() implies !is_excluded(excluded, (#[trigger] out[i]).id@) by {
            if i < av.len() {
                assert(out[i] == av[i]);
            }
        }
    }
}

/// A selection never chooses an excluded or a disabled provider: not as the
/// session's backend, not as the redirect's target, and not among the
/// providers offered to the load balancer, which are all enabled providers
/// looked up.
pub proof fn lemma_excluded_never_chosen(
    model: Seq<char>,
    ctx: RouteContext,
    excluded: Seq<String>,
    bk: Map<Seq<char>, CircuitModel>,
    now: u64,
    cfg: CircuitBreakerConfig,
    step: int,
    logged: bool,
)
    requires
        ctx_consistent(ctx),
    ensures
        match route_plan(model, ctx, excluded, bk, now, cfg, step, logged).2 {
            RoutePlan::Chosen(p) => !is_excluded(excluded, p.id@) && p.enabled,
            RoutePlan::Balance(av) => forall|i: int| 0 <= i < av.len() ==> !is_excluded(excluded, (#[trigger] av[i]).id@)
                && av[i].enabled && (ctx.enabled_providers matches Ok(ps) && ps@.contains(av[i])),
            RoutePlan::Refused(_) => true,
        },
{
    let (bk1, r1, c1) = session_phase(session_input(ctx.session_backend, excluded), bk, now, cfg, step, logged);
    let (bk2, r2, c2, tm) = redirect_phase(model, ctx.redirect, ctx.redirect_target, bk1, now, cfg,
        step + r1.len(), logged, skip_redirect_target(ctx.redirect, excluded));
    if let Ok(ps) = ctx.enabled_providers {
        lemma_filter_not_excluded(ps@, excluded, bk2, now, cfg);
        let av = filter_phase(ps@, excluded, bk2, now, cfg).1;
        assert forall|i: int| 0 <= i < av.len() implies (#[trigger] av[i]).enabled by {
            assert(ps@.contains(av[i]));
            let k = choose|k: int| 0 <= k < ps@.len() && ps@[k] == av[i];
            assert(ps@[k].enabled);
        }
    }
}

/// Whatever the selection chooses, by the session, the redirect or the load
/// balancer, is an enabled provider that is not excluded.
pub proof fn lemma_selection_enabled(
    before: RequestRouter,
    after: RequestRouter,
    model: Seq<char>,
    ctx: RouteContext,
    excluded: Seq<String>,
    logged: bool,
    now: u64,
    chain0: Seq<DecisionRecord>,
    chain1: Seq<DecisionRecord>,
    r: Result<Selection, AppError>,
)
    requires
        ctx_consistent(ctx),
        route_done(before, after, model, ctx, excluded, logged, now, chain0, chain1, r),
    ensures
        r matches Ok(sel) ==> sel.provider.enabled && !is_excluded(excluded, sel.provider.id@),
{
    let cfg = before.circuit_breaker.spec_config();
    let step = chain0.len() + 1int;
    let plan = route_plan(model, ctx, excluded, before.circuit_breaker.breakers(), now, cfg, step, logged).2;
    lemma_excluded_never_chosen(model, ctx, excluded, before.circuit_breaker.breakers(), now, cfg, step, logged);
    if let RoutePlan::Balance(av) = plan {
        let sel = r->Ok_0;
        let b = choose|b: Backend| #[trigger] lb_selects(before.load_balancer, backends_of(av), after.load_balancer, b)
            && b.provider == sel.provider;
        assert(av.len() > 0) by {
            let (bk1, r1, c1) = session_phase(session_input(ctx.session_backend, excluded), before.circuit_breaker.breakers(),
                now, cfg, step, logged);
        }
        lemma_choice_has_top_priority(before.load_balancer, backends_of(av), after.load_balancer, b);
        let k = choose|k: int| 0 <= k < backends_of(av).len() && backends_of(av)[k] == b;
        assert(av[k] == b.provider);
    }
}

/// When the providers of each priority fit (`groups_fit`), any plan that ends
/// with the load balancer offers it a list it can select from, whatever the
/// breakers and the clock.
pub proof fn lemma_groups_fit_balance(
    model: Seq<char>,
    ctx: RouteContext,
    excluded: Seq<String>,
    bk: Map<Seq<char>, CircuitModel>,
    now: u64,
    cfg: CircuitBreakerConfig,
    step: int,
    logged: bool,
)
    requires
        groups_fit(ctx.enabled_providers, excluded),
    ensures
        balance_fits(route_plan(model, ctx, excluded, bk, now, cfg, step, logged).2),
{
    let (bk1, r1, c1) = session_phase(session_input(ctx.session_backend, excluded), bk, now, cfg, step, logged);
    let (bk2, r2, c2, tm) = redirect_phase(model, ctx.redirect, ctx.redirect_target, bk1, now, cfg,
        step + r1.len(), logged, skip_redirect_target(ctx.redirect, excluded));
    if let Ok(ps) = ctx.enabled_providers {
        let bs = backends_of(filter_phase(ps@, excluded, bk2, now, cfg).1);
        if bs.len() > 0 {
            lemma_filter_priority_weight(ps@, excluded, bk2, now, cfg, max_priority(bs));
        }
        lemma_priority_weight_selectable(bs);
    }
}

/// Session affinity: a request of a live session goes back to the session's
/// backend whenever that backend is not excluded, is enabled, and its breaker
/// lets the request through.
pub proof fn lemma_session_affinity(
    model: Seq<char>,
    ctx: RouteContext,
    excluded: Seq<String>,
    bk: Map<Seq<char>, CircuitModel>,
    now: u64,
    cfg: CircuitBreakerConfig,
    step: int,
    logged: bool,
    p: Provider,
)
    requires
        ctx.session_backend matches Some(sb) && sb.provider == Some(p) && !is_excluded(excluded, sb.backend_id@),
        p.enabled,
        cb_check(bk, p.id@, now, cfg).1,
    ensures
        route_plan(model, ctx, excluded, bk, now, cfg, step, logged).2 == RoutePlan::Chosen(p),
{
}

/// Model redirects: without a session backend, a request for a model with an
/// enabled redirect rule goes to the rule's provider whenever that provider
/// is not excluded, is enabled, and its breaker lets the request through.
pub proof fn lemma_redirect_followed(
    model: Seq<char>,
    ctx: RouteContext,
    excluded: Seq<String>,
    bk: Map<Seq<char>, CircuitModel>,
    now: u64,
    cfg: CircuitBreakerConfig,
    step: int,
    logged: bool,
    p: Provider,
)
    requires
        ctx.session_backend is None,
        ctx.redirect matches Some(r) && r.enabled && !is_excluded(excluded, r.target_provider_id@),
        ctx.redirect_target == Some(p),
        p.enabled,
        cb_check(bk, p.id@, now, cfg).1,
    ensures
        route_plan(model, ctx, excluded, bk, now, cfg, step, logged).2 == RoutePlan::Chosen(p),
{
}

// ============================================================================
// The request loop's decisions
// ============================================================================

/// Tokens estimated from the message contents: a quarter of each content's
/// length in bytes.
pub open spec fn content_tokens(msgs: Seq<Message>) -> int
    decreases msgs.len(),
{
    if msgs.len() == 0 {
        0
    } else {
        content_tokens(msgs.drop_last()) + match msgs.last().content {
            Some(c) => byte_len(c@) / 4,
            None => 0,
        }
    }
}

/// The token estimate of a request: its contents, and the tokens it may
/// generate (1000 when it sets no limit).
pub open spec fn estimated_tokens(req: ChatCompletionRequest) -> int {
    content_tokens(req.messages@) + match req.max_tokens {
        Some(m) => m as int,
        None => 1000,
    }
}

proof fn lemma_content_tokens_prefix(msgs: Seq<Message>, i: int)
    requires
        0 <= i <= msgs.len(),
    ensures
        0 <= content_tokens(msgs.take(i)) <= content_tokens(msgs),
    decreases msgs.len(),
{
    if msgs.len() > 0 {
        if i == msgs.len() {
            assert(msgs.take(i) =~= msgs);
            lemma_content_tokens_prefix(msgs.drop_last(), i - 1);
            assert(msgs.drop_last().take(i - 1) =~= msgs.take(i - 1));
        } else {
            lemma_content_tokens_prefix(msgs.drop_last(), i);
            assert(msgs.drop_last().take(i) =~= msgs.take(i));
        }
    }
}

/// Estimates the tokens a request will use (a token per four bytes of content,
/// plus its token limit or 1000), to check the rate limits before sending.
pub fn estimate_tokens(request: &ChatCompletionRequest) -> (n: u64)
    requires
        estimated_tokens(*request) <= u64::MAX,
    ensures
        n == estimated_tokens(*request),
{
    let msgs = &request.messages;
    let mut sum: u64 = 0;
    let mut i: usize = 0;
    while i < msgs.len()
        invariant
            i <= msgs@.len(),
            sum == content_tokens(msgs@.take(i as int)),
            content_tokens(msgs@) <= u64::MAX,
        decreases msgs@.len() - i,
    {
        proof {
            assert(msgs@.take(i + 1).drop_last() =~= msgs@.take(i as int));
            lemma_content_tokens_prefix(msgs@, i + 1);
        }
        let add: u64 = match &msgs[i].content {
            Some(c) => (c.as_str().len() / 4) as u64,
            None => 0,
        };
        sum = sum + add;
        i = i + 1;
    }
    assert(msgs@.take(msgs@.len() as int) =~= msgs@);
    let extra: u64 = match request.max_tokens {
        Some(m) => m as u64,
        None => 1000,
    };
    sum + extra
}

/// Doubles `base` `attempt` times: the wait before retry `attempt + 1`.
pub fn backoff_ms(base: u64, attempt: u32) -> (ms: u64)
    requires
        base * pow2(attempt as nat) <= u64::MAX,
    ensures
        ms == base * pow2(attempt as nat),
{
    let mut ms = base;
    let mut k: u32 = 0;
    proof { lemma2_to64(); }
    while k < attempt
        invariant
            k <= attempt,
            ms == base * pow2(k as nat),
            base * pow2(attempt as nat) <= u64::MAX,
        decreases attempt - k,
    {
        proof {
            lemma_pow2_adds(k as nat, 1);
            lemma_pow2_adds((k + 1) as nat, (attempt - k - 1) as nat);
            lemma2_to64();
            lemma_pow2_pos((attempt - k - 1) as nat);
            assert(base * pow2((k + 1) as nat) <= base * pow2(attempt as nat)) by (nonlinear_arith)
                requires
                    pow2((k + 1) as nat) * pow2((attempt - k - 1) as nat) == pow2(attempt as nat),
                    pow2((attempt - k - 1) as nat) >= 1,
                    pow2((k + 1) as nat) >= 0,
            ;
            assert(base * pow2((k + 1) as nat) == 2 * (base * pow2(k as nat))) by (nonlinear_arith)
                requires
                    pow2((k + 1) as nat) == pow2(k as nat) * pow2(1),
                    pow2(1) == 2,
            ;
        }
        ms = ms * 2;
        k = k + 1;
    }
    ms
}

/// The reason written down when a backend's rate limit refuses a request.
pub open spec fn rate_limited_reason(e: RateLimitError) -> Seq<char> {
    "Rate limit exceeded: "@ + e.spec_message()
}

/// Writes down that the chosen backend's rate limits refused the request; the
/// request is then not retried.
pub fn record_rate_limited(chain: &mut Vec<DecisionRecord>, provider_id: &String, error: &RateLimitError)
    requires
        old(chain)@.len() + 1 <= u32::MAX,
    ensures
        chain_extended(old(chain)@, final(chain)@,
            seq![rec(old(chain)@.len() + 1int, DecisionAction::RateLimited, Some(provider_id@), rate_limited_reason(*error))]),
{
    let step = chain.len() as u32 + 1;
    let msg = error.to_string();
    push_record(chain, step, DecisionAction::RateLimited, Some(provider_id), concat2("Rate limit exceeded: ", msg.as_str()));
    proof { lemma_extended_one(old(chain)@, chain@); }
}

/// What a failed attempt writes down: the failure, and, while retries are
/// left, the retry with its wait.
pub open spec fn failure_records(step: int, provider_id: Seq<char>, error: AppError, backoff: Option<u64>) -> Seq<RecordSpec> {
    let failed = rec(step, DecisionAction::Failed, Some(provider_id), "Request failed: "@ + error.spec_message());
    match backoff {
        Some(ms) => seq![failed, rec(step + 1, DecisionAction::Retried, None,
            "Retrying after "@ + dec_nat(ms as nat) + "ms backoff"@)],
        None => seq![failed],
    }
}

impl RequestRouter {
    /// After attempt `attempt` (counted from 0) failed on `provider_id` at time
    /// `now`: the provider's breaker records the failure, the provider is
    /// excluded from further attempts, the failure is written down, and, while
    /// retries are left, the wait before the next attempt is given (and written
    /// down).
    pub fn record_attempt_failure_at(
        &mut self,
        attempt: u32,
        provider_id: String,
        error: &AppError,
        now: u64,
        excluded: &mut Vec<String>,
        chain: &mut Vec<DecisionRecord>,
    ) -> (backoff: Option<u64>)
        requires
            old(chain)@.len() + 2 <= u32::MAX,
            (attempt as int) < old(self).max_retries ==> old(self).base_backoff_ms * pow2(attempt as nat) <= u64::MAX,
        ensures
            final(self).load_balancer == old(self).load_balancer,
            final(self).max_retries == old(self).max_retries,
            final(self).base_backoff_ms == old(self).base_backoff_ms,
            final(self).circuit_breaker.spec_config() == old(self).circuit_breaker.spec_config(),
            final(self).circuit_breaker.breakers() == old(self).circuit_breaker.breakers().insert(provider_id@,
                crate::router::circuit_breaker::after_failure(old(self).circuit_breaker.breaker(provider_id@), now as int,
                    old(self).circuit_breaker.spec_config())),
            final(excluded)@ == old(excluded)@.push(provider_id),
            backoff == (if (attempt as int) < old(self).max_retries {
                Some((old(self).base_backoff_ms * pow2(attempt as nat)) as u64)
            } else {
                None
            }),
            chain_extended(old(chain)@, final(chain)@, failure_records(old(chain)@.len() + 1int, provider_id@, *error, backoff)),
    {
        self.circuit_breaker.record_failure_at(provider_id.as_str(), now);
        let step = chain.len() as u32 + 1;
        let msg = error.to_string();
        push_record(chain, step, DecisionAction::Failed, Some(&provider_id), concat2("Request failed: ", msg.as_str()));
        proof { lemma_extended_one(old(chain)@, chain@); }
        let ghost mid = chain@;
        let ghost pid = provider_id@;
        excluded.push(provider_id);
        if (attempt as usize) < self.max_retries {
            let ms = backoff_ms(self.base_backoff_ms, attempt);
            let mut reason = String::from_str("Retrying after ");
            push_dec_u64(&mut reason, ms);
            reason.append("ms backoff");
            push_record(chain, step + 1, DecisionAction::Retried, None, reason);
            proof {
                lemma_extended_one(mid, chain@);
                let failed = rec(step as int, DecisionAction::Failed, Some(pid), "Request failed: "@ + error.spec_message());
                let retried = rec(step + 1, DecisionAction::Retried, None, "Retrying after "@ + dec_nat(ms as nat) + "ms backoff"@);
                lemma_extended_trans(old(chain)@, mid, chain@, seq![failed], seq![retried]);
                assert(seq![failed] + seq![retried] =~= failure_records(old(chain)@.len() + 1int, pid, *error, Some(ms)));
            }
            Some(ms)
        } else {
            None
        }
    }
}

// ============================================================================
// The request loop
// ============================================================================

/// How an attempt of a request ended.
#[derive(Debug)]
pub enum AttemptOutcome {
    /// No backend could be selected; the selection's error.
    NoBackend(AppError),
    /// The chosen provider's rate limits refused the request.
    RateLimited(String, RateLimitError),
    /// The chosen provider failed with the error.
    Failed(String, AppError),
    /// The chosen provider answered.
    Succeeded(String),
}

/// What the request loop does after an attempt.
#[derive(Debug)]
pub enum NextStep {
    /// Wait this many milliseconds, then attempt again.
    Retry(u64),
    /// Stop: `Ok` after an answer, else with the error to return.
    Finish(Result<(), AppError>),
}

/// A request across its attempts: the attempt under way (counted from 0),
/// the providers excluded so far, and the decisions written down.
pub struct RouteAttempts {
    pub attempt: u32,
    pub excluded: Vec<String>,
    pub chain: Vec<DecisionRecord>,
}

/// What handling `outcome` at `now` does: the router goes from `before` to
/// `after`, the request from `s0` to `s1`, and `next` is the next step.
pub open spec fn attempt_handled(
    before: RequestRouter,
    after: RequestRouter,
    s0: RouteAttempts,
    s1: RouteAttempts,
    outcome: AttemptOutcome,
    now: u64,
    next: NextStep,
) -> bool {
    match outcome {
        AttemptOutcome::NoBackend(e) => {
            &&& next == NextStep::Finish(Err(e))
            &&& after.circuit_breaker.breakers() == before.circuit_breaker.breakers()
            &&& s1.attempt == s0.attempt
            &&& s1.excluded@ == s0.excluded@
            &&& s1.chain@ == s0.chain@
        },
        AttemptOutcome::RateLimited(p, e) => {
            &&& next == NextStep::Finish(Err(AppError::RateLimit(e)))
            &&& after.circuit_breaker.breakers() == before.circuit_breaker.breakers()
            &&& s1.attempt == s0.attempt
            &&& s1.excluded@ == s0.excluded@
            &&& chain_extended(s0.chain@, s1.chain@,
                seq![rec(s0.chain@.len() + 1int, DecisionAction::RateLimited, Some(p@), rate_limited_reason(e))])
        },
        AttemptOutcome::Failed(p, e) => {
            let retry = (s0.attempt as int) < before.max_retries;
            let backoff = if retry {
                Some((before.base_backoff_ms * pow2(s0.attempt as nat)) as u64)
            } else {
                None
            };
            &&& after.circuit_breaker.breakers() == before.circuit_breaker.breakers().insert(p@,
                crate::router::circuit_breaker::after_failure(before.circuit_breaker.breaker(p@), now as int,
                    before.circuit_breaker.spec_config()))
            &&& s1.excluded@ == s0.excluded@.push(p)
            &&& chain_extended(s0.chain@, s1.chain@,
                failure_records(s0.chain@.len() + 1int, p@, e, backoff))
            &&& if retry {
                next == NextStep::Retry(backoff->Some_0) && s1.attempt == s0.attempt + 1
            } else {
                next == NextStep::Finish(Err(e)) && s1.attempt == s0.attempt
            }
        },
        AttemptOutcome::Succeeded(p) => {
            &&& next == NextStep::Finish(Ok(()))
            &&& after.circuit_breaker.breakers() == before.circuit_breaker.breakers().insert(p@,
                crate::router::circuit_breaker::after_success(before.circuit_breaker.breaker(p@), now as int,
                    before.circuit_breaker.spec_config()))
            &&& s1.attempt == s0.attempt
            &&& s1.excluded@ == s0.excluded@
            &&& s1.chain@ == s0.chain@
        },
    }
}

impl RouteAttempts {
    /// A request before its first attempt.
    pub fn new() -> (s: Self)
        ensures
            s.attempt == 0,
            s.excluded@.len() == 0,
            s.chain@.len() == 0,
    {
        RouteAttempts { attempt: 0, excluded: Vec::new(), chain: Vec::new() }
    }
}

impl RequestRouter {
    /// Takes the outcome of an attempt at time `now` and says what comes
    /// next. No backend: stop with the selection's error. Refused by the rate
    /// limits: write it down and stop with that refusal, without retrying. A
    /// failure: the provider's breaker records it and the provider is
    /// excluded (see `record_attempt_failure_at`); while retries are left the
    /// next attempt comes after the backoff, else stop with the failure. An
    /// answer: the provider's breaker records the success, and the request is
    /// done.
    pub fn after_attempt_at(&mut self, st: &mut RouteAttempts, outcome: AttemptOutcome, now: u64) -> (next: NextStep)
        requires
            old(st).chain@.len() + 2 <= u32::MAX,
            old(st).attempt < u32::MAX,
            (old(st).attempt as int) < old(self).max_retries ==>
                old(self).base_backoff_ms * pow2(old(st).attempt as nat) <= u64::MAX,
        ensures
            final(self).load_balancer == old(self).load_balancer,
            final(self).max_retries == old(self).max_retries,
            final(self).base_backoff_ms == old(self).base_backoff_ms,
            final(self).circuit_breaker.spec_config() == old(self).circuit_breaker.spec_config(),
            attempt_handled(*old(self), *final(self), *old(st), *final(st), outcome, now, next),
    {
        match outcome {
            AttemptOutcome::NoBackend(e) => NextStep::Finish(Err(e)),
            AttemptOutcome::RateLimited(p, e) => {
                record_rate_limited(&mut st.chain, &p, &e);
                NextStep::Finish(Err(AppError::RateLimit(e)))
            },
            AttemptOutcome::Failed(p, e) => {
                let backoff = self.record_attempt_failure_at(st.attempt, p, &e, now, &mut st.excluded, &mut st.chain);
                match backoff {
                    Some(ms) => {
                        st.attempt = st.attempt + 1;
                        NextStep::Retry(ms)
                    },
                    None => NextStep::Finish(Err(e)),
                }
            },
            AttemptOutcome::Succeeded(p) => {
                self.circuit_breaker.record_success_at(p.as_str(), now);
                NextStep::Finish(Ok(()))
            },
        }
    }

    /// Takes the outcome of an attempt now (see `after_attempt_at`).
    pub fn after_attempt(&mut self, st: &mut RouteAttempts, outcome: AttemptOutcome) -> (next: NextStep)
        requires
            old(st).chain@.len() + 2 <= u32::MAX,
            old(st).attempt < u32::MAX,
            (old(st).attempt as int) < old(self).max_retries ==>
                old(self).base_backoff_ms * pow2(old(st).attempt as nat) <= u64::MAX,
        ensures
            final(self).load_balancer == old(self).load_balancer,
            final(self).max_retries == old(self).max_retries,
            final(self).base_backoff_ms == old(self).base_backoff_ms,
            final(self).circuit_breaker.spec_config() == old(self).circuit_breaker.spec_config(),
            exists|now: u64| #[trigger] attempt_handled(*old(self), *final(self), *old(st), *final(st), outcome, now, next),
    {
        let now = self.circuit_breaker.clock_nanos();
        let next = self.after_attempt_at(st, outcome, now);
        assert(attempt_handled(*old(self), *self, *old(st), *st, outcome, now, next));
        next
    }
}

/// A request is retried at most `max_retries` times: in a run of attempts
/// from the first one, each handled in turn and each followed by a retry,
/// there are at most `max_retries` attempts (one more attempt, the last,
/// then ends the request whatever its outcome).
pub proof fn lemma_retries_bounded(
    rs: Seq<RequestRouter>,
    ss: Seq<RouteAttempts>,
    outcomes: Seq<AttemptOutcome>,
    nows: Seq<u64>,
    nexts: Seq<NextStep>,
)
    requires
        rs.len() == outcomes.len() + 1,
        ss.len() == outcomes.len() + 1,
        nows.len() == outcomes.len(),
        nexts.len() == outcomes.len(),
        ss[0].attempt == 0,
        forall|k: int| 0 <= k < outcomes.len() ==> rs[k + 1].max_retries == #[trigger] rs[k].max_retries,
        forall|k: int| 0 <= k < outcomes.len() ==>
            #[trigger] attempt_handled(rs[k], rs[k + 1], ss[k], ss[k + 1], outcomes[k], nows[k], nexts[k]),
        forall|k: int| 0 <= k < outcomes.len() ==> #[trigger] nexts[k] is Retry,
    ensures
        outcomes.len() <= rs[0].max_retries,
{
    lemma_retry_steps(rs, ss, outcomes, nows, nexts, outcomes.len() as nat);
    if outcomes.len() > 0 {
        let k = outcomes.len() - 1;
        assert(attempt_handled(rs[k], rs[k + 1], ss[k], ss[k + 1], outcomes[k], nows[k], nexts[k]));
        assert(nexts[k] is Retry);
    }
}

proof fn lemma_retry_steps(
    rs: Seq<RequestRouter>,
    ss: Seq<RouteAttempts>,
    outcomes: Seq<AttemptOutcome>,
    nows: Seq<u64>,
    nexts: Seq<NextStep>,
    n: nat,
)
    requires
        n <= outcomes.len(),
        rs.len() == outcomes.len() + 1,
        ss.len() == outcomes.len() + 1,
        nows.len() == outcomes.len(),
        nexts.len() == outcomes.len(),
        ss[0].attempt == 0,
        forall|k: int| 0 <= k < outcomes.len() ==> rs[k + 1].max_retries == #[trigger] rs[k].max_retries,
        forall|k: int| 0 <= k < outcomes.len() ==>
            #[trigger] attempt_handled(rs[k], rs[k + 1], ss[k], ss[k + 1], outcomes[k], nows[k], nexts[k]),
        forall|k: int| 0 <= k < outcomes.len() ==> #[trigger] nexts[k] is Retry,
    ensures
        ss[n as int].attempt == n,
        rs[n as int].max_retries == rs[0].max_retries,
        forall|k: int| 0 <= k < n ==> (#[trigger] ss[k].attempt as int) < rs[0].max_retries,
    decreases n,
{
    if n > 0 {
        let k = n - 1;
        lemma_retry_steps(rs, ss, outcomes, nows, nexts, k as nat);
        assert(attempt_handled(rs[k], rs[k + 1], ss[k], ss[k + 1], outcomes[k], nows[k], nexts[k]));
        assert(nexts[k] is Retry);
        assert(rs[k + 1].max_retries == rs[k].max_retries);
    }
}

} // verus!
