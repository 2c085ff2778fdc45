//! Selection of a backend among the enabled providers: only the providers of the
//! highest priority are considered; among them the choice is weighted, either at
//! random (priority-based strategy) or in weighted round-robin order.
use vstd::prelude::*;
use std::collections::HashMap;
use rand::Rng;
use crate::models::{Backend, LoadBalancingStrategy};

verus! {

broadcast use vstd::std_specs::hash::group_hash_axioms;

// ============================================================================
// Specification
// ============================================================================

/// Weight of a backend in a weighted choice: weights below 1 count as 1.
pub open spec fn eff_weight(b: Backend) -> int {
    if b.provider.weight < 1 { 1 } else { b.provider.weight as int }
}

/// The highest priority among the backends (`bs` must not be empty).
pub open spec fn max_priority(bs: Seq<Backend>) -> i32
    decreases bs.len(),
{
    if bs.len() <= 1 {
        bs[0].provider.priority
    } else {
        let m = max_priority(bs.drop_last());
        let p = bs.last().provider.priority;
        if p > m { p } else { m }
    }
}

/// Indices below `n` of the backends of priority `p`, in increasing order.
pub open spec fn indices_with_priority(bs: Seq<Backend>, p: i32, n: nat) -> Seq<int>
    decreases n,
{
    if n == 0 {
        Seq::empty()
    } else {
        let r = indices_with_priority(bs, p, (n - 1) as nat);
        if bs[n - 1].provider.priority == p { r.push(n - 1) } else { r }
    }
}

/// Indices of the backends of the highest priority, in their original order.
pub open spec fn top_group(bs: Seq<Backend>) -> Seq<int> {
    indices_with_priority(bs, max_priority(bs), bs.len())
}

/// A sequence of indices as mathematical integers.
pub open spec fn as_ints(v: Seq<usize>) -> Seq<int> {
    v.map_values(|i: usize| i as int)
}

/// Sum of the effective weights of the backends at the indices of `g`.
pub open spec fn group_weight(bs: Seq<Backend>, g: Seq<int>) -> int
    decreases g.len(),
{
    if g.len() == 0 {
        0
    } else {
        eff_weight(bs[g[0]]) + group_weight(bs, g.drop_first())
    }
}

/// The index of `g` whose slot of the weight line `[0, group_weight)` holds
/// `pos`: each index of `g` in turn occupies as many slots as its effective weight.
pub open spec fn pick(bs: Seq<Backend>, g: Seq<int>, pos: int) -> int
    decreases g.len(),
{
    if g.len() == 0 {
        0
    } else if pos < eff_weight(bs[g[0]]) {
        g[0]
    } else {
        pick(bs, g.drop_first(), pos - eff_weight(bs[g[0]]))
    }
}

/// Inserts index `x` into `s` after every index whose backend's (raw) weight is
/// at least that of `x`.
pub open spec fn insert_by_weight(bs: Seq<Backend>, s: Seq<int>, x: int) -> Seq<int>
    decreases s.len(),
{
    if s.len() == 0 {
        seq![x]
    } else if bs[s.last()].provider.weight >= bs[x].provider.weight {
        s.push(x)
    } else {
        insert_by_weight(bs, s.drop_last(), x).push(s.last())
    }
}

/// The indices of `s` stably sorted by decreasing (raw) weight of their backends.
pub open spec fn sort_by_weight(bs: Seq<Backend>, s: Seq<int>) -> Seq<int>
    decreases s.len(),
{
    if s.len() == 0 {
        s
    } else {
        insert_by_weight(bs, sort_by_weight(bs, s.drop_last()), s.last())
    }
}

/// The group that weighted round-robin walks: the backends of the highest
/// priority, heaviest first, equal weights in their original order.
pub open spec fn round_robin_group(bs: Seq<Backend>) -> Seq<int> {
    sort_by_weight(bs, top_group(bs))
}

/// What `select_backend` may do with a non-empty list `bs`: turn the balancer
/// `before` into `after` and choose `chosen`.
pub open spec fn lb_selects(before: LoadBalancer, bs: Seq<Backend>, after: LoadBalancer, chosen: Backend) -> bool {
    &&& after.spec_strategy() == before.spec_strategy()
    &&& if before.spec_strategy() != LoadBalancingStrategy::WeightedRoundRobin {
        &&& after.counters() == before.counters()
        &&& exists|pos: int|
            0 <= pos < group_weight(bs, top_group(bs)) && chosen == bs[#[trigger] pick(bs, top_group(bs), pos)]
    } else {
        let g = round_robin_group(bs);
        let total = group_weight(bs, g);
        let p = max_priority(bs);
        let c = before.counter_of(p);
        &&& chosen == bs[pick(bs, g, c % total)]
        &&& after.counters() == before.counters().insert(p, ((c + 1) % total) as usize)
    }
}

/// What a caller must ensure for a selection: the effective weights of the
/// highest-priority backends add up to at most `i32::MAX`.
pub open spec fn selectable(bs: Seq<Backend>) -> bool {
    bs.len() > 0 ==> group_weight(bs, top_group(bs)) <= i32::MAX
}

// ============================================================================
// Lemmas
// ============================================================================

proof fn lemma_group_weight_push(bs: Seq<Backend>, g: Seq<int>, x: int)
    ensures
        group_weight(bs, g.push(x)) == group_weight(bs, g) + eff_weight(bs[x]),
    decreases g.len(),
{
    if g.len() > 0 {
        assert(g.push(x).drop_first() =~= g.drop_first().push(x));
        assert(g.push(x)[0] == g[0]);
        lemma_group_weight_push(bs, g.drop_first(), x);
    } else {
        assert(g.push(x).drop_first().len() == 0);
        assert(g.push(x)[0] == x);
        assert(group_weight(bs, g.push(x).drop_first()) == 0);
    }
}

proof fn lemma_group_weight_concat(bs: Seq<Backend>, a: Seq<int>, b: Seq<int>)
    ensures
        group_weight(bs, a + b) == group_weight(bs, a) + group_weight(bs, b),
    decreases a.len(),
{
    if a.len() == 0 {
        assert(a + b =~= b);
    } else {
        assert((a + b).drop_first() =~= a.drop_first() + b);
        assert((a + b)[0] == a[0]);
        lemma_group_weight_concat(bs, a.drop_first(), b);
    }
}

proof fn lemma_group_weight_insert(bs: Seq<Backend>, s: Seq<int>, x: int)
    ensures
        group_weight(bs, insert_by_weight(bs, s, x)) == group_weight(bs, s) + eff_weight(bs[x]),
    decreases s.len(),
{
    if s.len() == 0 {
        assert(seq![x].drop_first().len() == 0);
        assert(seq![x][0] == x);
        assert(group_weight(bs, seq![x].drop_first()) == 0);
    } else if bs[s.last()].provider.weight >= bs[x].provider.weight {
        lemma_group_weight_push(bs, s, x);
    } else {
        lemma_group_weight_insert(bs, s.drop_last(), x);
        lemma_group_weight_push(bs, insert_by_weight(bs, s.drop_last(), x), s.last());
        lemma_group_weight_push(bs, s.drop_last(), s.last());
        assert(s.drop_last().push(s.last()) =~= s);
    }
}

proof fn lemma_group_weight_sort(bs: Seq<Backend>, s: Seq<int>)
    ensures
        group_weight(bs, sort_by_weight(bs, s)) == group_weight(bs, s),
    decreases s.len(),
{
    if s.len() > 0 {
        lemma_group_weight_sort(bs, s.drop_last());
        lemma_group_weight_insert(bs, sort_by_weight(bs, s.drop_last()), s.last());
        lemma_group_weight_push(bs, s.drop_last(), s.last());
        assert(s.drop_last().push(s.last()) =~= s);
    }
}

proof fn lemma_group_weight_nonneg(bs: Seq<Backend>, g: Seq<int>)
    ensures
        group_weight(bs, g) >= g.len(),
    decreases g.len(),
{
    if g.len() > 0 {
        lemma_group_weight_nonneg(bs, g.drop_first());
    }
}

proof fn lemma_group_weight_split(bs: Seq<Backend>, g: Seq<int>, k: int)
    requires
        0 <= k <= g.len(),
    ensures
        group_weight(bs, g) == group_weight(bs, g.take(k)) + group_weight(bs, g.skip(k)),
    decreases k,
{
    if k == 0 {
        assert(g.take(0).len() == 0);
        assert(g.skip(0) =~= g);
    } else {
        lemma_group_weight_split(bs, g.drop_first(), k - 1);
        assert(g.drop_first().skip(k - 1) =~= g.skip(k));
        assert(g.take(k).drop_first() =~= g.drop_first().take(k - 1));
        assert(g.take(k)[0] == g[0]);
    }
}

/// Sum of the effective weights of the backends of priority `p`.
pub open spec fn priority_weight(bs: Seq<Backend>, p: i32) -> int
    decreases bs.len(),
{
    if bs.len() == 0 {
        0
    } else {
        priority_weight(bs.drop_last(), p) + if bs.last().provider.priority == p { eff_weight(bs.last()) } else { 0 }
    }
}

proof fn lemma_indices_weight_eq(bs: Seq<Backend>, p: i32, n: nat)
    requires
        n <= bs.len(),
    ensures
        group_weight(bs, indices_with_priority(bs, p, n)) == priority_weight(bs.take(n as int), p),
    decreases n,
{
    if n > 0 {
        lemma_indices_weight_eq(bs, p, (n - 1) as nat);
        assert(bs.take(n as int).drop_last() =~= bs.take(n - 1));
        if bs[n - 1].provider.priority == p {
            lemma_group_weight_push(bs, indices_with_priority(bs, p, (n - 1) as nat), n - 1);
        }
    } else {
        assert(bs.take(0).len() == 0);
    }
}

/// The group the balancer chooses from is the backends of the highest
/// priority, so a list whose backends of that priority weigh at most
/// `i32::MAX` together can be selected from.
pub proof fn lemma_priority_weight_selectable(bs: Seq<Backend>)
    requires
        bs.len() > 0 ==> priority_weight(bs, max_priority(bs)) <= i32::MAX,
    ensures
        selectable(bs),
{
    if bs.len() > 0 {
        lemma_indices_weight_eq(bs, max_priority(bs), bs.len());
        assert(bs.take(bs.len() as int) =~= bs);
    }
}

proof fn lemma_max_priority_attained(bs: Seq<Backend>)
    requires
        bs.len() > 0,
    ensures
        exists|i: int| 0 <= i < bs.len() && bs[i].provider.priority == max_priority(bs),
        forall|i: int| 0 <= i < bs.len() ==> bs[i].provider.priority <= max_priority(bs),
    decreases bs.len(),
{
    if bs.len() == 1 {
        assert(bs[0].provider.priority == max_priority(bs));
    } else {
        lemma_max_priority_attained(bs.drop_last());
        let m = max_priority(bs.drop_last());
        let k = choose|i: int| 0 <= i < bs.drop_last().len() && bs.drop_last()[i].provider.priority == m;
        if bs.last().provider.priority > m {
            assert(bs[bs.len() - 1].provider.priority == max_priority(bs));
        } else {
            assert(bs[k].provider.priority == max_priority(bs));
        }
        assert forall|i: int| 0 <= i < bs.len() implies bs[i].provider.priority <= max_priority(bs) by {
            if i < bs.len() - 1 {
                assert(bs.drop_last()[i] == bs[i]);
            }
        }
    }
}

proof fn lemma_indices_in_range(bs: Seq<Backend>, p: i32, n: nat)
    requires
        n <= bs.len(),
    ensures
        forall|j: int| 0 <= j < indices_with_priority(bs, p, n).len() ==>
            0 <= #[trigger] indices_with_priority(bs, p, n)[j] < n
            && bs[indices_with_priority(bs, p, n)[j]].provider.priority == p,
        (exists|i: int| 0 <= i < n && bs[i].provider.priority == p)
            ==> indices_with_priority(bs, p, n).len() > 0,
    decreases n,
{
    if n > 0 {
        lemma_indices_in_range(bs, p, (n - 1) as nat);
    }
}

proof fn lemma_top_group_nonempty(bs: Seq<Backend>)
    requires
        bs.len() > 0,
    ensures
        top_group(bs).len() > 0,
        forall|j: int| 0 <= j < top_group(bs).len() ==>
            0 <= #[trigger] top_group(bs)[j] < bs.len()
            && bs[top_group(bs)[j]].provider.priority == max_priority(bs),
{
    lemma_max_priority_attained(bs);
    lemma_indices_in_range(bs, max_priority(bs), bs.len());
}

proof fn lemma_insert_by_weight_at(bs: Seq<Backend>, s: Seq<int>, x: int, p: int)
    requires
        0 <= p <= s.len(),
        forall|j: int| p <= j < s.len() ==> bs[#[trigger] s[j]].provider.weight < bs[x].provider.weight,
        p > 0 ==> bs[s[p - 1]].provider.weight >= bs[x].provider.weight,
    ensures
        insert_by_weight(bs, s, x) =~= s.take(p).push(x) + s.skip(p),
    decreases s.len(),
{
    if s.len() == 0 {
    } else if p == s.len() {
        assert(s.take(p) =~= s);
    } else {
        lemma_insert_by_weight_at(bs, s.drop_last(), x, p);
        assert(s.drop_last().take(p) =~= s.take(p));
        assert(s.drop_last().skip(p).push(s.last()) =~= s.skip(p));
    }
}

proof fn lemma_insert_by_weight_elems(bs: Seq<Backend>, s: Seq<int>, x: int)
    ensures
        insert_by_weight(bs, s, x).len() == s.len() + 1,
        forall|j: int| 0 <= j < insert_by_weight(bs, s, x).len() ==>
            (#[trigger] insert_by_weight(bs, s, x)[j] == x || s.contains(insert_by_weight(bs, s, x)[j])),
    decreases s.len(),
{
    if s.len() > 0 && bs[s.last()].provider.weight < bs[x].provider.weight {
        lemma_insert_by_weight_elems(bs, s.drop_last(), x);
        let r = insert_by_weight(bs, s, x);
        assert forall|j: int| 0 <= j < r.len() implies (#[trigger] r[j] == x || s.contains(r[j])) by {
            if j < r.len() - 1 {
                let q = insert_by_weight(bs, s.drop_last(), x);
                assert(r[j] == q[j]);
                if q[j] != x {
                    let k = choose|k: int| 0 <= k < s.drop_last().len() && s.drop_last()[k] == q[j];
                    assert(s[k] == q[j]);
                }
            } else {
                assert(s[s.len() - 1] == r[j]);
            }
        }
    } else if s.len() > 0 {
        let r = insert_by_weight(bs, s, x);
        assert forall|j: int| 0 <= j < r.len() implies (#[trigger] r[j] == x || s.contains(r[j])) by {
            if j < s.len() {
                assert(s[j] == r[j]);
            }
        }
    }
}

proof fn lemma_sort_by_weight_elems(bs: Seq<Backend>, s: Seq<int>)
    ensures
        sort_by_weight(bs, s).len() == s.len(),
        forall|j: int| 0 <= j < sort_by_weight(bs, s).len() ==> s.contains(#[trigger] sort_by_weight(bs, s)[j]),
    decreases s.len(),
{
    if s.len() > 0 {
        lemma_sort_by_weight_elems(bs, s.drop_last());
        let q = sort_by_weight(bs, s.drop_last());
        lemma_insert_by_weight_elems(bs, q, s.last());
        let r = sort_by_weight(bs, s);
        assert forall|j: int| 0 <= j < r.len() implies s.contains(#[trigger] r[j]) by {
            if r[j] == s.last() {
                assert(s[s.len() - 1] == r[j]);
            } else {
                assert(q.contains(r[j]));
                let k = choose|k: int| 0 <= k < q.len() && q[k] == r[j];
                assert(s.drop_last().contains(q[k]));
                let k2 = choose|k2: int| 0 <= k2 < s.drop_last().len() && s.drop_last()[k2] == q[k];
                assert(s[k2] == r[j]);
            }
        }
    }
}

proof fn lemma_pick_in_group(bs: Seq<Backend>, g: Seq<int>, pos: int)
    requires
        0 <= pos < group_weight(bs, g),
    ensures
        g.contains(pick(bs, g, pos)),
    decreases g.len(),
{
    if pos >= eff_weight(bs[g[0]]) {
        lemma_pick_in_group(bs, g.drop_first(), pos - eff_weight(bs[g[0]]));
        let k = choose|k: int| 0 <= k < g.drop_first().len() && g.drop_first()[k] == pick(bs, g, pos);
        assert(g[k + 1] == pick(bs, g, pos));
    } else {
        assert(g[0] == g[0]);
    }
}

// ============================================================================
// Randomness
// ============================================================================

/// Calls `rand::thread_rng().gen_range(0..bound)`: a uniformly random integer
/// in `[0, bound)`. Which one comes back is left to chance.
#[verifier::external_body]
fn random_below(bound: i32) -> (r: i32)
    requires
        bound > 0,
    ensures
        0 <= r < bound,
{
    rand::thread_rng().gen_range(0..bound)
}

// ============================================================================
// Load balancer
// ============================================================================

/// Load balancer for selecting backends based on the configured strategy.
pub struct LoadBalancer {
    strategy: LoadBalancingStrategy,
    /// Round-robin position of each priority group.
    round_robin_state: HashMap<i32, usize>,
}

impl LoadBalancer {
    #[verifier::type_invariant]
    spec fn counters_bounded(self) -> bool {
        forall|p: i32| #[trigger] self.round_robin_state@.contains_key(p)
            ==> self.round_robin_state@[p] < i32::MAX
    }

    /// The configured strategy.
    pub closed spec fn spec_strategy(&self) -> LoadBalancingStrategy {
        self.strategy
    }

    /// The round-robin position of each priority group seen so far.
    pub closed spec fn counters(&self) -> Map<i32, usize> {
        self.round_robin_state@
    }

    /// The round-robin position of priority group `p` (0 before its first use).
    pub open spec fn counter_of(&self, p: i32) -> int {
        if self.counters().contains_key(p) { self.counters()[p] as int } else { 0 }
    }

    /// A load balancer with the given strategy and no round-robin history.
    pub fn new(strategy: LoadBalancingStrategy) -> (lb: Self)
        ensures
            lb.spec_strategy() == strategy,
            lb.counters() == Map::<i32, usize>::empty(),
    {
        LoadBalancer { strategy, round_robin_state: HashMap::new() }
    }

    /// A load balancer with the priority-based strategy.
    pub fn default() -> (lb: Self)
        ensures
            lb.spec_strategy() == LoadBalancingStrategy::PriorityBased,
            lb.counters() == Map::<i32, usize>::empty(),
    {
        Self::new(LoadBalancingStrategy::PriorityBased)
    }

    /// Selects a backend according to the strategy. An empty list gives `None`.
    /// With the priority-based strategy (and the least-latency strategy, which
    /// falls back to it) the choice is the weighted random pick among the
    /// highest-priority backends, the round-robin history unchanged; with
    /// weighted round-robin it is the pick at the group's current position,
    /// which then advances by one (modulo the group's total weight).
    pub fn select_backend(&mut self, backends: Vec<Backend>) -> (r: Option<Backend>)
        requires
            selectable(backends@),
        ensures
            backends@.len() == 0 ==> r is None && final(self).counters() == old(self).counters(),
            final(self).spec_strategy() == old(self).spec_strategy(),
            backends@.len() > 0 && old(self).spec_strategy() != LoadBalancingStrategy::WeightedRoundRobin ==> {
                &&& final(self).counters() == old(self).counters()
                &&& exists|pos: int|
                    0 <= pos < group_weight(backends@, top_group(backends@))
                    && r == Some(backends@[#[trigger] pick(backends@, top_group(backends@), pos)])
            },
            backends@.len() > 0 && old(self).spec_strategy() == LoadBalancingStrategy::WeightedRoundRobin ==> {
                let g = round_robin_group(backends@);
                let total = group_weight(backends@, g);
                let p = max_priority(backends@);
                let c = old(self).counter_of(p);
                &&& r == Some(backends@[pick(backends@, g, c % total)])
                &&& final(self).counters() == old(self).counters().insert(p, ((c + 1) % total) as usize)
            },
            backends@.len() > 0 ==> (r matches Some(b) && lb_selects(*old(self), backends@, *final(self), b)),
    {
        if backends.len() == 0 {
            return None;
        }
        match self.strategy {
            LoadBalancingStrategy::PriorityBased => self.select_priority_based(backends),
            LoadBalancingStrategy::WeightedRoundRobin => self.select_weighted_round_robin(backends),
            LoadBalancingStrategy::LeastLatency => self.select_priority_based(backends),
        }
    }

    /// Indices of the highest-priority backends, in their original order, and
    /// that priority.
    fn highest_priority_indices(backends: &Vec<Backend>) -> (r: (Vec<usize>, i32))
        requires
            backends@.len() > 0,
        ensures
            r.1 == max_priority(backends@),
            as_ints(r.0@) =~= top_group(backends@),
    {
        let mut best: i32 = backends[0].provider.priority;
        let mut i: usize = 1;
        while i < backends.len()
            invariant
                1 <= i <= backends@.len(),
                best == max_priority(backends@.take(i as int)),
            decreases backends@.len() - i,
        {
            assert(backends@.take(i + 1).drop_last() =~= backends@.take(i as int));
            let p = backends[i].provider.priority;
            if p > best {
                best = p;
            }
            i = i + 1;
        }
        assert(backends@.take(backends@.len() as int) =~= backends@);
        let mut group: Vec<usize> = Vec::new();
        let mut k: usize = 0;
        while k < backends.len()
            invariant
                k <= backends@.len(),
                best == max_priority(backends@),
                as_ints(group@) =~= indices_with_priority(backends@, best, k as nat),
            decreases backends@.len() - k,
        {
            if backends[k].provider.priority == best {
                group.push(k);
            }
            k = k + 1;
        }
        (group, best)
    }

    /// Total effective weight of the group, which fits in `i32` by the precondition.
    fn group_total(backends: &Vec<Backend>, group: &Vec<usize>) -> (t: i32)
        requires
            forall|j: int| 0 <= j < group@.len() ==> #[trigger] group@[j] < backends@.len(),
            group_weight(backends@, as_ints(group@)) <= i32::MAX,
        ensures
            t == group_weight(backends@, as_ints(group@)),
    {
        let ghost g = as_ints(group@);
        let mut total: i32 = 0;
        let mut j: usize = 0;
        while j < group.len()
            invariant
                j <= group@.len(),
                g == as_ints(group@),
                forall|m: int| 0 <= m < group@.len() ==> #[trigger] group@[m] < backends@.len(),
                group_weight(backends@, g) <= i32::MAX,
                total == group_weight(backends@, g.take(j as int)),
            decreases group@.len() - j,
        {
            proof {
                assert(g.take(j + 1) =~= g.take(j as int).push(g[j as int]));
                lemma_group_weight_push(backends@, g.take(j as int), g[j as int]);
                lemma_group_weight_split(backends@, g, (j + 1) as int);
                lemma_group_weight_nonneg(backends@, g.skip(j + 1));
            }
            let w = backends[group[j]].provider.weight;
            let ew: i32 = if w < 1 { 1 } else { w };
            total = total + ew;
            j = j + 1;
        }
        assert(g.take(group@.len() as int) =~= g);
        total
    }

    /// The index of `group` at weight position `pos`.
    fn pick_at(backends: &Vec<Backend>, group: &Vec<usize>, pos: i32) -> (i: usize)
        requires
            group@.len() > 0,
            forall|j: int| 0 <= j < group@.len() ==> #[trigger] group@[j] < backends@.len(),
            0 <= pos < group_weight(backends@, as_ints(group@)),
        ensures
            i as int == pick(backends@, as_ints(group@), pos as int),
            i < backends@.len(),
    {
        let ghost g = as_ints(group@);
        assert(g.skip(0) =~= g);
        let mut rest: i32 = pos;
        let mut j: usize = 0;
        while j < group.len()
            invariant
                j <= group@.len(),
                group@.len() > 0,
                g == as_ints(group@),
                forall|m: int| 0 <= m < group@.len() ==> #[trigger] group@[m] < backends@.len(),
                0 <= rest < group_weight(backends@, g.skip(j as int)),
                pick(backends@, g, pos as int) == pick(backends@, g.skip(j as int), rest as int),
            decreases group@.len() - j,
        {
            assert(g.skip(j as int).drop_first() =~= g.skip(j + 1));
            let w = backends[group[j]].provider.weight;
            let ew: i32 = if w < 1 { 1 } else { w };
            if rest < ew {
                return group[j];
            }
            rest = rest - ew;
            j = j + 1;
        }
        assert(g.skip(group@.len() as int).len() == 0);
        group[0]
    }

    /// The priority-based choice at weight position `pos`: the backends of the
    /// highest priority lie one after the other on a line, each over as many
    /// positions as its effective weight, and the one over `pos` is chosen
    /// (`None` for no backends, or a position off the line).
    pub fn select_priority_at(backends: Vec<Backend>, pos: i32) -> (r: Option<Backend>)
        requires
            selectable(backends@),
        ensures
            backends@.len() == 0 ==> r is None,
            backends@.len() > 0 && !(0 <= pos < group_weight(backends@, top_group(backends@))) ==> r is None,
            backends@.len() > 0 && 0 <= pos < group_weight(backends@, top_group(backends@)) ==>
                r == Some(backends@[pick(backends@, top_group(backends@), pos as int)]),
    {
        if backends.len() == 0 {
            return None;
        }
        let (group, _best) = Self::highest_priority_indices(&backends);
        proof {
            lemma_top_group_nonempty(backends@);
            assert forall|j: int| 0 <= j < group@.len() implies #[trigger] group@[j] < backends@.len() by {
                assert(as_ints(group@)[j] == top_group(backends@)[j]);
            }
        }
        let total = Self::group_total(&backends, &group);
        if pos < 0 || pos >= total {
            return None;
        }
        let i = Self::pick_at(&backends, &group, pos);
        let mut backends = backends;
        let ghost bs = backends@;
        let chosen = backends.remove(i);
        assert(chosen == bs[i as int]);
        Some(chosen)
    }

    /// The priority-based choice: a weighted random pick among the backends of
    /// the highest priority (`None` for no backends); see `select_priority_at`.
    pub fn select_priority_based(&mut self, backends: Vec<Backend>) -> (r: Option<Backend>)
        requires
            selectable(backends@),
        ensures
            *final(self) == *old(self),
            backends@.len() == 0 ==> r is None,
            backends@.len() > 0 ==> exists|pos: int|
                0 <= pos < group_weight(backends@, top_group(backends@))
                && r == Some(backends@[#[trigger] pick(backends@, top_group(backends@), pos)]),
    {
        if backends.len() == 0 {
            return None;
        }
        let (group, _best) = Self::highest_priority_indices(&backends);
        proof {
            lemma_top_group_nonempty(backends@);
            assert forall|j: int| 0 <= j < group@.len() implies #[trigger] group@[j] < backends@.len() by {
                assert(as_ints(group@)[j] == top_group(backends@)[j]);
            }
            lemma_group_weight_nonneg(backends@, as_ints(group@));
        }
        let total = Self::group_total(&backends, &group);
        let pos = random_below(total);
        let r = Self::select_priority_at(backends, pos);
        assert(r == Some(backends@[pick(backends@, top_group(backends@), pos as int)]));
        r
    }

    /// The round-robin choice: the backends of the highest priority, ordered by
    /// weight, take turns in proportion to their weights (`None` for no
    /// backends).
    pub fn select_weighted_round_robin(&mut self, backends: Vec<Backend>) -> (r: Option<Backend>)
        requires
            selectable(backends@),
        ensures
            final(self).spec_strategy() == old(self).spec_strategy(),
            backends@.len() == 0 ==> r is None && *final(self) == *old(self),
            backends@.len() > 0 ==> ({
                let g = round_robin_group(backends@);
                let total = group_weight(backends@, g);
                let p = max_priority(backends@);
                let c = old(self).counter_of(p);
                &&& r == Some(backends@[pick(backends@, g, c % total)])
                &&& final(self).counters() == old(self).counters().insert(p, ((c + 1) % total) as usize)
            }),
    {
        if backends.len() == 0 {
            return None;
        }
        let (group, priority) = Self::highest_priority_indices(&backends);
        let ghost top = top_group(backends@);
        proof {
            lemma_top_group_nonempty(backends@);
        }
        // Stable insertion sort of the group by decreasing weight.
        let mut sorted: Vec<usize> = Vec::new();
        let mut k: usize = 0;
        while k < group.len()
            invariant
                k <= group@.len(),
                as_ints(group@) =~= top,
                top == top_group(backends@),
                forall|j: int| 0 <= j < top.len() ==> 0 <= #[trigger] top[j] < backends@.len(),
                as_ints(sorted@) =~= sort_by_weight(backends@, top.take(k as int)),
                forall|j: int| 0 <= j < sorted@.len() ==> #[trigger] sorted@[j] < backends@.len(),
            decreases group@.len() - k,
        {
            let x = group[k];
            assert(top[k as int] == x as int);
            let xw = backends[x].provider.weight;
            let mut p: usize = sorted.len();
            while p > 0 && backends[sorted[p - 1]].provider.weight < xw
                invariant
                    p <= sorted@.len(),
                    x < backends@.len(),
                    xw == backends@[x as int].provider.weight,
                    forall|j: int| 0 <= j < sorted@.len() ==> #[trigger] sorted@[j] < backends@.len(),
                    forall|j: int| p <= j < sorted@.len() ==> backends@[#[trigger] sorted@[j] as int].provider.weight < xw,
                decreases p,
            {
                p = p - 1;
            }
            let ghost s = as_ints(sorted@);
            proof {
                lemma_insert_by_weight_at(backends@, s, x as int, p as int);
                assert(top.take(k + 1).drop_last() =~= top.take(k as int));
                assert(top.take(k + 1).last() == x as int);
            }
            sorted.insert(p, x);
            assert(as_ints(sorted@) =~= s.take(p as int).push(x as int) + s.skip(p as int));
            k = k + 1;
        }
        assert(top.take(group@.len() as int) =~= top);
        let ghost g = as_ints(sorted@);
        proof {
            lemma_sort_by_weight_elems(backends@, top);
            lemma_group_weight_sort(backends@, top);
            assert(g.len() == top.len());
            assert forall|j: int| 0 <= j < g.len() implies #[trigger] g[j] < backends@.len() by {
                assert(top.contains(g[j]));
            }
        }
        let i = self.weighted_round_robin_select(priority, &backends, &sorted);
        let mut backends = backends;
        let ghost bs = backends@;
        let chosen = backends.remove(i);
        assert(chosen == bs[i as int]);
        Some(chosen)
    }

    /// Weighted round-robin within the group of priority `priority`: the group's
    /// position (0 the first time) picks the backend, and the position advances.
    fn weighted_round_robin_select(&mut self, priority: i32, backends: &Vec<Backend>, group: &Vec<usize>) -> (i: usize)
        requires
            group@.len() > 0,
            forall|j: int| 0 <= j < group@.len() ==> #[trigger] group@[j] < backends@.len(),
            group_weight(backends@, as_ints(group@)) <= i32::MAX,
        ensures
            i < backends@.len(),
            final(self).spec_strategy() == old(self).spec_strategy(),
            ({
                let g = as_ints(group@);
                let total = group_weight(backends@, g);
                let c = old(self).counter_of(priority);
                &&& i as int == pick(backends@, g, c % total)
                &&& final(self).counters() == old(self).counters().insert(priority, ((c + 1) % total) as usize)
            }),
    {
        proof {
            use_type_invariant(&*self);
            lemma_group_weight_nonneg(backends@, as_ints(group@));
        }
        let total = Self::group_total(backends, group);
        let c: usize = match self.round_robin_state.get(&priority) {
            Some(v) => *v,
            None => 0,
        };
        let t: usize = total as usize;
        let position: usize = c % t;
        let next: usize = (c + 1) % t;
        let mut state = HashMap::new();
        std::mem::swap(&mut state, &mut self.round_robin_state);
        state.insert(priority, next);
        self.round_robin_state = state;
        Self::pick_at(backends, group, position as i32)
    }

    /// The current strategy.
    pub fn strategy(&self) -> (s: &LoadBalancingStrategy)
        ensures
            *s == self.spec_strategy(),
    {
        &self.strategy
    }

    /// Changes the strategy and forgets the round-robin history.
    pub fn set_strategy(&mut self, strategy: LoadBalancingStrategy)
        ensures
            final(self).spec_strategy() == strategy,
            final(self).counters() == Map::<i32, usize>::empty(),
    {
        proof {
            use_type_invariant(&*self);
        }
        self.strategy = strategy;
        let mut state = HashMap::new();
        std::mem::swap(&mut state, &mut self.round_robin_state);
        state.clear();
        self.round_robin_state = state;
    }

    /// Forgets the round-robin history.
    pub fn reset_state(&mut self)
        ensures
            final(self).spec_strategy() == old(self).spec_strategy(),
            final(self).counters() == Map::<i32, usize>::empty(),
    {
        let mut state = HashMap::new();
        std::mem::swap(&mut state, &mut self.round_robin_state);
        state.clear();
        self.round_robin_state = state;
    }
}


// ============================================================================
// Laws
// ============================================================================

proof fn lemma_top_group_contains(bs: Seq<Backend>, i: int)
    requires
        bs.len() > 0,
        top_group(bs).contains(i),
    ensures
        0 <= i < bs.len(),
        bs[i].provider.priority == max_priority(bs),
{
    lemma_top_group_nonempty(bs);
    let k = choose|k: int| 0 <= k < top_group(bs).len() && top_group(bs)[k] == i;
    assert(top_group(bs)[k] == i);
}

proof fn lemma_round_robin_group_props(bs: Seq<Backend>)
    requires
        bs.len() > 0,
    ensures
        round_robin_group(bs).len() > 0,
        group_weight(bs, round_robin_group(bs)) > 0,
        forall|i: int| round_robin_group(bs).contains(i) ==> top_group(bs).contains(i),
{
    lemma_top_group_nonempty(bs);
    lemma_sort_by_weight_elems(bs, top_group(bs));
    lemma_group_weight_nonneg(bs, round_robin_group(bs));
    assert forall|i: int| round_robin_group(bs).contains(i) implies top_group(bs).contains(i) by {
        let k = choose|k: int| 0 <= k < round_robin_group(bs).len() && round_robin_group(bs)[k] == i;
        assert(top_group(bs).contains(round_robin_group(bs)[k]));
    }
}

/// Whatever the strategy, the backend chosen is one of those offered, and
/// none of them has a higher priority: a lower-priority backend is never
/// chosen while a higher-priority one is offered.
pub proof fn lemma_choice_has_top_priority(before: LoadBalancer, bs: Seq<Backend>, after: LoadBalancer, chosen: Backend)
    requires
        bs.len() > 0,
        lb_selects(before, bs, after, chosen),
    ensures
        bs.contains(chosen),
        forall|i: int| 0 <= i < bs.len() ==> bs[i].provider.priority <= chosen.provider.priority,
{
    lemma_max_priority_attained(bs);
    lemma_top_group_nonempty(bs);
    let idx: int = if before.spec_strategy() != LoadBalancingStrategy::WeightedRoundRobin {
        let pos = choose|pos: int| 0 <= pos < group_weight(bs, top_group(bs)) && chosen == bs[#[trigger] pick(bs, top_group(bs), pos)];
        lemma_pick_in_group(bs, top_group(bs), pos);
        pick(bs, top_group(bs), pos)
    } else {
        let g = round_robin_group(bs);
        let total = group_weight(bs, g);
        lemma_round_robin_group_props(bs);
        let c = before.counter_of(max_priority(bs));
        assert(c >= 0);
        assert(0 <= c % total < total) by (nonlinear_arith)
            requires
                total > 0,
                c >= 0,
        ;
        lemma_pick_in_group(bs, g, c % total);
        pick(bs, g, c % total)
    };
    lemma_top_group_contains(bs, idx);
    assert(chosen == bs[idx]);
}

/// How many of the `n` positions `(c + t) % total`, `t < n`, of the weight
/// line of `g` fall on index `x`.
pub open spec fn rr_count(bs: Seq<Backend>, g: Seq<int>, x: int, c: int, n: nat) -> nat
    decreases n,
{
    if n == 0 {
        0
    } else {
        rr_count(bs, g, x, c, (n - 1) as nat) + if pick(bs, g, (c + n - 1) % group_weight(bs, g)) == x { 1nat } else { 0nat }
    }
}

/// How many of the positions `lo..hi` of the weight line of `g` fall on `x`.
pub open spec fn line_count(bs: Seq<Backend>, g: Seq<int>, x: int, lo: int, hi: int) -> nat
    decreases hi - lo,
{
    if hi <= lo {
        0
    } else {
        line_count(bs, g, x, lo, hi - 1) + if pick(bs, g, hi - 1) == x { 1nat } else { 0nat }
    }
}

proof fn lemma_line_count_split(bs: Seq<Backend>, g: Seq<int>, x: int, lo: int, mid: int, hi: int)
    requires
        lo <= mid <= hi,
    ensures
        line_count(bs, g, x, lo, hi) == line_count(bs, g, x, lo, mid) + line_count(bs, g, x, mid, hi),
    decreases hi - mid,
{
    if hi > mid {
        lemma_line_count_split(bs, g, x, lo, mid, hi - 1);
    }
}

proof fn lemma_line_count_head(bs: Seq<Backend>, g: Seq<int>, x: int, n: int)
    requires
        g.len() > 0,
        0 <= n <= eff_weight(bs[g[0]]),
    ensures
        line_count(bs, g, x, 0, n) == if g[0] == x { n as nat } else { 0nat },
    decreases n,
{
    if n > 0 {
        lemma_line_count_head(bs, g, x, n - 1);
    }
}

proof fn lemma_line_count_tail(bs: Seq<Backend>, g: Seq<int>, x: int, n: int)
    requires
        g.len() > 0,
        n >= 0,
    ensures
        line_count(bs, g, x, eff_weight(bs[g[0]]), eff_weight(bs[g[0]]) + n) == line_count(bs, g.drop_first(), x, 0, n),
    decreases n,
{
    if n > 0 {
        lemma_line_count_tail(bs, g, x, n - 1);
    }
}

/// Over the whole weight line of a group without repeated indices, each
/// index of the group takes as many positions as its effective weight.
proof fn lemma_line_count_whole(bs: Seq<Backend>, g: Seq<int>, x: int)
    requires
        g.no_duplicates(),
    ensures
        line_count(bs, g, x, 0, group_weight(bs, g)) == if g.contains(x) { eff_weight(bs[x]) as nat } else { 0nat },
    decreases g.len(),
{
    if g.len() > 0 {
        let w0 = eff_weight(bs[g[0]]);
        let rest = g.drop_first();
        lemma_group_weight_nonneg(bs, rest);
        lemma_line_count_split(bs, g, x, 0, w0, group_weight(bs, g));
        lemma_line_count_head(bs, g, x, w0);
        lemma_line_count_tail(bs, g, x, group_weight(bs, rest));
        assert(rest.no_duplicates()) by {
            assert forall|a: int, b: int| 0 <= a < b < rest.len() implies rest[a] != rest[b] by {
                assert(g[a + 1] != g[b + 1]);
            }
        }
        lemma_line_count_whole(bs, rest, x);
        if g[0] == x {
            assert(!rest.contains(x)) by {
                if rest.contains(x) {
                    let k = choose|k: int| 0 <= k < rest.len() && rest[k] == x;
                    assert(g[k + 1] == g[0]);
                }
            }
        } else {
            assert(g.contains(x) == rest.contains(x)) by {
                if g.contains(x) {
                    let k = choose|k: int| 0 <= k < g.len() && g[k] == x;
                    assert(rest[k - 1] == x);
                }
                if rest.contains(x) {
                    let k = choose|k: int| 0 <= k < rest.len() && rest[k] == x;
                    assert(g[k + 1] == x);
                }
            }
        }
    } else {
        assert(!g.contains(x));
    }
}

/// The positions `(c + t) % total` for `t < total` are those of the whole
/// line, shifted round.
proof fn lemma_rr_count_rotation(bs: Seq<Backend>, g: Seq<int>, x: int, c: int, n: nat)
    requires
        group_weight(bs, g) > 0,
        0 <= c < group_weight(bs, g),
        n <= group_weight(bs, g),
    ensures
        n <= group_weight(bs, g) - c ==> rr_count(bs, g, x, c, n) == line_count(bs, g, x, c, c + n),
        n > group_weight(bs, g) - c ==> rr_count(bs, g, x, c, n)
            == line_count(bs, g, x, c, group_weight(bs, g)) + line_count(bs, g, x, 0, c + n - group_weight(bs, g)),
    decreases n,
{
    let total = group_weight(bs, g);
    if n > 0 {
        lemma_rr_count_rotation(bs, g, x, c, (n - 1) as nat);
        let p = c + n - 1;
        let bit: nat = if pick(bs, g, p % total) == x { 1nat } else { 0nat };
        assert(rr_count(bs, g, x, c, n) == rr_count(bs, g, x, c, (n - 1) as nat) + bit);
        if p < total {
            assert(p % total == p) by (nonlinear_arith)
                requires
                    0 <= p < total,
            ;
            assert(line_count(bs, g, x, c, c + n) == line_count(bs, g, x, c, c + n - 1) + bit);
        } else {
            assert(p % total == p - total) by (nonlinear_arith)
                requires
                    total <= p < 2 * total,
            ;
            let q = c + n - total;
            assert(line_count(bs, g, x, 0, q) == line_count(bs, g, x, 0, q - 1) + bit);
            if n - 1 <= total - c {
                assert(q - 1 == 0);
                assert(line_count(bs, g, x, 0, 0) == 0);
                assert(c + (n - 1) == total);
            }
        }
    }
}

/// Weighted round-robin is fair: starting from any position of the weight
/// line, `total` consecutive positions (one turn) fall on each index of the
/// group as often as its effective weight.
pub proof fn lemma_round_robin_turn(bs: Seq<Backend>, x: int, c: int)
    requires
        bs.len() > 0,
        c >= 0,
    ensures
        ({
            let g = round_robin_group(bs);
            rr_count(bs, g, x, c, group_weight(bs, g) as nat)
                == if g.contains(x) { eff_weight(bs[x]) as nat } else { 0nat }
        }),
{
    let g = round_robin_group(bs);
    let total = group_weight(bs, g);
    lemma_round_robin_group_props(bs);
    lemma_round_robin_group_distinct(bs);
    let c0 = c % total;
    assert(0 <= c0 < total) by (nonlinear_arith)
        requires
            total > 0,
            c >= 0,
            c0 == c % total,
    ;
    lemma_rr_count_same_residue(bs, g, x, c, c0, total as nat);
    lemma_rr_count_rotation(bs, g, x, c0, total as nat);
    lemma_line_count_split(bs, g, x, 0, c0, total);
    lemma_line_count_whole(bs, g, x);
}

proof fn lemma_rr_count_same_residue(bs: Seq<Backend>, g: Seq<int>, x: int, c: int, c0: int, n: nat)
    requires
        group_weight(bs, g) > 0,
        c >= 0,
        c0 == c % group_weight(bs, g),
    ensures
        rr_count(bs, g, x, c, n) == rr_count(bs, g, x, c0, n),
    decreases n,
{
    if n > 0 {
        lemma_rr_count_same_residue(bs, g, x, c, c0, (n - 1) as nat);
        let total = group_weight(bs, g);
        let k: int = n - 1;
        vstd::arithmetic::div_mod::lemma_add_mod_noop(c, k, total);
        vstd::arithmetic::div_mod::lemma_add_mod_noop(c0, k, total);
        vstd::arithmetic::div_mod::lemma_mod_twice(c, total);
        assert((c + k) % total == (c0 + k) % total);
    }
}

proof fn lemma_indices_increasing(bs: Seq<Backend>, p: i32, n: nat)
    requires
        n <= bs.len(),
    ensures
        forall|a: int, b: int| 0 <= a < b < indices_with_priority(bs, p, n).len() ==>
            indices_with_priority(bs, p, n)[a] < indices_with_priority(bs, p, n)[b],
        forall|a: int| 0 <= a < indices_with_priority(bs, p, n).len() ==> indices_with_priority(bs, p, n)[a] < n,
    decreases n,
{
    if n > 0 {
        lemma_indices_increasing(bs, p, (n - 1) as nat);
        let r = indices_with_priority(bs, p, (n - 1) as nat);
        let s = indices_with_priority(bs, p, n);
        if bs[n - 1].provider.priority == p {
            assert(s == r.push(n - 1));
            assert forall|a: int, b: int| 0 <= a < b < s.len() implies s[a] < s[b] by {
                if b < r.len() {
                    assert(s[a] == r[a] && s[b] == r[b]);
                } else {
                    assert(s[a] == r[a]);
                }
            }
            assert forall|a: int| 0 <= a < s.len() implies s[a] < n by {
                if a < r.len() {
                    assert(s[a] == r[a]);
                }
            }
        }
    }
}

proof fn lemma_insert_by_weight_count(bs: Seq<Backend>, s: Seq<int>, x: int, y: int)
    ensures
        insert_by_weight(bs, s, x).to_multiset().count(y) == s.to_multiset().count(y) + if y == x { 1nat } else { 0nat },
    decreases s.len(),
{
    broadcast use vstd::seq_lib::group_to_multiset_ensures;
    if s.len() == 0 {
        assert(seq![x] =~= Seq::<int>::empty().push(x));
    } else if bs[s.last()].provider.weight >= bs[x].provider.weight {
    } else {
        lemma_insert_by_weight_count(bs, s.drop_last(), x, y);
        assert(s =~= s.drop_last().push(s.last()));
    }
}

proof fn lemma_sort_by_weight_count(bs: Seq<Backend>, s: Seq<int>, y: int)
    ensures
        sort_by_weight(bs, s).to_multiset().count(y) == s.to_multiset().count(y),
    decreases s.len(),
{
    broadcast use vstd::seq_lib::group_to_multiset_ensures;
    if s.len() > 0 {
        lemma_sort_by_weight_count(bs, s.drop_last(), y);
        lemma_insert_by_weight_count(bs, sort_by_weight(bs, s.drop_last()), s.last(), y);
        assert(s =~= s.drop_last().push(s.last()));
    }
}

proof fn lemma_round_robin_group_distinct(bs: Seq<Backend>)
    requires
        bs.len() > 0,
    ensures
        round_robin_group(bs).no_duplicates(),
{
    let t = top_group(bs);
    let g = round_robin_group(bs);
    lemma_indices_increasing(bs, max_priority(bs), bs.len());
    assert(t.no_duplicates());
    t.lemma_multiset_has_no_duplicates();
    assert forall|y: int| g.to_multiset().count(y) <= 1 by {
        lemma_sort_by_weight_count(bs, t, y);
    }
    assert forall|y: int| #[trigger] g.to_multiset().count(y) <= 1 by {
        lemma_sort_by_weight_count(bs, t, y);
    }
    g.lemma_multiset_has_no_duplicates_conv();
}

/// How many of the backends `cs` are `b`.
pub open spec fn count_chosen(cs: Seq<Backend>, b: Backend) -> nat
    decreases cs.len(),
{
    if cs.len() == 0 {
        0
    } else {
        count_chosen(cs.drop_last(), b) + if cs.last() == b { 1nat } else { 0nat }
    }
}

/// Over one turn of weighted round-robin selections from an unchanged list
/// of distinct backends (as many selections as the highest-priority group
/// weighs), each backend of that group is chosen exactly as often as its
/// effective weight, and no other backend is chosen.
#[verifier::spinoff_prover]
pub proof fn lemma_round_robin_fair(lbs: Seq<LoadBalancer>, chosen: Seq<Backend>, bs: Seq<Backend>, x: int)
    requires
        bs.len() > 0,
        bs.no_duplicates(),
        selectable(bs),
        0 <= x < bs.len(),
        lbs.len() == chosen.len() + 1,
        chosen.len() == group_weight(bs, round_robin_group(bs)),
        lbs[0].spec_strategy() == LoadBalancingStrategy::WeightedRoundRobin,
        forall|k: int| 0 <= k < chosen.len() ==> lb_selects(#[trigger] lbs[k], bs, lbs[k + 1], chosen[k]),
    ensures
        count_chosen(chosen, bs[x]) == if round_robin_group(bs).contains(x) { eff_weight(bs[x]) as nat } else { 0nat },
{
    let g = round_robin_group(bs);
    let total = group_weight(bs, g);
    let p = max_priority(bs);
    let c0 = lbs[0].counter_of(p);
    lemma_round_robin_group_props(bs);
    lemma_top_group_nonempty(bs);
    assert(c0 >= 0);
    lemma_round_robin_steps(lbs, chosen, bs, x, chosen.len() as nat);
    assert(chosen.take(chosen.len() as int) =~= chosen);
    lemma_round_robin_turn(bs, x, c0);
}

proof fn lemma_round_robin_steps(lbs: Seq<LoadBalancer>, chosen: Seq<Backend>, bs: Seq<Backend>, x: int, n: nat)
    requires
        bs.len() > 0,
        bs.no_duplicates(),
        selectable(bs),
        0 <= x < bs.len(),
        lbs.len() == chosen.len() + 1,
        n <= chosen.len(),
        lbs[0].spec_strategy() == LoadBalancingStrategy::WeightedRoundRobin,
        forall|k: int| 0 <= k < chosen.len() ==> lb_selects(#[trigger] lbs[k], bs, lbs[k + 1], chosen[k]),
    ensures
        lbs[n as int].spec_strategy() == LoadBalancingStrategy::WeightedRoundRobin,
        lbs[n as int].counter_of(max_priority(bs)) >= 0,
        lbs[n as int].counter_of(max_priority(bs)) % group_weight(bs, round_robin_group(bs))
            == (lbs[0].counter_of(max_priority(bs)) + n) % group_weight(bs, round_robin_group(bs)),
        count_chosen(chosen.take(n as int), bs[x])
            == rr_count(bs, round_robin_group(bs), x, lbs[0].counter_of(max_priority(bs)), n),
    decreases n,
{
    let g = round_robin_group(bs);
    let total = group_weight(bs, g);
    let p = max_priority(bs);
    let c0 = lbs[0].counter_of(p);
    lemma_round_robin_group_props(bs);
    lemma_group_weight_sort(bs, top_group(bs));
    if n == 0 {
        assert(chosen.take(0).len() == 0);
    } else {
        let k: int = n - 1;
        lemma_round_robin_steps(lbs, chosen, bs, x, k as nat);
        assert(lb_selects(lbs[k], bs, lbs[k + 1], chosen[k]));
        let ck = lbs[k].counter_of(p);
        assert(0 <= ck % total < total) by (nonlinear_arith)
            requires
                total > 0,
                ck >= 0,
        ;
        assert(0 <= (ck + 1) % total < total) by (nonlinear_arith)
            requires
                total > 0,
                ck >= 0,
        ;
        assert(lbs[k + 1].counter_of(p) == (ck + 1) % total);
        vstd::arithmetic::div_mod::lemma_mod_twice(ck + 1, total);
        vstd::arithmetic::div_mod::lemma_add_mod_noop(ck, 1, total);
        vstd::arithmetic::div_mod::lemma_add_mod_noop(c0 + k, 1, total);
        assert((ck + 1) % total == (c0 + k + 1) % total);
        // the choice
        let pos = ck % total;
        lemma_pick_in_group(bs, g, pos);
        let i = pick(bs, g, pos);
        assert(top_group(bs).contains(i));
        lemma_top_group_contains(bs, i);
        assert(chosen[k] == bs[i]);
        assert(pos == (c0 + k) % total);
        assert((chosen[k] == bs[x]) == (i == x)) by {
            if i != x {
                assert(bs[i] != bs[x]);
            }
        }
        assert(chosen.take(n as int).drop_last() =~= chosen.take(k));
        assert(chosen.take(n as int).last() == chosen[k]);
    }
}

} // verus!
