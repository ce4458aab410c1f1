//! Properties of the engine that relate several of its steps.
use vstd::prelude::*;
use bevy::ecs::entity::Entity;
use crate::calculation::{amount_at, applied_stat, new_base, recalculated, source_at, Aggregate, EffectCalculation, StackingPolicy};
use crate::effects::{lemma_push_contains, tag_indices, GameplayEffect, TagId};
use crate::events::EffectMetadata;
use crate::fixed::{abs, quot};
use vstd::arithmetic::div_mod::{lemma_fundamental_div_mod, lemma_mod_pos_bound};
use crate::engine::{
    after_refresh, aligned, is_expired, lemma_removal_effects, pass_prefix, remove_one, removal_steps, stores,
    tick_pass, ticked_effects, without_indices, PassState, RemovalState,
};
use crate::stacking::policy_in;
use crate::inline::ACTIVE_EFFECTS_SIZE;
use crate::gameplay_stats::{GameplayStat, GameplayStats};

verus! {

/// Effect `k` reads another entity's stats, and those are missing.
pub open spec fn is_stale(effects: Seq<GameplayEffect>, sources: Seq<Option<GameplayStats>>, k: int) -> bool {
    effects[k].magnitude is NonlocalStat && source_at(sources, k) is None
}

/// The pass over the first `n` effects marks exactly the stale and the
/// expired ones among them, in increasing order.
proof fn lemma_pass_marks(
    init: PassState,
    effects: Seq<GameplayEffect>,
    sources: Seq<Option<GameplayStats>>,
    entity: Entity,
    secs: u32,
    n: int,
)
    requires
        0 <= n <= effects.len() <= usize::MAX,
        init.marks.len() == 0,
    ensures
        ({
            let marks = pass_prefix(init, effects, sources, n, entity, secs).marks;
            &&& forall|j: int|
                0 <= j < effects.len() ==> (#[trigger] marks.contains(j as usize) <==> (j < n && (is_stale(
                    effects,
                    sources,
                    j,
                ) || is_expired(effects[j]))))
            &&& forall|a: int, b: int| 0 <= a < b < marks.len() ==> marks[a] < marks[b]
            &&& forall|a: int| 0 <= a < marks.len() ==> marks[a] < n
        }),
    decreases n,
{
    if n == 0 {
        assert(pass_prefix(init, effects, sources, 0, entity, secs).marks == init.marks);
    } else {
        lemma_pass_marks(init, effects, sources, entity, secs, n - 1);
        let prev = pass_prefix(init, effects, sources, n - 1, entity, secs);
        let marks = pass_prefix(init, effects, sources, n, entity, secs).marks;
        let k = n - 1;
        assert((amount_at(effects, sources, prev.stats, k) is None) == is_stale(effects, sources, k));
        assert forall|j: int| 0 <= j < effects.len() implies (#[trigger] marks.contains(j as usize) <==> (j < n
            && (is_stale(effects, sources, j) || is_expired(effects[j])))) by {
            lemma_push_contains(prev.marks, k as usize, j as usize);
        }
    }
}

/// Removal keeps the notifications already made.
proof fn lemma_removed_prefix(st: RemovalState, idx: Seq<usize>, entity: Entity, source_entity: Option<Entity>)
    ensures
        ({
            let end = removal_steps(st, idx, entity, source_entity).removed;
            &&& end.len() >= st.removed.len()
            &&& forall|i: int| 0 <= i < st.removed.len() ==> end[i] == st.removed[i]
        }),
    decreases idx.len(),
{
    if idx.len() > 0 {
        let next = remove_one(st, idx.last() as int, entity, source_entity);
        lemma_removed_prefix(next, idx.drop_last(), entity, source_entity);
    }
}

/// Each removed position is reported with the tag of the effect that stood
/// there.
proof fn lemma_removed_reported(
    st: RemovalState,
    idx: Seq<usize>,
    entity: Entity,
    source_entity: Option<Entity>,
    j: int,
)
    requires
        0 <= j < idx.len(),
        forall|a: int, b: int| 0 <= a < b < idx.len() ==> idx[a] < idx[b],
        forall|a: int| 0 <= a < idx.len() ==> idx[a] < st.effects.len(),
    ensures
        removal_steps(st, idx, entity, source_entity).removed.contains(
            EffectMetadata::spec_new(entity, st.effects[idx[j] as int].tag, source_entity),
        ),
    decreases idx.len(),
{
    let m = idx.last() as int;
    let rest = idx.drop_last();
    let next = remove_one(st, m, entity, source_entity);
    let meta = EffectMetadata::spec_new(entity, st.effects[idx[j] as int].tag, source_entity);
    if j == idx.len() - 1 {
        lemma_removed_prefix(next, rest, entity, source_entity);
        let end = removal_steps(next, rest, entity, source_entity).removed;
        assert(next.removed[st.removed.len() as int] == meta);
        assert(end[st.removed.len() as int] == meta);
    } else {
        assert(idx[j] < idx[idx.len() - 1]);
        assert forall|a: int| 0 <= a < rest.len() implies rest[a] < next.effects.len() by {
            assert(idx[a] < idx[idx.len() - 1]);
        }
        assert(next.effects[rest[j] as int] == st.effects[idx[j] as int]);
        lemma_removed_reported(next, rest, entity, source_entity, j);
    }
}

/// In a tick where the entity that an effect's magnitude reads is gone, the
/// effect applies nothing, is removed from the stored effects and reported
/// removed, and the effects that are neither stale nor expired stay, in
/// their order.
pub proof fn lemma_stale_source_removed(
    stats: Seq<GameplayStat>,
    effects: Seq<GameplayEffect>,
    sources: Seq<Option<GameplayStats>>,
    tags: Seq<TagId>,
    entity: Entity,
    secs: u32,
    k: int,
)
    requires
        0 <= k < effects.len() <= ACTIVE_EFFECTS_SIZE,
        effects[k].magnitude is NonlocalStat,
        source_at(sources, k) is None,
    ensures
        ({
            let ticked = ticked_effects(effects, secs);
            let init = PassState { stats, marks: seq![], triggered: seq![], breached: seq![] };
            let before = pass_prefix(init, ticked, sources, k, entity, secs);
            let during = pass_prefix(init, ticked, sources, k + 1, entity, secs);
            let pass = tick_pass(stats, ticked, sources, entity, secs);
            let end = removal_steps(
                RemovalState {
                    stats: pass.stats,
                    effects: ticked,
                    sources: aligned(sources, effects.len()),
                    tags,
                    breached: pass.breached,
                    removed: seq![],
                },
                pass.marks,
                entity,
                None,
            );
            &&& during.stats == before.stats
            &&& during.breached == before.breached
            &&& during.triggered == before.triggered
            &&& pass.marks.contains(k as usize)
            &&& forall|j: int|
                0 <= j < effects.len() ==> (#[trigger] pass.marks.contains(j as usize) <==> (is_stale(
                    ticked,
                    sources,
                    j,
                ) || is_expired(ticked[j])))
            &&& end.effects == without_indices(ticked, pass.marks)
            &&& end.removed.contains(EffectMetadata::spec_new(entity, effects[k].tag, None))
        }),
{
    let ticked = ticked_effects(effects, secs);
    let init = PassState { stats, marks: seq![], triggered: seq![], breached: seq![] };
    let n = ticked.len() as int;
    let pass = tick_pass(stats, ticked, sources, entity, secs);
    assert(ticked[k].magnitude == effects[k].magnitude);
    assert(ticked[k].tag == effects[k].tag);
    lemma_pass_marks(init, ticked, sources, entity, secs, n);
    assert(is_stale(ticked, sources, k));
    assert(pass.marks.contains(k as usize));
    let st = RemovalState {
        stats: pass.stats,
        effects: ticked,
        sources: aligned(sources, effects.len()),
        tags,
        breached: pass.breached,
        removed: seq![],
    };
    lemma_removal_effects(st, pass.marks, entity, None);
    let j = choose|j: int| 0 <= j < pass.marks.len() && pass.marks[j] == k as usize;
    lemma_removed_reported(st, pass.marks, entity, None, j);
}

/// Whenever the bounds do not cross, an immediate application and a
/// recalculation both leave the current value within them, and a
/// recalculation leaves the modified base within them too.
pub proof fn lemma_within_bounds(st: GameplayStat, calculation: EffectCalculation, amount: i64, agg: Aggregate)
    requires
        agg.lower <= agg.upper,
    ensures
        agg.lower <= applied_stat(st, calculation, amount, agg.lower, agg.upper).current_value <= agg.upper,
        agg.lower <= recalculated(st, agg).current_value <= agg.upper,
        agg.lower <= recalculated(st, agg).modified_base <= agg.upper,
{
}

/// The most effects of one tag that `policy` lets an entity store.
pub open spec fn stacking_cap(policy: StackingPolicy) -> nat {
    match policy {
        StackingPolicy::NoStacking => 1,
        StackingPolicy::NoStackingResetDuration => 1,
        StackingPolicy::MultipleEffects(max) => max as nat,
        StackingPolicy::MultipleEffectsResetDurations(max) => max as nat,
    }
}

proof fn lemma_filter_ext(s: Seq<usize>, p: spec_fn(usize) -> bool, q: spec_fn(usize) -> bool)
    requires
        forall|i: int| 0 <= i < s.len() ==> p(#[trigger] s[i]) == q(s[i]),
    ensures
        s.filter(p) == s.filter(q),
    decreases s.len(),
{
    reveal(Seq::filter);
    if s.len() > 0 {
        let d = s.drop_last();
        assert forall|i: int| 0 <= i < d.len() implies p(#[trigger] d[i]) == q(d[i]) by {
            assert(d[i] == s[i]);
        }
        lemma_filter_ext(d, p, q);
    }
}

/// Effects with the same tags, index for index, have the same indices for
/// every tag.
proof fn lemma_same_tags(a: Seq<GameplayEffect>, b: Seq<GameplayEffect>, t: TagId)
    requires
        a.len() == b.len(),
        forall|i: int| 0 <= i < a.len() ==> (#[trigger] a[i]).tag == b[i].tag,
    ensures
        tag_indices(a, t) == tag_indices(b, t),
{
    let ids = Seq::new(a.len(), |i: int| i as usize);
    lemma_filter_ext(ids, |i: usize| a[i as int].tag == Some(t), |i: usize| b[i as int].tag == Some(t));
}

/// Storing one more effect of tag `t` adds one to its count.
proof fn lemma_push_tagged(a: Seq<GameplayEffect>, e: GameplayEffect, t: TagId)
    requires
        e.tag == Some(t),
        a.len() < ACTIVE_EFFECTS_SIZE,
    ensures
        tag_indices(a.push(e), t).len() == tag_indices(a, t).len() + 1,
{
    reveal(Seq::filter);
    let b = a.push(e);
    let ids = Seq::new(b.len(), |i: int| i as usize);
    let pb = |i: usize| b[i as int].tag == Some(t);
    let pa = |i: usize| a[i as int].tag == Some(t);
    let front = Seq::new(a.len(), |i: int| i as usize);
    assert(ids.drop_last() == front);
    assert(ids.last() == a.len() as usize);
    assert forall|i: int| 0 <= i < front.len() implies pb(#[trigger] front[i]) == pa(front[i]) by {
        assert(b[i] == a[i]);
    }
    lemma_filter_ext(front, pb, pa);
}

/// An add request never stores more effects of a tag than the tag's
/// stacking policy allows: with at most that many stored before, at most that
/// many are stored after, whatever durations it refreshes.
pub proof fn lemma_stacking_cap(
    effects: Seq<GameplayEffect>,
    e: GameplayEffect,
    policies: Map<u32, StackingPolicy>,
    t: TagId,
)
    requires
        e.tag == Some(t),
        tag_indices(effects, t).len() <= stacking_cap(policy_in(policies, t)),
    ensures
        ({
            let kept = after_refresh(effects, e, policies);
            let after = if stores(effects, e, policies) {
                kept.push(e)
            } else {
                kept
            };
            tag_indices(after, t).len() <= stacking_cap(policy_in(policies, t))
        }),
{
    let kept = after_refresh(effects, e, policies);
    assert forall|i: int| 0 <= i < effects.len() implies (#[trigger] effects[i]).tag == kept[i].tag by {}
    lemma_same_tags(effects, kept, t);
    if stores(effects, e, policies) {
        lemma_push_tagged(kept, e, t);
    }
}

proof fn lemma_quot_close(a: int, b: int)
    requires
        b != 0,
    ensures
        abs(a - quot(a, b) * b) < abs(b),
{
    let x = abs(a) as int;
    let y = abs(b) as int;
    let q = x / y;
    let r = x % y;
    lemma_fundamental_div_mod(x, y);
    lemma_mod_pos_bound(x, y);
    assert(x == y * q + r);
    assert(0 <= r < y);
    if a >= 0 && b > 0 {
        assert(quot(a, b) == q);
        assert(a - q * b == r) by (nonlinear_arith)
            requires
                x == y * q + r,
                a == x,
                b == y,
        ;
    } else if a >= 0 && b < 0 {
        assert(quot(a, b) == -q);
        assert(a - (-q) * b == r) by (nonlinear_arith)
            requires
                x == y * q + r,
                a == x,
                b == -y,
        ;
    } else if a < 0 && b > 0 {
        assert(quot(a, b) == -q);
        assert(a - (-q) * b == -r) by (nonlinear_arith)
            requires
                x == y * q + r,
                a == -x,
                b == y,
        ;
    } else {
        assert(quot(a, b) == q);
        assert(a - q * b == -r) by (nonlinear_arith)
            requires
                x == y * q + r,
                a == -x,
                b == -y,
        ;
    }
}

/// Recalculation keeps the fraction of the modified base that the current
/// value holds, up to rounding toward zero: when the rescaled value needs no
/// clamping, `current' * old_base` and `current * new_base` differ by less
/// than `old_base`.
pub proof fn lemma_rescale_keeps_ratio(st: GameplayStat, agg: Aggregate)
    requires
        st.modified_base != 0,
        i64::MIN <= quot(st.current_value * new_base(st, agg), st.modified_base as int) <= i64::MAX,
        agg.lower <= quot(st.current_value * new_base(st, agg), st.modified_base as int) <= agg.upper,
    ensures
        recalculated(st, agg).modified_base == new_base(st, agg),
        abs(recalculated(st, agg).current_value * st.modified_base - st.current_value * new_base(st, agg))
            < abs(st.modified_base as int),
{
    lemma_quot_close(st.current_value * new_base(st, agg), st.modified_base as int);
}

} // verus!
