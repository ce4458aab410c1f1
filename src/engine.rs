//! The operations a host drives: adding an effect, removing effects by tag,
//! and processing one tick of an entity's stored effects.
//!
//! The host hands each operation the entity's stats, stored effects and
//! tags, and a list of source stats: entry `i` holds the stats of the other
//! entity that stored effect `i` reads (`None` where it reads none, where
//! that entity is gone, or past the end of the list).
use vstd::prelude::*;
use bevy::ecs::entity::Entity;
use crate::calculation::{
    aggregate, aggregate_effects, amount_at, applied_stat, apply_immediate, breach_of, breach_record,
    get_effect_amount, immediate_value, recalculate_stats, recalculated, recalculation_breach, source_at,
    StackingPolicy,
};
use crate::effects::{indices_with_tag, tag_indices, ActiveEffects, ActiveTags, GameplayEffect, TagId};
use crate::events::{push_breach, with_breach, AddEffectData, BoundsBreachedMetadata, EffectEvents, EffectMetadata};
use crate::fixed::{fmul, mul_fixed};
use crate::gameplay_stats::{GameplayStat, GameplayStats};
use crate::inline::{indices_in, IndexList, ACTIVE_EFFECTS_SIZE};
use crate::stacking::{policy_in, resolve_stacking, stacking_decision, StackingBehaviors, StackingDecision};
use crate::timing::{EffectDuration, SmallTimer};

verus! {

/// `effects` with every effect tagged `tag` given `remaining` on its overall
/// timer.
pub open spec fn refreshed(effects: Seq<GameplayEffect>, tag: TagId, remaining: i64) -> Seq<GameplayEffect> {
    Seq::new(
        effects.len(),
        |i: int|
            if effects[i].tag == Some(tag) {
                effects[i].with_remaining(remaining)
            } else {
                effects[i]
            },
    )
}

/// The stacking decision for a new effect `e`; untagged effects are always
/// accepted.
pub open spec fn decision_for(
    effects: Seq<GameplayEffect>,
    e: GameplayEffect,
    policies: Map<u32, StackingPolicy>,
) -> StackingDecision {
    match e.tag {
        Some(t) => stacking_decision(policy_in(policies, t), tag_indices(effects, t).len()),
        None => StackingDecision { refresh: false, accept: true },
    }
}

/// The stored effects once the request for `e` has refreshed durations.
pub open spec fn after_refresh(
    effects: Seq<GameplayEffect>,
    e: GameplayEffect,
    policies: Map<u32, StackingPolicy>,
) -> Seq<GameplayEffect> {
    if decision_for(effects, e, policies).refresh && e.tag is Some && e.duration.timer() is Some {
        refreshed(effects, e.tag->0, e.duration.timer()->0.remaining)
    } else {
        effects
    }
}

/// Whether the request for `e` stores it: its policy accepts it and there is
/// room.
pub open spec fn stores(effects: Seq<GameplayEffect>, e: GameplayEffect, policies: Map<u32, StackingPolicy>) -> bool {
    decision_for(effects, e, policies).accept && effects.len() < ACTIVE_EFFECTS_SIZE
}

/// `tags` once `tag` is carried.
pub open spec fn tags_with(tags: Seq<TagId>, tag: Option<TagId>) -> Seq<TagId> {
    match tag {
        Some(t) => if tags.contains(t) {
            tags
        } else {
            tags.push(t)
        },
        None => tags,
    }
}

/// `sources` fitted to `n` stored effects: entry `i` for effect `i`, `None`
/// past the end of `sources`.
pub open spec fn aligned(sources: Seq<Option<GameplayStats>>, n: nat) -> Seq<Option<GameplayStats>> {
    Seq::new(n, |i: int| source_at(sources, i))
}

fn aligned_sources(sources: &Vec<Option<GameplayStats>>, n: usize) -> (r: Vec<Option<GameplayStats>>)
    ensures
        r@ == aligned(sources@, n as nat),
{
    let mut out: Vec<Option<GameplayStats>> = Vec::new();
    let mut i: usize = 0;
    while i < n
        invariant
            i <= n,
            out@ == aligned(sources@, i as nat),
        decreases n - i,
    {
        let s = if i < sources.len() {
            sources[i]
        } else {
            None
        };
        out.push(s);
        proof {
            assert(out@ =~= aligned(sources@, (i + 1) as nat));
        }
        i = i + 1;
    }
    out
}

/// Gives every stored effect tagged `tag` the time left on `timer`.
pub fn refresh_durations(effects: &mut ActiveEffects, tag: TagId, timer: SmallTimer)
    requires
        old(effects).wf(),
    ensures
        final(effects).wf(),
        final(effects)@ == refreshed(old(effects)@, tag, timer.remaining),
{
    let n = effects.len();
    let mut i: usize = 0;
    while i < n
        invariant
            n == effects@.len() == old(effects)@.len(),
            i <= n,
            effects.wf(),
            forall|j: int|
                0 <= j < n ==> #[trigger] effects@[j] == if j < i {
                    refreshed(old(effects)@, tag, timer.remaining)[j]
                } else {
                    old(effects)@[j]
                },
        decreases n - i,
    {
        let mut e = effects.get(i);
        if e.tag == Some(tag) {
            let _ = e.set_duration(timer);
        }
        proof {
            effects.lemma_valid(i as int);
        }
        effects.set(i, e);
        i = i + 1;
    }
    proof {
        assert(effects@ == refreshed(old(effects)@, tag, timer.remaining));
    }
}

/// Handles a request to add an effect.
///
/// An invalid effect, or an immediate one whose source stats are missing, is
/// dropped. An immediate effect is applied to the current value, clamped to
/// the bounds of the stored effects, and never stored. Any other effect goes
/// through its tag's stacking policy: it may refresh the durations of the
/// stored effects of its tag, and it is stored if the policy accepts it and
/// there is room, its tag then carried; a stored persistent effect triggers
/// recalculation of its stat. An added notification follows every effect
/// applied or stored.
pub fn add_effect(
    behaviors: &StackingBehaviors,
    data: &AddEffectData,
    source_stats: Option<GameplayStats>,
    sources: &Vec<Option<GameplayStats>>,
    stats: &mut GameplayStats,
    effects: &mut ActiveEffects,
    tags: &mut ActiveTags,
) -> (r: EffectEvents)
    requires
        old(effects).wf(),
    ensures
        final(effects).wf(),
        r.removed@.len() == 0,
        r.triggered@.len() == 0,
        ({
            let e = data.effect;
            let entity = data.target_entity;
            let s = e.stat_target as int;
            let amount = e.magnitude.resolved(old(stats)@, source_stats);
            let meta = EffectMetadata::spec_new(entity, e.tag, data.source_entity);
            if !e.valid() || (e.duration is Immediate && amount is None) {
                &&& final(stats)@ == old(stats)@
                &&& final(effects)@ == old(effects)@
                &&& final(tags)@ == old(tags)@
                &&& r.added@.len() == 0
                &&& r.breached@.len() == 0
            } else if e.duration is Immediate {
                let agg = aggregate(old(effects)@, sources@, old(stats)@, s);
                let a = amount->0;
                &&& final(stats)@ == old(stats)@.update(
                    s,
                    applied_stat(old(stats)@[s], e.calculation, a, agg.lower, agg.upper),
                )
                &&& final(effects)@ == old(effects)@
                &&& final(tags)@ == old(tags)@
                &&& r.added@ == seq![meta]
                &&& r.breached@ == with_breach(
                    seq![],
                    breach_record(
                        entity,
                        e.stat_target,
                        breach_of(immediate_value(old(stats)@[s].current_value, e.calculation, a), agg.lower, agg.upper),
                    ),
                )
            } else {
                let kept = after_refresh(old(effects)@, e, behaviors@);
                if stores(old(effects)@, e, behaviors@) {
                    let agg = aggregate(
                        kept.push(e),
                        aligned(sources@, old(effects)@.len()).push(source_stats),
                        old(stats)@,
                        s,
                    );
                    &&& final(effects)@ == kept.push(e)
                    &&& final(tags)@ == tags_with(old(tags)@, e.tag)
                    &&& r.added@ == seq![meta]
                    &&& if e.duration is Persistent {
                        &&& final(stats)@ == old(stats)@.update(s, recalculated(old(stats)@[s], agg))
                        &&& r.breached@ == with_breach(
                            seq![],
                            breach_record(entity, e.stat_target, recalculation_breach(old(stats)@[s], agg)),
                        )
                    } else {
                        &&& final(stats)@ == old(stats)@
                        &&& r.breached@.len() == 0
                    }
                } else {
                    &&& final(stats)@ == old(stats)@
                    &&& final(effects)@ == kept
                    &&& final(tags)@ == old(tags)@
                    &&& r.added@.len() == 0
                    &&& r.breached@.len() == 0
                }
            }
        }),
{
    let mut events = EffectEvents::new();
    let e = data.effect;
    let entity = data.target_entity;
    if !e.is_valid() {
        return events;
    }
    if let EffectDuration::Immediate = e.duration {
        match get_effect_amount(&e, stats, source_stats) {
            None => {
                return events;
            },
            Some(a) => {
                let agg = aggregate_effects(effects, sources, stats, e.stat_target);
                let b = apply_immediate(entity, &e, stats, a, agg.upper, agg.lower);
                push_breach(&mut events.breached, b);
                events.added.push(EffectMetadata::new(entity, e.tag, data.source_entity));
                return events;
            },
        }
    }
    let decision = match e.tag {
        Some(t) => {
            let existing = effects.match_effect_type(t).len();
            resolve_stacking(behaviors.policy(t), existing)
        },
        None => StackingDecision { refresh: false, accept: true },
    };
    if decision.refresh {
        if let Some(t) = e.tag {
            if let Some(timer) = e.get_duration_timer() {
                refresh_durations(effects, t, timer);
            }
        }
    }
    if !decision.accept || effects.len() >= ACTIVE_EFFECTS_SIZE {
        return events;
    }
    effects.push(e);
    if let Some(t) = e.tag {
        tags.add(t);
    }
    if let EffectDuration::Persistent(_) = e.duration {
        let mut all = aligned_sources(sources, effects.len() - 1);
        all.push(source_stats);
        let b = recalculate_stats(entity, effects, &all, e.stat_target, stats);
        push_breach(&mut events.breached, b);
    }
    events.added.push(EffectMetadata::new(entity, e.tag, data.source_entity));
    events
}

/// The state that removals work on.
pub struct RemovalState {
    pub stats: Seq<GameplayStat>,
    pub effects: Seq<GameplayEffect>,
    pub sources: Seq<Option<GameplayStats>>,
    pub tags: Seq<TagId>,
    pub breached: Seq<BoundsBreachedMetadata>,
    pub removed: Seq<EffectMetadata>,
}

/// Removes stored effect `i`: its stat is recalculated against the effects
/// that remain, its tag is dropped once no remaining effect carries it, and a
/// removed notification follows.
pub open spec fn remove_one(st: RemovalState, i: int, entity: Entity, source_entity: Option<Entity>) -> RemovalState {
    let e = st.effects[i];
    let effects = st.effects.remove(i);
    let sources = st.sources.remove(i);
    let s = e.stat_target as int;
    let agg = aggregate(effects, sources, st.stats, s);
    RemovalState {
        stats: st.stats.update(s, recalculated(st.stats[s], agg)),
        effects,
        sources,
        tags: match e.tag {
            Some(t) => if indices_with_tag(effects, Some(t)).len() == 0 {
                st.tags.filter(|x: TagId| x != t)
            } else {
                st.tags
            },
            None => st.tags,
        },
        breached: with_breach(st.breached, breach_record(entity, e.stat_target, recalculation_breach(st.stats[s], agg))),
        removed: st.removed.push(EffectMetadata::spec_new(entity, e.tag, source_entity)),
    }
}

/// Removes the effects at `indices`, the last index first.
pub open spec fn removal_steps(
    st: RemovalState,
    indices: Seq<usize>,
    entity: Entity,
    source_entity: Option<Entity>,
) -> RemovalState
    decreases indices.len(),
{
    if indices.len() == 0 {
        st
    } else {
        removal_steps(
            remove_one(st, indices.last() as int, entity, source_entity),
            indices.drop_last(),
            entity,
            source_entity,
        )
    }
}

/// The items among the first `n` of `s` whose positions `idx` does not name,
/// in order.
pub open spec fn keep_prefix<A>(s: Seq<A>, idx: Seq<usize>, n: int) -> Seq<A>
    decreases n,
{
    if n <= 0 {
        seq![]
    } else if idx.contains((n - 1) as usize) {
        keep_prefix(s, idx, n - 1)
    } else {
        keep_prefix(s, idx, n - 1).push(s[n - 1])
    }
}

/// `s` without the items at the positions in `idx`, the others in order.
pub open spec fn without_indices<A>(s: Seq<A>, idx: Seq<usize>) -> Seq<A> {
    keep_prefix(s, idx, s.len() as int)
}

proof fn lemma_keep_tail<A>(s: Seq<A>, idx: Seq<usize>, n0: int, n: int)
    requires
        0 <= n0 <= n <= s.len() <= usize::MAX,
        forall|j: int| 0 <= j < idx.len() ==> idx[j] < n0,
    ensures
        keep_prefix(s, idx, n) == keep_prefix(s, idx, n0) + s.subrange(n0, n),
    decreases n,
{
    if n == n0 {
        assert(s.subrange(n0, n) =~= Seq::<A>::empty());
        assert(keep_prefix(s, idx, n0) + s.subrange(n0, n) =~= keep_prefix(s, idx, n0));
    } else {
        lemma_keep_tail(s, idx, n0, n - 1);
        if idx.contains((n - 1) as usize) {
            let j = choose|j: int| 0 <= j < idx.len() && idx[j] == (n - 1) as usize;
            assert(idx[j] < n0);
        }
        assert(keep_prefix(s, idx, n0) + s.subrange(n0, n) =~= (keep_prefix(s, idx, n0) + s.subrange(
            n0,
            n - 1,
        )).push(s[n - 1]));
    }
}

proof fn lemma_keep_same<A>(s1: Seq<A>, s2: Seq<A>, idx1: Seq<usize>, idx2: Seq<usize>, n: int)
    requires
        0 <= n <= s1.len(),
        n <= s2.len(),
        n <= usize::MAX,
        forall|p: int| 0 <= p < n ==> s1[p] == s2[p] && idx1.contains(p as usize) == idx2.contains(p as usize),
    ensures
        keep_prefix(s1, idx1, n) == keep_prefix(s2, idx2, n),
    decreases n,
{
    if n > 0 {
        lemma_keep_same(s1, s2, idx1, idx2, n - 1);
    }
}

pub(crate) proof fn lemma_removal_effects(st: RemovalState, idx: Seq<usize>, entity: Entity, source_entity: Option<Entity>)
    requires
        st.effects.len() <= usize::MAX,
        forall|a: int, b: int| 0 <= a < b < idx.len() ==> idx[a] < idx[b],
        forall|a: int| 0 <= a < idx.len() ==> idx[a] < st.effects.len(),
    ensures
        removal_steps(st, idx, entity, source_entity).effects == without_indices(st.effects, idx),
    decreases idx.len(),
{
    let e = st.effects;
    let n = e.len() as int;
    if idx.len() == 0 {
        lemma_keep_tail(e, idx, 0, n);
        assert(keep_prefix(e, idx, 0) + e.subrange(0, n) =~= e);
    } else {
        let m = idx.last() as int;
        let rest = idx.drop_last();
        let next = remove_one(st, m, entity, source_entity);
        let e2 = next.effects;
        assert(e2 == e.remove(m));
        assert forall|a: int| 0 <= a < rest.len() implies rest[a] < e2.len() by {
            assert(idx[a] < idx[idx.len() - 1]);
        }
        lemma_removal_effects(next, rest, entity, source_entity);
        assert forall|a: int| 0 <= a < rest.len() implies rest[a] < m by {
            assert(idx[a] < idx[idx.len() - 1]);
        }
        lemma_keep_tail(e2, rest, m, n - 1);
        assert(idx == rest.push(idx.last()));
        assert forall|p: int| 0 <= p < m implies e2[p] == e[p] && rest.contains(p as usize) == idx.contains(
            p as usize,
        ) by {
            if idx.contains(p as usize) {
                let j = choose|j: int| 0 <= j < idx.len() && idx[j] == p as usize;
                assert(j < idx.len() - 1);
                assert(rest[j] == p as usize);
            }
            if rest.contains(p as usize) {
                let j = choose|j: int| 0 <= j < rest.len() && rest[j] == p as usize;
                assert(idx[j] == p as usize);
            }
        }
        lemma_keep_same(e2, e, rest, idx, m);
        assert forall|a: int| 0 <= a < idx.len() implies idx[a] < m + 1 by {
            if a < idx.len() - 1 {
                assert(idx[a] < idx[idx.len() - 1]);
            }
        }
        lemma_keep_tail(e, idx, m + 1, n);
        assert(idx.contains(m as usize)) by {
            assert(idx[idx.len() - 1] == m as usize);
        }
        assert(e2.subrange(m, n - 1) =~= e.subrange(m + 1, n));
    }
}

proof fn lemma_keep_filter(e: Seq<GameplayEffect>, idx: Seq<usize>, tag: Option<TagId>, k: int)
    requires
        0 <= k <= e.len() <= usize::MAX,
        forall|p: int| 0 <= p < e.len() ==> idx.contains(p as usize) == (e[p].tag == tag),
    ensures
        keep_prefix(e, idx, k) == e.take(k).filter(|x: GameplayEffect| x.tag != tag),
    decreases k,
{
    reveal(Seq::filter);
    if k > 0 {
        lemma_keep_filter(e, idx, tag, k - 1);
        assert(e.take(k).drop_last() == e.take(k - 1));
        assert(e.take(k).last() == e[k - 1]);
    } else {
        assert(e.take(0).len() == 0);
    }
}

/// Dropping the positions where the tag is `tag` keeps exactly the effects
/// whose tag differs.
proof fn lemma_without_tagged(e: Seq<GameplayEffect>, tag: Option<TagId>)
    requires
        e.len() <= usize::MAX,
    ensures
        without_indices(e, indices_with_tag(e, tag)) == e.filter(|x: GameplayEffect| x.tag != tag),
{
    let n = e.len() as int;
    let ids = Seq::new(e.len(), |i: int| i as usize);
    let pred = |i: usize| e[i as int].tag == tag;
    let idx = indices_with_tag(e, tag);
    let f = |x: GameplayEffect| x.tag != tag;
    assert forall|p: int| 0 <= p < n implies idx.contains(p as usize) == (e[p].tag == tag) by {
        assert(ids[p] == p as usize);
        crate::effects::lemma_filter_contains_iff(ids, pred, p as usize);
    }
    lemma_keep_filter(e, idx, tag, n);
    assert(e.take(n) == e);
}

/// Removes the effects at the increasing `indices` in reverse order, keeping
/// `sources` aligned with the stored effects.
fn remove_indices(
    entity: Entity,
    source_entity: Option<Entity>,
    indices: &IndexList,
    sources: &mut Vec<Option<GameplayStats>>,
    stats: &mut GameplayStats,
    effects: &mut ActiveEffects,
    tags: &mut ActiveTags,
    events: &mut EffectEvents,
)
    requires
        old(effects).wf(),
        old(sources)@.len() == old(effects)@.len(),
        forall|a: int, b: int| 0 <= a < b < indices_in(*indices).len() ==> indices_in(*indices)[a] < indices_in(*indices)[b],
        forall|a: int| 0 <= a < indices_in(*indices).len() ==> indices_in(*indices)[a] < old(effects)@.len(),
    ensures
        final(effects).wf(),
        final(effects)@.len() == old(effects)@.len() - indices_in(*indices).len(),
        final(events).added@ == old(events).added@,
        final(events).triggered@ == old(events).triggered@,
        ({
            let end = removal_steps(
                RemovalState {
                    stats: old(stats)@,
                    effects: old(effects)@,
                    sources: old(sources)@,
                    tags: old(tags)@,
                    breached: old(events).breached@,
                    removed: old(events).removed@,
                },
                indices_in(*indices),
                entity,
                source_entity,
            );
            &&& final(stats)@ == end.stats
            &&& final(effects)@ == end.effects
            &&& final(tags)@ == end.tags
            &&& final(events).breached@ == end.breached
            &&& final(events).removed@ == end.removed
        }),
{
    let ghost idx = indices_in(*indices);
    let ghost end = removal_steps(
        RemovalState {
            stats: stats@,
            effects: effects@,
            sources: sources@,
            tags: tags@,
            breached: events.breached@,
            removed: events.removed@,
        },
        idx,
        entity,
        source_entity,
    );
    let mut k: usize = indices.len();
    proof {
        assert(idx.take(k as int) == idx);
    }
    while k > 0
        invariant
            k <= idx.len(),
            idx == indices_in(*indices),
            effects.wf(),
            sources@.len() == effects@.len(),
            effects@.len() == old(effects)@.len() - (idx.len() - k),
            forall|a: int, b: int| 0 <= a < b < idx.len() ==> idx[a] < idx[b],
            forall|a: int| 0 <= a < k ==> idx[a] < effects@.len(),
            events.added@ == old(events).added@,
            events.triggered@ == old(events).triggered@,
            end == removal_steps(
                RemovalState {
                    stats: stats@,
                    effects: effects@,
                    sources: sources@,
                    tags: tags@,
                    breached: events.breached@,
                    removed: events.removed@,
                },
                idx.take(k as int),
                entity,
                source_entity,
            ),
        decreases k,
    {
        let i = indices.get(k - 1);
        let ghost before = RemovalState {
            stats: stats@,
            effects: effects@,
            sources: sources@,
            tags: tags@,
            breached: events.breached@,
            removed: events.removed@,
        };
        proof {
            effects.lemma_valid(i as int);
            assert(idx.take(k as int).last() == i);
            assert(idx.take(k as int).drop_last() == idx.take(k - 1));
        }
        let e = effects.remove(i);
        sources.remove(i);
        proof {
            assert forall|j: int| 0 <= j < effects@.len() implies (#[trigger] effects@[j]).valid() by {
                if j < i {
                    assert(effects@[j] == before.effects[j]);
                } else {
                    assert(effects@[j] == before.effects[j + 1]);
                }
            }
        }
        let b = recalculate_stats(entity, effects, sources, e.stat_target, stats);
        push_breach(&mut events.breached, b);
        events.removed.push(EffectMetadata::new(entity, e.tag, source_entity));
        if let Some(t) = e.tag {
            if effects.match_effect_type(t).len() == 0 {
                tags.remove(t);
            }
        }
        proof {
            assert forall|a: int| 0 <= a < k - 1 implies idx[a] < effects@.len() by {
                assert(idx[a] < idx[k - 1]);
            }
        }
        k = k - 1;
    }
    proof {
        assert(idx.take(0) == Seq::<usize>::empty());
    }
}

/// Handles a request to remove effects: every stored effect whose tag equals
/// the request's (the untagged ones when it names none) is removed, the last
/// first, each followed by recalculation of its stat and a removed
/// notification; the request's tag is no longer carried.
pub fn remove_effect(
    request: &EffectMetadata,
    sources: &Vec<Option<GameplayStats>>,
    stats: &mut GameplayStats,
    effects: &mut ActiveEffects,
    tags: &mut ActiveTags,
) -> (r: EffectEvents)
    requires
        old(effects).wf(),
    ensures
        final(effects).wf(),
        r.added@.len() == 0,
        r.triggered@.len() == 0,
        final(effects)@.len() == old(effects)@.len() - indices_with_tag(old(effects)@, request.tag).len(),
        final(effects)@ == old(effects)@.filter(|e: GameplayEffect| e.tag != request.tag),
        ({
            let start = RemovalState {
                stats: old(stats)@,
                effects: old(effects)@,
                sources: aligned(sources@, old(effects)@.len()),
                tags: match request.tag {
                    Some(t) => old(tags)@.filter(|x: TagId| x != t),
                    None => old(tags)@,
                },
                breached: seq![],
                removed: seq![],
            };
            let end = removal_steps(
                start,
                indices_with_tag(old(effects)@, request.tag),
                request.target_entity,
                request.source_entity,
            );
            &&& final(stats)@ == end.stats
            &&& final(effects)@ == end.effects
            &&& final(tags)@ == end.tags
            &&& r.breached@ == end.breached
            &&& r.removed@ == end.removed
        }),
{
    let mut events = EffectEvents::new();
    if let Some(t) = request.tag {
        tags.remove(t);
    }
    let indices = effects.collect_tagged(request.tag);
    let mut srcs = aligned_sources(sources, effects.len());
    let ghost start = RemovalState {
        stats: stats@,
        effects: effects@,
        sources: srcs@,
        tags: tags@,
        breached: events.breached@,
        removed: events.removed@,
    };
    proof {
        lemma_removal_effects(start, indices_in(indices), request.target_entity, request.source_entity);
        lemma_without_tagged(effects@, request.tag);
    }
    remove_indices(
        request.target_entity,
        request.source_entity,
        &indices,
        &mut srcs,
        stats,
        effects,
        tags,
        &mut events,
    );
    events
}

/// The effect with every timer counted down by `secs` milliseconds.
pub open spec fn ticked_effect(e: GameplayEffect, secs: u32) -> GameplayEffect {
    GameplayEffect { duration: e.duration.ticked(secs), ..e }
}

pub open spec fn ticked_effects(effects: Seq<GameplayEffect>, secs: u32) -> Seq<GameplayEffect> {
    Seq::new(effects.len(), |i: int| ticked_effect(effects[i], secs))
}

/// The effect's overall timer has run out.
pub open spec fn is_expired(e: GameplayEffect) -> bool {
    match e.duration.timer() {
        Some(t) => t.is_finished(),
        None => false,
    }
}

/// The effect repeats and its period has just elapsed.
pub open spec fn fires(e: GameplayEffect) -> bool {
    match e.duration {
        EffectDuration::Repeating(p, _) => p.triggered,
        _ => false,
    }
}

/// The state of the application pass of a tick.
pub struct PassState {
    pub stats: Seq<GameplayStat>,
    pub marks: Seq<usize>,
    pub triggered: Seq<EffectMetadata>,
    pub breached: Seq<BoundsBreachedMetadata>,
}

/// Effect `k` takes its turn in the application pass. An effect whose amount
/// cannot be resolved (its source entity is gone) is marked for removal and
/// applies nothing; an expired effect is marked too. A continuous effect
/// applies its amount scaled by the elapsed time, a repeating one whose
/// period elapsed applies its full amount and is reported as triggered; the
/// result is clamped to the stat's bounds.
pub open spec fn pass_step(
    st: PassState,
    effects: Seq<GameplayEffect>,
    sources: Seq<Option<GameplayStats>>,
    k: int,
    entity: Entity,
    secs: u32,
) -> PassState {
    let e = effects[k];
    let amount = amount_at(effects, sources, st.stats, k);
    let stale = amount is None;
    let applies = !stale && (fires(e) || e.duration is Continuous);
    let a = if e.duration is Continuous {
        fmul(amount->0 as int, secs as int)
    } else {
        amount->0
    };
    let s = e.stat_target as int;
    let agg = aggregate(effects, sources, st.stats, s);
    PassState {
        stats: if applies {
            st.stats.update(s, applied_stat(st.stats[s], e.calculation, a, agg.lower, agg.upper))
        } else {
            st.stats
        },
        marks: if stale || is_expired(e) {
            st.marks.push(k as usize)
        } else {
            st.marks
        },
        triggered: if !stale && fires(e) {
            st.triggered.push(EffectMetadata::spec_new(entity, e.tag, None))
        } else {
            st.triggered
        },
        breached: if applies {
            with_breach(
                st.breached,
                breach_record(
                    entity,
                    e.stat_target,
                    breach_of(immediate_value(st.stats[s].current_value, e.calculation, a), agg.lower, agg.upper),
                ),
            )
        } else {
            st.breached
        },
    }
}

/// The application pass over the first `n` effects.
pub open spec fn pass_prefix(
    init: PassState,
    effects: Seq<GameplayEffect>,
    sources: Seq<Option<GameplayStats>>,
    n: int,
    entity: Entity,
    secs: u32,
) -> PassState
    decreases n,
{
    if n <= 0 {
        init
    } else {
        pass_step(pass_prefix(init, effects, sources, n - 1, entity, secs), effects, sources, n - 1, entity, secs)
    }
}

/// The application pass of a tick over stored effects whose timers have
/// already been counted down.
pub open spec fn tick_pass(
    stats: Seq<GameplayStat>,
    effects: Seq<GameplayEffect>,
    sources: Seq<Option<GameplayStats>>,
    entity: Entity,
    secs: u32,
) -> PassState {
    pass_prefix(
        PassState { stats, marks: seq![], triggered: seq![], breached: seq![] },
        effects,
        sources,
        effects.len() as int,
        entity,
        secs,
    )
}

/// Counts down every stored effect's timers.
fn tick_timers(effects: &mut ActiveEffects, secs: u32)
    requires
        old(effects).wf(),
    ensures
        final(effects).wf(),
        final(effects)@ == ticked_effects(old(effects)@, secs),
{
    let n = effects.len();
    let mut i: usize = 0;
    while i < n
        invariant
            n == effects@.len() == old(effects)@.len(),
            i <= n,
            effects.wf(),
            forall|j: int|
                0 <= j < n ==> #[trigger] effects@[j] == if j < i {
                    ticked_effect(old(effects)@[j], secs)
                } else {
                    old(effects)@[j]
                },
        decreases n - i,
    {
        let mut e = effects.get(i);
        e.duration.tick(secs);
        proof {
            effects.lemma_valid(i as int);
        }
        effects.set(i, e);
        i = i + 1;
    }
    proof {
        assert(effects@ == ticked_effects(old(effects)@, secs));
    }
}

/// Processes one tick of `secs` milliseconds for one entity.
///
/// Every timer is counted down first. Then each stored effect, in order,
/// takes its turn in the application pass (see `pass_step`), reading the
/// stats as the earlier effects left them. Last, the effects marked during
/// the pass are removed, the last first, each followed by recalculation of
/// its stat and a removed notification.
pub fn process_active_effects(
    entity: Entity,
    secs: u32,
    sources: &Vec<Option<GameplayStats>>,
    stats: &mut GameplayStats,
    effects: &mut ActiveEffects,
    tags: &mut ActiveTags,
) -> (r: EffectEvents)
    requires
        old(effects).wf(),
    ensures
        final(effects).wf(),
        r.added@.len() == 0,
        ({
            let ticked = ticked_effects(old(effects)@, secs);
            let pass = tick_pass(old(stats)@, ticked, sources@, entity, secs);
            let end = removal_steps(
                RemovalState {
                    stats: pass.stats,
                    effects: ticked,
                    sources: aligned(sources@, old(effects)@.len()),
                    tags: old(tags)@,
                    breached: pass.breached,
                    removed: seq![],
                },
                pass.marks,
                entity,
                None,
            );
            &&& final(stats)@ == end.stats
            &&& final(effects)@ == end.effects
            &&& final(effects)@ == without_indices(ticked, pass.marks)
            &&& final(effects)@.len() == old(effects)@.len() - pass.marks.len()
            &&& final(tags)@ == end.tags
            &&& r.triggered@ == pass.triggered
            &&& r.breached@ == end.breached
            &&& r.removed@ == end.removed
        }),
{
    let mut events = EffectEvents::new();
    tick_timers(effects, secs);
    let ghost ticked = effects@;
    let ghost init = PassState { stats: stats@, marks: seq![], triggered: seq![], breached: seq![] };
    let n = effects.len();
    let mut marks = IndexList::new();
    let mut k: usize = 0;
    while k < n
        invariant
            n == effects@.len() <= ACTIVE_EFFECTS_SIZE,
            effects@ == ticked,
            effects.wf(),
            k <= n,
            indices_in(marks).len() <= k,
            forall|a: int, b: int| 0 <= a < b < indices_in(marks).len() ==> indices_in(marks)[a] < indices_in(marks)[b],
            forall|a: int| 0 <= a < indices_in(marks).len() ==> indices_in(marks)[a] < k,
            events.added@.len() == 0,
            events.removed@.len() == 0,
            ({
                let st = pass_prefix(init, ticked, sources@, k as int, entity, secs);
                &&& stats@ == st.stats
                &&& indices_in(marks) == st.marks
                &&& events.triggered@ == st.triggered
                &&& events.breached@ == st.breached
            }),
        decreases n - k,
    {
        let e = effects.get(k);
        proof {
            effects.lemma_valid(k as int);
        }
        let source = if k < sources.len() {
            sources[k]
        } else {
            None
        };
        let amount = get_effect_amount(&e, stats, source);
        let expired = match e.get_duration_timer() {
            Some(t) => t.finished(),
            None => false,
        };
        if amount.is_none() || expired {
            marks.push(k);
        }
        let fired = match e.duration {
            EffectDuration::Repeating(p, _) => p.just_triggered(),
            _ => false,
        };
        let continuous = match e.duration {
            EffectDuration::Continuous(_) => true,
            _ => false,
        };
        if let Some(a0) = amount {
            if fired {
                events.triggered.push(EffectMetadata::new(entity, e.tag, None));
            }
            if fired || continuous {
                let a = if continuous {
                    mul_fixed(a0, secs as i64)
                } else {
                    a0
                };
                let agg = aggregate_effects(effects, sources, stats, e.stat_target);
                let b = apply_immediate(entity, &e, stats, a, agg.upper, agg.lower);
                push_breach(&mut events.breached, b);
            }
        }
        k = k + 1;
    }
    proof {
        assert(events.removed@ =~= seq![]);
        assert(ticked.len() == old(effects)@.len());
    }
    let mut srcs = aligned_sources(sources, effects.len());
    proof {
        lemma_removal_effects(
            RemovalState {
                stats: stats@,
                effects: effects@,
                sources: srcs@,
                tags: tags@,
                breached: events.breached@,
                removed: events.removed@,
            },
            indices_in(marks),
            entity,
            None,
        );
    }
    remove_indices(entity, None, &marks, &mut srcs, stats, effects, tags, &mut events);
    events
}

} // verus!
