//! How effects combine with stats: magnitude resolution, bounds, immediate
//! application and recalculation of a stat's modified base.
use vstd::prelude::*;
use bevy::ecs::entity::Entity;
use crate::fixed::{add_sat, fmul, max_i64, max_of, min_i64, min_of, mul_div, mul_fixed, pow_fixed, quot, sat, sub_sat, fpow, UNIT};
use crate::gameplay_stats::{GameplayStat, GameplayStats, STAT_LIMIT};
use crate::effects::{reads_entity, ActiveEffects, GameplayEffect};
use crate::events::BoundsBreachedMetadata;
use crate::timing::EffectDuration;

verus! {

/// How many effects of one tag may be stored at once.
#[derive(Clone, Copy, Debug, PartialEq, Eq, Structural)]
pub enum StackingPolicy {
    /// A second effect of the tag is rejected.
    NoStacking,
    /// A second effect is rejected, and the stored one takes its duration.
    NoStackingResetDuration,
    /// Up to the given number are stored; further ones are rejected.
    MultipleEffects(u8),
    /// As `MultipleEffects`, and every request refreshes the stored ones'
    /// durations.
    MultipleEffectsResetDurations(u8),
}

impl Default for StackingPolicy {
    fn default() -> (r: StackingPolicy)
        ensures
            r == StackingPolicy::NoStacking,
    {
        StackingPolicy::NoStacking
    }
}

/// How an effect's magnitude combines with its stat.
#[derive(Clone, Copy, Debug, PartialEq, Eq, Structural)]
pub enum EffectCalculation {
    Additive,
    Multiplicative,
    LowerBound,
    UpperBound,
    /// Sets the current value outright.
    SetValue,
}

/// `clamp(shift + multiplier * (stat - stat_offset)^exponent, min, max)`.
#[derive(Clone, Copy, Debug, PartialEq, Eq, Structural)]
pub struct StatScalingParams {
    pub shift: i64,
    pub stat_offset: i64,
    pub multiplier: i64,
    pub exponent: u32,
    pub min: Option<i64>,
    pub max: Option<i64>,
}

impl Default for StatScalingParams {
    /// The identity: the stat itself.
    fn default() -> (r: StatScalingParams)
        ensures
            r == (StatScalingParams {
                shift: 0,
                stat_offset: 0,
                multiplier: UNIT,
                exponent: 1,
                min: None,
                max: None,
            }),
    {
        StatScalingParams { shift: 0, stat_offset: 0, multiplier: UNIT, exponent: 1, min: None, max: None }
    }
}

impl StatScalingParams {
    pub open spec fn scaled(self, stat: i64) -> i64 {
        let raw = sat(self.shift + fmul(self.multiplier as int, fpow(sat(stat - self.stat_offset), self.exponent as nat) as int));
        let floored = match self.min {
            Some(m) => max_i64(m, raw),
            None => raw,
        };
        match self.max {
            Some(m) => min_i64(m, floored),
            None => floored,
        }
    }

    pub fn apply(&self, stat: i64) -> (r: i64)
        ensures
            r == self.scaled(stat),
    {
        let base = pow_fixed(sub_sat(stat, self.stat_offset), self.exponent);
        let mut out = add_sat(self.shift, mul_fixed(self.multiplier, base));
        if let Some(min) = self.min {
            out = max_of(min, out);
        }
        if let Some(max) = self.max {
            out = min_of(max, out);
        }
        out
    }
}

/// Where an effect's amount comes from.
#[derive(Clone, Copy)]
pub enum EffectMagnitude {
    Fixed(i64),
    /// A scaled read of a stat of the same entity.
    LocalStat(u8, StatScalingParams),
    /// A scaled read of a stat of another entity.
    NonlocalStat(u8, StatScalingParams, Entity),
}

impl EffectMagnitude {
    /// Every stat that the magnitude reads has a slot.
    pub open spec fn reads_valid_stat(self) -> bool {
        match self {
            EffectMagnitude::Fixed(_) => true,
            EffectMagnitude::LocalStat(s, _) => s < STAT_LIMIT,
            EffectMagnitude::NonlocalStat(s, _, _) => s < STAT_LIMIT,
        }
    }

    /// The amount, read from `local` or from the other entity's `source`;
    /// none when the other entity's stats are missing.
    pub open spec fn resolved(self, local: Seq<GameplayStat>, source: Option<GameplayStats>) -> Option<i64> {
        match self {
            EffectMagnitude::Fixed(x) => Some(x),
            EffectMagnitude::LocalStat(s, p) => Some(p.scaled(local[s as int].current_value)),
            EffectMagnitude::NonlocalStat(s, p, _) => match source {
                Some(st) => Some(p.scaled(st.value_of(s as int))),
                None => None,
            },
        }
    }

    /// The other entity whose stats the magnitude reads, if any.
    pub fn source_entity(&self) -> (r: Option<Entity>)
        ensures
            r == reads_entity(*self),
    {
        match self {
            EffectMagnitude::NonlocalStat(_, _, entity) => Some(*entity),
            _ => None,
        }
    }

    pub fn resolve(&self, local: &GameplayStats, source: Option<GameplayStats>) -> (r: Option<i64>)
        requires
            self.reads_valid_stat(),
        ensures
            r == self.resolved(local@, source),
    {
        match self {
            EffectMagnitude::Fixed(x) => Some(*x),
            EffectMagnitude::LocalStat(s, p) => Some(p.apply(local.current(*s))),
            EffectMagnitude::NonlocalStat(s, p, _) => match source {
                Some(st) => Some(p.apply(st.current(*s))),
                None => None,
            },
        }
    }
}

/// The amount of `effect`, read from `local` or, for a magnitude that reads
/// another entity, from that entity's `source` stats; none when those are
/// missing.
pub fn get_effect_amount(effect: &GameplayEffect, local: &GameplayStats, source: Option<GameplayStats>) -> (r:
    Option<i64>)
    requires
        effect.valid(),
    ensures
        r == effect.magnitude.resolved(local@, source),
{
    effect.magnitude.resolve(local, source)
}

/// The stats of the other entity that effect `i` reads, if known.
pub open spec fn source_at(sources: Seq<Option<GameplayStats>>, i: int) -> Option<GameplayStats> {
    if 0 <= i < sources.len() {
        sources[i]
    } else {
        None
    }
}

/// The amount of effect `i` of `effects`.
pub open spec fn amount_at(
    effects: Seq<GameplayEffect>,
    sources: Seq<Option<GameplayStats>>,
    local: Seq<GameplayStat>,
    i: int,
) -> Option<i64> {
    effects[i].magnitude.resolved(local, source_at(sources, i))
}

/// What the stored effects make of one stat: its bounds, and the sum and
/// product of its persistent modifiers.
#[derive(Clone, Copy, Debug, PartialEq, Eq)]
pub struct Aggregate {
    pub lower: i64,
    pub upper: i64,
    pub additive: i64,
    pub multiplicative: i64,
}

/// No bounds and no modifiers.
pub open spec fn empty_aggregate() -> Aggregate {
    Aggregate { lower: i64::MIN, upper: i64::MAX, additive: 0, multiplicative: UNIT }
}

/// `acc` with effect `e`, of amount `amount`, taken into account for stat `s`.
/// Effects on other stats, and effects whose amount is unknown, change nothing.
pub open spec fn aggregate_step(acc: Aggregate, e: GameplayEffect, amount: Option<i64>, s: int) -> Aggregate {
    if e.stat_target as int != s || amount is None {
        acc
    } else {
        let a = amount->0;
        match e.calculation {
            EffectCalculation::LowerBound => Aggregate { lower: max_i64(acc.lower, a), ..acc },
            EffectCalculation::UpperBound => Aggregate { upper: min_i64(acc.upper, a), ..acc },
            EffectCalculation::Additive => if e.duration is Persistent {
                Aggregate { additive: sat(acc.additive + a), ..acc }
            } else {
                acc
            },
            EffectCalculation::Multiplicative => if e.duration is Persistent {
                Aggregate { multiplicative: fmul(acc.multiplicative as int, a as int), ..acc }
            } else {
                acc
            },
            EffectCalculation::SetValue => acc,
        }
    }
}

/// The aggregate of the first `n` effects for stat `s`: the lower bound is the
/// largest lower-bound amount (`i64::MIN` if none), the upper bound the
/// smallest upper-bound amount (`i64::MAX` if none); the sum and product run
/// over the persistent additive and multiplicative effects.
pub open spec fn aggregate_prefix(
    effects: Seq<GameplayEffect>,
    sources: Seq<Option<GameplayStats>>,
    local: Seq<GameplayStat>,
    s: int,
    n: int,
) -> Aggregate
    decreases n,
{
    if n <= 0 {
        empty_aggregate()
    } else {
        aggregate_step(
            aggregate_prefix(effects, sources, local, s, n - 1),
            effects[n - 1],
            amount_at(effects, sources, local, n - 1),
            s,
        )
    }
}

pub open spec fn aggregate(
    effects: Seq<GameplayEffect>,
    sources: Seq<Option<GameplayStats>>,
    local: Seq<GameplayStat>,
    s: int,
) -> Aggregate {
    aggregate_prefix(effects, sources, local, s, effects.len() as int)
}

/// Scans the stored effects for stat `stat`.
pub fn aggregate_effects(
    effects: &ActiveEffects,
    sources: &Vec<Option<GameplayStats>>,
    local: &GameplayStats,
    stat: u8,
) -> (r: Aggregate)
    requires
        effects.wf(),
    ensures
        r == aggregate(effects@, sources@, local@, stat as int),
{
    let mut acc = Aggregate { lower: i64::MIN, upper: i64::MAX, additive: 0, multiplicative: UNIT };
    let n = effects.len();
    let mut i: usize = 0;
    while i < n
        invariant
            effects.wf(),
            n == effects@.len(),
            i <= n,
            acc == aggregate_prefix(effects@, sources@, local@, stat as int, i as int),
        decreases n - i,
    {
        let e = effects.get(i);
        proof {
            effects.lemma_valid(i as int);
        }
        let source = if i < sources.len() {
            sources[i]
        } else {
            None
        };
        let amount = get_effect_amount(&e, local, source);
        if e.stat_target == stat {
            if let Some(a) = amount {
                match e.calculation {
                    EffectCalculation::LowerBound => {
                        acc.lower = max_of(acc.lower, a);
                    },
                    EffectCalculation::UpperBound => {
                        acc.upper = min_of(acc.upper, a);
                    },
                    EffectCalculation::Additive => {
                        if let EffectDuration::Persistent(_) = e.duration {
                            acc.additive = add_sat(acc.additive, a);
                        }
                    },
                    EffectCalculation::Multiplicative => {
                        if let EffectDuration::Persistent(_) = e.duration {
                            acc.multiplicative = mul_fixed(acc.multiplicative, a);
                        }
                    },
                    EffectCalculation::SetValue => {},
                }
            }
        }
        i = i + 1;
    }
    acc
}

/// The current value after an immediate application of `amount`.
pub open spec fn immediate_value(current: i64, calculation: EffectCalculation, amount: i64) -> i64 {
    match calculation {
        EffectCalculation::Additive => sat(current + amount),
        EffectCalculation::Multiplicative => fmul(current as int, amount as int),
        EffectCalculation::LowerBound => max_i64(current, amount),
        EffectCalculation::UpperBound => min_i64(current, amount),
        EffectCalculation::SetValue => amount,
    }
}

/// `v` held within `[lower, upper]`, the upper bound checked first.
pub open spec fn clamp_value(v: i64, lower: i64, upper: i64) -> i64 {
    if v > upper {
        upper
    } else if v < lower {
        lower
    } else {
        v
    }
}

/// The bound that clamping `v` hits, if clamping changes it.
pub open spec fn breach_of(v: i64, lower: i64, upper: i64) -> Option<EffectCalculation> {
    if v > upper {
        Some(EffectCalculation::UpperBound)
    } else if v < lower {
        Some(EffectCalculation::LowerBound)
    } else {
        None
    }
}

pub open spec fn breach_record(entity: Entity, stat: u8, bound: Option<EffectCalculation>) -> Option<
    BoundsBreachedMetadata,
> {
    match bound {
        Some(b) => Some(BoundsBreachedMetadata { target_entity: entity, stat, bound: b }),
        None => None,
    }
}

/// Clamps `v` and reports the bound hit.
fn clamp_with_breach(entity: Entity, stat: u8, v: i64, lower: i64, upper: i64) -> (r: (
    i64,
    Option<BoundsBreachedMetadata>,
))
    ensures
        r.0 == clamp_value(v, lower, upper),
        r.1 == breach_record(entity, stat, breach_of(v, lower, upper)),
{
    if v > upper {
        (upper, Some(BoundsBreachedMetadata::new(entity, stat, EffectCalculation::UpperBound)))
    } else if v < lower {
        (lower, Some(BoundsBreachedMetadata::new(entity, stat, EffectCalculation::LowerBound)))
    } else {
        (v, None)
    }
}

/// The stat after `calculation` of `amount` was applied to its current value,
/// clamped to `[lower, upper]`.
pub open spec fn applied_stat(
    st: GameplayStat,
    calculation: EffectCalculation,
    amount: i64,
    lower: i64,
    upper: i64,
) -> GameplayStat {
    GameplayStat {
        current_value: clamp_value(immediate_value(st.current_value, calculation, amount), lower, upper),
        ..st
    }
}

/// Applies `amount` to the current value of the effect's stat and clamps it
/// to the given bounds, reporting the bound hit.
pub fn apply_immediate(
    entity: Entity,
    effect: &GameplayEffect,
    stats: &mut GameplayStats,
    amount: i64,
    upper_bound: i64,
    lower_bound: i64,
) -> (r: Option<BoundsBreachedMetadata>)
    requires
        effect.stat_target < STAT_LIMIT,
    ensures
        final(stats)@ == old(stats)@.update(
            effect.stat_target as int,
            applied_stat(old(stats).slot(effect.stat_target as int), effect.calculation, amount, lower_bound, upper_bound),
        ),
        r == breach_record(
            entity,
            effect.stat_target,
            breach_of(
                immediate_value(old(stats).value_of(effect.stat_target as int), effect.calculation, amount),
                lower_bound,
                upper_bound,
            ),
        ),
{
    let s = effect.stat_target;
    let mut stat = *stats.get(s);
    let v = match effect.calculation {
        EffectCalculation::Additive => add_sat(stat.current_value, amount),
        EffectCalculation::Multiplicative => mul_fixed(stat.current_value, amount),
        EffectCalculation::LowerBound => max_of(stat.current_value, amount),
        EffectCalculation::UpperBound => min_of(stat.current_value, amount),
        EffectCalculation::SetValue => amount,
    };
    let (clamped, breach) = clamp_with_breach(entity, s, v, lower_bound, upper_bound);
    stat.current_value = clamped;
    stats.set(s, stat);
    breach
}

/// The current value rescaled by `new_base / prev_base`; the new base itself
/// when the previous base is zero.
pub open spec fn rescaled(current: i64, new_base: i64, prev_base: i64) -> i64 {
    if prev_base == 0 {
        new_base
    } else {
        sat(quot(current * new_base, prev_base as int))
    }
}

/// The new modified base: `(base + additive) * multiplicative`, held within
/// the bounds.
pub open spec fn new_base(st: GameplayStat, agg: Aggregate) -> i64 {
    max_i64(agg.lower, min_i64(agg.upper, fmul(sat(st.base_value + agg.additive) as int, agg.multiplicative as int)))
}

/// The stat after recalculation against `agg`: the modified base is
/// recomputed, the current value keeps its ratio to it and is then clamped.
pub open spec fn recalculated(st: GameplayStat, agg: Aggregate) -> GameplayStat {
    let nb = new_base(st, agg);
    GameplayStat {
        current_value: clamp_value(rescaled(st.current_value, nb, st.modified_base), agg.lower, agg.upper),
        base_value: st.base_value,
        modified_base: nb,
    }
}

/// The bound that recalculation against `agg` hits, if any.
pub open spec fn recalculation_breach(st: GameplayStat, agg: Aggregate) -> Option<EffectCalculation> {
    breach_of(rescaled(st.current_value, new_base(st, agg), st.modified_base), agg.lower, agg.upper)
}

/// Recomputes stat `stat_target` from its base and the stored effects, after
/// the set of stored effects changed.
pub fn recalculate_stats(
    entity: Entity,
    effects: &ActiveEffects,
    sources: &Vec<Option<GameplayStats>>,
    stat_target: u8,
    stats: &mut GameplayStats,
) -> (r: Option<BoundsBreachedMetadata>)
    requires
        effects.wf(),
        stat_target < STAT_LIMIT,
    ensures
        ({
            let agg = aggregate(effects@, sources@, old(stats)@, stat_target as int);
            let st = old(stats).slot(stat_target as int);
            &&& final(stats)@ == old(stats)@.update(stat_target as int, recalculated(st, agg))
            &&& r == breach_record(entity, stat_target, recalculation_breach(st, agg))
        }),
{
    let agg = aggregate_effects(effects, sources, stats, stat_target);
    let mut stat = *stats.get(stat_target);
    let scaled = mul_fixed(add_sat(stat.base_value, agg.additive), agg.multiplicative);
    let nb = max_of(agg.lower, min_of(agg.upper, scaled));
    let cur = if stat.modified_base == 0 {
        nb
    } else {
        mul_div(stat.current_value, nb, stat.modified_base)
    };
    let (clamped, breach) = clamp_with_breach(entity, stat_target, cur, agg.lower, agg.upper);
    stat.modified_base = nb;
    stat.current_value = clamped;
    stats.set(stat_target, stat);
    breach
}

} // verus!
