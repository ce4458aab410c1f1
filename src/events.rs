//! What the engine reports back to its host: effects added, removed and
//! triggered, and stats clamped at a bound.
use vstd::prelude::*;
use bevy::ecs::entity::Entity;
use crate::calculation::EffectCalculation;
use crate::effects::{GameplayEffect, TagId};

verus! {

/// The host's entity handle, carried through the engine unread.
#[verifier::external_type_specification]
#[verifier::external_body]
pub struct ExEntity(Entity);

/// A request to add `effect` to `target_entity`, whose magnitude may read the
/// stats of `source_entity`.
#[derive(Clone, Copy)]
pub struct AddEffectData {
    pub target_entity: Entity,
    pub effect: GameplayEffect,
    pub source_entity: Option<Entity>,
}

impl AddEffectData {
    pub fn new(target_entity: Entity, effect: GameplayEffect, source_entity: Option<Entity>) -> (r:
        AddEffectData)
        ensures
            r == (AddEffectData { target_entity, effect, source_entity }),
    {
        AddEffectData { target_entity, effect, source_entity }
    }
}

/// Which entity an effect concerns, its tag, and its source entity.
#[derive(Clone, Copy)]
pub struct EffectMetadata {
    pub target_entity: Entity,
    pub tag: Option<TagId>,
    pub source_entity: Option<Entity>,
}

impl EffectMetadata {
    pub open spec fn spec_new(
        target_entity: Entity,
        tag: Option<TagId>,
        source_entity: Option<Entity>,
    ) -> EffectMetadata {
        EffectMetadata { target_entity, tag, source_entity }
    }

    pub fn new(target_entity: Entity, tag: Option<TagId>, source_entity: Option<Entity>) -> (r:
        EffectMetadata)
        ensures
            r == EffectMetadata::spec_new(target_entity, tag, source_entity),
    {
        EffectMetadata { target_entity, tag, source_entity }
    }
}

/// A stat of `target_entity` was clamped at `bound` (`LowerBound` or
/// `UpperBound`).
#[derive(Clone, Copy)]
pub struct BoundsBreachedMetadata {
    pub target_entity: Entity,
    pub stat: u8,
    pub bound: EffectCalculation,
}

impl BoundsBreachedMetadata {
    pub fn new(entity: Entity, stat: u8, bound: EffectCalculation) -> (r: BoundsBreachedMetadata)
        ensures
            r == (BoundsBreachedMetadata { target_entity: entity, stat, bound }),
    {
        BoundsBreachedMetadata { target_entity: entity, stat, bound }
    }
}

/// The notifications that one engine operation produced, each list in the
/// order the events happened.
pub struct EffectEvents {
    pub added: Vec<EffectMetadata>,
    pub removed: Vec<EffectMetadata>,
    pub triggered: Vec<EffectMetadata>,
    pub breached: Vec<BoundsBreachedMetadata>,
}

impl EffectEvents {
    pub fn new() -> (r: EffectEvents)
        ensures
            r.added@ == Seq::<EffectMetadata>::empty(),
            r.removed@ == Seq::<EffectMetadata>::empty(),
            r.triggered@ == Seq::<EffectMetadata>::empty(),
            r.breached@ == Seq::<BoundsBreachedMetadata>::empty(),
    {
        EffectEvents { added: Vec::new(), removed: Vec::new(), triggered: Vec::new(), breached: Vec::new() }
    }
}

/// The list `events` with the breach `b` appended, if there is one.
pub open spec fn with_breach(
    events: Seq<BoundsBreachedMetadata>,
    b: Option<BoundsBreachedMetadata>,
) -> Seq<BoundsBreachedMetadata> {
    match b {
        Some(x) => events.push(x),
        None => events,
    }
}

pub fn push_breach(events: &mut Vec<BoundsBreachedMetadata>, b: Option<BoundsBreachedMetadata>)
    ensures
        final(events)@ == with_breach(old(events)@, b),
{
    if let Some(x) = b {
        events.push(x);
    }
}

} // verus!
