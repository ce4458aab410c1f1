use bevy::ecs::entity::Entity;
use gameplay_effects::{
    add_effect, process_active_effects, remove_effect, ActiveEffects, ActiveTags, AddEffectData,
    BoundsBreachedMetadata, EffectCalculation, EffectDuration, EffectMagnitude, EffectMetadata,
    GameplayEffect, GameplayStats, StackingBehaviors, StackingPolicy, StatScalingParams, StatTrait,
    TagId, UNIT,
};

#[derive(Clone, Copy, PartialEq, Eq, Debug)]
enum MyStats {
    Health,
    HealthRegen,
    HealthMax,
    Strength,
}

impl StatTrait for MyStats {
    fn spec_index(self) -> u8 {
        self.index()
    }

    fn index(self) -> u8 {
        match self {
            MyStats::Health => 0,
            MyStats::HealthRegen => 1,
            MyStats::HealthMax => 2,
            MyStats::Strength => 3,
        }
    }
}

const VARIANTS: [MyStats; 4] = [MyStats::Health, MyStats::HealthRegen, MyStats::HealthMax, MyStats::Strength];

fn units(x: i64) -> i64 {
    x * UNIT
}

fn secs(x: u32) -> u32 {
    x * 1000
}

struct Unit {
    entity: Entity,
    stats: GameplayStats,
    effects: ActiveEffects,
    tags: ActiveTags,
    alive: bool,
}

/// A minimal host: entities with stats, stored effects and tags, and the
/// notifications the engine reported.
struct World {
    units: Vec<Unit>,
    behaviors: StackingBehaviors,
    added: Vec<EffectMetadata>,
    removed: Vec<EffectMetadata>,
    triggered: Vec<EffectMetadata>,
    breached: Vec<BoundsBreachedMetadata>,
}

impl World {
    fn new(behaviors: StackingBehaviors) -> World {
        World {
            units: Vec::new(),
            behaviors,
            added: Vec::new(),
            removed: Vec::new(),
            triggered: Vec::new(),
            breached: Vec::new(),
        }
    }

    fn spawn(&mut self) -> usize {
        let stats = GameplayStats::new(
            |stat: MyStats| match stat {
                MyStats::Health => units(100),
                MyStats::HealthRegen => units(5),
                MyStats::HealthMax => units(100),
                MyStats::Strength => units(10),
            },
            &VARIANTS,
        );
        let n = self.units.len();
        self.units.push(Unit {
            entity: Entity::from_raw_u32(n as u32 + 1).unwrap(),
            stats,
            effects: ActiveEffects::new(Vec::new()),
            tags: ActiveTags::new(),
            alive: true,
        });
        n
    }

    fn despawn(&mut self, u: usize) {
        self.units[u].alive = false;
    }

    fn stats_of(&self, e: Entity) -> Option<GameplayStats> {
        self.units.iter().find(|u| u.alive && u.entity == e).map(|u| u.stats)
    }

    fn source_of(&self, effect: &GameplayEffect) -> Option<GameplayStats> {
        match effect.magnitude {
            EffectMagnitude::NonlocalStat(_, _, e) => self.stats_of(e),
            _ => None,
        }
    }

    fn sources(&self, u: usize) -> Vec<Option<GameplayStats>> {
        let effects = &self.units[u].effects;
        (0..effects.len()).map(|i| self.source_of(&effects.get(i))).collect()
    }

    fn record(&mut self, events: EffectEvents) {
        self.added.extend(events.added);
        self.removed.extend(events.removed);
        self.triggered.extend(events.triggered);
        self.breached.extend(events.breached);
    }

    fn add(&mut self, u: usize, effect: GameplayEffect, source_entity: Option<Entity>) {
        let sources = self.sources(u);
        let source_stats = self.source_of(&effect);
        let data = AddEffectData::new(self.units[u].entity, effect, source_entity);
        let unit = &mut self.units[u];
        let events = add_effect(
            &self.behaviors,
            &data,
            source_stats,
            &sources,
            &mut unit.stats,
            &mut unit.effects,
            &mut unit.tags,
        );
        self.record(events);
    }

    fn remove(&mut self, u: usize, tag: Option<TagId>) {
        let sources = self.sources(u);
        let request = EffectMetadata::new(self.units[u].entity, tag, None);
        let unit = &mut self.units[u];
        let events = remove_effect(&request, &sources, &mut unit.stats, &mut unit.effects, &mut unit.tags);
        self.record(events);
    }

    fn tick(&mut self, ms: u32) {
        for u in 0..self.units.len() {
            if !self.units[u].alive {
                continue;
            }
            let sources = self.sources(u);
            let unit = &mut self.units[u];
            let events = process_active_effects(
                unit.entity,
                ms,
                &sources,
                &mut unit.stats,
                &mut unit.effects,
                &mut unit.tags,
            );
            self.record(events);
        }
    }

    fn value(&self, u: usize, stat: MyStats) -> i64 {
        self.units[u].stats.get(stat.index()).current_value
    }

    fn stored(&self, u: usize) -> usize {
        self.units[u].effects.len()
    }
}

fn setup() -> (World, usize) {
    let mut world = World::new(StackingBehaviors::new());
    let u = world.spawn();
    (world, u)
}

fn setup_with(tag: TagId, policy: StackingPolicy) -> (World, usize) {
    let mut world = World::new(StackingBehaviors::new().stack(tag, policy));
    let u = world.spawn();
    (world, u)
}

use gameplay_effects::EffectEvents;

fn health() -> u8 {
    MyStats::Health.index()
}

#[test]
fn test_lower_bound() {
    let (mut world, u) = setup();
    let entity = world.units[u].entity;
    world.add(
        u,
        GameplayEffect::new(
            None,
            health(),
            EffectMagnitude::Fixed(0),
            EffectCalculation::LowerBound,
            EffectDuration::Persistent(None),
        ),
        None,
    );
    world.add(
        u,
        GameplayEffect::new(
            None,
            health(),
            EffectMagnitude::Fixed(units(-200)),
            EffectCalculation::Additive,
            EffectDuration::Immediate,
        ),
        None,
    );
    assert_eq!(world.value(u, MyStats::Health), 0);
    assert_eq!(world.breached.len(), 1);
    let event = world.breached[0];
    assert!(matches!(event.bound, EffectCalculation::LowerBound));
    assert_eq!(event.target_entity, entity);
    assert_eq!(event.stat, health());
}

#[test]
fn test_upper_bound() {
    let (mut world, u) = setup();
    let entity = world.units[u].entity;
    world.add(
        u,
        GameplayEffect::new(
            None,
            health(),
            EffectMagnitude::Fixed(units(150)),
            EffectCalculation::UpperBound,
            EffectDuration::Persistent(None),
        ),
        None,
    );
    world.add(
        u,
        GameplayEffect::new(
            None,
            health(),
            EffectMagnitude::Fixed(units(200)),
            EffectCalculation::Additive,
            EffectDuration::Immediate,
        ),
        None,
    );
    assert_eq!(world.value(u, MyStats::Health), units(150));
    assert_eq!(world.breached.len(), 1);
    let event = world.breached[0];
    assert!(matches!(event.bound, EffectCalculation::UpperBound));
    assert_eq!(event.target_entity, entity);
    assert_eq!(event.stat, health());
}

#[test]
fn test_set_value() {
    let (mut world, u) = setup();
    world.add(
        u,
        GameplayEffect::new(
            None,
            health(),
            EffectMagnitude::LocalStat(MyStats::HealthMax.index(), StatScalingParams::default()),
            EffectCalculation::UpperBound,
            EffectDuration::Persistent(None),
        ),
        None,
    );

    // Try to set past max health
    world.add(
        u,
        GameplayEffect::new(
            None,
            health(),
            EffectMagnitude::Fixed(units(200)),
            EffectCalculation::SetValue,
            EffectDuration::Immediate,
        ),
        None,
    );
    assert_eq!(world.value(u, MyStats::Health), units(100));

    world.add(
        u,
        GameplayEffect::new(
            None,
            health(),
            EffectMagnitude::Fixed(units(50)),
            EffectCalculation::SetValue,
            EffectDuration::Immediate,
        ),
        None,
    );
    assert_eq!(world.value(u, MyStats::Health), units(50));

    world.add(
        u,
        GameplayEffect::new(
            None,
            health(),
            EffectMagnitude::LocalStat(MyStats::HealthMax.index(), StatScalingParams::default()),
            EffectCalculation::SetValue,
            EffectDuration::Immediate,
        ),
        None,
    );
    assert_eq!(world.value(u, MyStats::Health), units(100));
}

#[test]
fn test_periodic_effect() {
    let (mut world, u) = setup();
    let entity = world.units[u].entity;
    let scaling = StatScalingParams { multiplier: units(2), ..StatScalingParams::default() };
    let regen_tag = TagId(1);
    world.add(
        u,
        GameplayEffect::new(
            Some(regen_tag),
            health(),
            EffectMagnitude::LocalStat(MyStats::HealthRegen.index(), scaling),
            EffectCalculation::Additive,
            EffectDuration::Repeating(1000i64.into(), Some(10000i64.into())),
        ),
        None,
    );
    assert_eq!(world.value(u, MyStats::Health), units(100));

    for i in 1..=10 {
        world.triggered.clear();
        world.tick(secs(1));
        assert_eq!(world.value(u, MyStats::Health), units(100) + units(10) * i);
        assert!(world.triggered.len() >= 1);
    }

    let event = world.triggered[0];
    assert_eq!(event.target_entity, entity);
    assert_eq!(event.tag, Some(regen_tag));

    world.tick(secs(5));
    assert_eq!(world.value(u, MyStats::Health), units(200));
    assert_eq!(world.stored(u), 0);
}

#[test]
fn test_continuous_with_nonlocal_magnitude() {
    let mut world = World::new(StackingBehaviors::new());
    let u1 = world.spawn();
    let u2 = world.spawn();
    let entity1 = world.units[u1].entity;
    let entity2 = world.units[u2].entity;
    let scaling = StatScalingParams { multiplier: units(-2), ..StatScalingParams::default() };
    world.add(
        u1,
        GameplayEffect::new(
            None,
            health(),
            EffectMagnitude::NonlocalStat(MyStats::Strength.index(), scaling, entity2),
            EffectCalculation::Additive,
            EffectDuration::Continuous(Some(10000i64.into())),
        ),
        Some(entity2),
    );

    assert_eq!(world.added.len(), 1);
    let EffectMetadata { target_entity, tag, source_entity } = world.added[0];
    assert_eq!(source_entity, Some(entity2));
    assert_eq!(target_entity, entity1);
    assert_eq!(tag, None);

    assert_eq!(world.value(u1, MyStats::Health), units(100));

    world.tick(secs(5));
    assert_eq!(world.value(u1, MyStats::Health), 0);

    world.tick(secs(5));
    assert_eq!(world.value(u1, MyStats::Health), units(-100));
}

#[test]
fn test_persistent_removal() {
    let (mut world, u) = setup();
    let tag1 = TagId(1);
    let buff1 = GameplayEffect::new(
        Some(tag1),
        health(),
        EffectMagnitude::Fixed(units(2)),
        EffectCalculation::Multiplicative,
        EffectDuration::Persistent(None),
    );
    let tag2 = TagId(2);
    let buff2 = GameplayEffect::new(
        Some(tag2),
        health(),
        EffectMagnitude::Fixed(units(2)),
        EffectCalculation::Multiplicative,
        EffectDuration::Persistent(None),
    );

    world.add(u, buff1, None);
    assert_eq!(world.value(u, MyStats::Health), units(200));
    world.add(u, buff2, None);
    assert_eq!(world.value(u, MyStats::Health), units(400));

    world.add(
        u,
        GameplayEffect::new(
            None,
            health(),
            EffectMagnitude::Fixed(units(-100)),
            EffectCalculation::Additive,
            EffectDuration::Immediate,
        ),
        None,
    );
    assert_eq!(world.value(u, MyStats::Health), units(300));

    world.remove(u, buff1.tag);
    assert_eq!(world.value(u, MyStats::Health), units(150));

    world.remove(u, buff2.tag);
    assert_eq!(world.value(u, MyStats::Health), units(75));
}

fn drain(tag: TagId, timer_secs: i64) -> GameplayEffect {
    GameplayEffect::new(
        Some(tag),
        health(),
        EffectMagnitude::Fixed(units(-1)),
        EffectCalculation::Additive,
        EffectDuration::Continuous(Some((timer_secs * 1000).into())),
    )
}

#[test]
fn test_no_stacking() {
    let tag = TagId(1);
    let (mut world, u) = setup_with(tag, StackingPolicy::NoStacking);
    let effect = drain(tag, 3);

    world.add(u, effect, None);
    world.tick(secs(1));
    assert_eq!(world.value(u, MyStats::Health), units(99));
    assert_eq!(world.stored(u), 1);

    world.add(u, effect, None);
    world.tick(secs(1));
    assert_eq!(world.value(u, MyStats::Health), units(98));
    assert_eq!(world.stored(u), 1);
}

#[test]
fn test_no_stacking_reset_timer() {
    let tag = TagId(1);
    let (mut world, u) = setup_with(tag, StackingPolicy::NoStackingResetDuration);
    let effect = drain(tag, 3);

    for i in 0..5 {
        world.add(u, effect, None);
        world.tick(secs(1));
        let target = units(99) - units(i);
        assert_eq!(world.value(u, MyStats::Health), target);
        assert_eq!(world.stored(u), 1);
    }
}

#[test]
fn test_multiple_effects_stacking() {
    let tag = TagId(1);
    let (mut world, u) = setup_with(tag, StackingPolicy::MultipleEffects(3));
    let effect = drain(tag, 5);

    let mut target = units(100);
    for i in 0..4 {
        world.add(u, effect, None);
        world.tick(secs(1));
        let n_effects: usize = usize::min(i + 1, 3);
        target -= units(n_effects as i64);
        assert_eq!(world.stored(u), n_effects);
        assert_eq!(world.value(u, MyStats::Health), target);
    }

    // effects should start timing out now
    let mut n_effects: i32 = 3;
    for _ in 0..6 {
        world.tick(secs(1));
        target -= units(n_effects as i64);
        n_effects = i32::max(0, n_effects - 1);
        assert_eq!(world.stored(u), n_effects as usize);
        assert_eq!(world.value(u, MyStats::Health), target);
    }
}

#[test]
fn test_multiple_effects_reset_timers_stacking() {
    let tag = TagId(1);
    let (mut world, u) = setup_with(tag, StackingPolicy::MultipleEffectsResetDurations(3));
    let effect = drain(tag, 5);

    let mut target = units(100);
    for i in 0..8 {
        world.add(u, effect, None);
        world.tick(secs(1));
        let n_effects: usize = usize::min(i + 1, 3);
        target -= units(n_effects as i64);
        assert_eq!(world.stored(u), n_effects);
        assert_eq!(world.value(u, MyStats::Health), target);
    }

    world.tick(secs(5));
    target -= units(15);
    assert_eq!(world.stored(u), 0);
    assert_eq!(world.value(u, MyStats::Health), target);
}

#[test]
fn stale_nonlocal_source_is_removed() {
    let mut world = World::new(StackingBehaviors::new());
    let u1 = world.spawn();
    let u2 = world.spawn();
    let entity2 = world.units[u2].entity;
    let scaling = StatScalingParams { multiplier: units(-2), ..StatScalingParams::default() };
    world.add(
        u1,
        GameplayEffect::new(
            None,
            health(),
            EffectMagnitude::NonlocalStat(MyStats::Strength.index(), scaling, entity2),
            EffectCalculation::Additive,
            EffectDuration::Continuous(Some(10000i64.into())),
        ),
        Some(entity2),
    );
    world.tick(secs(1));
    assert_eq!(world.value(u1, MyStats::Health), units(80));
    assert_eq!(world.stored(u1), 1);

    world.despawn(u2);
    world.tick(secs(1));
    assert_eq!(world.value(u1, MyStats::Health), units(80));
    assert_eq!(world.stored(u1), 0);
    assert_eq!(world.removed.len(), 1);
}

#[test]
fn capacity_rejects_the_twenty_fifth_effect() {
    let (mut world, u) = setup();
    let effect = GameplayEffect::new(
        None,
        health(),
        EffectMagnitude::Fixed(0),
        EffectCalculation::Additive,
        EffectDuration::Continuous(None),
    );
    for _ in 0..25 {
        world.add(u, effect, None);
    }
    assert_eq!(world.stored(u), 24);
    assert_eq!(world.added.len(), 24);
}

#[test]
fn tags_follow_stored_effects() {
    let tag = TagId(7);
    let (mut world, u) = setup_with(tag, StackingPolicy::MultipleEffects(2));
    world.add(u, drain(tag, 1), None);
    world.add(u, drain(tag, 2), None);
    assert!(world.units[u].tags.contains(&tag));
    world.tick(secs(1));
    assert_eq!(world.stored(u), 1);
    assert!(world.units[u].tags.contains(&tag));
    world.tick(secs(1));
    assert_eq!(world.stored(u), 0);
    assert!(!world.units[u].tags.contains(&tag));
}

#[test]
fn removing_a_bound_rescales() {
    let (mut world, u) = setup();
    let cap = GameplayEffect::new(
        Some(TagId(3)),
        health(),
        EffectMagnitude::Fixed(units(50)),
        EffectCalculation::UpperBound,
        EffectDuration::Persistent(None),
    );
    world.add(u, cap, None);
    // the modified base drops to the cap and the current value follows it,
    // so nothing is clamped
    assert_eq!(world.value(u, MyStats::Health), units(50));
    assert_eq!(world.breached.len(), 0);
    world.remove(u, Some(TagId(3)));
    // the modified base goes back from 50 to 100 and the current value keeps its ratio
    assert_eq!(world.value(u, MyStats::Health), units(100));
    assert_eq!(world.removed.len(), 1);
}

#[test]
fn recalculation_clamps_to_a_new_lower_bound() {
    let (mut world, u) = setup();
    world.add(
        u,
        GameplayEffect::new(
            None,
            health(),
            EffectMagnitude::Fixed(units(-50)),
            EffectCalculation::Additive,
            EffectDuration::Immediate,
        ),
        None,
    );
    assert_eq!(world.value(u, MyStats::Health), units(50));
    world.add(
        u,
        GameplayEffect::new(
            None,
            health(),
            EffectMagnitude::Fixed(units(80)),
            EffectCalculation::LowerBound,
            EffectDuration::Persistent(None),
        ),
        None,
    );
    assert_eq!(world.value(u, MyStats::Health), units(80));
    assert_eq!(world.breached.len(), 1);
    assert!(matches!(world.breached[0].bound, EffectCalculation::LowerBound));
    assert_eq!(world.units[u].stats.get(health()).modified_base, units(100));
}

#[test]
fn invalid_effect_is_dropped() {
    let (mut world, u) = setup();
    let effect = GameplayEffect::new(
        None,
        16,
        EffectMagnitude::Fixed(units(1)),
        EffectCalculation::Additive,
        EffectDuration::Immediate,
    );
    world.add(u, effect, None);
    assert_eq!(world.added.len(), 0);
    assert_eq!(world.value(u, MyStats::Health), units(100));
}

#[test]
fn effect_queries() {
    let mut world = World::new(StackingBehaviors::new());
    let u1 = world.spawn();
    let u2 = world.spawn();
    let entity2 = world.units[u2].entity;
    world.add(u1, drain(TagId(4), 9), None);
    world.add(
        u1,
        GameplayEffect::new(
            Some(TagId(5)),
            health(),
            EffectMagnitude::NonlocalStat(MyStats::Strength.index(), StatScalingParams::default(), entity2),
            EffectCalculation::Additive,
            EffectDuration::Persistent(None),
        ),
        Some(entity2),
    );
    world.add(u1, drain(TagId(6), 9), None);
    let effects = &world.units[u1].effects;
    assert_eq!(effects.match_effect_type(TagId(5)), vec![1]);
    assert_eq!(effects.match_effect_type(TagId(7)), Vec::<usize>::new());
    assert_eq!(effects.source_entities(), vec![None, Some(entity2), None]);
    // the persistent effect adds the source's strength to the modified base
    assert_eq!(world.units[u1].stats.get(health()).modified_base, units(110));
    assert_eq!(world.value(u1, MyStats::Health), units(110));
}
