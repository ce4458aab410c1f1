//! A stat and effect engine: numeric stats per entity, modified by effects
//! that add, multiply or bound them over four kinds of lifetime.
//!
//! Values are fixed-point (`fixed::UNIT` per whole unit) and durations are
//! milliseconds.
pub mod fixed;
pub mod gameplay_stats;
pub mod timing;
pub mod calculation;
pub mod inline;
pub mod effects;
pub mod events;
pub mod stacking;
pub mod engine;
pub mod laws;

pub use calculation::{EffectCalculation, EffectMagnitude, StackingPolicy, StatScalingParams};
pub use effects::{ActiveEffects, ActiveTags, GameplayEffect, TagId};
pub use engine::{add_effect, process_active_effects, remove_effect};
pub use events::{AddEffectData, BoundsBreachedMetadata, EffectEvents, EffectMetadata};
pub use fixed::UNIT;
pub use gameplay_stats::{GameplayStat, GameplayStats, StatTrait, STAT_LIMIT};
pub use stacking::{StackingBehaviors, StackingDecision};
pub use timing::{EffectDuration, RepeatingSmallTimer, SmallTimer};
