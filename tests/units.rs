use gameplay_effects::fixed::{add_sat, mul_div, mul_fixed, pow_fixed, sub_sat};
use gameplay_effects::stacking::resolve_stacking;
use gameplay_effects::{
    ActiveTags, EffectCalculation, EffectDuration, EffectMagnitude, GameplayEffect, GameplayStat,
    GameplayStats, RepeatingSmallTimer, SmallTimer, StackingBehaviors, StackingPolicy, StatScalingParams,
    StatTrait, TagId, UNIT,
};

#[derive(Clone, Copy)]
struct Slot(u8);

impl StatTrait for Slot {
    fn spec_index(self) -> u8 {
        self.0
    }

    fn index(self) -> u8 {
        self.0
    }
}

#[test]
fn fixed_point_products_round_toward_zero() {
    assert_eq!(mul_fixed(2 * UNIT, 5 * UNIT), 10 * UNIT);
    assert_eq!(mul_fixed(1500, 1500), 2250);
    assert_eq!(mul_div(-7, 1, 2), -3);
    assert_eq!(mul_div(7, 1, -2), -3);
    assert_eq!(mul_div(300, 200, 400), 150);
}

#[test]
fn fixed_point_saturates() {
    assert_eq!(add_sat(i64::MAX, 1), i64::MAX);
    assert_eq!(sub_sat(i64::MIN, 1), i64::MIN);
    assert_eq!(mul_fixed(i64::MAX, 2 * UNIT), i64::MAX);
    assert_eq!(mul_div(i64::MIN, -1, 1), i64::MAX);
}

#[test]
fn powers() {
    assert_eq!(pow_fixed(3 * UNIT, 0), UNIT);
    assert_eq!(pow_fixed(3 * UNIT, 2), 9 * UNIT);
    assert_eq!(pow_fixed(-2 * UNIT, 3), -8 * UNIT);
}

#[test]
fn scaling_params() {
    let p = StatScalingParams::default();
    assert_eq!(p.apply(42 * UNIT), 42 * UNIT);
    let q = StatScalingParams {
        shift: UNIT,
        stat_offset: 2 * UNIT,
        multiplier: 3 * UNIT,
        exponent: 2,
        min: None,
        max: None,
    };
    // 1 + 3 * (5 - 2)^2 = 28
    assert_eq!(q.apply(5 * UNIT), 28 * UNIT);
    let clamped = StatScalingParams { min: Some(30 * UNIT), ..q };
    assert_eq!(clamped.apply(5 * UNIT), 30 * UNIT);
    let capped = StatScalingParams { max: Some(10 * UNIT), ..q };
    assert_eq!(capped.apply(5 * UNIT), 10 * UNIT);
}

#[test]
fn stacking_decisions() {
    let d = resolve_stacking(StackingPolicy::NoStacking, 0);
    assert!(d.accept && !d.refresh);
    let d = resolve_stacking(StackingPolicy::NoStacking, 1);
    assert!(!d.accept && !d.refresh);
    let d = resolve_stacking(StackingPolicy::NoStackingResetDuration, 1);
    assert!(!d.accept && d.refresh);
    let d = resolve_stacking(StackingPolicy::NoStackingResetDuration, 0);
    assert!(d.accept && !d.refresh);
    let d = resolve_stacking(StackingPolicy::MultipleEffects(3), 2);
    assert!(d.accept && !d.refresh);
    let d = resolve_stacking(StackingPolicy::MultipleEffects(3), 3);
    assert!(!d.accept);
    let d = resolve_stacking(StackingPolicy::MultipleEffectsResetDurations(3), 3);
    assert!(!d.accept && d.refresh);
    let d = resolve_stacking(StackingPolicy::MultipleEffectsResetDurations(3), 0);
    assert!(d.accept && d.refresh);
}

#[test]
fn stacking_behaviors_lookup() {
    let b = StackingBehaviors::new()
        .stack(TagId(1), StackingPolicy::MultipleEffects(4))
        .stack(TagId(2), StackingPolicy::NoStackingResetDuration);
    assert_eq!(b.policy(TagId(1)), StackingPolicy::MultipleEffects(4));
    assert_eq!(b.policy(TagId(2)), StackingPolicy::NoStackingResetDuration);
    assert_eq!(b.policy(TagId(3)), StackingPolicy::NoStacking);
    let b = b.stack(TagId(1), StackingPolicy::MultipleEffects(1));
    assert_eq!(b.policy(TagId(1)), StackingPolicy::MultipleEffects(1));
}

#[test]
fn stat_sets() {
    let st = GameplayStats::from_values(&[(0, 5), (3, 7), (0, 9)]).unwrap();
    assert_eq!(*st.get(0), GameplayStat::new(9, 9));
    assert_eq!(*st.get(3), GameplayStat::new(7, 7));
    assert_eq!(*st.get(1), GameplayStat::default());
    assert!(GameplayStats::from_values(&[(16, 1)]).is_none());
    let many: Vec<(u8, i64)> = (0..17).map(|i| (i as u8 % 16, 1)).collect();
    assert!(GameplayStats::from_values(&many).is_none());

    let variants: Vec<Slot> = (0..16).map(Slot).collect();
    let st = GameplayStats::new(|s: Slot| s.0 as i64 * 10, &variants);
    assert_eq!(st.get(15).current_value, 150);
    assert_eq!(st.get(15).modified_base, 150);
    let partial = GameplayStats::new(|s: Slot| s.0 as i64 + 1, &[Slot(3), Slot(5), Slot(3)]);
    assert_eq!(*partial.get(3), GameplayStat::new(4, 4));
    assert_eq!(*partial.get(5), GameplayStat::new(6, 6));
    assert_eq!(*partial.get(4), GameplayStat::default());

    let mut st = st;
    st.get_mut(2).current_value = -4;
    assert_eq!(st.current(2), -4);
    st.set(2, GameplayStat::new(1, 2));
    assert_eq!(st.get(2).modified_base, 1);
}

#[test]
fn timers() {
    let mut t = SmallTimer::from(1500);
    t.tick(1000);
    assert!(!t.finished());
    t.tick(1000);
    assert!(t.finished());
    assert_eq!(t.remaining, -500);
    t.set_duration(SmallTimer::new(300));
    assert_eq!(t.remaining, 300);

    let mut r = RepeatingSmallTimer::from(2500);
    assert_eq!(r.remaining, 1000);
    r.tick(400);
    assert!(!r.just_triggered());
    r.tick(600);
    assert!(r.just_triggered());
    assert_eq!(r.remaining, 2500);
    r.tick(3000);
    assert!(r.just_triggered());
    assert_eq!(r.remaining, 2000);
    r.tick(100);
    assert!(!r.just_triggered());
    let short = RepeatingSmallTimer::from(300);
    assert_eq!(short.remaining, 300);
}

#[test]
fn set_duration_needs_a_timer() {
    let mut e = GameplayEffect::new(
        None,
        0,
        EffectMagnitude::Fixed(1),
        EffectCalculation::Additive,
        EffectDuration::Persistent(None),
    );
    assert!(e.set_duration(SmallTimer::new(5)).is_err());
    let mut e = GameplayEffect { duration: EffectDuration::Continuous(Some(SmallTimer::new(1))), ..e };
    assert!(e.set_duration(SmallTimer::new(5)).is_ok());
    assert_eq!(e.get_duration_timer(), Some(SmallTimer::new(5)));
    let mut i = GameplayEffect { duration: EffectDuration::Immediate, ..e };
    assert!(i.set_duration(SmallTimer::new(5)).is_err());
}

#[test]
fn active_tags() {
    let mut tags = ActiveTags::new();
    tags.add(TagId(1));
    tags.add(TagId(1));
    tags.add_from(&[TagId(2), TagId(3)]);
    assert_eq!(tags.len(), 3);
    tags.remove(TagId(2));
    assert!(!tags.contains(&TagId(2)));
    assert!(tags.contains(&TagId(3)));
    tags.remove_from(&[TagId(1), TagId(3)]);
    assert_eq!(tags.len(), 0);
}

#[test]
fn stacking_behaviors_copy() {
    let b = StackingBehaviors::new().stack(TagId(9), StackingPolicy::MultipleEffects(2));
    let c = b.cloned();
    assert_eq!(c.policy(TagId(9)), StackingPolicy::MultipleEffects(2));
    assert_eq!(c.policy(TagId(8)), StackingPolicy::NoStacking);
}
