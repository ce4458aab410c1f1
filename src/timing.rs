//! Countdown timers and the lifetimes of effects. Times are milliseconds.
use vstd::prelude::*;
use crate::fixed::{sat, max_i64, sub_sat, add_sat, max_of};

verus! {

/// Delay before the first trigger of a repeating timer made from a period.
pub const FIRST_TRIGGER_DELAY: i64 = 1000;

/// An effect's lifetime.
#[derive(Clone, Copy, Debug, PartialEq, Eq)]
pub enum EffectDuration {
    /// Applied once and never stored.
    Immediate,
    /// Stored and counted by recalculation until removed or its timer ends.
    Persistent(Option<SmallTimer>),
    /// Stored and applied every tick, scaled by the elapsed time.
    Continuous(Option<SmallTimer>),
    /// Stored and applied in full once per period.
    Repeating(RepeatingSmallTimer, Option<SmallTimer>),
}

/// A countdown of the milliseconds left.
#[derive(Clone, Copy, Debug, PartialEq, Eq)]
pub struct SmallTimer {
    pub remaining: i64,
}

impl SmallTimer {
    pub open spec fn ticked(self, secs: u32) -> SmallTimer {
        SmallTimer { remaining: sat(self.remaining - secs) }
    }

    pub open spec fn is_finished(self) -> bool {
        self.remaining <= 0
    }

    pub fn new(remaining: i64) -> (r: SmallTimer)
        ensures
            r.remaining == remaining,
    {
        SmallTimer { remaining }
    }

    /// Counts down by `secs` milliseconds.
    pub fn tick(&mut self, secs: u32)
        ensures
            *final(self) == old(self).ticked(secs),
    {
        self.remaining = sub_sat(self.remaining, secs as i64);
    }

    pub fn finished(&self) -> (r: bool)
        ensures
            r == self.is_finished(),
    {
        self.remaining <= 0
    }

    /// Takes the time left from `timer`.
    pub fn set_duration(&mut self, timer: SmallTimer)
        ensures
            final(self).remaining == timer.remaining,
    {
        self.remaining = timer.remaining;
    }
}

impl From<i64> for SmallTimer {
    fn from(value: i64) -> (r: SmallTimer) {
        SmallTimer { remaining: value }
    }
}

impl vstd::std_specs::convert::FromSpecImpl<i64> for SmallTimer {
    open spec fn obeys_from_spec() -> bool {
        true
    }

    open spec fn from_spec(v: i64) -> SmallTimer {
        SmallTimer { remaining: v }
    }
}

/// A timer that fires every `period` milliseconds.
#[derive(Clone, Copy, Debug, PartialEq, Eq)]
pub struct RepeatingSmallTimer {
    pub period: i64,
    pub remaining: i64,
    pub triggered: bool,
}

impl RepeatingSmallTimer {
    /// Counting down past zero fires the timer and winds it up by one period,
    /// not below zero; a tick that does not reach zero clears the flag.
    pub open spec fn ticked(self, secs: u32) -> RepeatingSmallTimer {
        let left = sat(self.remaining - secs);
        if left <= 0 {
            RepeatingSmallTimer {
                period: self.period,
                remaining: max_i64(sat(left + self.period), 0),
                triggered: true,
            }
        } else {
            RepeatingSmallTimer { period: self.period, remaining: left, triggered: false }
        }
    }

    pub fn new(period: i64, first: i64) -> (r: RepeatingSmallTimer)
        ensures
            r == (RepeatingSmallTimer { period, remaining: first, triggered: false }),
    {
        RepeatingSmallTimer { period, remaining: first, triggered: false }
    }

    pub fn tick(&mut self, secs: u32)
        ensures
            *final(self) == old(self).ticked(secs),
    {
        let left = sub_sat(self.remaining, secs as i64);
        if left <= 0 {
            self.remaining = max_of(add_sat(left, self.period), 0);
            self.triggered = true;
        } else {
            self.remaining = left;
            self.triggered = false;
        }
    }

    pub fn just_triggered(&self) -> (r: bool)
        ensures
            r == self.triggered,
    {
        self.triggered
    }

    /// Takes the time left until the next trigger from `timer`.
    pub fn set_duration(&mut self, timer: RepeatingSmallTimer)
        ensures
            *final(self) == (RepeatingSmallTimer { remaining: timer.remaining, ..*old(self) }),
    {
        self.remaining = timer.remaining;
    }
}

impl From<i64> for RepeatingSmallTimer {
    /// A timer with the given period whose first trigger comes after
    /// `FIRST_TRIGGER_DELAY`, or after one period if that is shorter.
    fn from(value: i64) -> (r: RepeatingSmallTimer) {
        let first = if value < FIRST_TRIGGER_DELAY {
            value
        } else {
            FIRST_TRIGGER_DELAY
        };
        RepeatingSmallTimer { period: value, remaining: first, triggered: false }
    }
}

impl vstd::std_specs::convert::FromSpecImpl<i64> for RepeatingSmallTimer {
    open spec fn obeys_from_spec() -> bool {
        true
    }

    open spec fn from_spec(v: i64) -> RepeatingSmallTimer {
        RepeatingSmallTimer {
            period: v,
            remaining: if v < FIRST_TRIGGER_DELAY {
                v
            } else {
                FIRST_TRIGGER_DELAY
            },
            triggered: false,
        }
    }
}

impl EffectDuration {
    /// The overall expiry timer, if the duration has one.
    pub open spec fn timer(self) -> Option<SmallTimer> {
        match self {
            EffectDuration::Persistent(t) => t,
            EffectDuration::Continuous(t) => t,
            EffectDuration::Repeating(_, t) => t,
            EffectDuration::Immediate => None,
        }
    }

    pub open spec fn ticked_timer(t: Option<SmallTimer>, secs: u32) -> Option<SmallTimer> {
        match t {
            Some(x) => Some(x.ticked(secs)),
            None => None,
        }
    }

    /// Every timer of the duration counted down by `secs`.
    pub open spec fn ticked(self, secs: u32) -> EffectDuration {
        match self {
            EffectDuration::Persistent(t) => EffectDuration::Persistent(
                EffectDuration::ticked_timer(t, secs),
            ),
            EffectDuration::Continuous(t) => EffectDuration::Continuous(
                EffectDuration::ticked_timer(t, secs),
            ),
            EffectDuration::Repeating(p, t) => EffectDuration::Repeating(
                p.ticked(secs),
                EffectDuration::ticked_timer(t, secs),
            ),
            EffectDuration::Immediate => EffectDuration::Immediate,
        }
    }

    /// The duration with its overall timer set to `remaining`; unchanged when
    /// it has none.
    pub open spec fn with_remaining(self, remaining: i64) -> EffectDuration {
        match self {
            EffectDuration::Persistent(Some(_)) => EffectDuration::Persistent(
                Some(SmallTimer { remaining }),
            ),
            EffectDuration::Continuous(Some(_)) => EffectDuration::Continuous(
                Some(SmallTimer { remaining }),
            ),
            EffectDuration::Repeating(p, Some(_)) => EffectDuration::Repeating(
                p,
                Some(SmallTimer { remaining }),
            ),
            _ => self,
        }
    }

    pub fn tick(&mut self, secs: u32)
        ensures
            *final(self) == old(self).ticked(secs),
    {
        match self {
            EffectDuration::Persistent(Some(t)) => t.tick(secs),
            EffectDuration::Continuous(Some(t)) => t.tick(secs),
            EffectDuration::Repeating(p, t) => {
                p.tick(secs);
                if let Some(x) = t {
                    x.tick(secs);
                }
            },
            _ => {},
        }
    }

    pub fn get_timer(&self) -> (r: Option<SmallTimer>)
        ensures
            r == self.timer(),
    {
        match self {
            EffectDuration::Persistent(t) => *t,
            EffectDuration::Continuous(t) => *t,
            EffectDuration::Repeating(_, t) => *t,
            EffectDuration::Immediate => None,
        }
    }
}

} // verus!
