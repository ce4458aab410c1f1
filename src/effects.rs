//! Effects, the tags an entity carries, and the stored effects of an entity.
use vstd::prelude::*;
use bevy::ecs::entity::Entity;
use crate::calculation::{EffectCalculation, EffectMagnitude};
use crate::gameplay_stats::STAT_LIMIT;
use crate::inline::{effects_in, indices_in, EffectList, IndexList, ACTIVE_EFFECTS_SIZE};
use crate::timing::{EffectDuration, SmallTimer};

verus! {

/// An effect's identity, used to match effects for stacking and removal.
#[derive(Clone, Copy, Debug, PartialEq, Eq, Structural, Hash)]
pub struct TagId(pub u32);

/// A modifier of one stat.
#[derive(Clone, Copy)]
pub struct GameplayEffect {
    pub stat_target: u8,
    pub magnitude: EffectMagnitude,
    pub calculation: EffectCalculation,
    pub duration: EffectDuration,
    pub tag: Option<TagId>,
}

impl GameplayEffect {
    /// The target and every stat the magnitude reads have a slot.
    pub open spec fn valid(self) -> bool {
        self.stat_target < STAT_LIMIT && self.magnitude.reads_valid_stat()
    }

    /// The effect with its overall timer set to `remaining`.
    pub open spec fn with_remaining(self, remaining: i64) -> GameplayEffect {
        GameplayEffect { duration: self.duration.with_remaining(remaining), ..self }
    }

    pub fn new(
        tag: Option<TagId>,
        stat_target: u8,
        magnitude: EffectMagnitude,
        calculation: EffectCalculation,
        duration: EffectDuration,
    ) -> (r: GameplayEffect)
        ensures
            r == (GameplayEffect { stat_target, magnitude, calculation, duration, tag }),
    {
        GameplayEffect { stat_target, magnitude, calculation, duration, tag }
    }

    pub fn is_valid(&self) -> (r: bool)
        ensures
            r == self.valid(),
    {
        self.stat_target < STAT_LIMIT as u8 && match self.magnitude {
            EffectMagnitude::Fixed(_) => true,
            EffectMagnitude::LocalStat(s, _) => s < STAT_LIMIT as u8,
            EffectMagnitude::NonlocalStat(s, _, _) => s < STAT_LIMIT as u8,
        }
    }

    /// Sets the time left on the overall timer; an error when the effect has
    /// no overall timer.
    pub fn set_duration(&mut self, duration: SmallTimer) -> (r: Result<(), &'static str>)
        ensures
            r is Err <==> old(self).duration.timer() is None,
            *final(self) == old(self).with_remaining(duration.remaining),
    {
        match &mut self.duration {
            EffectDuration::Continuous(Some(timer)) => {
                timer.set_duration(duration);
            },
            EffectDuration::Persistent(Some(timer)) => {
                timer.set_duration(duration);
            },
            EffectDuration::Repeating(_, Some(timer)) => {
                timer.set_duration(duration);
            },
            _ => {
                return Err("Effect has no duration timer set");
            },
        }
        Ok(())
    }

    /// The overall expiry timer, if any.
    pub fn get_duration_timer(&self) -> (r: Option<SmallTimer>)
        ensures
            r == self.duration.timer(),
    {
        self.duration.get_timer()
    }
}

pub(crate) proof fn lemma_push_contains<A>(s: Seq<A>, t: A, x: A)
    ensures
        s.push(t).contains(x) <==> (s.contains(x) || x == t),
{
    if s.push(t).contains(x) {
        let k = choose|k: int| 0 <= k < s.push(t).len() && s.push(t)[k] == x;
        if k < s.len() {
            assert(s[k] == x);
        }
    }
    if s.contains(x) {
        let k = choose|k: int| 0 <= k < s.len() && s[k] == x;
        assert(s.push(t)[k] == x);
    }
    if x == t {
        assert(s.push(t)[s.len() as int] == x);
    }
}

pub(crate) proof fn lemma_filter_contains_iff<A>(s: Seq<A>, pred: spec_fn(A) -> bool, x: A)
    ensures
        s.filter(pred).contains(x) <==> (s.contains(x) && pred(x)),
    decreases s.len(),
{
    reveal(Seq::filter);
    if s.len() > 0 {
        let d = s.drop_last();
        lemma_filter_contains_iff(d, pred, s.last());
        lemma_filter_contains_iff(d, pred, x);
        lemma_push_contains(d.filter(pred), s.last(), x);
        lemma_push_contains(d, s.last(), x);
        assert(d.push(s.last()) == s);
    }
}

/// The other entity whose stats a magnitude reads, if any.
pub open spec fn reads_entity(m: EffectMagnitude) -> Option<Entity> {
    match m {
        EffectMagnitude::NonlocalStat(_, _, e) => Some(e),
        _ => None,
    }
}

/// The tags an entity carries, each once, in the order they were added.
pub struct ActiveTags {
    tags: Vec<TagId>,
}

impl ActiveTags {
    pub closed spec fn view(&self) -> Seq<TagId> {
        self.tags@
    }

    pub fn new() -> (r: ActiveTags)
        ensures
            r@ == Seq::<TagId>::empty(),
    {
        ActiveTags { tags: Vec::new() }
    }

    pub fn contains(&self, tag: &TagId) -> (r: bool)
        ensures
            r == self@.contains(*tag),
    {
        let mut i: usize = 0;
        while i < self.tags.len()
            invariant
                i <= self@.len(),
                forall|j: int| 0 <= j < i ==> self@[j] != *tag,
            decreases self@.len() - i,
        {
            if self.tags[i] == *tag {
                return true;
            }
            i = i + 1;
        }
        false
    }

    pub fn len(&self) -> (r: usize)
        ensures
            r == self@.len(),
    {
        self.tags.len()
    }

    /// Adds `tag` unless it is already there.
    pub fn add(&mut self, tag: TagId)
        ensures
            final(self)@ == if old(self)@.contains(tag) {
                old(self)@
            } else {
                old(self)@.push(tag)
            },
    {
        if !self.contains(&tag) {
            self.tags.push(tag);
        }
    }

    pub fn add_from(&mut self, tags: &[TagId])
        ensures
            forall|t: TagId| #[trigger] final(self)@.contains(t) <==> (old(self)@.contains(t) || tags@.contains(t)),
    {
        let mut i: usize = 0;
        while i < tags.len()
            invariant
                i <= tags@.len(),
                forall|t: TagId| #[trigger] self@.contains(t) <==> (old(self)@.contains(t) || tags@.take(i as int).contains(t)),
            decreases tags@.len() - i,
        {
            let t = tags[i];
            let ghost before = self@;
            self.add(t);
            proof {
                assert(tags@.take(i + 1) == tags@.take(i as int).push(t));
                assert forall|x: TagId| #[trigger] self@.contains(x) <==> (old(self)@.contains(x) || tags@.take(i + 1).contains(x)) by {
                    lemma_push_contains(tags@.take(i as int), t, x);
                    lemma_push_contains(before, t, x);
                }
            }
            i = i + 1;
        }
        proof {
            assert(tags@.take(i as int) == tags@);
        }
    }

    /// Removes `tag`.
    pub fn remove(&mut self, tag: TagId)
        ensures
            final(self)@ == old(self)@.filter(|t: TagId| t != tag),
    {
        let mut kept: Vec<TagId> = Vec::new();
        let mut i: usize = 0;
        while i < self.tags.len()
            invariant
                i <= self@.len(),
                self@ == old(self)@,
                kept@ == self@.take(i as int).filter(|t: TagId| t != tag),
            decreases self@.len() - i,
        {
            let t = self.tags[i];
            if t != tag {
                kept.push(t);
            }
            proof {
                reveal(Seq::filter);
                assert(self@.take(i + 1).drop_last() == self@.take(i as int));
            }
            i = i + 1;
        }
        proof {
            assert(self@.take(i as int) == self@);
        }
        self.tags = kept;
    }

    pub fn remove_from(&mut self, tags: &[TagId])
        ensures
            forall|t: TagId| #[trigger] final(self)@.contains(t) <==> (old(self)@.contains(t) && !tags@.contains(t)),
    {
        let mut i: usize = 0;
        while i < tags.len()
            invariant
                i <= tags@.len(),
                forall|t: TagId| #[trigger] self@.contains(t) <==> (old(self)@.contains(t) && !tags@.take(i as int).contains(t)),
            decreases tags@.len() - i,
        {
            let t = tags[i];
            let ghost before = self@;
            self.remove(t);
            proof {
                assert(tags@.take(i + 1) == tags@.take(i as int).push(t));
                assert forall|x: TagId| #[trigger] self@.contains(x) <==> (old(self)@.contains(x) && !tags@.take(i + 1).contains(x)) by {
                    lemma_push_contains(tags@.take(i as int), t, x);
                    lemma_filter_contains_iff(before, |y: TagId| y != t, x);
                }
            }
            i = i + 1;
        }
        proof {
            assert(tags@.take(i as int) == tags@);
        }
    }
}

/// The indices of the effects whose tag is `tag` (`None` for untagged
/// effects), in order.
pub open spec fn indices_with_tag(effects: Seq<GameplayEffect>, tag: Option<TagId>) -> Seq<usize> {
    Seq::new(effects.len(), |i: int| i as usize).filter(|i: usize| effects[i as int].tag == tag)
}

/// The indices of the effects tagged `tag`, in order.
pub open spec fn tag_indices(effects: Seq<GameplayEffect>, tag: TagId) -> Seq<usize> {
    indices_with_tag(effects, Some(tag))
}

/// The effects stored on one entity, in insertion order.
pub struct ActiveEffects {
    list: EffectList,
}

impl ActiveEffects {
    pub closed spec fn view(&self) -> Seq<GameplayEffect> {
        effects_in(self.list)
    }

    /// At most `ACTIVE_EFFECTS_SIZE` effects, each valid.
    pub open spec fn wf(&self) -> bool {
        &&& self@.len() <= ACTIVE_EFFECTS_SIZE
        &&& forall|i: int| 0 <= i < self@.len() ==> (#[trigger] self@[i]).valid()
    }

    pub proof fn lemma_valid(&self, i: int)
        requires
            self.wf(),
            0 <= i < self@.len(),
        ensures
            self@[i].valid(),
    {
    }

    pub fn new(effects: Vec<GameplayEffect>) -> (r: ActiveEffects)
        requires
            effects@.len() <= ACTIVE_EFFECTS_SIZE,
            forall|i: int| 0 <= i < effects@.len() ==> (#[trigger] effects@[i]).valid(),
        ensures
            r@ == effects@,
            r.wf(),
    {
        let mut list = EffectList::new();
        let mut i: usize = 0;
        while i < effects.len()
            invariant
                i <= effects@.len() <= ACTIVE_EFFECTS_SIZE,
                effects_in(list) == effects@.take(i as int),
            decreases effects@.len() - i,
        {
            list.push(effects[i]);
            proof {
                assert(effects@.take(i + 1) == effects@.take(i as int).push(effects@[i as int]));
            }
            i = i + 1;
        }
        proof {
            assert(effects@.take(i as int) == effects@);
        }
        ActiveEffects { list }
    }

    pub fn len(&self) -> (r: usize)
        ensures
            r == self@.len(),
    {
        self.list.len()
    }

    pub fn get(&self, i: usize) -> (r: GameplayEffect)
        requires
            i < self@.len(),
        ensures
            r == self@[i as int],
    {
        self.list.get(i)
    }

    pub(crate) fn set(&mut self, i: usize, e: GameplayEffect)
        requires
            i < old(self)@.len(),
        ensures
            final(self)@ == old(self)@.update(i as int, e),
    {
        self.list.set(i, e);
    }

    pub(crate) fn push(&mut self, e: GameplayEffect)
        requires
            old(self)@.len() < ACTIVE_EFFECTS_SIZE,
        ensures
            final(self)@ == old(self)@.push(e),
    {
        self.list.push(e);
    }

    pub(crate) fn remove(&mut self, i: usize) -> (r: GameplayEffect)
        requires
            i < old(self)@.len(),
        ensures
            r == old(self)@[i as int],
            final(self)@ == old(self)@.remove(i as int),
    {
        self.list.remove(i)
    }

    /// The indices of the effects whose tag is `tag`, in order.
    pub(crate) fn collect_tagged(&self, tag: Option<TagId>) -> (r: IndexList)
        requires
            self.wf(),
        ensures
            indices_in(r) == indices_with_tag(self@, tag),
            forall|a: int, b: int| 0 <= a < b < indices_in(r).len() ==> indices_in(r)[a] < indices_in(r)[b],
            forall|a: int| 0 <= a < indices_in(r).len() ==> indices_in(r)[a] < self@.len(),
    {
        let n = self.list.len();
        let ghost all = Seq::new(n as nat, |i: int| i as usize);
        let ghost pred = |i: usize| self@[i as int].tag == tag;
        let mut out = IndexList::new();
        let mut i: usize = 0;
        while i < n
            invariant
                n == self@.len() <= ACTIVE_EFFECTS_SIZE,
                i <= n,
                all == Seq::new(n as nat, |i: int| i as usize),
                pred == (|i: usize| self@[i as int].tag == tag),
                indices_in(out) == all.take(i as int).filter(pred),
                indices_in(out).len() <= i,
                forall|a: int, b: int| 0 <= a < b < indices_in(out).len() ==> indices_in(out)[a] < indices_in(out)[b],
                forall|a: int| 0 <= a < indices_in(out).len() ==> indices_in(out)[a] < i,
            decreases n - i,
        {
            let e = self.list.get(i);
            if e.tag == tag {
                out.push(i);
            }
            proof {
                reveal(Seq::filter);
                assert(all.take(i + 1).drop_last() == all.take(i as int));
                assert(all.take(i + 1).last() == i);
            }
            i = i + 1;
        }
        proof {
            assert(all.take(i as int) == all);
        }
        out
    }

    /// For each stored effect, the other entity whose stats its magnitude
    /// reads, if any.
    pub fn source_entities(&self) -> (r: Vec<Option<Entity>>)
        ensures
            r@.len() == self@.len(),
            forall|i: int| 0 <= i < self@.len() ==> #[trigger] r@[i] == reads_entity(self@[i].magnitude),
    {
        let n = self.list.len();
        let mut out: Vec<Option<Entity>> = Vec::new();
        let mut i: usize = 0;
        while i < n
            invariant
                n == self@.len(),
                i <= n,
                out@.len() == i,
                forall|j: int| 0 <= j < i ==> #[trigger] out@[j] == reads_entity(self@[j].magnitude),
            decreases n - i,
        {
            let e = self.list.get(i);
            out.push(e.magnitude.source_entity());
            i = i + 1;
        }
        out
    }

    /// The indices of the effects tagged `other`, in order.
    pub fn match_effect_type(&self, other: TagId) -> (r: Vec<usize>)
        ensures
            r@ == tag_indices(self@, other),
    {
        let n = self.list.len();
        let ghost all = Seq::new(n as nat, |i: int| i as usize);
        let ghost pred = |i: usize| self@[i as int].tag == Some(other);
        let mut out: Vec<usize> = Vec::new();
        let mut i: usize = 0;
        while i < n
            invariant
                n == self@.len(),
                i <= n,
                all == Seq::new(n as nat, |i: int| i as usize),
                pred == (|i: usize| self@[i as int].tag == Some(other)),
                out@ == all.take(i as int).filter(pred),
            decreases n - i,
        {
            let e = self.list.get(i);
            if e.tag == Some(other) {
                out.push(i);
            }
            proof {
                reveal(Seq::filter);
                assert(all.take(i + 1).drop_last() == all.take(i as int));
                assert(all.take(i + 1).last() == i);
            }
            i = i + 1;
        }
        proof {
            assert(all.take(i as int) == all);
        }
        out
    }
}

} // verus!
