//! Stats and the fixed-size stat set of one entity.
use vstd::prelude::*;

verus! {

/// The number of stat slots in a stat set.
pub const STAT_LIMIT: usize = 16;

/// One numeric stat: its designer-set base, the base as modified by the
/// persistent effects that target it, and the live current value.
#[derive(Clone, Copy, Debug, PartialEq, Eq)]
pub struct GameplayStat {
    pub current_value: i64,
    pub base_value: i64,
    pub modified_base: i64,
}

impl GameplayStat {
    /// A stat whose modified base starts at its base value.
    pub fn new(base_value: i64, current_value: i64) -> (r: GameplayStat)
        ensures
            r == (GameplayStat { current_value, base_value, modified_base: base_value }),
    {
        GameplayStat { current_value, base_value, modified_base: base_value }
    }

    pub open spec fn new_spec(base_value: i64, current_value: i64) -> GameplayStat {
        GameplayStat { current_value, base_value, modified_base: base_value }
    }

    pub open spec fn zero() -> GameplayStat {
        GameplayStat { current_value: 0, base_value: 0, modified_base: 0 }
    }
}

impl Default for GameplayStat {
    fn default() -> (r: GameplayStat)
        ensures
            r == GameplayStat::zero(),
    {
        GameplayStat { current_value: 0, base_value: 0, modified_base: 0 }
    }
}

/// A game's enumeration of stat names. Each name maps to its slot, which
/// must be below `STAT_LIMIT`. `index` returns the slot that `spec_index`
/// names; an implementation in ordinary Rust gives `spec_index` the same
/// body as `index`.
pub trait StatTrait: Copy {
    /// The slot of the stat.
    spec fn spec_index(self) -> u8;

    fn index(self) -> (r: u8)
        ensures
            r == self.spec_index(),
    ;
}

/// The stats of one entity, one slot per stat identifier.
#[derive(Clone, Copy, Debug)]
pub struct GameplayStats {
    slots: [GameplayStat; STAT_LIMIT],
}

/// The slot that `entries` leaves for stat `s`: the last entry naming `s`
/// wins, and a slot that no entry names stays zero.
pub open spec fn initial_slot(entries: Seq<(u8, i64)>, s: int) -> GameplayStat
    decreases entries.len(),
{
    if entries.len() == 0 {
        GameplayStat::zero()
    } else if entries.last().0 as int == s {
        GameplayStat {
            current_value: entries.last().1,
            base_value: entries.last().1,
            modified_base: entries.last().1,
        }
    } else {
        initial_slot(entries.drop_last(), s)
    }
}

proof fn lemma_initial_slot_last(entries: Seq<(u8, i64)>, s: int, i: int)
    requires
        0 <= i < entries.len(),
        entries[i].0 as int == s,
        forall|j: int| i < j < entries.len() ==> entries[j].0 as int != s,
    ensures
        initial_slot(entries, s) == GameplayStat::new_spec(entries[i].1, entries[i].1),
    decreases entries.len(),
{
    if i < entries.len() - 1 {
        let d = entries.drop_last();
        assert forall|j: int| i < j < d.len() implies d[j].0 as int != s by {
            assert(d[j] == entries[j]);
        }
        lemma_initial_slot_last(d, s, i);
    }
}

proof fn lemma_initial_slot_unnamed(entries: Seq<(u8, i64)>, s: int)
    requires
        forall|j: int| 0 <= j < entries.len() ==> entries[j].0 as int != s,
    ensures
        initial_slot(entries, s) == GameplayStat::zero(),
    decreases entries.len(),
{
    if entries.len() > 0 {
        let d = entries.drop_last();
        assert forall|j: int| 0 <= j < d.len() implies d[j].0 as int != s by {
            assert(d[j] == entries[j]);
        }
        lemma_initial_slot_unnamed(d, s);
    }
}

impl GameplayStats {
    /// A stat set has one slot per stat identifier.
    pub proof fn lemma_len(&self)
        ensures
            self@.len() == STAT_LIMIT,
    {
    }

    pub closed spec fn view(&self) -> Seq<GameplayStat> {
        self.slots@
    }

    /// The stat in slot `s`.
    pub open spec fn slot(&self, s: int) -> GameplayStat {
        self@[s]
    }

    pub open spec fn value_of(&self, s: int) -> i64 {
        self@[s].current_value
    }

    /// A stat set with every slot zero.
    pub fn zeroed() -> (r: GameplayStats)
        ensures
            r@.len() == STAT_LIMIT,
            forall|s: int| 0 <= s < STAT_LIMIT ==> r.slot(s) == GameplayStat::zero(),
    {
        let z = GameplayStat { current_value: 0, base_value: 0, modified_base: 0 };
        GameplayStats { slots: [z; STAT_LIMIT] }
    }

    /// A stat set from (slot, initial value) pairs, each slot starting with its
    /// base, modified base and current value equal. No set when there are more
    /// entries than slots or an entry names a slot out of range.
    pub fn from_values(entries: &[(u8, i64)]) -> (r: Option<GameplayStats>)
        ensures
            r is Some <==> entries@.len() <= STAT_LIMIT && forall|i: int|
                0 <= i < entries@.len() ==> (#[trigger] entries@[i]).0 < STAT_LIMIT,
            r matches Some(st) ==> st@.len() == STAT_LIMIT && forall|s: int|
                0 <= s < STAT_LIMIT ==> #[trigger] st.slot(s) == initial_slot(entries@, s),
    {
        if entries.len() > STAT_LIMIT {
            return None;
        }
        let mut st = GameplayStats::zeroed();
        let mut i: usize = 0;
        while i < entries.len()
            invariant
                i <= entries@.len() <= STAT_LIMIT,
                st@.len() == STAT_LIMIT,
                forall|j: int| 0 <= j < i ==> (#[trigger] entries@[j]).0 < STAT_LIMIT,
                forall|s: int|
                    0 <= s < STAT_LIMIT ==> #[trigger] st.slot(s) == initial_slot(entries@.take(i as int), s),
            decreases entries@.len() - i,
        {
            let (id, value) = entries[i];
            if id as usize >= STAT_LIMIT {
                return None;
            }
            let ghost prev = st;
            st.set(id, GameplayStat::new(value, value));
            proof {
                assert(st@ == prev@.update(id as int, GameplayStat::new_spec(value, value)));
                let next = entries@.take(i + 1);
                assert(next.drop_last() == entries@.take(i as int));
                assert(next.last() == entries@[i as int]);
                assert forall|s: int| 0 <= s < STAT_LIMIT implies #[trigger] st.slot(s)
                    == initial_slot(next, s) by {
                    assert(next.len() > 0);
                    if s != id as int {
                        assert(st.slot(s) == prev.slot(s));
                    }
                }
            }
            i = i + 1;
        }
        proof {
            assert(entries@.take(i as int) == entries@);
        }
        Some(st)
    }

    /// A stat set whose slot for each variant starts at `init(variant)`, with
    /// base, modified base and current value equal; a variant named again
    /// later overrides the earlier one, and a slot that no variant names is
    /// zero.
    pub fn new<T: StatTrait, F: Fn(T) -> i64>(init: F, variants: &[T]) -> (r: GameplayStats)
        requires
            variants@.len() <= STAT_LIMIT,
            forall|i: int| 0 <= i < variants@.len() ==> (#[trigger] variants@[i]).spec_index() < STAT_LIMIT,
            forall|t: T| init.requires((t,)),
        ensures
            r@.len() == STAT_LIMIT,
            forall|i: int|
                0 <= i < variants@.len() && (forall|j: int|
                    i < j < variants@.len() ==> variants@[j].spec_index() != variants@[i].spec_index())
                    ==> {
                    let st = #[trigger] r.slot(variants@[i].spec_index() as int);
                    &&& init.ensures((variants@[i],), st.current_value)
                    &&& st == GameplayStat::new_spec(st.current_value, st.current_value)
                },
            forall|s: int|
                0 <= s < STAT_LIMIT && (forall|i: int| 0 <= i < variants@.len() ==> variants@[i].spec_index() != s)
                    ==> #[trigger] r.slot(s) == GameplayStat::zero(),
    {
        let mut entries: Vec<(u8, i64)> = Vec::new();
        let mut i: usize = 0;
        while i < variants.len()
            invariant
                i <= variants@.len() <= STAT_LIMIT,
                entries@.len() == i,
                forall|t: T| init.requires((t,)),
                forall|j: int| 0 <= j < i ==> (#[trigger] entries@[j]).0 == variants@[j].spec_index()
                    && init.ensures((variants@[j],), entries@[j].1),
            decreases variants@.len() - i,
        {
            let v = variants[i];
            let value = init(v);
            entries.push((v.index(), value));
            i = i + 1;
        }
        proof {
            assert forall|j: int| 0 <= j < entries@.len() implies (#[trigger] entries@[j]).0 < STAT_LIMIT by {
                assert(entries@[j].0 == variants@[j].spec_index());
            }
        }
        match GameplayStats::from_values(entries.as_slice()) {
            Some(st) => {
                proof {
                    assert forall|i: int|
                        0 <= i < variants@.len() && (forall|j: int|
                            i < j < variants@.len() ==> variants@[j].spec_index() != variants@[i].spec_index())
                        implies {
                        let x = #[trigger] st.slot(variants@[i].spec_index() as int);
                        &&& init.ensures((variants@[i],), x.current_value)
                        &&& x == GameplayStat::new_spec(x.current_value, x.current_value)
                    } by {
                        let s = variants@[i].spec_index() as int;
                        assert(entries@[i].0 == variants@[i].spec_index());
                        assert forall|j: int| i < j < entries@.len() implies entries@[j].0 as int != s by {
                            assert(entries@[j].0 == variants@[j].spec_index());
                        }
                        lemma_initial_slot_last(entries@, s, i);
                    }
                    assert forall|s: int|
                        0 <= s < STAT_LIMIT && (forall|i: int| 0 <= i < variants@.len() ==> variants@[i].spec_index() != s)
                        implies #[trigger] st.slot(s) == GameplayStat::zero() by {
                        assert forall|j: int| 0 <= j < entries@.len() implies entries@[j].0 as int != s by {
                            assert(entries@[j].0 == variants@[j].spec_index());
                        }
                        lemma_initial_slot_unnamed(entries@, s);
                    }
                }
                st
            },
            None => {
                proof {
                    assert(false);
                }
                GameplayStats::zeroed()
            },
        }
    }

    /// The stat in slot `stat`.
    pub fn get(&self, stat: u8) -> (r: &GameplayStat)
        requires
            stat < STAT_LIMIT,
        ensures
            *r == self.slot(stat as int),
    {
        &self.slots[stat as usize]
    }

    /// The stat in slot `stat`, to modify in place.
    pub fn get_mut(&mut self, stat: u8) -> (r: &mut GameplayStat)
        requires
            stat < STAT_LIMIT,
        ensures
            *r == old(self).slot(stat as int),
            final(self)@ == old(self)@.update(stat as int, *final(r)),
    {
        &mut self.slots[stat as usize]
    }

    /// Replaces the stat in slot `stat`.
    pub fn set(&mut self, stat: u8, value: GameplayStat)
        requires
            stat < STAT_LIMIT,
        ensures
            final(self)@ == old(self)@.update(stat as int, value),
    {
        self.slots[stat as usize] = value;
    }

    /// The current value of slot `stat`.
    pub fn current(&self, stat: u8) -> (r: i64)
        requires
            stat < STAT_LIMIT,
        ensures
            r == self.value_of(stat as int),
    {
        self.slots[stat as usize].current_value
    }
}

} // verus!
