//! Inline small vectors (smallvec::SmallVec) holding the stored effects of an
//! entity and the indices of effects due for removal.
use vstd::prelude::*;
use smallvec::SmallVec;
use crate::effects::GameplayEffect;

verus! {

/// The number of effects an entity stores before the vector spills to the heap.
pub const ACTIVE_EFFECTS_SIZE: usize = 24;

/// The number of pending removals held inline.
pub const REMOVALS_SIZE: usize = 8;

#[verifier::external_body]
pub struct EffectList {
    inner: SmallVec<[GameplayEffect; ACTIVE_EFFECTS_SIZE]>,
}

/// The effects held by an `EffectList`, in order.
pub uninterp spec fn effects_in(v: EffectList) -> Seq<GameplayEffect>;

impl EffectList {
    /// Relies on SmallVec::new: an empty vector.
    #[verifier::external_body]
    pub(crate) fn new() -> (r: EffectList)
        ensures
            effects_in(r) == Seq::<GameplayEffect>::empty(),
    {
        EffectList { inner: SmallVec::new() }
    }

    /// Relies on SmallVec::len: the number of items.
    #[verifier::external_body]
    pub(crate) fn len(&self) -> (r: usize)
        ensures
            r == effects_in(*self).len(),
    {
        self.inner.len()
    }

    /// Relies on SmallVec's `Index`: the item at `i`, copied out.
    #[verifier::external_body]
    pub(crate) fn get(&self, i: usize) -> (r: GameplayEffect)
        requires
            i < effects_in(*self).len(),
        ensures
            r == effects_in(*self)[i as int],
    {
        self.inner[i]
    }

    /// Relies on SmallVec's `IndexMut`: overwrites the item at `i`.
    #[verifier::external_body]
    pub(crate) fn set(&mut self, i: usize, e: GameplayEffect)
        requires
            i < effects_in(*old(self)).len(),
        ensures
            effects_in(*final(self)) == effects_in(*old(self)).update(i as int, e),
    {
        self.inner[i] = e;
    }

    /// Relies on SmallVec::push: appends an item, growing onto the heap past
    /// the inline capacity.
    #[verifier::external_body]
    pub(crate) fn push(&mut self, e: GameplayEffect)
        requires
            effects_in(*old(self)).len() < ACTIVE_EFFECTS_SIZE,
        ensures
            effects_in(*final(self)) == effects_in(*old(self)).push(e),
    {
        self.inner.push(e);
    }

    /// Relies on SmallVec::remove: takes out the item at `i` and shifts the
    /// later ones left.
    #[verifier::external_body]
    pub(crate) fn remove(&mut self, i: usize) -> (r: GameplayEffect)
        requires
            i < effects_in(*old(self)).len(),
        ensures
            r == effects_in(*old(self))[i as int],
            effects_in(*final(self)) == effects_in(*old(self)).remove(i as int),
    {
        self.inner.remove(i)
    }
}

#[verifier::external_body]
pub struct IndexList {
    inner: SmallVec<[usize; REMOVALS_SIZE]>,
}

/// The indices held by an `IndexList`, in order.
pub uninterp spec fn indices_in(v: IndexList) -> Seq<usize>;

impl IndexList {
    /// Relies on SmallVec::new: an empty vector.
    #[verifier::external_body]
    pub(crate) fn new() -> (r: IndexList)
        ensures
            indices_in(r) == Seq::<usize>::empty(),
    {
        IndexList { inner: SmallVec::new() }
    }

    /// Relies on SmallVec::len: the number of items.
    #[verifier::external_body]
    pub(crate) fn len(&self) -> (r: usize)
        ensures
            r == indices_in(*self).len(),
    {
        self.inner.len()
    }

    /// Relies on SmallVec's `Index`: the item at `i`.
    #[verifier::external_body]
    pub(crate) fn get(&self, i: usize) -> (r: usize)
        requires
            i < indices_in(*self).len(),
        ensures
            r == indices_in(*self)[i as int],
    {
        self.inner[i]
    }

    /// Relies on SmallVec::push: appends an item.
    #[verifier::external_body]
    pub(crate) fn push(&mut self, x: usize)
        requires
            indices_in(*old(self)).len() < ACTIVE_EFFECTS_SIZE,
        ensures
            indices_in(*final(self)) == indices_in(*old(self)).push(x),
    {
        self.inner.push(x);
    }
}

} // verus!
