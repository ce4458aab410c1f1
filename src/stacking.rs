//! Stacking: the policy configured per tag, and the decision it makes for a
//! new effect given how many effects of its tag are stored.
use vstd::prelude::*;
use bevy::platform::collections::HashMap;
use bevy::platform::hash::FixedHasher;
use crate::calculation::StackingPolicy;
use crate::effects::TagId;

verus! {

#[verifier::external_type_specification]
#[verifier::external_body]
#[verifier::reject_recursive_types(K)]
#[verifier::reject_recursive_types(V)]
#[verifier::reject_recursive_types(S)]
pub struct ExHashMap<K, V, S>(HashMap<K, V, S>);

#[verifier::external_type_specification]
#[verifier::external_body]
pub struct ExFixedHasher(FixedHasher);

/// The policies held by a policy map, by tag number.
pub uninterp spec fn policies_of(m: HashMap<u32, StackingPolicy>) -> Map<u32, StackingPolicy>;

/// Relies on bevy's HashMap::new: an empty map.
#[verifier::external_body]
fn empty_policies() -> (r: HashMap<u32, StackingPolicy>)
    ensures
        policies_of(r) =~= Map::empty(),
{
    HashMap::new()
}

/// Relies on bevy's HashMap::insert: the key now maps to the value, the
/// other entries stay.
#[verifier::external_body]
fn insert_policy(m: &mut HashMap<u32, StackingPolicy>, k: u32, v: StackingPolicy)
    ensures
        policies_of(*final(m)) == policies_of(*old(m)).insert(k, v),
{
    m.insert(k, v);
}

/// Relies on bevy's HashMap::get: the value the key maps to, if any.
#[verifier::external_body]
fn lookup_policy(m: &HashMap<u32, StackingPolicy>, k: u32) -> (r: Option<StackingPolicy>)
    ensures
        r == (if policies_of(*m).contains_key(k) {
            Some(policies_of(*m)[k])
        } else {
            None
        }),
{
    m.get(&k).copied()
}

/// Relies on bevy's HashMap `Clone`: a map with the same entries.
#[verifier::external_body]
fn clone_policies(m: &HashMap<u32, StackingPolicy>) -> (r: HashMap<u32, StackingPolicy>)
    ensures
        policies_of(r) == policies_of(*m),
{
    m.clone()
}

/// The stacking policy of each tag; a tag without one does not stack.
pub struct StackingBehaviors {
    policies: HashMap<u32, StackingPolicy>,
}

/// The policy for `tag` in `policies`, `NoStacking` when it has none.
pub open spec fn policy_in(policies: Map<u32, StackingPolicy>, tag: TagId) -> StackingPolicy {
    if policies.contains_key(tag.0) {
        policies[tag.0]
    } else {
        StackingPolicy::NoStacking
    }
}

impl StackingBehaviors {
    pub closed spec fn view(&self) -> Map<u32, StackingPolicy> {
        policies_of(self.policies)
    }

    pub fn new() -> (r: StackingBehaviors)
        ensures
            r@ == Map::<u32, StackingPolicy>::empty(),
    {
        StackingBehaviors { policies: empty_policies() }
    }

    /// The behaviours with `tag` given `policy`.
    pub fn stack(self, tag: TagId, policy: StackingPolicy) -> (r: StackingBehaviors)
        ensures
            r@ == self@.insert(tag.0, policy),
    {
        let mut policies = self.policies;
        insert_policy(&mut policies, tag.0, policy);
        StackingBehaviors { policies }
    }

    /// A copy with the same policies.
    pub fn cloned(&self) -> (r: StackingBehaviors)
        ensures
            r@ == self@,
    {
        StackingBehaviors { policies: clone_policies(&self.policies) }
    }

    pub fn policy(&self, tag: TagId) -> (r: StackingPolicy)
        ensures
            r == policy_in(self@, tag),
    {
        match lookup_policy(&self.policies, tag.0) {
            Some(p) => p,
            None => StackingPolicy::NoStacking,
        }
    }
}

/// What to do with a new effect of a tag: whether to give the stored effects
/// of the tag its duration, and whether to store it.
#[derive(Clone, Copy, Debug, PartialEq, Eq, Structural)]
pub struct StackingDecision {
    pub refresh: bool,
    pub accept: bool,
}

pub open spec fn stacking_decision(policy: StackingPolicy, existing: nat) -> StackingDecision {
    match policy {
        StackingPolicy::NoStacking => StackingDecision { refresh: false, accept: existing == 0 },
        StackingPolicy::NoStackingResetDuration => StackingDecision {
            refresh: existing > 0,
            accept: existing == 0,
        },
        StackingPolicy::MultipleEffects(max) => StackingDecision {
            refresh: false,
            accept: existing < max,
        },
        StackingPolicy::MultipleEffectsResetDurations(max) => StackingDecision {
            refresh: true,
            accept: existing < max,
        },
    }
}

/// The decision of `policy` when `existing` effects of the tag are stored.
pub fn resolve_stacking(policy: StackingPolicy, existing: usize) -> (r: StackingDecision)
    ensures
        r == stacking_decision(policy, existing as nat),
{
    match policy {
        StackingPolicy::NoStacking => StackingDecision { refresh: false, accept: existing == 0 },
        StackingPolicy::NoStackingResetDuration => StackingDecision {
            refresh: existing > 0,
            accept: existing == 0,
        },
        StackingPolicy::MultipleEffects(max) => StackingDecision {
            refresh: false,
            accept: existing < max as usize,
        },
        StackingPolicy::MultipleEffectsResetDurations(max) => StackingDecision {
            refresh: true,
            accept: existing < max as usize,
        },
    }
}

} // verus!
