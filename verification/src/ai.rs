//! The AI stepper: every mob takes one step by the rule of its kind.

use crate::entity::{Mob, MobEntry};
use crate::geometry::in_arena;
use rand::rngs::StdRng;
use vstd::prelude::*;

verus! {

/// One mob before and after a step: the same identifier, and a state that
/// the rule of its kind allows.
pub open spec fn stepped(before: MobEntry, after: MobEntry) -> bool {
    &&& after.id == before.id
    &&& before.mob.may_become(&after.mob)
    &&& in_arena(after.mob.position())
}

/// All mobs before and after a step: none added, none removed, none
/// reordered, and each stepped by the rule of its kind.
pub open spec fn mobs_stepped(before: Seq<MobEntry>, after: Seq<MobEntry>) -> bool {
    &&& after.len() == before.len()
    &&& forall|i: int| 0 <= i < before.len() ==> stepped(before[i], #[trigger] after[i])
}

/// Steps every mob once, drawing from `rng`.
pub fn step_mobs(mobs: &mut Vec<MobEntry>, rng: &mut StdRng)
    ensures
        mobs_stepped(old(mobs)@, final(mobs)@),
{
    let mut i: usize = 0;
    while i < mobs.len()
        invariant
            i <= mobs.len(),
            mobs@.len() == old(mobs)@.len(),
            forall|k: int| 0 <= k < i ==> stepped(old(mobs)@[k], #[trigger] mobs@[k]),
            forall|k: int| i <= k < mobs@.len() ==> mobs@[k] == old(mobs)@[k],
        decreases mobs.len() - i,
    {
        mobs[i].mob.update(rng);
        i += 1;
    }
}

} // verus!
