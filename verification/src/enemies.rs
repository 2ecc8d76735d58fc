//! How many enemies are alive, and when a new one may be spawned.

use vstd::prelude::*;

use crate::formation::{Formation, FormationMaker};
use crate::ENEMY_MAX;

verus! {

/// The number of enemies alive; it never exceeds [`ENEMY_MAX`].
pub struct ActiveEnemies {
    count: u32,
}

impl View for ActiveEnemies {
    type V = u32;

    closed spec fn view(&self) -> u32 {
        self.count
    }
}

impl ActiveEnemies {
    #[verifier::type_invariant]
    spec fn within_cap(self) -> bool {
        self.count <= ENEMY_MAX
    }

    /// The number of enemies alive.
    pub fn count(&self) -> (n: u32)
        ensures
            n == self@,
            n <= ENEMY_MAX,
    {
        proof {
            use_type_invariant(self);
        }
        self.count
    }

    /// Records that an enemy was destroyed.
    pub fn enemy_destroyed(&mut self)
        requires
            old(self)@ > 0,
        ensures
            final(self)@ == old(self)@ - 1,
    {
        proof {
            use_type_invariant(&*self);
        }
        self.count = self.count - 1;
    }
}

impl Default for ActiveEnemies {
    fn default() -> (active: Self)
        ensures
            active@ == 0,
    {
        ActiveEnemies { count: 0 }
    }
}

/// One spawn tick: while fewer than [`ENEMY_MAX`] enemies are alive, a new
/// enemy is spawned with the next formation from `maker` (a new group would
/// fly the path `fresh`) and counted; otherwise nothing happens.
pub fn enemy_spawn<G: Copy>(
    active: &mut ActiveEnemies,
    maker: &mut FormationMaker<G>,
    fresh: G,
) -> (spawned: Option<Formation<G>>)
    requires
        old(active)@ < ENEMY_MAX && old(maker)@.opens_new_group() ==> old(maker)@.group_seq
            < u32::MAX,
    ensures
        old(active)@ < ENEMY_MAX ==> {
            &&& spawned == Some(old(maker)@.make_result(fresh))
            &&& final(maker)@ == old(maker)@.after_make(fresh)
            &&& final(active)@ == old(active)@ + 1
        },
        old(active)@ >= ENEMY_MAX ==> {
            &&& spawned is None
            &&& final(maker)@ == old(maker)@
            &&& final(active)@ == old(active)@
        },
        final(active)@ <= ENEMY_MAX,
{
    proof {
        use_type_invariant(&*active);
    }
    if active.count < ENEMY_MAX {
        let formation = maker.make(fresh);
        active.count = active.count + 1;
        Some(formation)
    } else {
        None
    }
}

} // verus!
