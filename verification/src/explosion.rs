//! Explosion animation over the frames of a sprite sheet.

use vstd::prelude::*;

verus! {

/// Number of frames in the explosion sprite sheet.
pub const EXPLOSION_LEN: usize = 16;

/// The sprite index after a tick, and whether the explosion is then removed.
pub open spec fn explosion_step(sprite_index: usize, timer_finished: bool) -> (int, bool) {
    if timer_finished {
        (sprite_index + 1, sprite_index + 1 >= EXPLOSION_LEN)
    } else {
        (sprite_index as int, false)
    }
}

/// One tick of an explosion: when its frame timer has finished, it moves to
/// the next frame, and it is removed once it moves past the last frame.
/// Returns the new sprite index and whether to remove the explosion.
pub fn animate_explosion(sprite_index: usize, timer_finished: bool) -> (step: (usize, bool))
    requires
        timer_finished ==> sprite_index < usize::MAX,
    ensures
        step.0 == explosion_step(sprite_index, timer_finished).0,
        step.1 == explosion_step(sprite_index, timer_finished).1,
        timer_finished ==> step.0 == sprite_index + 1 && step.1 == (sprite_index + 1 >= EXPLOSION_LEN),
        !timer_finished ==> step.0 == sprite_index && !step.1,
{
    let mut index = sprite_index;
    let mut despawn = false;
    if timer_finished {
        index = index + 1;
        if index >= EXPLOSION_LEN {
            despawn = true;
        }
    }
    (index, despawn)
}

/// An explosion started at the first frame shows every frame of the sheet:
/// it is removed at the tick that moves past the last frame, and not
/// before.
pub proof fn law_explosion_shows_every_frame(sprite_index: usize)
    ensures
        sprite_index + 1 < EXPLOSION_LEN ==> !explosion_step(sprite_index, true).1,
        sprite_index + 1 == EXPLOSION_LEN ==> explosion_step(sprite_index, true).1,
        !explosion_step(sprite_index, false).1,
{
}

/// A tick moves the explosion exactly one sprite cell forward when its
/// frame timer has finished, and leaves it on the same cell otherwise; it is
/// removed exactly when the new cell lies past the last frame.
pub proof fn law_explosion_advances_one_cell(sprite_index: usize, timer_finished: bool)
    ensures
        timer_finished ==> explosion_step(sprite_index, timer_finished).0 == sprite_index + 1,
        !timer_finished ==> explosion_step(sprite_index, timer_finished).0 == sprite_index,
        explosion_step(sprite_index, timer_finished).1 <==> (timer_finished && sprite_index + 1
            >= EXPLOSION_LEN),
{
}

} // verus!
