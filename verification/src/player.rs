//! The player's state, trigger and movement keys.

use vstd::prelude::*;

verus! {

/// Whether the player is on the field, and when it was last shot down.
#[derive(Clone, Copy, Debug, PartialEq, Eq, Structural)]
pub struct PlayerState {
    /// The player is alive.
    pub on: bool,
    /// The elapsed game time (in nanoseconds) at which the player was last
    /// shot down; `None` while it has not been shot since it last spawned.
    pub last_shot: Option<u64>,
}

impl Default for PlayerState {
    fn default() -> (state: Self)
        ensures
            !state.on,
            state.last_shot is None,
    {
        PlayerState { on: false, last_shot: None }
    }
}

impl PlayerState {
    /// Records that the player was shot down at `time`.
    pub fn shot(&mut self, time: u64)
        ensures
            !final(self).on,
            final(self).last_shot == Some(time),
    {
        self.on = false;
        self.last_shot = Some(time);
    }

    /// Records that the player has (re)spawned.
    pub fn spawned(&mut self)
        ensures
            final(self).on,
            final(self).last_shot is None,
    {
        self.on = true;
        self.last_shot = None;
    }
}

/// Whether the player's gun is loaded: a held trigger fires one laser, and
/// the gun reloads when the trigger is released.
#[derive(Clone, Copy, Debug, PartialEq, Eq, Structural)]
pub struct PlayerReadyFire(pub bool);

impl PlayerReadyFire {
    /// A press of the trigger in this frame fires a laser.
    pub open spec fn fires(self, fire_pressed: bool) -> bool {
        self.0 && fire_pressed
    }

    /// The gun after a frame: released triggers reload it; otherwise a shot
    /// unloads it.
    pub open spec fn after_frame(self, fire_pressed: bool, fire_released: bool) -> PlayerReadyFire {
        if fire_released {
            PlayerReadyFire(true)
        } else if self.fires(fire_pressed) {
            PlayerReadyFire(false)
        } else {
            self
        }
    }
}

/// One frame of the player's trigger: fires when the gun is loaded and the
/// fire key is held (unloading the gun), and reloads the gun when the fire
/// key was just released. Returns whether a laser is fired.
pub fn player_fire(ready_fire: &mut PlayerReadyFire, fire_pressed: bool, fire_released: bool) -> (fired: bool)
    ensures
        fired == old(ready_fire).fires(fire_pressed),
        *final(ready_fire) == old(ready_fire).after_frame(fire_pressed, fire_released),
        fired == (old(ready_fire).0 && fire_pressed),
        final(ready_fire).0 == (fire_released || (old(ready_fire).0 && !fire_pressed)),
{
    let mut fired = false;
    if ready_fire.0 && fire_pressed {
        fired = true;
        ready_fire.0 = false;
    }
    if fire_released {
        ready_fire.0 = true;
    }
    fired
}

/// Holding the fire key fires one laser, not one per frame: after a frame
/// that fires without a release, a frame without a release does not fire;
/// and after a frame with a release the gun is loaded.
pub proof fn law_one_shot_per_press(gun: PlayerReadyFire, first_pressed: bool, second_pressed: bool)
    ensures
        gun.fires(first_pressed) ==> !gun.after_frame(first_pressed, false).fires(second_pressed),
        gun.after_frame(first_pressed, true).0,
{
}

/// A frame fires exactly when the gun is loaded and the fire key is held.
/// Only a release of the fire key loads the gun: without a release, the gun
/// is loaded after the frame exactly when it was loaded before and did not
/// fire, so an unloaded gun stays unloaded until the key is released.
pub proof fn law_reload_only_on_release(gun: PlayerReadyFire, fire_pressed: bool, fire_released: bool)
    ensures
        gun.fires(fire_pressed) == (gun.0 && fire_pressed),
        !fire_released ==> gun.after_frame(fire_pressed, fire_released).0 == (gun.0 && !fire_pressed),
        !fire_released && !gun.0 ==> !gun.after_frame(fire_pressed, fire_released).0,
        fire_released ==> gun.after_frame(fire_pressed, fire_released).0,
{
}

/// The horizontal direction the player moves in: left (-1) when the left key
/// is held, otherwise right (1) when the right key is held, otherwise none.
pub fn player_direction(left_pressed: bool, right_pressed: bool) -> (dir: i8)
    ensures
        dir == (if left_pressed {
            -1i8
        } else if right_pressed {
            1i8
        } else {
            0i8
        }),
{
    if left_pressed {
        -1
    } else if right_pressed {
        1
    } else {
        0
    }
}

} // verus!
