use vstd::prelude::*;

use crate::arith::{trunc_div, trunc_div_i64};

verus! {

/// Velocity gained from gravity on each physics step (tenths of a cell).
pub const GRAVITY: i32 = 8;

/// Largest downward velocity that gravity produces (tenths of a cell).
pub const MAX_FALL: i32 = 20;

/// Velocity set by a flap (tenths of a cell; negative is upward).
pub const FLAP_VELOCITY: i32 = -27;

/// The player's character.
#[derive(Clone, Copy, Debug, PartialEq, Eq, Structural)]
pub struct Player {
    /// Horizontal position in cells; advances by one per physics step.
    pub x: i32,
    /// Vertical position in cells, growing downward.
    pub y: i32,
    /// Vertical velocity in tenths of a cell per physics step.
    pub velocity: i32,
}

/// Velocity after one step of gravity: it grows by `GRAVITY` up to `MAX_FALL`,
/// and a velocity already at or above `MAX_FALL` is left as it is.
pub open spec fn fall_velocity(v: int) -> int {
    if v < MAX_FALL {
        if v + GRAVITY < MAX_FALL { v + GRAVITY } else { MAX_FALL as int }
    } else {
        v
    }
}

/// Vertical position after one physics step, kept at or below the top row.
pub open spec fn fall_height(y: int, v: int) -> int {
    let moved = y + trunc_div(fall_velocity(v), 10);
    if moved < 0 { 0 } else { moved }
}

/// One step of gravity from any velocity below `MAX_FALL` gives
/// `min(v + GRAVITY, MAX_FALL)`; a velocity at or above `MAX_FALL` stays.
pub proof fn fall_velocity_law(v: int)
    ensures
        v < MAX_FALL ==> fall_velocity(v) == if v + GRAVITY < MAX_FALL { v + GRAVITY } else { MAX_FALL as int },
        v >= MAX_FALL ==> fall_velocity(v) == v,
{
}

/// After a physics step the vertical position is never negative, whatever
/// the position and velocity before it.
pub proof fn fall_height_non_negative(y: int, v: int)
    ensures
        fall_height(y, v) >= 0,
{
}

impl Player {
    /// Whether a physics step from this state stays within `i32`.
    pub open spec fn step_fits(self) -> bool {
        &&& self.x < i32::MAX
        &&& self.y + trunc_div(fall_velocity(self.velocity as int), 10) <= i32::MAX
    }

    /// The state after one physics step.
    pub open spec fn stepped(self) -> Player {
        Player {
            x: (self.x + 1) as i32,
            y: fall_height(self.y as int, self.velocity as int) as i32,
            velocity: fall_velocity(self.velocity as int) as i32,
        }
    }

    /// The state after a flap.
    pub open spec fn flapped(self) -> Player {
        Player { velocity: FLAP_VELOCITY, ..self }
    }

    /// A player at rest at the given position.
    pub fn new(x: i32, y: i32) -> (p: Player)
        ensures
            p == (Player { x, y, velocity: 0 }),
    {
        Player { x, y, velocity: 0 }
    }

    /// One physics step: gravity, then the move.
    pub fn gravity_and_move(&mut self)
        requires
            old(self).step_fits(),
        ensures
            *final(self) == old(self).stepped(),
            final(self).velocity == fall_velocity(old(self).velocity as int),
            final(self).x == old(self).x + 1,
            final(self).y >= 0,
    {
        if self.velocity < MAX_FALL {
            self.velocity = if self.velocity + GRAVITY < MAX_FALL {
                self.velocity + GRAVITY
            } else {
                MAX_FALL
            };
        }
        let dy: i64 = trunc_div_i64(self.velocity as i64, 10);
        let y: i64 = self.y as i64 + dy;
        self.y = if y < 0 { 0 } else { y as i32 };
        self.x = self.x + 1;
    }

    /// An upward impulse that replaces the current velocity.
    pub fn flap(&mut self)
        ensures
            *final(self) == old(self).flapped(),
            final(self).velocity == FLAP_VELOCITY,
    {
        self.velocity = FLAP_VELOCITY;
    }
}

} // verus!
