use vstd::prelude::*;

use crate::arith::{trunc_div, trunc_div_i64};
use crate::player::Player;
use crate::random::random_in;

verus! {

/// Gap size of an obstacle spawned at score zero.
pub const START_GAP: i32 = 20;

/// Smallest gap size an obstacle can have.
pub const MIN_GAP: i32 = 2;

/// Lowest gap center an obstacle can be spawned with.
pub const GAP_CENTER_LO: i32 = 10;

/// One past the highest gap center an obstacle can be spawned with.
pub const GAP_CENTER_HI: i32 = 40;

/// Bounds (exclusive) of the random part of an obstacle's speed, in
/// thousandths of a cell per frame.
pub const SPEED_LO: i64 = 1000;
pub const SPEED_HI: i64 = 3000;

/// Extra speed per point of score, in thousandths of a cell per frame.
pub const SPEED_PER_POINT: i64 = 100;

/// Gap size for a given score: one cell less for every five points, never
/// below `MIN_GAP`.
pub open spec fn gap_size(score: int) -> int {
    let s = START_GAP - score / 5;
    if s < MIN_GAP { MIN_GAP as int } else { s }
}

/// Horizontal velocity of an obstacle spawned at `score` whose random speed
/// part is `speed` (thousandths of a cell per frame; negative is leftward).
pub open spec fn spawn_velocity(speed: int, score: int) -> int {
    -speed - score * SPEED_PER_POINT
}

/// The random draws that decide a new obstacle's shape.
#[derive(Clone, Copy, Debug, PartialEq, Eq, Structural)]
pub struct SpawnRoll {
    /// Gap center, in `[GAP_CENTER_LO, GAP_CENTER_HI)`.
    pub gap_y: i32,
    /// Base speed, strictly between `SPEED_LO` and `SPEED_HI`.
    pub speed: i64,
}

impl SpawnRoll {
    pub open spec fn valid(self) -> bool {
        &&& GAP_CENTER_LO <= self.gap_y < GAP_CENTER_HI
        &&& SPEED_LO < self.speed < SPEED_HI
    }

    /// Draws a gap center and a base speed uniformly from their ranges.
    pub fn draw() -> (r: SpawnRoll)
        ensures
            r.valid(),
    {
        let g: i64 = random_in(GAP_CENTER_LO as i64, GAP_CENTER_HI as i64);
        let speed: i64 = random_in(SPEED_LO + 1, SPEED_HI);
        SpawnRoll { gap_y: g as i32, speed }
    }
}

/// Gap size for a given score.
pub fn gap_size_for(score: i32) -> (r: i32)
    requires
        score >= 0,
    ensures
        r == gap_size(score as int),
{
    let s: i32 = START_GAP - score / 5;
    if s < MIN_GAP { MIN_GAP } else { s }
}

/// The gap never grows as the score rises, and never drops below `MIN_GAP`.
pub proof fn gap_size_non_increasing(a: int, b: int)
    requires
        0 <= a <= b,
    ensures
        gap_size(b) <= gap_size(a),
        gap_size(a) >= MIN_GAP,
        gap_size(b) >= MIN_GAP,
{
    assert(a / 5 <= b / 5) by (nonlinear_arith)
        requires 0 <= a <= b;
}

/// Whatever the score, the gap is at least `MIN_GAP`.
pub proof fn gap_size_floor(score: int)
    ensures
        gap_size(score) >= MIN_GAP,
{
}

/// A wall with a vertical gap, scrolling toward the player.
#[derive(Clone, Copy, Debug, PartialEq, Eq, Structural)]
pub struct Obstacle {
    /// Horizontal position in cells.
    pub x: i32,
    /// Center row of the gap.
    pub gap_y: i32,
    /// Total height of the gap.
    pub size: i32,
    /// Horizontal velocity in thousandths of a cell per frame.
    pub x_velocity: i64,
}

impl Obstacle {
    /// The obstacle spawned at `x` and `score` from the draws in `roll`.
    pub open spec fn spawned(x: int, score: int, roll: SpawnRoll) -> Obstacle {
        Obstacle {
            x: x as i32,
            gap_y: roll.gap_y,
            size: gap_size(score) as i32,
            x_velocity: spawn_velocity(roll.speed as int, score) as i64,
        }
    }

    /// Half the gap size, the distance from the gap center to either edge.
    pub open spec fn half_gap(self) -> int {
        self.size as int / 2
    }

    /// Whether the player is level with the obstacle (fewer than two cells
    /// apart horizontally) and outside the band
    /// `[gap_y - half_gap, gap_y + half_gap]`.
    pub open spec fn hits(self, p: Player) -> bool {
        &&& -2 < p.x - self.x < 2
        &&& (p.y < self.gap_y - self.half_gap() || p.y > self.gap_y + self.half_gap())
    }

    /// Cells moved in one frame: the velocity truncated toward zero.
    pub open spec fn shift(self) -> int {
        trunc_div(self.x_velocity as int, 1000)
    }

    pub open spec fn move_fits(self) -> bool {
        &&& self.x_velocity > i64::MIN
        &&& i32::MIN <= self.x + self.shift() <= i32::MAX
    }

    /// The obstacle after one frame of scrolling.
    pub open spec fn moved(self) -> Obstacle {
        Obstacle { x: (self.x + self.shift()) as i32, ..self }
    }

    /// Builds the obstacle for position `x` and `score` from given draws.
    pub fn from_roll(x: i32, score: i32, roll: SpawnRoll) -> (o: Obstacle)
        requires
            score >= 0,
            roll.valid(),
        ensures
            o == Obstacle::spawned(x as int, score as int, roll),
            o.size >= MIN_GAP,
            o.x_velocity < 0,
    {
        let size = gap_size_for(score);
        let x_velocity: i64 = -roll.speed - (score as i64) * SPEED_PER_POINT;
        Obstacle { x, gap_y: roll.gap_y, size, x_velocity }
    }

    /// A new obstacle at `x` with a random gap center and speed, shaped by
    /// `score`: smaller gaps and faster scrolling as the score grows.
    pub fn new(x: i32, score: i32) -> (o: Obstacle)
        requires
            score >= 0,
        ensures
            o.x == x,
            o.size == gap_size(score as int),
            GAP_CENTER_LO <= o.gap_y < GAP_CENTER_HI,
            spawn_velocity(SPEED_HI as int, score as int) < o.x_velocity,
            o.x_velocity < spawn_velocity(SPEED_LO as int, score as int),
    {
        let roll = SpawnRoll::draw();
        Obstacle::from_roll(x, score, roll)
    }

    /// Whether this obstacle collides with the player.
    pub fn hit_obstacle(&self, player: &Player) -> (r: bool)
        requires
            self.size >= 0,
        ensures
            r == self.hits(*player),
    {
        let half: i64 = (self.size / 2) as i64;
        let dx: i64 = player.x as i64 - self.x as i64;
        let does_x_match = -2 < dx && dx < 2;
        let above = (player.y as i64) < self.gap_y as i64 - half;
        let below = (player.y as i64) > self.gap_y as i64 + half;
        does_x_match && (above || below)
    }

    /// Scrolls the obstacle by one frame.
    pub fn update(&mut self)
        requires
            old(self).move_fits(),
        ensures
            *final(self) == old(self).moved(),
    {
        let dx: i64 = trunc_div_i64(self.x_velocity, 1000);
        self.x = (self.x as i64 + dx) as i32;
    }

    /// Screen column of the obstacle when the view follows `player_x`, or
    /// `None` when it has scrolled off the left edge (or lies beyond any
    /// column an `i32` can name).
    pub fn screen_column(&self, player_x: i32) -> (r: Option<i32>)
        ensures
            r == (if -1 <= self.x - player_x <= i32::MAX {
                Some((self.x - player_x) as i32)
            } else {
                None::<i32>
            }),
    {
        let sx: i64 = self.x as i64 - player_x as i64;
        if sx < -1 {
            None
        } else if sx > i32::MAX as i64 {
            None
        } else {
            Some(sx as i32)
        }
    }

    /// Whether `row` is drawn as wall: above `gap_y - half_gap`, or at or
    /// below `gap_y + half_gap`.
    pub fn is_wall_row(&self, row: i32) -> (r: bool)
        requires
            self.size >= 0,
        ensures
            r == (row < self.gap_y - self.half_gap() || row >= self.gap_y + self.half_gap()),
    {
        let half: i64 = (self.size / 2) as i64;
        (row as i64) < self.gap_y as i64 - half || (row as i64) >= self.gap_y as i64 + half
    }
}

/// Collision in three cases: two or more cells apart horizontally never
/// collides; level with the obstacle at the gap center never collides; level
/// with it one row beyond either edge of the gap always collides.
pub proof fn collision_cases(o: Obstacle, p: Player)
    requires
        o.size >= 0,
    ensures
        (p.x - o.x >= 2 || o.x - p.x >= 2) ==> !o.hits(p),
        (-2 < p.x - o.x < 2 && p.y == o.gap_y) ==> !o.hits(p),
        (-2 < p.x - o.x < 2 && p.y == o.gap_y + o.half_gap() + 1) ==> o.hits(p),
        (-2 < p.x - o.x < 2 && p.y == o.gap_y - o.half_gap() - 1) ==> o.hits(p),
{
}

} // verus!
