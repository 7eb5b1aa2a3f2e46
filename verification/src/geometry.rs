//! Fixed-point vectors, the arena, and the three geometric rules of the
//! simulation: integrating an input, displacing by noise, and testing two
//! player rectangles for overlap.

use vstd::prelude::*;

verus! {

/// Number of sub-units in one world unit. All coordinates count sub-units.
pub const UNIT: i32 = 1024;

/// The arena is the square from `0` to `ARENA_MAX` on both axes (800 world units).
pub const ARENA_MAX: i32 = 800 * UNIT;

/// How many times the input vector is added to a position in one step.
pub const STEP_SCALE: i32 = 2;

/// Largest displacement of a mob along one axis in one step (5 world units).
pub const MOB_STRIDE: i32 = 5 * UNIT;

/// Half the width of a player's bounding rectangle (56 world units).
pub const PLAYER_HALF_WIDTH: i32 = 56 * UNIT;

/// Half the height of a player's bounding rectangle (100 world units).
pub const PLAYER_HALF_HEIGHT: i32 = 100 * UNIT;

/// Where a player stands when it joins (the centre of the arena).
pub const SPAWN_X: i32 = 400 * UNIT;

/// See [`SPAWN_X`].
pub const SPAWN_Y: i32 = 400 * UNIT;

/// A position or a direction, in sub-units.
#[derive(Clone, Copy, Debug, PartialEq, Eq, Structural)]
pub struct Vec2 {
    pub x: i32,
    pub y: i32,
}

/// The nearest coordinate to `v` that lies inside the arena.
pub open spec fn clamp_axis(v: int) -> int {
    if v < 0 {
        0
    } else if v > ARENA_MAX as int {
        ARENA_MAX as int
    } else {
        v
    }
}

/// Both coordinates lie inside the arena.
pub open spec fn in_arena(p: Vec2) -> bool {
    0 <= p.x <= ARENA_MAX && 0 <= p.y <= ARENA_MAX
}

/// `p` with both coordinates clamped into the arena.
pub open spec fn clamped(p: Vec2) -> Vec2 {
    Vec2 { x: clamp_axis(p.x as int) as i32, y: clamp_axis(p.y as int) as i32 }
}

/// The position reached from `pos` after one step under input `key`:
/// `pos + STEP_SCALE * key`, clamped into the arena.
pub open spec fn advanced(pos: Vec2, key: Vec2) -> Vec2 {
    Vec2 {
        x: clamp_axis(pos.x + STEP_SCALE * key.x) as i32,
        y: clamp_axis(pos.y + STEP_SCALE * key.y) as i32,
    }
}

/// The position reached from `pos` after a displacement by `(dx, dy)`,
/// clamped into the arena.
pub open spec fn displaced(pos: Vec2, dx: int, dy: int) -> Vec2 {
    Vec2 { x: clamp_axis(pos.x + dx) as i32, y: clamp_axis(pos.y + dy) as i32 }
}

/// Two player rectangles centred on `a` and `b` share at least one point.
pub open spec fn overlapping(a: Vec2, b: Vec2) -> bool {
    &&& -2 * PLAYER_HALF_WIDTH <= a.x - b.x <= 2 * PLAYER_HALF_WIDTH
    &&& -2 * PLAYER_HALF_HEIGHT <= a.y - b.y <= 2 * PLAYER_HALF_HEIGHT
}

/// Clamps one coordinate into the arena.
pub fn clamp(v: i64) -> (r: i32)
    ensures
        r as int == clamp_axis(v as int),
        0 <= r <= ARENA_MAX,
{
    if v < 0 {
        0
    } else if v > ARENA_MAX as i64 {
        ARENA_MAX
    } else {
        v as i32
    }
}

impl Vec2 {
    /// The vector `(x, y)`.
    pub fn new(x: i32, y: i32) -> (v: Vec2)
        ensures
            v == (Vec2 { x, y }),
    {
        Vec2 { x, y }
    }

    /// The zero vector.
    pub fn zero() -> (v: Vec2)
        ensures
            v == (Vec2 { x: 0, y: 0 }),
    {
        Vec2 { x: 0, y: 0 }
    }

    /// The point where players join.
    pub fn spawn() -> (v: Vec2)
        ensures
            v == (Vec2 { x: SPAWN_X, y: SPAWN_Y }),
            in_arena(v),
    {
        Vec2 { x: SPAWN_X, y: SPAWN_Y }
    }

    /// Whether the point lies inside the arena.
    pub fn is_in_arena(&self) -> (b: bool)
        ensures
            b == in_arena(*self),
    {
        0 <= self.x && self.x <= ARENA_MAX && 0 <= self.y && self.y <= ARENA_MAX
    }

    /// The point clamped into the arena.
    pub fn clamp(&self) -> (r: Vec2)
        ensures
            r == clamped(*self),
            in_arena(r),
    {
        Vec2 { x: clamp(self.x as i64), y: clamp(self.y as i64) }
    }

    /// One integration step: adds `STEP_SCALE` times `key` and clamps.
    pub fn advance(&self, key: Vec2) -> (r: Vec2)
        ensures
            r == advanced(*self, key),
            in_arena(r),
    {
        let scale: i64 = STEP_SCALE as i64;
        assert(scale == 2);
        Vec2 {
            x: clamp(self.x as i64 + scale * key.x as i64),
            y: clamp(self.y as i64 + scale * key.y as i64),
        }
    }

    /// Adds `(dx, dy)` and clamps.
    pub fn displace(&self, dx: i32, dy: i32) -> (r: Vec2)
        ensures
            r == displaced(*self, dx as int, dy as int),
            in_arena(r),
    {
        Vec2 { x: clamp(self.x as i64 + dx as i64), y: clamp(self.y as i64 + dy as i64) }
    }

    /// Whether the player rectangles centred on `self` and `other` overlap.
    pub fn overlaps(&self, other: Vec2) -> (b: bool)
        ensures
            b == overlapping(*self, other),
    {
        let dx: i64 = self.x as i64 - other.x as i64;
        let dy: i64 = self.y as i64 - other.y as i64;
        let w: i64 = 2 * PLAYER_HALF_WIDTH as i64;
        let h: i64 = 2 * PLAYER_HALF_HEIGHT as i64;
        -w <= dx && dx <= w && -h <= dy && dy <= h
    }
}

} // verus!
