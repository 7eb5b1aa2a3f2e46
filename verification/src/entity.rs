//! The records of the world: players, mobs, and the rule by which each kind
//! of mob takes a step.

use crate::dice::draw_between;
use crate::geometry::{clamp_axis, clamped, displaced, in_arena, Vec2, MOB_STRIDE};
use rand::rngs::StdRng;
use vstd::prelude::*;

verus! {

/// Health of a player that touches nobody, and of every mob.
pub const HEALTH_FULL: u8 = 128;

/// Health of a player whose rectangle overlaps another player's.
pub const HEALTH_DAMAGED: u8 = 64;

/// A connected client's avatar.
#[derive(Clone, Copy, Debug, PartialEq, Eq, Structural)]
pub struct Player {
    /// The last movement input received, applied again on every step.
    pub key: Vec2,
    pub pos: Vec2,
    pub health: u8,
    pub mouse: bool,
}

/// The kinds of mob, as told to clients.
#[derive(Clone, Copy, Debug, PartialEq, Eq, Structural)]
pub enum MobKind {
    Skeleton,
}

/// A non-player entity, one variant per kind.
#[derive(Clone, Copy, Debug, PartialEq, Eq, Structural)]
pub enum Mobs {
    Skeleton { pos: Vec2, health: u8 },
}

/// A player as the store keeps it: the record, its session's identifier,
/// and how many other players its rectangle overlapped at the last
/// proximity pass.
#[derive(Clone, Copy, Debug, PartialEq, Eq, Structural)]
pub struct PlayerEntry {
    pub id: usize,
    pub player: Player,
    pub overlaps: usize,
}

/// A mob as the store keeps it.
#[derive(Clone, Copy, Debug, PartialEq, Eq, Structural)]
pub struct MobEntry {
    pub id: usize,
    pub mob: Mobs,
}

/// The identifiers of `players`, in order.
pub open spec fn player_ids(players: Seq<PlayerEntry>) -> Seq<usize> {
    players.map_values(|e: PlayerEntry| e.id)
}

/// The identifiers of `mobs`, in order.
pub open spec fn mob_ids(mobs: Seq<MobEntry>) -> Seq<usize> {
    mobs.map_values(|e: MobEntry| e.id)
}

/// The record of a player that has just joined at `start`: no input, full
/// health, mouse up, inside the arena.
pub open spec fn newcomer(id: usize, start: Vec2) -> PlayerEntry {
    PlayerEntry {
        id,
        player: Player {
            key: Vec2 { x: 0, y: 0 },
            pos: clamped(start),
            health: HEALTH_FULL,
            mouse: false,
        },
        overlaps: 0,
    }
}

/// What every kind of mob offers to the simulation. A new kind brings its
/// own step rule; whatever the rule, a step ends inside the arena.
pub trait Mob: Sized {
    /// Where the mob stands.
    spec fn position(&self) -> Vec2;

    /// The step rule of the kind: whether one step may lead from `self` to `next`.
    spec fn may_become(&self, next: &Self) -> bool;

    /// Takes one step, drawing whatever chance the kind needs from `rng`.
    fn update(&mut self, rng: &mut StdRng)
        ensures
            old(self).may_become(final(self)),
            in_arena(final(self).position()),
    ;
}

/// One coordinate after a skeleton's step: anything the clamped walk can reach.
pub open spec fn within_stride(before: int, after: int) -> bool {
    clamp_axis(before - MOB_STRIDE) <= after <= clamp_axis(before + MOB_STRIDE)
}

/// The displacement along one axis, within one stride, that leads from
/// `before` to `after` once clamped.
pub open spec fn stride_between(before: int, after: int) -> int {
    if after - before < -MOB_STRIDE {
        -MOB_STRIDE as int
    } else if after - before > MOB_STRIDE {
        MOB_STRIDE as int
    } else {
        after - before
    }
}

/// The step rule of a skeleton allows exactly the outcomes of a clamped
/// displacement by at most one stride along each axis.
pub proof fn skeleton_step_is_a_displacement(before: Mobs, after: Mobs)
    ensures
        before.may_become(&after) <==> exists|dx: int, dy: int|
            -MOB_STRIDE <= dx <= MOB_STRIDE && -MOB_STRIDE <= dy <= MOB_STRIDE && after
                == #[trigger] before.nudged(dx, dy),
{
    let p = before.position();
    let q = after.position();
    if before.may_become(&after) {
        let dx = stride_between(p.x as int, q.x as int);
        let dy = stride_between(p.y as int, q.y as int);
        assert(after == before.nudged(dx, dy));
    }
}

impl Mobs {
    /// The mob's kind.
    pub open spec fn spec_kind(&self) -> MobKind {
        match self {
            Mobs::Skeleton { .. } => MobKind::Skeleton,
        }
    }

    /// The mob's health.
    pub open spec fn spec_health(&self) -> u8 {
        match self {
            Mobs::Skeleton { health, .. } => *health,
        }
    }

    /// The mob moved by `(dx, dy)` and clamped into the arena; all else unchanged.
    pub open spec fn nudged(&self, dx: int, dy: int) -> Mobs {
        match self {
            Mobs::Skeleton { pos, health } => Mobs::Skeleton {
                pos: displaced(*pos, dx, dy),
                health: *health,
            },
        }
    }

    /// The mob's kind.
    #[verifier::when_used_as_spec(spec_kind)]
    pub fn kind(&self) -> (k: MobKind)
        ensures
            k == self.spec_kind(),
    {
        match self {
            Mobs::Skeleton { .. } => MobKind::Skeleton,
        }
    }

    /// The mob's health.
    #[verifier::when_used_as_spec(spec_health)]
    pub fn health(&self) -> (h: u8)
        ensures
            h == self.spec_health(),
    {
        match self {
            Mobs::Skeleton { health, .. } => *health,
        }
    }

    /// Where the mob stands.
    pub fn pos(&self) -> (p: Vec2)
        ensures
            p == self.position(),
    {
        match self {
            Mobs::Skeleton { pos, .. } => *pos,
        }
    }

    /// Moves the mob by `(dx, dy)` and clamps it into the arena.
    pub fn displace(&mut self, dx: i32, dy: i32)
        ensures
            *final(self) == old(self).nudged(dx as int, dy as int),
            in_arena(final(self).position()),
    {
        match self {
            Mobs::Skeleton { pos, .. } => {
                *pos = pos.displace(dx, dy);
            },
        }
    }
}

impl Mob for Mobs {
    open spec fn position(&self) -> Vec2 {
        match self {
            Mobs::Skeleton { pos, .. } => *pos,
        }
    }

    /// A skeleton wanders: each coordinate moves by at most `MOB_STRIDE` and
    /// is clamped into the arena; kind and health stay.
    open spec fn may_become(&self, next: &Self) -> bool {
        match (self, next) {
            (Mobs::Skeleton { pos, health }, Mobs::Skeleton { pos: next_pos, health: next_health }) => {
                &&& next_health == health
                &&& within_stride(pos.x as int, next_pos.x as int)
                &&& within_stride(pos.y as int, next_pos.y as int)
            },
        }
    }

    fn update(&mut self, rng: &mut StdRng) {
        match self {
            Mobs::Skeleton { .. } => {
                let dx: i32 = draw_between(rng, -MOB_STRIDE, MOB_STRIDE + 1);
                let dy: i32 = draw_between(rng, -MOB_STRIDE, MOB_STRIDE + 1);
                self.displace(dx, dy);
            },
        }
    }
}

} // verus!
