//! The snapshot: a full copy of what clients are told about the world,
//! built afresh after every step.

use crate::entity::{Mob, MobEntry, MobKind, PlayerEntry};
use crate::geometry::Vec2;
use vstd::prelude::*;

verus! {

/// What clients are told about one player.
#[derive(Clone, Copy, Debug, PartialEq, Eq, Structural)]
pub struct ClientPlayer {
    pub id: usize,
    pub pos: Vec2,
    pub health: u8,
}

/// What clients are told about one mob.
#[derive(Clone, Copy, Debug, PartialEq, Eq, Structural)]
pub struct ClientMob {
    pub id: usize,
    pub pos: Vec2,
    pub health: u8,
    pub t: MobKind,
}

/// One snapshot: every player and every mob, in the store's order.
#[derive(Debug, PartialEq, Eq)]
pub struct Playfield {
    pub players: Vec<ClientPlayer>,
    pub mobs: Vec<ClientMob>,
}

/// What clients are told about the player `e`.
pub open spec fn shown_player(e: PlayerEntry) -> ClientPlayer {
    ClientPlayer { id: e.id, pos: e.player.pos, health: e.player.health }
}

/// What clients are told about the mob `e`.
pub open spec fn shown_mob(e: MobEntry) -> ClientMob {
    ClientMob { id: e.id, pos: e.mob.position(), health: e.mob.spec_health(), t: e.mob.spec_kind() }
}

/// The players of a snapshot of `players`.
pub open spec fn shown_players(players: Seq<PlayerEntry>) -> Seq<ClientPlayer> {
    players.map_values(|e: PlayerEntry| shown_player(e))
}

/// The mobs of a snapshot of `mobs`.
pub open spec fn shown_mobs(mobs: Seq<MobEntry>) -> Seq<ClientMob> {
    mobs.map_values(|e: MobEntry| shown_mob(e))
}

impl Playfield {
    /// The snapshot shows exactly `players` and `mobs`.
    pub open spec fn shows(&self, players: Seq<PlayerEntry>, mobs: Seq<MobEntry>) -> bool {
        &&& self.players@ == shown_players(players)
        &&& self.mobs@ == shown_mobs(mobs)
    }
}

impl MobKind {
    /// The name under which clients know the kind.
    pub fn name(&self) -> (s: &'static str)
        ensures
            s@ == "skeleton"@,
    {
        match self {
            MobKind::Skeleton => "skeleton",
        }
    }
}

/// Builds the snapshot of `players` and `mobs`.
pub fn take(players: &Vec<PlayerEntry>, mobs: &Vec<MobEntry>) -> (field: Playfield)
    ensures
        field.shows(players@, mobs@),
{
    let mut shown: Vec<ClientPlayer> = Vec::new();
    let mut i: usize = 0;
    while i < players.len()
        invariant
            i <= players.len(),
            shown@.len() == i,
            forall|k: int| 0 <= k < i ==> shown@[k] == shown_player(players@[k]),
        decreases players.len() - i,
    {
        let e = &players[i];
        shown.push(ClientPlayer { id: e.id, pos: e.player.pos, health: e.player.health });
        i += 1;
    }
    let mut seen: Vec<ClientMob> = Vec::new();
    let mut i: usize = 0;
    while i < mobs.len()
        invariant
            i <= mobs.len(),
            seen@.len() == i,
            forall|k: int| 0 <= k < i ==> seen@[k] == shown_mob(mobs@[k]),
        decreases mobs.len() - i,
    {
        let e = &mobs[i];
        seen.push(ClientMob { id: e.id, pos: e.mob.pos(), health: e.mob.health(), t: e.mob.kind() });
        i += 1;
    }
    assert(shown@ =~= shown_players(players@));
    assert(seen@ =~= shown_mobs(mobs@));
    Playfield { players: shown, mobs: seen }
}

} // verus!
