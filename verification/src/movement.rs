//! The movement integrator: every player moves by its last input, scaled,
//! and is clamped into the arena. No acceleration, no friction, no terrain.

use crate::entity::{Player, PlayerEntry};
use crate::geometry::advanced;
use vstd::prelude::*;

verus! {

/// A player after one step of integration; only its position changes.
pub open spec fn moved(e: PlayerEntry) -> PlayerEntry {
    PlayerEntry {
        id: e.id,
        player: Player {
            key: e.player.key,
            pos: advanced(e.player.pos, e.player.key),
            health: e.player.health,
            mouse: e.player.mouse,
        },
        overlaps: e.overlaps,
    }
}

/// All players after one step of integration.
pub open spec fn after_movement(players: Seq<PlayerEntry>) -> Seq<PlayerEntry> {
    players.map_values(|e: PlayerEntry| moved(e))
}

/// Advances every player by one step.
pub fn integrate(players: &mut Vec<PlayerEntry>)
    ensures
        final(players)@ == after_movement(old(players)@),
{
    let mut i: usize = 0;
    while i < players.len()
        invariant
            i <= players.len(),
            players@.len() == old(players)@.len(),
            forall|k: int| 0 <= k < i ==> players@[k] == moved(old(players)@[k]),
            forall|k: int| i <= k < players@.len() ==> players@[k] == old(players)@[k],
        decreases players.len() - i,
    {
        let key = players[i].player.key;
        players[i].player.pos = players[i].player.pos.advance(key);
        i += 1;
    }
    assert(players@ =~= after_movement(old(players)@));
}

} // verus!
