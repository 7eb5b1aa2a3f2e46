//! The entity store: the one owner of every player and mob record.
//!
//! Records are kept in the order in which they were created. Within each
//! of the two collections no identifier occurs twice, every position lies
//! inside the arena, and every player's health agrees with its overlap
//! count.

use crate::ai::{mobs_stepped, step_mobs};
use crate::entity::{
    mob_ids, newcomer, player_ids, Mob, MobEntry, Mobs, Player, PlayerEntry, HEALTH_FULL,
};
use crate::geometry::{clamped, in_arena, Vec2};
use crate::ident::{distinct, fresh_id, is_fresh_choice};
use crate::movement::{after_movement, integrate};
use crate::proximity::{
    after_proximity, consistent, detect, lemma_settled_consistent, settled,
};
use crate::snapshot::{take, Playfield};
use rand::rngs::StdRng;
use vstd::prelude::*;

verus! {

/// The players are well formed: distinct identifiers, positions inside the
/// arena, health in agreement with the overlap count.
pub open spec fn players_wf(players: Seq<PlayerEntry>) -> bool {
    &&& distinct(player_ids(players))
    &&& forall|i: int|
        0 <= i < players.len() ==> in_arena(#[trigger] players[i].player.pos) && consistent(
            players[i],
        )
}

/// The mobs are well formed: distinct identifiers, positions inside the arena.
pub open spec fn mobs_wf(mobs: Seq<MobEntry>) -> bool {
    &&& distinct(mob_ids(mobs))
    &&& forall|i: int| 0 <= i < mobs.len() ==> in_arena(#[trigger] mobs[i].mob.position())
}

/// `players` with the input of player `id` replaced by `key`.
pub open spec fn with_input(players: Seq<PlayerEntry>, id: usize, key: Vec2) -> Seq<PlayerEntry> {
    players.map_values(
        |e: PlayerEntry|
            if e.id == id {
                PlayerEntry {
                    id: e.id,
                    player: Player {
                        key,
                        pos: e.player.pos,
                        health: e.player.health,
                        mouse: e.player.mouse,
                    },
                    overlaps: e.overlaps,
                }
            } else {
                e
            },
    )
}

/// `players` with the mouse state of player `id` replaced by `down`.
pub open spec fn with_mouse(players: Seq<PlayerEntry>, id: usize, down: bool) -> Seq<PlayerEntry> {
    players.map_values(
        |e: PlayerEntry|
            if e.id == id {
                PlayerEntry {
                    id: e.id,
                    player: Player {
                        key: e.player.key,
                        pos: e.player.pos,
                        health: e.player.health,
                        mouse: down,
                    },
                    overlaps: e.overlaps,
                }
            } else {
                e
            },
    )
}

/// `players` with a newcomer `id` added at `start`, unless `id` is there already.
pub open spec fn with_player(players: Seq<PlayerEntry>, id: usize, start: Vec2) -> Seq<PlayerEntry> {
    if player_ids(players).contains(id) {
        players
    } else {
        players.push(newcomer(id, start))
    }
}

/// `players` without player `id`; the others keep their order.
pub open spec fn without_player(players: Seq<PlayerEntry>, id: usize) -> Seq<PlayerEntry> {
    if player_ids(players).contains(id) {
        players.remove(player_ids(players).index_of(id))
    } else {
        players
    }
}

/// The players and mobs of the world.
pub struct EntityStore {
    players: Vec<PlayerEntry>,
    mobs: Vec<MobEntry>,
}

impl EntityStore {
    /// The players, oldest first.
    pub closed spec fn players(&self) -> Seq<PlayerEntry> {
        self.players@
    }

    /// The mobs, oldest first.
    pub closed spec fn mobs(&self) -> Seq<MobEntry> {
        self.mobs@
    }

    /// The store's invariant.
    pub open spec fn wf(&self) -> bool {
        players_wf(self.players()) && mobs_wf(self.mobs())
    }

    /// A player with this identifier exists.
    pub open spec fn has_player(&self, id: usize) -> bool {
        player_ids(self.players()).contains(id)
    }

    /// An empty store.
    pub fn new() -> (s: Self)
        ensures
            s.wf(),
            s.players() == Seq::<PlayerEntry>::empty(),
            s.mobs() == Seq::<MobEntry>::empty(),
    {
        EntityStore { players: Vec::new(), mobs: Vec::new() }
    }

    /// How many players there are.
    pub fn player_count(&self) -> (n: usize)
        ensures
            n == self.players().len(),
    {
        self.players.len()
    }

    /// How many mobs there are.
    pub fn mob_count(&self) -> (n: usize)
        ensures
            n == self.mobs().len(),
    {
        self.mobs.len()
    }

    /// The player records, oldest first.
    pub fn player_entries(&self) -> (all: &Vec<PlayerEntry>)
        ensures
            all@ == self.players(),
    {
        &self.players
    }

    /// The mob records, oldest first.
    pub fn mob_entries(&self) -> (all: &Vec<MobEntry>)
        ensures
            all@ == self.mobs(),
    {
        &self.mobs
    }

    /// Where the player with this identifier stands in the store, if it exists.
    fn find_player(&self, id: usize) -> (at: Option<usize>)
        ensures
            match at {
                Some(i) => i < self.players().len() && self.players()[i as int].id == id
                    && self.has_player(id),
                None => !self.has_player(id),
            },
    {
        let mut i: usize = 0;
        while i < self.players.len()
            invariant
                i <= self.players.len(),
                forall|k: int| 0 <= k < i ==> self.players@[k].id != id,
            decreases self.players.len() - i,
        {
            if self.players[i].id == id {
                assert(player_ids(self.players@)[i as int] == id);
                return Some(i);
            }
            i += 1;
        }
        assert forall|k: int| 0 <= k < player_ids(self.players@).len() implies player_ids(
            self.players@,
        )[k] != id by {
            assert(player_ids(self.players@)[k] == self.players@[k].id);
        }
        None
    }

    /// The record of the player with this identifier, if it exists.
    pub fn player(&self, id: usize) -> (p: Option<Player>)
        requires
            self.wf(),
        ensures
            match p {
                Some(player) => self.has_player(id) && player == self.players()[player_ids(
                    self.players(),
                ).index_of(id)].player,
                None => !self.has_player(id),
            },
    {
        match self.find_player(id) {
            Some(i) => {
                proof {
                    lemma_only_one(self.players@, i as int);
                }
                Some(self.players[i].player)
            },
            None => None,
        }
    }

    /// Creates a player at `start`, clamped into the arena. Nothing happens
    /// if a player with this identifier exists already.
    pub fn create_player(&mut self, id: usize, start: Vec2)
        requires
            old(self).wf(),
        ensures
            final(self).wf(),
            final(self).players() == with_player(old(self).players(), id, start),
            final(self).mobs() == old(self).mobs(),
    {
        if self.find_player(id).is_none() {
            let entry = PlayerEntry {
                id,
                player: Player {
                    key: Vec2::zero(),
                    pos: start.clamp(),
                    health: HEALTH_FULL,
                    mouse: false,
                },
                overlaps: 0,
            };
            self.players.push(entry);
            proof {
                lemma_push_player(old(self).players(), entry);
            }
        }
    }

    /// Removes the player with this identifier. Nothing happens if there
    /// is none.
    pub fn remove_player(&mut self, id: usize)
        requires
            old(self).wf(),
        ensures
            final(self).wf(),
            !final(self).has_player(id),
            final(self).players() == without_player(old(self).players(), id),
            final(self).mobs() == old(self).mobs(),
    {
        match self.find_player(id) {
            Some(i) => {
                let _ = self.players.remove(i);
                proof {
                    lemma_remove_player(old(self).players(), i as int);
                }
            },
            None => {},
        }
    }

    /// Records the movement input of a player. Nothing happens if there is
    /// no player with this identifier.
    pub fn set_input(&mut self, id: usize, key: Vec2)
        requires
            old(self).wf(),
        ensures
            final(self).wf(),
            final(self).players() == with_input(old(self).players(), id, key),
            !old(self).has_player(id) ==> final(self).players() == old(self).players(),
            final(self).mobs() == old(self).mobs(),
    {
        match self.find_player(id) {
            Some(i) => {
                self.players[i].player.key = key;
                proof {
                    lemma_touch_player(old(self).players(), self.players@, i as int);
                    assert(self.players@ =~= with_input(old(self).players(), id, key)) by {
                        lemma_only_one(old(self).players(), i as int);
                    }
                }
            },
            None => {
                proof {
                    lemma_absent_untouched(self.players@, id);
                    assert(self.players@ =~= with_input(self.players@, id, key));
                }
            },
        }
    }

    /// Records the mouse state of a player. Nothing happens if there is no
    /// player with this identifier.
    pub fn set_mouse(&mut self, id: usize, down: bool)
        requires
            old(self).wf(),
        ensures
            final(self).wf(),
            final(self).players() == with_mouse(old(self).players(), id, down),
            !old(self).has_player(id) ==> final(self).players() == old(self).players(),
            final(self).mobs() == old(self).mobs(),
    {
        match self.find_player(id) {
            Some(i) => {
                self.players[i].player.mouse = down;
                proof {
                    lemma_touch_player(old(self).players(), self.players@, i as int);
                    assert(self.players@ =~= with_mouse(old(self).players(), id, down)) by {
                        lemma_only_one(old(self).players(), i as int);
                    }
                }
            },
            None => {
                proof {
                    lemma_absent_untouched(self.players@, id);
                    assert(self.players@ =~= with_mouse(self.players@, id, down));
                }
            },
        }
    }

    /// The identifiers of the mobs, oldest first.
    pub fn mob_id_list(&self) -> (ids: Vec<usize>)
        ensures
            ids@ == mob_ids(self.mobs()),
    {
        let mut ids: Vec<usize> = Vec::new();
        let mut i: usize = 0;
        while i < self.mobs.len()
            invariant
                i <= self.mobs.len(),
                ids@.len() == i,
                forall|k: int| 0 <= k < i ==> ids@[k] == self.mobs@[k].id,
            decreases self.mobs.len() - i,
        {
            ids.push(self.mobs[i].id);
            i += 1;
        }
        assert(ids@ =~= mob_ids(self.mobs@));
        ids
    }

    /// Adds a mob, clamped into the arena, under a fresh identifier, and
    /// returns the identifier: `candidate` unless a mob carries it already,
    /// else the least identifier that no mob carries.
    pub fn spawn_mob(&mut self, candidate: usize, mob: Mobs) -> (id: usize)
        requires
            old(self).wf(),
        ensures
            final(self).wf(),
            is_fresh_choice(mob_ids(old(self).mobs()), candidate, id),
            !mob_ids(old(self).mobs()).contains(id),
            final(self).mobs() == old(self).mobs().push(MobEntry { id, mob: mob.nudged(0, 0) }),
            final(self).players() == old(self).players(),
    {
        let taken = self.mob_id_list();
        let id = fresh_id(&taken, candidate);
        let mut mob = mob;
        mob.displace(0, 0);
        self.mobs.push(MobEntry { id, mob });
        proof {
            let before = mob_ids(old(self).mobs());
            let after = mob_ids(self.mobs@);
            assert(after =~= before.push(id));
            assert forall|i: int, j: int| 0 <= i < j < after.len() implies after[i] != after[j] by {
                if j == before.len() {
                    assert(before.contains(before[i]));
                }
            }
        }
        id
    }

    /// The movement integrator: every player moves by its input.
    pub fn integrate_players(&mut self)
        requires
            old(self).wf(),
        ensures
            final(self).wf(),
            final(self).players() == after_movement(old(self).players()),
            final(self).mobs() == old(self).mobs(),
    {
        integrate(&mut self.players);
        proof {
            assert(player_ids(self.players@) =~= player_ids(old(self).players()));
        }
    }

    /// The AI stepper: every mob takes one step.
    pub fn step_mobs(&mut self, rng: &mut StdRng)
        requires
            old(self).wf(),
        ensures
            final(self).wf(),
            mobs_stepped(old(self).mobs(), final(self).mobs()),
            final(self).players() == old(self).players(),
    {
        step_mobs(&mut self.mobs, rng);
        proof {
            assert(mob_ids(self.mobs@) =~= mob_ids(old(self).mobs()));
        }
    }

    /// The proximity detector: overlaps are recounted and health follows.
    pub fn detect_proximity(&mut self)
        requires
            old(self).wf(),
        ensures
            final(self).wf(),
            final(self).players() == after_proximity(old(self).players()),
            final(self).mobs() == old(self).mobs(),
    {
        detect(&mut self.players);
        proof {
            let before = old(self).players();
            assert(before.len() == old(self).players.len());
            assert(player_ids(self.players@) =~= player_ids(before));
            assert forall|i: int| 0 <= i < self.players@.len() implies in_arena(
                #[trigger] self.players@[i].player.pos,
            ) && consistent(self.players@[i]) by {
                assert(self.players@[i] == settled(before, i));
                assert(in_arena(before[i].player.pos) && consistent(before[i]));
                lemma_settled_consistent(before, i);
            }
        }
    }

    /// A snapshot of every player and every mob.
    pub fn snapshot(&self) -> (field: Playfield)
        ensures
            field.shows(self.players(), self.mobs()),
    {
        take(&self.players, &self.mobs)
    }
}

/// Adding a consistent player inside the arena under an unused identifier
/// keeps the players well formed.
pub proof fn lemma_push_player(players: Seq<PlayerEntry>, entry: PlayerEntry)
    requires
        players_wf(players),
        !player_ids(players).contains(entry.id),
        in_arena(entry.player.pos),
        consistent(entry),
    ensures
        players_wf(players.push(entry)),
        player_ids(players.push(entry)) == player_ids(players).push(entry.id),
{
    let before = player_ids(players);
    let after = player_ids(players.push(entry));
    assert(after =~= before.push(entry.id));
    assert forall|i: int, j: int| 0 <= i < j < after.len() implies after[i] != after[j] by {
        if j == before.len() {
            assert(before.contains(before[i]));
        }
    }
}

/// Removing the player at `at` keeps the players well formed, removes its
/// identifier for good, and `at` is where `index_of` finds it.
pub proof fn lemma_remove_player(players: Seq<PlayerEntry>, at: int)
    requires
        0 <= at < players.len(),
        players_wf(players),
    ensures
        player_ids(players).index_of(players[at].id) == at,
        players_wf(players.remove(at)),
        !player_ids(players.remove(at)).contains(players[at].id),
{
    let ids = player_ids(players);
    let id = players[at].id;
    lemma_only_one(players, at);
    let rest = players.remove(at);
    let rest_ids = player_ids(rest);
    assert(rest_ids =~= ids.remove(at));
    assert(distinct(rest_ids)) by {
        assert forall|i: int, j: int| 0 <= i < j < rest_ids.len() implies rest_ids[i]
            != rest_ids[j] by {
            let a = if i < at { i } else { i + 1 };
            let b = if j < at { j } else { j + 1 };
            assert(rest_ids[i] == ids[a] && rest_ids[j] == ids[b]);
        }
    }
    assert forall|i: int| 0 <= i < rest.len() implies in_arena(#[trigger] rest[i].player.pos)
        && consistent(rest[i]) by {
        let a = if i < at { i } else { i + 1 };
        assert(rest[i] == players[a]);
        assert(in_arena(players[a].player.pos) && consistent(players[a]));
    }
    assert(players_wf(rest));
    assert(!rest_ids.contains(id)) by {
        assert forall|i: int| 0 <= i < rest_ids.len() implies rest_ids[i] != id by {
            let a = if i < at { i } else { i + 1 };
            assert(rest_ids[i] == ids[a]);
            assert(ids[a] == players[a].id);
        }
    }
}

/// With distinct identifiers, the player at `at` is the only one that
/// carries its identifier.
pub proof fn lemma_only_one(players: Seq<PlayerEntry>, at: int)
    requires
        0 <= at < players.len(),
        distinct(player_ids(players)),
    ensures
        player_ids(players).index_of(players[at].id) == at,
        forall|k: int| 0 <= k < players.len() && k != at ==> players[k].id != players[at].id,
{
    let ids = player_ids(players);
    let id = players[at].id;
    assert(ids[at] == id);
    assert forall|k: int| 0 <= k < players.len() && k != at implies players[k].id != id by {
        assert(ids[k] == players[k].id);
        if k < at {
            assert(ids[k] != ids[at]);
        } else {
            assert(ids[at] != ids[k]);
        }
    }
    let found = ids.index_of(id);
    assert(0 <= found < ids.len() && ids[found] == id);
    assert(ids[found] == players[found].id);
}

/// A player that does not exist is met by no record.
pub proof fn lemma_absent_untouched(players: Seq<PlayerEntry>, id: usize)
    requires
        !player_ids(players).contains(id),
    ensures
        forall|k: int| 0 <= k < players.len() ==> players[k].id != id,
{
    assert forall|k: int| 0 <= k < players.len() implies players[k].id != id by {
        assert(player_ids(players)[k] == players[k].id);
    }
}

/// Changing input or mouse state of one player keeps the players well formed.
proof fn lemma_touch_player(before: Seq<PlayerEntry>, after: Seq<PlayerEntry>, at: int)
    requires
        0 <= at < before.len(),
        players_wf(before),
        after.len() == before.len(),
        forall|k: int| 0 <= k < before.len() && k != at ==> after[k] == before[k],
        after[at].id == before[at].id,
        after[at].overlaps == before[at].overlaps,
        after[at].player.pos == before[at].player.pos,
        after[at].player.health == before[at].player.health,
    ensures
        players_wf(after),
{
    assert(player_ids(after) =~= player_ids(before));
    assert forall|i: int| 0 <= i < after.len() implies in_arena(#[trigger] after[i].player.pos)
        && consistent(after[i]) by {
        assert(in_arena(before[i].player.pos) && consistent(before[i]));
    }
}

} // verus!
