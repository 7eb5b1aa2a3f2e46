//! What holds of the server as a whole, proved from the contracts of its
//! parts.

use crate::ai::mobs_stepped;
use crate::entity::{mob_ids, player_ids, Mob, MobEntry, PlayerEntry, HEALTH_DAMAGED, HEALTH_FULL};
use crate::geometry::{advanced, in_arena, Vec2, ARENA_MAX, STEP_SCALE, UNIT};
use crate::ident::{distinct, is_fresh_choice};
use crate::message::ClientMessage;
use crate::movement::after_movement;
use crate::proximity::{
    after_proximity, consistent, contacts, in_contact, lemma_contacts_positive,
    lemma_settled_consistent,
};
use crate::server::applied;
use crate::snapshot::{shown_mobs, shown_players, ClientMob, ClientPlayer};
use crate::store::{
    lemma_absent_untouched, lemma_remove_player, mobs_wf, players_wf, without_player,
};
use vstd::prelude::*;

verus! {

/// The players after one whole tick: movement, then the proximity pass.
pub open spec fn after_tick(players: Seq<PlayerEntry>) -> Seq<PlayerEntry> {
    after_proximity(after_movement(players))
}

/// Every connect returns an identifier that no live session carries, so
/// after any sequence of connects the live identifiers are pairwise
/// distinct.
pub proof fn connect_ids_are_unique(live: Seq<usize>, candidate: usize, id: usize)
    requires
        distinct(live),
        is_fresh_choice(live, candidate, id),
    ensures
        !live.contains(id),
        distinct(live.push(id)),
{
    let after = live.push(id);
    assert forall|i: int, j: int| 0 <= i < j < after.len() implies after[i] != after[j] by {
        if j == live.len() {
            assert(live.contains(live[i]));
        }
    }
}

/// One event of the registry, seen on the live identifiers: a connect that
/// adds the identifier chosen for some candidate, or a disconnect that
/// removes one identifier or none.
pub open spec fn registry_event(before: Seq<usize>, after: Seq<usize>) -> bool {
    ||| exists|candidate: usize, id: usize| #[trigger]
        is_fresh_choice(before, candidate, id) && after == before.push(id)
    ||| exists|at: int| 0 <= at < before.len() && after == #[trigger] before.remove(at)
    ||| after == before
}

/// After any sequence of connects and disconnects that starts without
/// sessions, no two live sessions share an identifier.
pub proof fn live_ids_stay_unique(history: Seq<Seq<usize>>, n: int)
    requires
        history.len() > 0,
        history[0].len() == 0,
        forall|k: int|
            1 <= k < history.len() ==> registry_event(history[k - 1], #[trigger] history[k]),
        0 <= n < history.len(),
    ensures
        distinct(history[n]),
    decreases n,
{
    if n > 0 {
        live_ids_stay_unique(history, n - 1);
        let before = history[n - 1];
        let after = history[n];
        assert(registry_event(before, after));
        if exists|candidate: usize, id: usize| #[trigger]
            is_fresh_choice(before, candidate, id) && after == before.push(id) {
            let (candidate, id) = choose|candidate: usize, id: usize| #[trigger]
                is_fresh_choice(before, candidate, id) && after == before.push(id);
            connect_ids_are_unique(before, candidate, id);
        } else if exists|at: int| 0 <= at < before.len() && after == #[trigger] before.remove(at) {
            let at = choose|at: int| 0 <= at < before.len() && after == #[trigger] before.remove(at);
            assert forall|i: int, j: int| 0 <= i < j < after.len() implies after[i] != after[j] by {
                let a = if i < at { i } else { i + 1 };
                let b = if j < at { j } else { j + 1 };
                assert(after[i] == before[a] && after[j] == before[b]);
            }
        }
    }
}

/// Once a player has been removed, its identifier is gone from the store.
pub proof fn removal_clears_player(players: Seq<PlayerEntry>, id: usize)
    requires
        players_wf(players),
    ensures
        !player_ids(without_player(players, id)).contains(id),
        players_wf(without_player(players, id)),
{
    let ids = player_ids(players);
    if ids.contains(id) {
        let at = ids.index_of(id);
        assert(0 <= at < ids.len() && ids[at] == id);
        assert(players[at].id == id);
        lemma_remove_player(players, at);
    }
}

/// A tick neither adds, removes nor reorders players.
pub proof fn tick_keeps_players(players: Seq<PlayerEntry>)
    ensures
        player_ids(after_tick(players)) == player_ids(players),
{
    assert(player_ids(after_tick(players)) =~= player_ids(players));
}

/// No command but the join of session `id` itself brings player `id` into
/// the store.
pub proof fn commands_keep_absent(
    players: Seq<PlayerEntry>,
    id: usize,
    from: usize,
    m: ClientMessage,
)
    requires
        !player_ids(players).contains(id),
        from != id || !(m is Name),
    ensures
        !player_ids(applied(players, from, m)).contains(id),
{
    let after = applied(players, from, m);
    lemma_absent_untouched(players, id);
    assert forall|k: int| 0 <= k < player_ids(after).len() implies player_ids(after)[k] != id by {
        assert(player_ids(after)[k] == after[k].id);
        if k < players.len() {
            assert(after[k].id == players[k].id);
        }
    }
}

/// A snapshot lists every player and every mob of the store, each once and
/// in the store's order, and nothing else. A player that is not in the
/// store is in no snapshot.
pub proof fn snapshot_is_complete(players: Seq<PlayerEntry>, mobs: Seq<MobEntry>)
    ensures
        shown_players(players).len() == players.len(),
        shown_mobs(mobs).len() == mobs.len(),
        shown_players(players).map_values(|c: ClientPlayer| c.id) == player_ids(players),
        shown_mobs(mobs).map_values(|c: ClientMob| c.id) == mob_ids(mobs),
{
    assert(shown_players(players).map_values(|c: ClientPlayer| c.id) =~= player_ids(players));
    assert(shown_mobs(mobs).map_values(|c: ClientMob| c.id) =~= mob_ids(mobs));
}

/// One event other than the join of session `id`: a tick, the removal of
/// any player, or any command but a join sent by `id` itself.
pub open spec fn passes_without_join(
    before: Seq<PlayerEntry>,
    after: Seq<PlayerEntry>,
    id: usize,
) -> bool {
    ||| after == after_tick(before)
    ||| exists|other: usize| after == #[trigger] without_player(before, other)
    ||| exists|from: usize, m: ClientMessage|
        (from != id || !(m is Name)) && after == #[trigger] applied(before, from, m)
}

/// Removing any player brings no absent player into the store.
pub proof fn removal_keeps_absent(players: Seq<PlayerEntry>, id: usize, other: usize)
    requires
        !player_ids(players).contains(id),
    ensures
        !player_ids(without_player(players, other)).contains(id),
{
    let rest = without_player(players, other);
    lemma_absent_untouched(players, id);
    if player_ids(players).contains(other) {
        let at = player_ids(players).index_of(other);
        assert forall|k: int| 0 <= k < player_ids(rest).len() implies player_ids(rest)[k]
            != id by {
            let a = if k < at { k } else { k + 1 };
            assert(player_ids(rest)[k] == rest[k].id);
            assert(rest[k] == players[a]);
        }
    }
}

/// After a player has been removed, no snapshot shows it until its
/// session joins again: in a history of the players that starts with the
/// removal and goes on by ticks, removals and commands other than that
/// join, no state holds the player and no snapshot of a state shows it.
pub proof fn departed_player_is_in_no_snapshot(
    players: Seq<PlayerEntry>,
    id: usize,
    history: Seq<Seq<PlayerEntry>>,
    n: int,
)
    requires
        players_wf(players),
        history.len() > 0,
        history[0] == without_player(players, id),
        forall|k: int|
            1 <= k < history.len() ==> passes_without_join(
                history[k - 1],
                #[trigger] history[k],
                id,
            ),
        0 <= n < history.len(),
    ensures
        !player_ids(history[n]).contains(id),
        !shown_players(history[n]).map_values(|c: ClientPlayer| c.id).contains(id),
    decreases n,
{
    if n == 0 {
        removal_clears_player(players, id);
    } else {
        departed_player_is_in_no_snapshot(players, id, history, n - 1);
        let before = history[n - 1];
        let after = history[n];
        assert(passes_without_join(before, after, id));
        if after == after_tick(before) {
            tick_keeps_players(before);
        } else if exists|other: usize| after == #[trigger] without_player(before, other) {
            let other = choose|other: usize| after == #[trigger] without_player(before, other);
            removal_keeps_absent(before, id, other);
        } else {
            let (from, m) = choose|from: usize, m: ClientMessage|
                (from != id || !(m is Name)) && after == #[trigger] applied(before, from, m);
            commands_keep_absent(before, id, from, m);
        }
    }
    snapshot_is_complete(history[n], Seq::empty());
}

/// Movement follows the input exactly: with the input one unit to the
/// right, a step takes a player two units to the right, or to the arena's
/// edge if that is nearer, and leaves its height unchanged.
pub proof fn unit_input_moves_two_units(pos: Vec2)
    requires
        in_arena(pos),
    ensures
        advanced(pos, Vec2 { x: UNIT, y: 0 }).y == pos.y,
        advanced(pos, Vec2 { x: UNIT, y: 0 }).x == if pos.x + 2 * UNIT <= ARENA_MAX {
            pos.x + 2 * UNIT
        } else {
            ARENA_MAX as int
        },
{
    assert(STEP_SCALE == 2);
}

/// Wherever a player stood and whatever its input, a step leaves it
/// inside the arena.
pub proof fn players_stay_in_arena(players: Seq<PlayerEntry>, i: int)
    requires
        0 <= i < players.len(),
    ensures
        in_arena(after_tick(players)[i].player.pos),
        after_tick(players)[i].player.pos == advanced(players[i].player.pos, players[i].player.key),
{
}

/// One step of the mobs keeps them well formed: inside the arena, under
/// the same distinct identifiers.
pub proof fn mobs_step_keeps_arena(before: Seq<MobEntry>, after: Seq<MobEntry>)
    requires
        mobs_wf(before),
        mobs_stepped(before, after),
    ensures
        mobs_wf(after),
{
    assert(mob_ids(after) =~= mob_ids(before));
}

/// After any number of ticks every mob is inside the arena: in a history
/// of the mobs that starts well formed and goes on step by step, every
/// state is well formed.
pub proof fn mobs_never_leave_arena(history: Seq<Seq<MobEntry>>, n: int)
    requires
        history.len() > 0,
        mobs_wf(history[0]),
        forall|k: int| 1 <= k < history.len() ==> mobs_stepped(history[k - 1], #[trigger] history[k]),
        0 <= n < history.len(),
    ensures
        mobs_wf(history[n]),
        forall|i: int| 0 <= i < history[n].len() ==> in_arena(history[n][i].mob.position()),
    decreases n,
{
    if n > 0 {
        mobs_never_leave_arena(history, n - 1);
        mobs_step_keeps_arena(history[n - 1], history[n]);
    }
}

/// Two players whose rectangles overlap after the movement of a tick are
/// both damaged when the tick ends.
pub proof fn contact_damages_both(players: Seq<PlayerEntry>, i: int, j: int)
    requires
        players.len() <= usize::MAX,
        0 <= i < players.len(),
        0 <= j < players.len(),
        consistent(players[i]),
        consistent(players[j]),
        in_contact(after_movement(players), i, j),
    ensures
        after_tick(players)[i].player.health == HEALTH_DAMAGED,
        after_tick(players)[j].player.health == HEALTH_DAMAGED,
{
    let now = after_movement(players);
    assert(in_contact(now, j, i));
    lemma_contacts_positive(now, i, now.len() as int);
    lemma_contacts_positive(now, j, now.len() as int);
    lemma_settled_consistent(now, i);
    lemma_settled_consistent(now, j);
}

/// A player whose rectangle overlaps no other after the movement of a
/// tick is whole when the tick ends.
pub proof fn separation_heals(players: Seq<PlayerEntry>, i: int)
    requires
        players.len() <= usize::MAX,
        0 <= i < players.len(),
        consistent(players[i]),
        forall|j: int| 0 <= j < players.len() ==> !in_contact(after_movement(players), i, j),
    ensures
        after_tick(players)[i].player.health == HEALTH_FULL,
{
    let now = after_movement(players);
    lemma_contacts_positive(now, i, now.len() as int);
    lemma_settled_consistent(now, i);
}

/// A player that overlapped several others and still overlaps one of them
/// stays damaged: losing one overlap of several heals nobody.
pub proof fn remaining_contact_keeps_damage(players: Seq<PlayerEntry>, i: int, j: int)
    requires
        players.len() <= usize::MAX,
        0 <= i < players.len(),
        0 <= j < players.len(),
        consistent(players[i]),
        players[i].overlaps >= 2,
        in_contact(after_movement(players), i, j),
    ensures
        players[i].player.health == HEALTH_DAMAGED,
        after_tick(players)[i].player.health == HEALTH_DAMAGED,
        after_tick(players)[i].overlaps >= 1,
{
    let now = after_movement(players);
    lemma_contacts_positive(now, i, now.len() as int);
    lemma_settled_consistent(now, i);
}

/// A pass in which no overlap of a player begins or ends leaves its
/// health as it was.
pub proof fn no_transition_keeps_health(players: Seq<PlayerEntry>, i: int)
    requires
        0 <= i < players.len(),
        (players[i].overlaps > 0) == (contacts(players, i) > 0),
    ensures
        after_proximity(players)[i].player.health == players[i].player.health,
{
}

/// A command other than a join, sent for a session without a player,
/// changes nothing.
pub proof fn command_without_player_is_ignored(
    players: Seq<PlayerEntry>,
    id: usize,
    m: ClientMessage,
)
    requires
        !player_ids(players).contains(id),
        !(m is Name),
    ensures
        applied(players, id, m) == players,
{
    lemma_absent_untouched(players, id);
    assert(applied(players, id, m) =~= players);
}

} // verus!
