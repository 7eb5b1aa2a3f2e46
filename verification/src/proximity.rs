//! The proximity detector: which player rectangles overlap, and what that
//! does to health.
//!
//! Every player carries the number of other players it overlapped at the
//! last pass. A player that goes from no overlap to at least one becomes
//! damaged; a player that goes from at least one overlap to none becomes
//! whole again; otherwise its health stays. A player that loses one of
//! several overlaps therefore stays damaged.

use crate::entity::{Player, PlayerEntry, HEALTH_DAMAGED, HEALTH_FULL};
use crate::geometry::overlapping;
use vstd::prelude::*;

verus! {

/// Whether players `i` and `j` are two different players whose rectangles overlap.
pub open spec fn in_contact(players: Seq<PlayerEntry>, i: int, j: int) -> bool {
    i != j && overlapping(players[i].player.pos, players[j].player.pos)
}

/// How many of the first `n` players are in contact with player `i`.
pub open spec fn contacts_among(players: Seq<PlayerEntry>, i: int, n: int) -> nat
    decreases n,
{
    if n <= 0 {
        0
    } else {
        contacts_among(players, i, n - 1) + if in_contact(players, i, n - 1) {
            1nat
        } else {
            0nat
        }
    }
}

/// How many other players' rectangles overlap that of player `i`.
pub open spec fn contacts(players: Seq<PlayerEntry>, i: int) -> nat {
    contacts_among(players, i, players.len() as int)
}

/// Health after a proximity pass, from the health before it, the number of
/// overlaps at the previous pass and the number of overlaps now.
pub open spec fn next_health(health: u8, before: usize, now: nat) -> u8 {
    if before == 0 && now > 0 {
        HEALTH_DAMAGED
    } else if before > 0 && now == 0 {
        HEALTH_FULL
    } else {
        health
    }
}

/// Player `i` after a proximity pass over `players`.
pub open spec fn settled(players: Seq<PlayerEntry>, i: int) -> PlayerEntry {
    let e = players[i];
    PlayerEntry {
        id: e.id,
        player: Player {
            key: e.player.key,
            pos: e.player.pos,
            health: next_health(e.player.health, e.overlaps, contacts(players, i)),
            mouse: e.player.mouse,
        },
        overlaps: contacts(players, i) as usize,
    }
}

/// All players after a proximity pass.
pub open spec fn after_proximity(players: Seq<PlayerEntry>) -> Seq<PlayerEntry> {
    Seq::new(players.len(), |i: int| settled(players, i))
}

/// The health of an entry agrees with its overlap count: damaged exactly
/// when the count is positive, whole otherwise.
pub open spec fn consistent(e: PlayerEntry) -> bool {
    e.player.health == if e.overlaps > 0 {
        HEALTH_DAMAGED
    } else {
        HEALTH_FULL
    }
}

/// There are at most `n` contacts among the first `n` players.
pub proof fn lemma_contacts_bounded(players: Seq<PlayerEntry>, i: int, n: int)
    requires
        0 <= n,
    ensures
        contacts_among(players, i, n) <= n,
    decreases n,
{
    if n > 0 {
        lemma_contacts_bounded(players, i, n - 1);
    }
}

/// A contact among the first `n` players makes the count positive, and a
/// positive count has a contact behind it.
pub proof fn lemma_contacts_positive(players: Seq<PlayerEntry>, i: int, n: int)
    requires
        0 <= n,
    ensures
        contacts_among(players, i, n) > 0 <==> exists|j: int|
            0 <= j < n && #[trigger] in_contact(players, i, j),
    decreases n,
{
    if n > 0 {
        lemma_contacts_positive(players, i, n - 1);
        if in_contact(players, i, n - 1) {
        } else if contacts_among(players, i, n - 1) > 0 {
            let j = choose|j: int| 0 <= j < n - 1 && #[trigger] in_contact(players, i, j);
            assert(0 <= j < n && in_contact(players, i, j));
        } else {
            assert forall|j: int| 0 <= j < n implies !#[trigger] in_contact(players, i, j) by {
                if j < n - 1 {
                }
            }
        }
    }
}

/// A proximity pass keeps health in agreement with the overlap count, and
/// afterwards a player is damaged exactly when it is in contact.
pub proof fn lemma_settled_consistent(players: Seq<PlayerEntry>, i: int)
    requires
        0 <= i < players.len(),
        players.len() <= usize::MAX,
        consistent(players[i]),
    ensures
        consistent(settled(players, i)),
        settled(players, i).overlaps == contacts(players, i),
        settled(players, i).player.health == if contacts(players, i) > 0 {
            HEALTH_DAMAGED
        } else {
            HEALTH_FULL
        },
{
    lemma_contacts_bounded(players, i, players.len() as int);
}

/// Counts the other players whose rectangles overlap that of player `i`.
pub fn count_contacts(players: &Vec<PlayerEntry>, i: usize) -> (n: usize)
    requires
        i < players.len(),
    ensures
        n == contacts(players@, i as int),
{
    let here = players[i].player.pos;
    let mut n: usize = 0;
    let mut j: usize = 0;
    while j < players.len()
        invariant
            j <= players.len(),
            i < players.len(),
            here == players@[i as int].player.pos,
            n == contacts_among(players@, i as int, j as int),
            n <= j,
        decreases players.len() - j,
    {
        if j != i && here.overlaps(players[j].player.pos) {
            n += 1;
        }
        j += 1;
    }
    n
}

/// Runs one proximity pass: recounts every player's overlaps and adjusts
/// health where a player went from none to some or from some to none.
pub fn detect(players: &mut Vec<PlayerEntry>)
    ensures
        final(players)@ == after_proximity(old(players)@),
{
    let mut counts: Vec<usize> = Vec::new();
    let mut i: usize = 0;
    while i < players.len()
        invariant
            i <= players.len(),
            counts@.len() == i,
            forall|k: int| 0 <= k < i ==> counts@[k] == contacts(players@, k),
        decreases players.len() - i,
    {
        counts.push(count_contacts(players, i));
        i += 1;
    }
    let mut i: usize = 0;
    while i < players.len()
        invariant
            i <= players.len(),
            players@.len() == old(players)@.len(),
            counts@.len() == players@.len(),
            forall|k: int| 0 <= k < counts@.len() ==> counts@[k] == contacts(old(players)@, k),
            forall|k: int| 0 <= k < i ==> players@[k] == settled(old(players)@, k),
            forall|k: int| i <= k < players@.len() ==> players@[k] == old(players)@[k],
        decreases players.len() - i,
    {
        let now = counts[i];
        let before = players[i].overlaps;
        if before == 0 && now > 0 {
            players[i].player.health = HEALTH_DAMAGED;
        } else if before > 0 && now == 0 {
            players[i].player.health = HEALTH_FULL;
        }
        players[i].overlaps = now;
        i += 1;
    }
    assert(players@ =~= after_proximity(old(players)@));
}

} // verus!
