//! The game server: session registry, entity store and source of chance
//! under one owner, with one entry point per event of the transport and
//! one for the tick.
//!
//! The caller runs the clock and the wire. It calls [`GameServer::tick`]
//! every [`TICK_MILLIS`] milliseconds and pushes what each entry point
//! returns to every session in [`GameServer::recipients`].

use crate::ai::mobs_stepped;
use crate::dice::{draw_between, draw_id, entropy_rng, seeded_rng};
use crate::entity::{player_ids, MobEntry, Mobs, Player, PlayerEntry, HEALTH_FULL};
use crate::geometry::{in_arena, Vec2, ARENA_MAX, SPAWN_X, SPAWN_Y};
use crate::message::{ClientMessage, Connect, Disconnect, ServerMessage};
use crate::movement::after_movement;
use crate::proximity::after_proximity;
use crate::session::{without_session, Session, SessionRegistry};
use crate::snapshot::Playfield;
use crate::store::{with_input, with_mouse, with_player, without_player, EntityStore};
use rand::rngs::StdRng;
use vstd::prelude::*;

verus! {

/// Milliseconds between two ticks.
pub const TICK_MILLIS: u64 = 5;

/// The least number of mobs a new world holds.
pub const MOBS_AT_LEAST: i32 = 5;

/// The number of mobs a new world stays below.
pub const MOBS_BELOW: i32 = 20;

/// The players after the command `m` of session `id`: a join creates the
/// player at the spawn point unless it exists, input and mouse state change
/// an existing player, and a command for a player that does not exist
/// changes nothing.
pub open spec fn applied(players: Seq<PlayerEntry>, id: usize, m: ClientMessage) -> Seq<
    PlayerEntry,
> {
    match m {
        ClientMessage::Name(_) => with_player(players, id, Vec2 { x: SPAWN_X, y: SPAWN_Y }),
        ClientMessage::Keys(key) => with_input(players, id, key),
        ClientMessage::Click(down) => with_mouse(players, id, down),
    }
}

/// A mob as a new world holds it: a skeleton at full health inside the arena.
pub open spec fn is_new_skeleton(mob: Mobs) -> bool {
    match mob {
        Mobs::Skeleton { pos, health } => health == HEALTH_FULL && in_arena(pos),
    }
}

/// The mobs of a new world: at least `MOBS_AT_LEAST`, fewer than
/// `MOBS_BELOW`, each a new skeleton.
pub open spec fn is_new_population(mobs: Seq<MobEntry>) -> bool {
    &&& MOBS_AT_LEAST <= mobs.len() < MOBS_BELOW
    &&& forall|i: int| 0 <= i < mobs.len() ==> is_new_skeleton(#[trigger] mobs[i].mob)
}

/// The authoritative state of one game.
pub struct GameServer<H> {
    sessions: SessionRegistry<H>,
    store: EntityStore,
    rng: StdRng,
}

impl<H> GameServer<H> {
    /// The session registry.
    pub closed spec fn registry(&self) -> SessionRegistry<H> {
        self.sessions
    }

    /// The entity store.
    pub closed spec fn world(&self) -> EntityStore {
        self.store
    }

    /// The server's invariant: that of its registry and of its store.
    pub open spec fn wf(&self) -> bool {
        self.registry().wf() && self.world().wf()
    }

    /// A server without sessions or players, with a random population of
    /// mobs, drawing from a generator seeded by the operating system.
    /// `None` if the system gave no entropy.
    pub fn new() -> (made: Option<Self>)
        ensures
            match made {
                Some(server) => {
                    &&& server.wf()
                    &&& server.registry().entries() == Seq::<Session<H>>::empty()
                    &&& server.world().players() == Seq::<PlayerEntry>::empty()
                    &&& is_new_population(server.world().mobs())
                },
                None => true,
            },
    {
        Self::with_source(entropy_rng())
    }

    /// A server drawing from `source` if there is one: `Some` exactly when
    /// `source` is, and then as [`GameServer::with_rng`] makes it.
    pub fn with_source(source: Option<StdRng>) -> (made: Option<Self>)
        ensures
            made.is_some() == source.is_some(),
            match made {
                Some(server) => {
                    &&& server.wf()
                    &&& server.registry().entries() == Seq::<Session<H>>::empty()
                    &&& server.world().players() == Seq::<PlayerEntry>::empty()
                    &&& is_new_population(server.world().mobs())
                },
                None => true,
            },
    {
        match source {
            Some(rng) => Some(Self::with_rng(rng)),
            None => None,
        }
    }

    /// As [`GameServer::new`], drawing from a generator seeded with `seed`.
    pub fn with_seed(seed: u64) -> (server: Self)
        ensures
            server.wf(),
            server.registry().entries() == Seq::<Session<H>>::empty(),
            server.world().players() == Seq::<PlayerEntry>::empty(),
            is_new_population(server.world().mobs()),
    {
        Self::with_rng(seeded_rng(seed))
    }

    /// As [`GameServer::new`], drawing from `rng`, which the server keeps.
    pub fn with_rng(rng: StdRng) -> (server: Self)
        ensures
            server.wf(),
            server.registry().entries() == Seq::<Session<H>>::empty(),
            server.world().players() == Seq::<PlayerEntry>::empty(),
            is_new_population(server.world().mobs()),
    {
        let mut rng = rng;
        let mut store = EntityStore::new();
        let count: i32 = draw_between(&mut rng, MOBS_AT_LEAST, MOBS_BELOW);
        let mut made: i32 = 0;
        while made < count
            invariant
                0 <= made <= count,
                store.wf(),
                store.players() == Seq::<PlayerEntry>::empty(),
                store.mobs().len() == made,
                forall|i: int| 0 <= i < store.mobs().len() ==> is_new_skeleton(
                    #[trigger] store.mobs()[i].mob,
                ),
            decreases count - made,
        {
            let candidate = draw_id(&mut rng);
            let x: i32 = draw_between(&mut rng, 0, ARENA_MAX + 1);
            let y: i32 = draw_between(&mut rng, 0, ARENA_MAX + 1);
            let _ = store.spawn_mob(
                candidate,
                Mobs::Skeleton { pos: Vec2 { x, y }, health: HEALTH_FULL },
            );
            made += 1;
        }
        GameServer { sessions: SessionRegistry::new(), store, rng }
    }

    /// The sessions to which every broadcast goes, oldest first.
    pub fn recipients(&self) -> (all: &Vec<Session<H>>)
        ensures
            all@ == self.registry().entries(),
    {
        self.sessions.sessions()
    }

    /// The entity store, to read.
    pub fn store(&self) -> (store: &EntityStore)
        ensures
            *store == self.world(),
    {
        &self.store
    }

    /// The record of the player of session `id`, if it has joined.
    pub fn player(&self, id: usize) -> (p: Option<Player>)
        requires
            self.wf(),
        ensures
            match p {
                Some(player) => self.world().has_player(id) && player == self.world().players()[
                    player_ids(self.world().players()).index_of(id)].player,
                None => !self.world().has_player(id),
            },
    {
        self.store.player(id)
    }

    /// A client connects: it is registered under an identifier that no
    /// live session carries, and the identifier is returned.
    pub fn handle_connect(&mut self, msg: Connect<H>) -> (id: usize)
        requires
            old(self).wf(),
        ensures
            final(self).wf(),
            !old(self).registry().is_live(id),
            final(self).registry().entries() == old(self).registry().entries().push(
                Session { id, outbound: msg.addr },
            ),
            final(self).world() == old(self).world(),
    {
        let candidate = draw_id(&mut self.rng);
        self.sessions.register(candidate, msg.addr)
    }

    /// A client disconnects: its session and its player are removed, and
    /// the notice to broadcast to the remaining sessions is returned.
    /// Removing what is not there is no error.
    pub fn handle_disconnect(&mut self, msg: Disconnect) -> (notice: Disconnect)
        requires
            old(self).wf(),
        ensures
            final(self).wf(),
            notice == msg,
            !final(self).registry().is_live(msg.id),
            !final(self).world().has_player(msg.id),
            final(self).registry().entries() == without_session(
                old(self).registry().entries(),
                msg.id,
            ),
            final(self).world().players() == without_player(old(self).world().players(), msg.id),
            final(self).world().mobs() == old(self).world().mobs(),
    {
        self.sessions.unregister(msg.id);
        self.store.remove_player(msg.id);
        msg
    }

    /// A command of a client is applied. No command fails: one for a
    /// session without a player, other than a join, changes nothing.
    pub fn handle_message(&mut self, msg: ServerMessage)
        requires
            old(self).wf(),
        ensures
            final(self).wf(),
            final(self).registry() == old(self).registry(),
            final(self).world().players() == applied(old(self).world().players(), msg.id, msg.m),
            final(self).world().mobs() == old(self).world().mobs(),
            !old(self).world().has_player(msg.id) && !(msg.m is Name)
                ==> final(self).world().players() == old(self).world().players(),
    {
        match msg.m {
            ClientMessage::Name(_) => self.store.create_player(msg.id, Vec2::spawn()),
            ClientMessage::Keys(key) => self.store.set_input(msg.id, key),
            ClientMessage::Click(down) => self.store.set_mouse(msg.id, down),
        }
    }

    /// One tick: players move, mobs step, overlaps are detected, and the
    /// snapshot of the outcome is returned for broadcast.
    pub fn tick(&mut self) -> (snapshot: Playfield)
        requires
            old(self).wf(),
        ensures
            final(self).wf(),
            final(self).registry() == old(self).registry(),
            final(self).world().players() == after_proximity(
                after_movement(old(self).world().players()),
            ),
            mobs_stepped(old(self).world().mobs(), final(self).world().mobs()),
            snapshot.shows(final(self).world().players(), final(self).world().mobs()),
    {
        self.store.integrate_players();
        self.store.step_mobs(&mut self.rng);
        self.store.detect_proximity();
        self.store.snapshot()
    }
}

} // verus!
