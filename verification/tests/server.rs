use ghist::entity::{HEALTH_DAMAGED, HEALTH_FULL};
use ghist::geometry::{Vec2, UNIT};
use ghist::message::{ClientMessage, Connect, Disconnect, ServerMessage};
use ghist::server::{GameServer, MOBS_AT_LEAST, MOBS_BELOW, TICK_MILLIS};
use rand::rngs::StdRng;
use rand::SeedableRng;

fn join(server: &mut GameServer<&'static str>, name: &'static str) -> usize {
    let id = server.handle_connect(Connect { addr: name });
    server.handle_message(ServerMessage { id, m: ClientMessage::Name(name.to_string()) });
    id
}

fn keys(server: &mut GameServer<&'static str>, id: usize, x: i32, y: i32) {
    server.handle_message(ServerMessage { id, m: ClientMessage::Keys(Vec2::new(x, y)) });
}

#[test]
fn a_new_world_has_mobs_and_nobody_else() {
    let server: GameServer<&'static str> = GameServer::with_seed(1);
    assert!(server.recipients().is_empty());
    assert_eq!(server.store().player_count(), 0);
    let count = server.store().mob_count();
    assert!(MOBS_AT_LEAST as usize <= count && count < MOBS_BELOW as usize);
    for e in server.store().mob_entries().iter() {
        assert!(e.mob.pos().is_in_arena());
        assert_eq!(e.mob.health(), HEALTH_FULL);
    }
    let mut ids = server.store().mob_id_list();
    ids.sort();
    ids.dedup();
    assert_eq!(ids.len(), count);
}

#[test]
fn the_same_seed_gives_the_same_world() {
    let a: GameServer<u8> = GameServer::with_seed(77);
    let b: GameServer<u8> = GameServer::with_seed(77);
    assert_eq!(a.store().mob_entries(), b.store().mob_entries());
}

#[test]
fn different_seeds_give_different_worlds() {
    let mut counts: Vec<usize> = Vec::new();
    let mut firsts: Vec<Vec2> = Vec::new();
    for seed in 0..40 {
        let server: GameServer<u8> = GameServer::with_seed(seed);
        counts.push(server.store().mob_count());
        firsts.push(server.store().mob_entries()[0].mob.pos());
    }
    assert!(counts.iter().all(|c| 5 <= *c && *c < 20));
    assert!(counts.iter().any(|c| *c != counts[0]));
    assert!(counts.iter().any(|c| *c != 5));
    assert!(firsts.iter().any(|p| *p != firsts[0]));
    assert!(firsts.iter().any(|p| p.x != 0));
}

#[test]
fn a_world_from_the_system_generator_is_populated() {
    let made: Option<GameServer<u8>> = GameServer::new();
    if let Some(server) = made {
        let count = server.store().mob_count();
        assert!(5 <= count && count < 20);
        assert!(server.recipients().is_empty());
    }
}

#[test]
fn no_generator_gives_no_server() {
    let made: Option<GameServer<u8>> = GameServer::with_source(None);
    assert!(made.is_none());
}

#[test]
fn a_given_generator_gives_the_world_of_its_seed() {
    let seeded: GameServer<u8> = GameServer::with_seed(5);
    let given: GameServer<u8> = GameServer::with_rng(StdRng::seed_from_u64(5));
    let made: Option<GameServer<u8>> = GameServer::with_source(Some(StdRng::seed_from_u64(5)));
    assert_eq!(given.store().mob_entries(), seeded.store().mob_entries());
    assert_eq!(made.unwrap().store().mob_entries(), seeded.store().mob_entries());
}

#[test]
fn ticks_come_every_five_milliseconds() {
    assert_eq!(TICK_MILLIS, 5);
}

#[test]
fn every_connect_gets_its_own_identifier() {
    let mut server: GameServer<usize> = GameServer::with_seed(3);
    let mut ids: Vec<usize> = Vec::new();
    for n in 0..300 {
        let id = server.handle_connect(Connect { addr: n });
        assert!(!ids.contains(&id));
        ids.push(id);
    }
    assert_eq!(server.recipients().len(), 300);
    for (n, session) in server.recipients().iter().enumerate() {
        assert_eq!(session.id, ids[n]);
        assert_eq!(session.outbound, n);
    }
}

#[test]
fn connect_alone_creates_no_player() {
    let mut server: GameServer<&'static str> = GameServer::with_seed(4);
    let id = server.handle_connect(Connect { addr: "a" });
    assert_eq!(server.player(id), None);
    assert!(server.tick().players.is_empty());
}

#[test]
fn join_creates_the_player_at_the_spawn_point() {
    let mut server: GameServer<&'static str> = GameServer::with_seed(5);
    let id = join(&mut server, "a");
    let player = server.player(id).unwrap();
    assert_eq!(player.pos, Vec2::new(400 * UNIT, 400 * UNIT));
    assert_eq!(player.key, Vec2::zero());
    assert_eq!(player.health, HEALTH_FULL);
    assert!(!player.mouse);
}

#[test]
fn join_twice_keeps_the_player_as_it_is() {
    let mut server: GameServer<&'static str> = GameServer::with_seed(6);
    let id = join(&mut server, "a");
    keys(&mut server, id, UNIT, 0);
    server.tick();
    let before = server.player(id).unwrap();
    server.handle_message(ServerMessage { id, m: ClientMessage::Name("again".to_string()) });
    assert_eq!(server.player(id).unwrap(), before);
    assert_eq!(server.store().player_count(), 1);
}

#[test]
fn one_tick_with_unit_input_advances_two_units() {
    let mut server: GameServer<&'static str> = GameServer::with_seed(7);
    let id = join(&mut server, "a");
    keys(&mut server, id, UNIT, 0);
    let field = server.tick();
    assert_eq!(field.players.len(), 1);
    assert_eq!(field.players[0].id, id);
    assert_eq!(field.players[0].pos, Vec2::new(402 * UNIT, 400 * UNIT));
    assert_eq!(server.player(id).unwrap().pos, Vec2::new(402 * UNIT, 400 * UNIT));
}

#[test]
fn input_is_applied_again_on_every_tick_and_stops_at_the_edge() {
    let mut server: GameServer<&'static str> = GameServer::with_seed(8);
    let id = join(&mut server, "a");
    keys(&mut server, id, UNIT, 0);
    for n in 1..=250 {
        let field = server.tick();
        let x = (400 + 2 * n).min(800) * UNIT;
        assert_eq!(field.players[0].pos, Vec2::new(x, 400 * UNIT));
    }
}

#[test]
fn click_sets_the_mouse_state() {
    let mut server: GameServer<&'static str> = GameServer::with_seed(9);
    let id = join(&mut server, "a");
    server.handle_message(ServerMessage { id, m: ClientMessage::Click(true) });
    assert!(server.player(id).unwrap().mouse);
    server.handle_message(ServerMessage { id, m: ClientMessage::Click(false) });
    assert!(!server.player(id).unwrap().mouse);
}

#[test]
fn move_for_a_session_without_player_has_no_effect() {
    let mut server: GameServer<&'static str> = GameServer::with_seed(10);
    let joined = join(&mut server, "a");
    let silent = server.handle_connect(Connect { addr: "b" });
    let players = server.store().player_entries().clone();
    let mobs = server.store().mob_entries().clone();
    keys(&mut server, silent, UNIT, UNIT);
    server.handle_message(ServerMessage { id: silent, m: ClientMessage::Click(true) });
    keys(&mut server, joined.wrapping_add(1000), UNIT, UNIT);
    assert_eq!(server.store().player_entries(), &players);
    assert_eq!(server.store().mob_entries(), &mobs);
    assert_eq!(server.recipients().len(), 2);
    assert_eq!(server.player(silent), None);
    let field = server.tick();
    assert_eq!(field.players.len(), 1);
    assert_eq!(field.players[0].pos, Vec2::new(400 * UNIT, 400 * UNIT));
}

#[test]
fn disconnect_removes_session_and_player_and_returns_the_notice() {
    let mut server: GameServer<&'static str> = GameServer::with_seed(11);
    let a = join(&mut server, "a");
    let b = join(&mut server, "b");
    let notice = server.handle_disconnect(Disconnect { id: a });
    assert_eq!(notice, Disconnect { id: a });
    assert_eq!(server.recipients().len(), 1);
    assert_eq!(server.recipients()[0].id, b);
    assert_eq!(server.recipients()[0].outbound, "b");
    assert_eq!(server.player(a), None);
    for _ in 0..5 {
        let field = server.tick();
        assert_eq!(field.players.len(), 1);
        assert_eq!(field.players[0].id, b);
    }
}

#[test]
fn disconnect_of_an_unknown_session_changes_nothing() {
    let mut server: GameServer<&'static str> = GameServer::with_seed(12);
    let a = join(&mut server, "a");
    let notice = server.handle_disconnect(Disconnect { id: a.wrapping_add(1) });
    assert_eq!(notice.id, a.wrapping_add(1));
    assert_eq!(server.recipients().len(), 1);
    assert!(server.player(a).is_some());
}

#[test]
fn every_tick_shows_every_player_and_mob_without_any_input() {
    let mut server: GameServer<&'static str> = GameServer::with_seed(13);
    let a = join(&mut server, "a");
    let b = join(&mut server, "b");
    let mobs = server.store().mob_id_list();
    for _ in 0..20 {
        let field = server.tick();
        let shown: Vec<usize> = field.players.iter().map(|p| p.id).collect();
        assert_eq!(shown, vec![a, b]);
        let seen: Vec<usize> = field.mobs.iter().map(|m| m.id).collect();
        assert_eq!(seen, mobs);
        for (m, e) in field.mobs.iter().zip(server.store().mob_entries().iter()) {
            assert_eq!(m.pos, e.mob.pos());
            assert_eq!(m.health, e.mob.health());
            assert_eq!(m.t, e.mob.kind());
        }
    }
}

#[test]
fn mobs_stay_inside_the_arena_tick_after_tick() {
    let mut server: GameServer<u8> = GameServer::with_seed(14);
    for _ in 0..2000 {
        let field = server.tick();
        for m in field.mobs.iter() {
            assert!(m.pos.is_in_arena());
            assert_eq!(m.health, HEALTH_FULL);
        }
    }
}

#[test]
fn mobs_wander_between_ticks() {
    let mut server: GameServer<u8> = GameServer::with_seed(15);
    let first = server.tick();
    let mut moved = false;
    for _ in 0..10 {
        let next = server.tick();
        if next.mobs != first.mobs {
            moved = true;
        }
    }
    assert!(moved);
}

#[test]
fn two_players_at_the_spawn_point_damage_each_other_until_one_leaves() {
    let mut server: GameServer<&'static str> = GameServer::with_seed(16);
    let a = join(&mut server, "a");
    let b = join(&mut server, "b");
    let field = server.tick();
    assert_eq!(field.players[0].health, HEALTH_DAMAGED);
    assert_eq!(field.players[1].health, HEALTH_DAMAGED);
    keys(&mut server, b, 60 * UNIT, 0);
    let field = server.tick();
    assert_eq!(field.players[1].pos, Vec2::new(520 * UNIT, 400 * UNIT));
    assert_eq!(field.players[0].health, HEALTH_FULL);
    assert_eq!(field.players[1].health, HEALTH_FULL);
    keys(&mut server, b, -4 * UNIT, 0);
    let field = server.tick();
    assert_eq!(field.players[1].pos, Vec2::new(512 * UNIT, 400 * UNIT));
    assert_eq!(field.players[0].health, HEALTH_DAMAGED);
    assert_eq!(field.players[1].health, HEALTH_DAMAGED);
    assert_eq!(server.player(a).unwrap().health, HEALTH_DAMAGED);
}

#[test]
fn a_player_between_two_others_stays_damaged_when_one_leaves() {
    let mut server: GameServer<&'static str> = GameServer::with_seed(17);
    let a = join(&mut server, "a");
    let b = join(&mut server, "b");
    let c = join(&mut server, "c");
    server.tick();
    keys(&mut server, b, -50 * UNIT, 0);
    keys(&mut server, c, 50 * UNIT, 0);
    server.tick();
    keys(&mut server, b, 0, 0);
    keys(&mut server, c, 0, 0);
    assert_eq!(server.player(a).unwrap().health, HEALTH_DAMAGED);
    assert_eq!(server.player(b).unwrap().health, HEALTH_DAMAGED);
    assert_eq!(server.player(c).unwrap().health, HEALTH_DAMAGED);
    assert_eq!(server.store().player_entries()[0].overlaps, 2);
    keys(&mut server, b, -10 * UNIT, 0);
    server.tick();
    assert_eq!(server.player(a).unwrap().health, HEALTH_DAMAGED);
    assert_eq!(server.player(b).unwrap().health, HEALTH_FULL);
    assert_eq!(server.player(c).unwrap().health, HEALTH_DAMAGED);
    server.handle_disconnect(Disconnect { id: c });
    server.tick();
    assert_eq!(server.player(a).unwrap().health, HEALTH_FULL);
}
