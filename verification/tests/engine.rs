//! End-to-end scenarios driving the engine through registration, commands
//! and ticks, checking the snapshots and notifications it produces.
use swingy::entities::Facing;
use swingy::server::{ClientMessage, GameServer};

#[test]
fn fresh_world_is_empty() {
    let s = GameServer::new();
    assert_eq!(s.sessions.len(), 0);
    assert_eq!(s.players.len(), 0);
    assert_eq!(s.bullets.len(), 0);
    assert_eq!(s.demon.health, 255);
    assert_eq!(s.demon.pos.x, 50_000);
    assert_eq!(s.demon.pos.y, 375_000);
    assert_eq!(s.demon.vel.x, 8_000);
    assert_eq!(s.tick, 0);
}

#[test]
fn register_rejects_reserved_and_duplicate_ids() {
    let mut s = GameServer::new();
    assert!(!s.register(0));
    assert!(s.register(7));
    assert!(!s.register(7));
    assert!(s.register(8));
    assert_eq!(s.sessions.len(), 2);
}

#[test]
fn connect_draws_a_fresh_identity() {
    let mut s = GameServer::new();
    let a = s.connect().expect("identity");
    let b = s.connect().expect("identity");
    assert_ne!(a, 0);
    assert_ne!(b, 0);
    assert_ne!(a, b);
    assert_eq!(s.sessions.len(), 2);
}

#[test]
fn name_creates_player_only_for_live_session() {
    let mut s = GameServer::new();
    // no session: ignored
    s.handle(9, ClientMessage::Name(String::from("ghost")), 0);
    assert_eq!(s.players.len(), 0);
    assert!(s.register(9));
    // non-Name commands do not establish a player
    s.handle(9, ClientMessage::Shoot(true), 0);
    assert_eq!(s.players.len(), 0);
    s.handle(9, ClientMessage::Name(String::from("A")), 0);
    assert_eq!(s.players.len(), 1);
    assert_eq!(s.players[0].id, 9);
    assert_eq!(s.players[0].player.name, "A");
    // a second Name is a no-op
    s.handle(9, ClientMessage::Name(String::from("B")), 0);
    assert_eq!(s.players.len(), 1);
    assert_eq!(s.players[0].player.name, "A");
}

/// Fresh world, one session, one `Name` command: the next snapshot holds
/// exactly one player at the spawn point with full health, zero score and
/// both intent flags off. At the spawn pose the spring exactly cancels
/// gravity, so one tick leaves the player in place.
#[test]
fn first_snapshot_shows_spawned_player() {
    let mut s = GameServer::new();
    assert!(s.register(7));
    s.handle(7, ClientMessage::Name(String::from("A")), 0);
    let out = s.tick(16);
    assert_eq!(out.snapshot.players.len(), 1);
    let p = &out.snapshot.players[0];
    assert_eq!(p.id, 7);
    assert_eq!(p.name, "A");
    assert_eq!(p.pos.x, 2_000_000);
    assert_eq!(p.pos.y, 375_000);
    assert_eq!(p.health, 255);
    assert_eq!(p.score, 0);
    assert!(!p.shielding);
    assert!(!p.shooting);
    assert!(out.deaths.is_empty());
}

/// The killing bullet hit clamps the boss at zero and credits the owner
/// one score point; the following tick respawns the boss at its starting
/// position with full health. The spent bullet is reaped the same tick.
#[test]
fn boss_kill_credits_score_and_respawns() {
    let mut s = GameServer::new();
    assert!(s.register(5));
    s.handle(5, ClientMessage::Name(String::from("slayer")), 0);
    s.demon.health = 30;
    // a player bullet resting inside the boss hitbox
    s.bullets.push(swingy::server::BulletGroup {
        owner: 5,
        bullets: vec![swingy::entities::Bullet {
            pos: s.demon.pos,
            vel: swingy::geom::Vec2 { x: 0, y: 0 },
            born: 0,
        }],
    });
    let out = s.tick(16);
    // 30 < 50: clamped to zero, owner credited
    assert_eq!(out.snapshot.demon.health, 0);
    assert_eq!(out.snapshot.players[0].score, 1);
    // the hit bullet expired and its group was dropped
    assert!(out.snapshot.bullets.iter().all(|g| g.owner != 5));
    // next tick: respawn at the starting position with full health, then
    // one step of the kept heading
    let out2 = s.tick(32);
    assert_eq!(out2.snapshot.demon.health, 255);
    assert_eq!(out2.snapshot.demon.pos.x, 50_000 + 8_000);
    assert_eq!(out2.snapshot.demon.pos.y, 375_000);
    assert_eq!(out2.snapshot.demon.vel.x, 8_000);
}

/// A player whose health reaches zero is reported dead that tick and is
/// absent from the snapshot of the same and following ticks.
#[test]
fn zero_health_player_is_reaped_with_notification() {
    let mut s = GameServer::new();
    assert!(s.register(11));
    s.handle(11, ClientMessage::Name(String::from("doomed")), 0);
    // weakened and standing where the boss will be
    s.players[0].player.health = 5;
    s.players[0].player.pos = swingy::geom::Vec2 { x: 50_000, y: 375_000 };
    let out = s.tick(16);
    assert_eq!(out.deaths, vec![11]);
    assert!(out.snapshot.players.is_empty());
    let out2 = s.tick(32);
    assert!(out2.deaths.is_empty());
    assert!(out2.snapshot.players.is_empty());
}

/// Disconnecting a session removes its player from the world at once; the
/// next tick reports no death for it (the transport layer already sent the
/// disconnect notification) and its record is gone from the snapshot.
#[test]
fn disconnect_removes_player_from_snapshot() {
    let mut s = GameServer::new();
    assert!(s.register(1));
    assert!(s.register(2));
    s.handle(1, ClientMessage::Name(String::from("a")), 0);
    s.handle(2, ClientMessage::Name(String::from("b")), 0);
    s.unregister(1);
    assert_eq!(s.sessions, vec![2]);
    assert_eq!(s.players.len(), 1);
    assert_eq!(s.players[0].id, 2);
    let out = s.tick(16);
    assert!(out.deaths.is_empty());
    assert_eq!(out.snapshot.players.len(), 1);
    assert_eq!(out.snapshot.players[0].id, 2);
}

/// Two fire intents less than the cooldown apart yield exactly one bullet.
#[test]
fn firing_is_rate_limited() {
    let mut s = GameServer::new();
    assert!(s.register(3));
    s.handle(3, ClientMessage::Name(String::from("gunner")), 0);
    s.handle(3, ClientMessage::Shoot(true), 0);
    // cooldown runs since spawn (clock 0): 100 - 0 <= 500, no shot
    let out = s.tick(100);
    assert!(out.snapshot.bullets.iter().all(|g| g.owner != 3));
    // 601 - 0 > 500: one bullet
    s.tick(601);
    // 700 - 601 <= 500: still one bullet
    let out3 = s.tick(700);
    let group = out3
        .snapshot
        .bullets
        .iter()
        .find(|g| g.owner == 3)
        .expect("bullet group");
    assert_eq!(group.bullets.len(), 1);
}

/// Shield gating: releasing always works and rearms the cooldown clock; a
/// re-engage before the cooldown has elapsed is a no-op.
#[test]
fn shield_reengagement_is_rate_limited() {
    let mut s = GameServer::new();
    assert!(s.register(4));
    s.handle(4, ClientMessage::Name(String::from("turtle")), 0);
    // spawn set last_shield to 0; 200 - 0 > 100: engage works
    s.handle(4, ClientMessage::Shield(true), 200);
    assert!(s.players[0].player.shielding);
    // release is never blocked and throws the anchor forward
    s.handle(4, ClientMessage::Shield(false), 250);
    assert!(!s.players[0].player.shielding);
    assert_eq!(s.players[0].player.anchor.x, 2_400_000);
    assert_eq!(s.players[0].player.last_shield, 250);
    // 300 - 250 <= 100: ignored
    s.handle(4, ClientMessage::Shield(true), 300);
    assert!(!s.players[0].player.shielding);
    // 351 - 250 > 100: engages
    s.handle(4, ClientMessage::Shield(true), 351);
    assert!(s.players[0].player.shielding);
}

/// Boundary reflection: a player pushed past the right edge is clamped to
/// it with the horizontal velocity inverted and the vertical component
/// kept. The anchor is placed so the spring exerts no force.
#[test]
fn boundary_reflection_inverts_one_component() {
    let mut s = GameServer::new();
    assert!(s.register(6));
    s.handle(6, ClientMessage::Name(String::from("bouncer")), 0);
    let p = &mut s.players[0].player;
    p.pos = swingy::geom::Vec2 { x: 3_999_000, y: 375_000 };
    p.vel = swingy::geom::Vec2 { x: 50_000, y: 0 };
    // anchor at pos + vel: zero displacement, zero spring force
    p.anchor = swingy::geom::Vec2 { x: 4_049_000, y: 375_000 };
    let out = s.tick(16);
    let q = &out.snapshot.players[0];
    // damped: 50000 * 99 / 100 = 49500; 3_999_000 + 49_500 crosses the edge
    assert_eq!(q.pos.x, 4_000_000);
    // gravity then damping: (0 + 200) * 99 / 100 = 198
    assert_eq!(q.pos.y, 375_198);
}

/// The hundredth-tick volley: thirty boss bullets, the first one leaving
/// straight down for a rightward-moving boss, all inside the playfield.
#[test]
fn boss_volley_fires_thirty_bullets() {
    let mut s = GameServer::new();
    let out = s.tick(16);
    let group = out
        .snapshot
        .bullets
        .iter()
        .find(|g| g.owner == 0)
        .expect("boss group");
    assert_eq!(group.bullets.len(), 30);
    // bullet 0 direction (cos 0, sin 0) rotated against rightward travel:
    // velocity (0, -16000), then gravity and damping: (0 - 16000 + 50) of
    // magnitude 15950 damped by 999/1000 to 15934
    assert_eq!(group.bullets[0].vel.x, 0);
    assert_eq!(group.bullets[0].vel.y, -15_934);
    assert_eq!(group.bullets[0].pos.x, 50_000);
    assert_eq!(group.bullets[0].pos.y, 375_000 - 15_934);
    // no volley on the next ticks before the period elapses
    let out2 = s.tick(32);
    let group2 = out2
        .snapshot
        .bullets
        .iter()
        .find(|g| g.owner == 0)
        .expect("boss group");
    assert_eq!(group2.bullets.len(), 30);
}

/// An out-of-range facing vector is rejected both by the constructor and
/// by command intake.
#[test]
fn bad_facing_is_rejected() {
    assert!(Facing::new(0, 2_000, 0).is_none());
    assert!(Facing::new(0, 0, -1_001).is_none());
    let f = Facing::new(1_570, 0, 1_000).expect("valid facing");
    assert_eq!(f.uy, 1_000);
    let mut s = GameServer::new();
    assert!(s.register(8));
    s.handle(8, ClientMessage::Name(String::from("aimer")), 0);
    // raw out-of-range facing is ignored by intake
    s.handle(
        8,
        ClientMessage::Angle(Facing { mrad: 0, ux: 9_999, uy: 0 }),
        0,
    );
    assert_eq!(s.players[0].player.facing.ux, 1_000);
    s.handle(8, ClientMessage::Angle(f), 0);
    assert_eq!(s.players[0].player.facing.uy, 1_000);
}

/// The spring: a player 350 units below its anchor (rest length 200) is
/// pulled up with force (350-200)*0.004 units per tick, fixed point.
#[test]
fn spring_force_follows_formula() {
    let mut s = GameServer::new();
    assert!(s.register(12));
    s.handle(12, ClientMessage::Name(String::from("hang")), 0);
    s.tick = 1; // skip the tick-zero volley and regeneration
    s.players[0].player.anchor = swingy::geom::Vec2 { x: 2_000_000, y: 25_000 };
    let out = s.tick(16);
    let q = &out.snapshot.players[0];
    // displacement 350_000 up, stretch 150_000: force magnitude
    // 350_000 * 150_000 * 4 / (350_000 * 1000) = 600 upward; with gravity
    // 200 down and damping 99/100 the velocity is -(600-200)*99/100 = -396
    assert_eq!(q.pos.x, 2_000_000);
    assert_eq!(q.pos.y, 375_000 - 396);
}
