//! Combat-rule details: shield mitigation ordering, saturation at the
//! health bounds, and bullet lifetime reaping.
use swingy::entities::Bullet;
use swingy::geom::Vec2;
use swingy::server::{BulletGroup, ClientMessage, GameServer};

fn world_with_player(id: u64, name: &str) -> GameServer {
    let mut s = GameServer::new();
    assert!(s.register(id));
    s.handle(id, ClientMessage::Name(String::from(name)), 0);
    s
}

/// Melee contact: the shield mitigates both ways — a shielding player
/// takes less contact damage than an unshielded one (10 versus 20) and
/// also deals the boss less reactive damage (5 versus 20).
#[test]
fn melee_damage_depends_on_shield() {
    let mut shielded = world_with_player(1, "s");
    shielded.tick = 1; // avoid the tick-zero volley and regeneration
    shielded.players[0].player.pos = Vec2 { x: 50_000, y: 375_000 };
    shielded.players[0].player.shielding = true;
    let out_s = shielded.tick(16);

    let mut bare = world_with_player(1, "b");
    bare.tick = 1;
    bare.players[0].player.pos = Vec2 { x: 50_000, y: 375_000 };
    let out_b = bare.tick(16);

    assert_eq!(out_s.snapshot.players[0].health, 255 - 10);
    assert_eq!(out_b.snapshot.players[0].health, 255 - 20);
    assert_eq!(out_s.snapshot.demon.health, 255 - 5);
    assert_eq!(out_b.snapshot.demon.health, 255 - 20);
}

/// A boss bullet hurts a shielding player less than an unshielded one
/// (25 versus 50), and the spent bullet is gone the same tick.
#[test]
fn boss_bullet_damage_depends_on_shield() {
    let mut shielded = world_with_player(2, "s");
    shielded.tick = 1;
    shielded.players[0].player.shielding = true;
    shielded.bullets.push(BulletGroup {
        owner: 0,
        bullets: vec![Bullet {
            pos: Vec2 { x: 2_000_000, y: 375_000 },
            vel: Vec2 { x: 0, y: 0 },
            born: 0,
        }],
    });
    let out_s = shielded.tick(16);

    let mut bare = world_with_player(2, "b");
    bare.tick = 1;
    bare.bullets.push(BulletGroup {
        owner: 0,
        bullets: vec![Bullet {
            pos: Vec2 { x: 2_000_000, y: 375_000 },
            vel: Vec2 { x: 0, y: 0 },
            born: 0,
        }],
    });
    let out_b = bare.tick(16);

    assert_eq!(out_s.snapshot.players[0].health, 255 - 25);
    assert_eq!(out_b.snapshot.players[0].health, 255 - 50);
    // the hit force-expired the bullet; its group emptied and was dropped
    assert!(out_s.snapshot.bullets.iter().all(|g| g.owner != 0));
    assert!(out_b.snapshot.bullets.iter().all(|g| g.owner != 0));
}

/// Regeneration saturates at the health ceiling instead of wrapping.
#[test]
fn regeneration_saturates_at_max() {
    let mut s = world_with_player(3, "full");
    s.tick = 3; // a regeneration tick without a volley
    let out = s.tick(16);
    assert_eq!(out.snapshot.players[0].health, 255);
    assert_eq!(out.snapshot.demon.health, 255);
}

/// Bullets are reaped once their age reaches the lifetime; younger ones
/// survive the pass.
#[test]
fn bullets_expire_by_age() {
    let mut s = world_with_player(4, "v");
    s.tick = 1;
    s.bullets.push(BulletGroup {
        owner: 9, // a long-gone owner; bullets outlive their player
        bullets: vec![
            Bullet { pos: Vec2 { x: 3_000_000, y: 100_000 }, vel: Vec2 { x: 0, y: 0 }, born: 0 },
            Bullet {
                pos: Vec2 { x: 3_000_000, y: 200_000 },
                vel: Vec2 { x: 0, y: 0 },
                born: 900,
            },
        ],
    });
    // age of the first is 1999 < 2000: both kept
    let out = s.tick(1_999);
    let g = out
        .snapshot
        .bullets
        .iter()
        .find(|g| g.owner == 9)
        .expect("group");
    assert_eq!(g.bullets.len(), 2);
    // now the first is 2500 old, the second 1600: one reaped
    let out2 = s.tick(2_500);
    let g2 = out2
        .snapshot
        .bullets
        .iter()
        .find(|g| g.owner == 9)
        .expect("group");
    assert_eq!(g2.bullets.len(), 1);
    // and once both are past the lifetime the group itself disappears
    let out3 = s.tick(3_000);
    assert!(out3.snapshot.bullets.iter().all(|g| g.owner != 9));
}

/// A player bullet that hits a healthy boss subtracts the bullet damage.
#[test]
fn player_bullet_damages_boss() {
    let mut s = world_with_player(5, "g");
    s.tick = 1;
    s.bullets.push(BulletGroup {
        owner: 5,
        bullets: vec![Bullet {
            pos: Vec2 { x: 50_000, y: 375_000 },
            vel: Vec2 { x: 0, y: 0 },
            born: 0,
        }],
    });
    let out = s.tick(16);
    assert_eq!(out.snapshot.demon.health, 255 - 50);
    assert_eq!(out.snapshot.players[0].score, 0);
}
