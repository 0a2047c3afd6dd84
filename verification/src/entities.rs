//! The moving entities of the world — players, the boss ("demon") and
//! bullets — with their well-formedness invariants and the per-tick step of
//! each, every step pinned to an exact fixed-point specification.
use crate::arith::{
    clamp_i64, clamp_spec, mag, sat_add_spec, sat_add_u8, sat_sub_spec, sat_sub_u8, scale_i64,
    scale_spec,
};
use crate::geom::{
    anchor_ok, demon_box_test, in_demon_box, in_play, reflect_axis, reflect_axis_spec,
    spring_force, spring_force_spec, vel_ok, Vec2,
};
use vstd::prelude::*;

verus! {

/// A facing direction: the client's angle in milliradians together with its
/// unit vector in milliunits, both supplied by the caller (the engine never
/// evaluates trigonometry itself).
#[derive(Clone, Copy, PartialEq, Eq, Structural, Debug)]
pub struct Facing {
    /// The raw angle, milliradians; echoed in snapshots, never computed on.
    pub mrad: i64,
    /// Cosine of the angle scaled by `UNIT`.
    pub ux: i64,
    /// Sine of the angle scaled by `UNIT`.
    pub uy: i64,
}

/// A facing is well-formed when its vector components fit a unit vector.
pub open spec fn facing_ok(f: Facing) -> bool {
    mag(f.ux as int) <= crate::UNIT && mag(f.uy as int) <= crate::UNIT
}

impl Facing {
    /// The facing a fresh player spawns with: angle zero, pointing right.
    pub fn initial() -> (f: Facing)
        ensures
            f == (Facing { mrad: 0, ux: crate::UNIT, uy: 0 }),
            facing_ok(f),
    {
        Facing { mrad: 0, ux: crate::UNIT, uy: 0 }
    }

    /// Accept a facing from outside; rejects vector components beyond the
    /// unit scale.
    pub fn new(mrad: i64, ux: i64, uy: i64) -> (r: Option<Facing>)
        ensures
            r matches Some(f) ==> f == (Facing { mrad, ux, uy }) && facing_ok(f),
            r is None <==> !(facing_ok(Facing { mrad, ux, uy })),
    {
        if -crate::UNIT <= ux && ux <= crate::UNIT && -crate::UNIT <= uy && uy <= crate::UNIT {
            Some(Facing { mrad, ux, uy })
        } else {
            None
        }
    }
}

/// One connected combatant.
pub struct Player {
    pub pos: Vec2,
    pub vel: Vec2,
    /// The point the spring pulls the player toward.
    pub anchor: Vec2,
    /// Facing direction (the float angle of the wire format, modeled as
    /// milliradians plus a fixed-point unit vector).
    pub facing: Facing,
    pub health: u8,
    pub shielding: bool,
    pub shooting: bool,
    pub score: u32,
    pub name: String,
    /// Clock value when the shield was last released, milliseconds.
    pub last_shield: i64,
    /// Clock value of the last shot, milliseconds.
    pub last_shot: i64,
}

impl Player {
    /// Invariant of every live player.
    pub open spec fn wf(&self) -> bool {
        &&& in_play(self.pos)
        &&& vel_ok(self.vel)
        &&& anchor_ok(self.anchor)
        &&& facing_ok(self.facing)
        &&& 0 <= self.last_shield <= crate::TIME_BOUND
        &&& 0 <= self.last_shot <= crate::TIME_BOUND
    }

    /// The player a `Name` command creates: field center, zero velocity,
    /// anchor one rest length above, full health, cooldowns anchored to now.
    pub fn spawn(name: String, now: i64) -> (p: Player)
        requires
            0 <= now <= crate::TIME_BOUND,
        ensures
            p.wf(),
            p.pos == (Vec2 { x: crate::SPAWN_X, y: crate::SPAWN_Y }),
            p.vel == (Vec2 { x: 0i64, y: 0i64 }),
            p.anchor.x == crate::SPAWN_X,
            p.anchor.y == crate::SPAWN_Y - crate::SPAWN_ANCHOR_DY,
            p.facing == (Facing { mrad: 0, ux: crate::UNIT, uy: 0 }),
            p.health == crate::MAX_HEALTH,
            !p.shielding,
            !p.shooting,
            p.score == 0,
            p.name == name,
            p.last_shield == now,
            p.last_shot == now,
    {
        Player {
            pos: Vec2 { x: crate::SPAWN_X, y: crate::SPAWN_Y },
            vel: Vec2 { x: 0, y: 0 },
            anchor: Vec2 { x: crate::SPAWN_X, y: crate::SPAWN_Y - crate::SPAWN_ANCHOR_DY },
            facing: Facing::initial(),
            health: crate::MAX_HEALTH,
            shielding: false,
            shooting: false,
            score: 0,
            name,
            last_shield: now,
            last_shot: now,
        }
    }
}

/// New horizontal velocity of a player: spring force, damping, speed cap.
pub open spec fn phys_vx(p: Player) -> int {
    clamp_spec(
        scale_spec(
            p.vel.x + spring_force_spec(p.pos, p.vel, p.anchor).0,
            crate::PLAYER_DAMP_NUM as nat,
            crate::PLAYER_DAMP_DEN as nat,
        ),
        -(crate::SPEED_CAP as int),
        crate::SPEED_CAP as int,
    )
}

/// New vertical velocity of a player: spring force, gravity, damping, cap.
pub open spec fn phys_vy(p: Player) -> int {
    clamp_spec(
        scale_spec(
            p.vel.y + spring_force_spec(p.pos, p.vel, p.anchor).1 + crate::PLAYER_GRAVITY,
            crate::PLAYER_DAMP_NUM as nat,
            crate::PLAYER_DAMP_DEN as nat,
        ),
        -(crate::SPEED_CAP as int),
        crate::SPEED_CAP as int,
    )
}

/// Position and velocity on the horizontal axis after integration and
/// boundary reflection.
pub open spec fn phys_x(p: Player) -> (int, int) {
    reflect_axis_spec(p.pos.x + phys_vx(p), phys_vx(p), crate::PLAY_X as int)
}

/// Position and velocity on the vertical axis after integration and
/// boundary reflection.
pub open spec fn phys_y(p: Player) -> (int, int) {
    reflect_axis_spec(p.pos.y + phys_vy(p), phys_vy(p), crate::PLAY_Y as int)
}

/// One physics step of a player: spring toward the anchor, gravity,
/// damping, speed cap, integration, elastic reflection off all four edges.
pub fn step_player_physics(p: &mut Player)
    requires
        old(p).wf(),
    ensures
        (final(p).pos.x as int, final(p).vel.x as int) == phys_x(*old(p)),
        (final(p).pos.y as int, final(p).vel.y as int) == phys_y(*old(p)),
        final(p).anchor == old(p).anchor,
        final(p).facing == old(p).facing,
        final(p).health == old(p).health,
        final(p).shielding == old(p).shielding,
        final(p).shooting == old(p).shooting,
        final(p).score == old(p).score,
        final(p).name == old(p).name,
        final(p).last_shield == old(p).last_shield,
        final(p).last_shot == old(p).last_shot,
        final(p).wf(),
{
    let f = spring_force(p.pos, p.vel, p.anchor);
    let vx1: i64 = p.vel.x + f.0;
    let vy1: i64 = p.vel.y + f.1 + crate::PLAYER_GRAVITY;
    proof {
        vstd::arithmetic::div_mod::lemma_div_nonincreasing(
            (mag(vx1 as int) * (crate::PLAYER_DAMP_NUM as nat)) as int,
            crate::PLAYER_DAMP_DEN as int,
        );
        vstd::arithmetic::div_mod::lemma_div_nonincreasing(
            (mag(vy1 as int) * (crate::PLAYER_DAMP_NUM as nat)) as int,
            crate::PLAYER_DAMP_DEN as int,
        );
    }
    let vx2: i64 = scale_i64(vx1, crate::PLAYER_DAMP_NUM, crate::PLAYER_DAMP_DEN);
    let vy2: i64 = scale_i64(vy1, crate::PLAYER_DAMP_NUM, crate::PLAYER_DAMP_DEN);
    let vx3: i64 = clamp_i64(vx2, -crate::SPEED_CAP, crate::SPEED_CAP);
    let vy3: i64 = clamp_i64(vy2, -crate::SPEED_CAP, crate::SPEED_CAP);
    let (px, vx4) = reflect_axis(p.pos.x + vx3, vx3, crate::PLAY_X);
    let (py, vy4) = reflect_axis(p.pos.y + vy3, vy3, crate::PLAY_Y);
    p.pos = Vec2 { x: px, y: py };
    p.vel = Vec2 { x: vx4, y: vy4 };
}

/// Periodic health regeneration: one point every `REGEN_PERIOD` ticks.
pub fn regen_player(p: &mut Player, tick: u64)
    ensures
        final(p).health as int == if tick % crate::REGEN_PERIOD == 0 {
            sat_add_spec(old(p).health as int, 1)
        } else {
            old(p).health as int
        },
        final(p).pos == old(p).pos,
        final(p).vel == old(p).vel,
        final(p).anchor == old(p).anchor,
        final(p).facing == old(p).facing,
        final(p).shielding == old(p).shielding,
        final(p).shooting == old(p).shooting,
        final(p).score == old(p).score,
        final(p).name == old(p).name,
        final(p).last_shield == old(p).last_shield,
        final(p).last_shot == old(p).last_shot,
        old(p).wf() ==> final(p).wf(),
{
    if tick % crate::REGEN_PERIOD == 0 {
        p.health = sat_add_u8(p.health, 1);
    }
}

/// While the shield is up the anchor tracks a point one rest length ahead
/// of the player along its facing.
pub fn track_anchor(p: &mut Player)
    requires
        old(p).wf(),
    ensures
        final(p).anchor.x as int == if old(p).shielding {
            old(p).pos.x + old(p).facing.ux * crate::SHIELD_TRACK_DIST
        } else {
            old(p).anchor.x as int
        },
        final(p).anchor.y as int == if old(p).shielding {
            old(p).pos.y + old(p).facing.uy * crate::SHIELD_TRACK_DIST
        } else {
            old(p).anchor.y as int
        },
        final(p).pos == old(p).pos,
        final(p).vel == old(p).vel,
        final(p).facing == old(p).facing,
        final(p).health == old(p).health,
        final(p).shielding == old(p).shielding,
        final(p).shooting == old(p).shooting,
        final(p).score == old(p).score,
        final(p).name == old(p).name,
        final(p).last_shield == old(p).last_shield,
        final(p).last_shot == old(p).last_shot,
        final(p).wf(),
{
    if p.shielding {
        let ax: i64 = p.pos.x + p.facing.ux * crate::SHIELD_TRACK_DIST;
        let ay: i64 = p.pos.y + p.facing.uy * crate::SHIELD_TRACK_DIST;
        p.anchor = Vec2 { x: ax, y: ay };
    }
}

/// The shared boss entity.
#[derive(Clone, Copy, PartialEq, Eq, Structural, Debug)]
pub struct Demon {
    pub pos: Vec2,
    pub vel: Vec2,
    pub health: u8,
}

impl Demon {
    /// Invariant of the boss: it patrols horizontally at a fixed speed and
    /// may overshoot an edge by at most one step before bouncing.
    pub open spec fn wf(&self) -> bool {
        &&& crate::geom::coord_in_range(self.pos.x as int, crate::PLAY_X as int)
        &&& 0 <= self.pos.y <= crate::PLAY_Y
        &&& (self.vel.x == crate::DEMON_SPEED || self.vel.x == -crate::DEMON_SPEED)
        &&& self.vel.y == 0
    }

    /// The boss as a fresh world starts it.
    pub fn initial() -> (d: Demon)
        ensures
            d.wf(),
            d.pos.x == crate::DEMON_START_X,
            d.pos.y == crate::DEMON_START_Y,
            d.vel == (Vec2 { x: crate::DEMON_SPEED, y: 0i64 }),
            d.health == crate::MAX_HEALTH,
    {
        Demon {
            pos: Vec2 { x: crate::DEMON_START_X, y: crate::DEMON_START_Y },
            vel: Vec2 { x: crate::DEMON_SPEED, y: 0 },
            health: crate::MAX_HEALTH,
        }
    }
}

/// Boss state after respawn and regeneration.
pub open spec fn demon_prepare_spec(d: Demon, tick: u64) -> Demon {
    let d1 = if d.health == 0 {
        Demon {
            pos: Vec2 { x: crate::DEMON_START_X, y: crate::DEMON_START_Y },
            health: crate::MAX_HEALTH,
            ..d
        }
    } else {
        d
    };
    if tick % crate::REGEN_PERIOD == 0 {
        Demon { health: sat_add_spec(d1.health as int, 1) as u8, ..d1 }
    } else {
        d1
    }
}

/// Boss state after bouncing off the horizontal edges and integrating one
/// step of velocity.
pub open spec fn demon_move_spec(d: Demon) -> Demon {
    let r = reflect_axis_spec(d.pos.x as int, d.vel.x as int, crate::PLAY_X as int);
    Demon {
        pos: Vec2 { x: (r.0 + r.1) as i64, y: (d.pos.y + d.vel.y) as i64 },
        vel: Vec2 { x: r.1 as i64, y: d.vel.y },
        health: d.health,
    }
}

/// Boss respawn and regeneration at the head of a tick: a dead boss returns
/// to its starting position with full health, keeping its heading, and
/// every `REGEN_PERIOD` ticks it regenerates one point.
pub fn demon_prepare(d: &mut Demon, tick: u64)
    requires
        old(d).wf(),
    ensures
        *final(d) == demon_prepare_spec(*old(d), tick),
        final(d).pos.x as int == if old(d).health == 0 {
            crate::DEMON_START_X as int
        } else {
            old(d).pos.x as int
        },
        final(d).pos.y as int == if old(d).health == 0 {
            crate::DEMON_START_Y as int
        } else {
            old(d).pos.y as int
        },
        final(d).health as int == {
            let h = if old(d).health == 0 {
                crate::MAX_HEALTH as int
            } else {
                old(d).health as int
            };
            if tick % crate::REGEN_PERIOD == 0 {
                sat_add_spec(h, 1)
            } else {
                h
            }
        },
        final(d).vel == old(d).vel,
        final(d).wf(),
{
    if d.health == 0 {
        d.pos = Vec2 { x: crate::DEMON_START_X, y: crate::DEMON_START_Y };
        d.health = crate::MAX_HEALTH;
    }
    if tick % crate::REGEN_PERIOD == 0 {
        d.health = sat_add_u8(d.health, 1);
    }
}

/// Boss movement: clamp-and-bounce off the horizontal edges, then
/// integrate one step of velocity.
pub fn demon_move(d: &mut Demon)
    requires
        old(d).wf(),
    ensures
        *final(d) == demon_move_spec(*old(d)),
        ({
            let (x1, vx1) = reflect_axis_spec(
                old(d).pos.x as int,
                old(d).vel.x as int,
                crate::PLAY_X as int,
            );
            final(d).pos.x as int == x1 + vx1 && final(d).vel.x as int == vx1
        }),
        final(d).pos.y as int == old(d).pos.y + old(d).vel.y,
        final(d).vel.y == old(d).vel.y,
        final(d).health == old(d).health,
        final(d).wf(),
{
    let (x1, vx1) = reflect_axis(d.pos.x, d.vel.x, crate::PLAY_X);
    d.pos = Vec2 { x: x1 + vx1, y: d.pos.y + d.vel.y };
    d.vel = Vec2 { x: vx1, y: d.vel.y };
}

/// Melee contact between a player and the boss: inside the boss hitbox the
/// player takes contact damage and the boss takes reactive damage, both
/// smaller when the player shields.
pub fn melee_contact(p: &mut Player, d: &mut Demon)
    requires
        old(p).wf(),
        old(d).wf(),
    ensures
        final(p).health as int == if in_demon_box(old(p).pos, old(d).pos) {
            sat_sub_spec(
                old(p).health as int,
                if old(p).shielding {
                    crate::MELEE_PLAYER_DMG_SHIELDED as int
                } else {
                    crate::MELEE_PLAYER_DMG as int
                },
            )
        } else {
            old(p).health as int
        },
        final(d).health as int == if in_demon_box(old(p).pos, old(d).pos) {
            sat_sub_spec(
                old(d).health as int,
                if old(p).shielding {
                    crate::MELEE_DEMON_DMG_SHIELDED as int
                } else {
                    crate::MELEE_DEMON_DMG as int
                },
            )
        } else {
            old(d).health as int
        },
        final(p).pos == old(p).pos,
        final(p).vel == old(p).vel,
        final(p).anchor == old(p).anchor,
        final(p).facing == old(p).facing,
        final(p).shielding == old(p).shielding,
        final(p).shooting == old(p).shooting,
        final(p).score == old(p).score,
        final(p).name == old(p).name,
        final(p).last_shield == old(p).last_shield,
        final(p).last_shot == old(p).last_shot,
        final(d).pos == old(d).pos,
        final(d).vel == old(d).vel,
        final(p).wf(),
        final(d).wf(),
{
    if demon_box_test(p.pos, d.pos) {
        if p.shielding {
            p.health = sat_sub_u8(p.health, crate::MELEE_PLAYER_DMG_SHIELDED);
            d.health = sat_sub_u8(d.health, crate::MELEE_DEMON_DMG_SHIELDED);
        } else {
            p.health = sat_sub_u8(p.health, crate::MELEE_PLAYER_DMG);
            d.health = sat_sub_u8(d.health, crate::MELEE_DEMON_DMG);
        }
    }
}

/// One projectile. `born` is the clock value of its creation; a hit drags
/// it backward so the bullet expires the same tick.
#[derive(Clone, Copy, PartialEq, Eq, Structural, Debug)]
pub struct Bullet {
    pub pos: Vec2,
    pub vel: Vec2,
    /// Creation time, milliseconds; forced below the clock by one lifetime
    /// when the bullet scores a hit.
    pub born: i64,
}

/// Invariant of every bullet in flight.
pub open spec fn bullet_wf(b: Bullet) -> bool {
    &&& crate::geom::bullet_pos_ok(b.pos)
    &&& vel_ok(b.vel)
    &&& -crate::BULLET_LIFE_MS <= b.born <= crate::TIME_BOUND
}

/// A bullet is expired once its age reaches the lifetime constant.
pub open spec fn bullet_expired(b: Bullet, now: int) -> bool {
    now - b.born >= crate::BULLET_LIFE_MS
}

/// New horizontal velocity of a bullet: damping and the speed cap.
pub open spec fn bullet_vx(b: Bullet) -> int {
    clamp_spec(
        scale_spec(b.vel.x as int, crate::BULLET_DAMP_NUM as nat, crate::BULLET_DAMP_DEN as nat),
        -(crate::SPEED_CAP as int),
        crate::SPEED_CAP as int,
    )
}

/// New vertical velocity of a bullet: gravity, damping, speed cap.
pub open spec fn bullet_vy(b: Bullet) -> int {
    clamp_spec(
        scale_spec(
            b.vel.y + crate::BULLET_GRAVITY,
            crate::BULLET_DAMP_NUM as nat,
            crate::BULLET_DAMP_DEN as nat,
        ),
        -(crate::SPEED_CAP as int),
        crate::SPEED_CAP as int,
    )
}

/// Horizontal axis of a bullet after integration and reflection.
pub open spec fn bullet_x(b: Bullet) -> (int, int) {
    reflect_axis_spec(b.pos.x + bullet_vx(b), bullet_vx(b), crate::PLAY_X as int)
}

/// Vertical axis of a bullet after integration and reflection.
pub open spec fn bullet_y(b: Bullet) -> (int, int) {
    reflect_axis_spec(b.pos.y + bullet_vy(b), bullet_vy(b), crate::PLAY_Y as int)
}

/// The bullet after one physics step, as a value.
pub open spec fn stepped_bullet(b: Bullet) -> Bullet {
    Bullet {
        pos: Vec2 { x: bullet_x(b).0 as i64, y: bullet_y(b).0 as i64 },
        vel: Vec2 { x: bullet_x(b).1 as i64, y: bullet_y(b).1 as i64 },
        born: b.born,
    }
}

/// One physics step of a bullet: gravity, damping, integration, elastic
/// reflection off the playfield edges.
pub fn step_bullet(b: &mut Bullet)
    requires
        bullet_wf(*old(b)),
    ensures
        *final(b) == stepped_bullet(*old(b)),
        (final(b).pos.x as int, final(b).vel.x as int) == bullet_x(*old(b)),
        (final(b).pos.y as int, final(b).vel.y as int) == bullet_y(*old(b)),
        final(b).born == old(b).born,
        bullet_wf(*final(b)),
        in_play(final(b).pos),
{
    proof {
        vstd::arithmetic::div_mod::lemma_div_nonincreasing(
            (mag(b.vel.x as int) * (crate::BULLET_DAMP_NUM as nat)) as int,
            crate::BULLET_DAMP_DEN as int,
        );
        vstd::arithmetic::div_mod::lemma_div_nonincreasing(
            (mag((b.vel.y + crate::BULLET_GRAVITY) as int) * (crate::BULLET_DAMP_NUM as nat)) as int,
            crate::BULLET_DAMP_DEN as int,
        );
    }
    let vx1: i64 = scale_i64(b.vel.x, crate::BULLET_DAMP_NUM, crate::BULLET_DAMP_DEN);
    let vy1: i64 = scale_i64(
        b.vel.y + crate::BULLET_GRAVITY,
        crate::BULLET_DAMP_NUM,
        crate::BULLET_DAMP_DEN,
    );
    let vx2: i64 = clamp_i64(vx1, -crate::SPEED_CAP, crate::SPEED_CAP);
    let vy2: i64 = clamp_i64(vy1, -crate::SPEED_CAP, crate::SPEED_CAP);
    let (px, vx3) = reflect_axis(b.pos.x + vx2, vx2, crate::PLAY_X);
    let (py, vy3) = reflect_axis(b.pos.y + vy2, vy2, crate::PLAY_Y);
    b.pos = Vec2 { x: px, y: py };
    b.vel = Vec2 { x: vx3, y: vy3 };
}

/// Drag a bullet's creation time one lifetime below the clock, so its age
/// is at least the lifetime and the reaping pass removes it this tick.
pub fn force_expire(b: &mut Bullet, now: i64)
    requires
        0 <= now <= crate::TIME_BOUND,
    ensures
        final(b).born == now - crate::BULLET_LIFE_MS,
        final(b).pos == old(b).pos,
        final(b).vel == old(b).vel,
        bullet_expired(*final(b), now as int),
        crate::geom::bullet_pos_ok(old(b).pos) && vel_ok(old(b).vel) ==> bullet_wf(*final(b)),
{
    b.born = now - crate::BULLET_LIFE_MS;
}

/// Test a bullet against the lifetime constant.
pub fn expired(b: &Bullet, now: i64) -> (r: bool)
    requires
        0 <= now <= crate::TIME_BOUND,
        -crate::BULLET_LIFE_MS <= b.born <= crate::TIME_BOUND,
    ensures
        r == bullet_expired(*b, now as int),
{
    now - b.born >= crate::BULLET_LIFE_MS
}

/// Whether the shot cooldown permits a shot at `now` for this player.
pub open spec fn fire_ready(p: Player, now: int) -> bool {
    p.shooting && now - p.last_shot > crate::SHOT_COOLDOWN_MS
}

/// The bullet a player fires at `now`: it leaves from the player's position
/// along the facing at twice the recoil speed.
pub open spec fn fired_bullet(p: Player, now: int) -> Bullet {
    Bullet {
        pos: p.pos,
        vel: Vec2 {
            x: (p.facing.ux * crate::RECOIL_SPEED * crate::BULLET_SPEED_MUL) as i64,
            y: (p.facing.uy * crate::RECOIL_SPEED * crate::BULLET_SPEED_MUL) as i64,
        },
        born: now as i64,
    }
}

/// Fire if the player wants to and the cooldown has elapsed: spawn a bullet
/// along the facing, kick the player back by the recoil (speed-capped), and
/// restart the cooldown.
pub fn try_fire(p: &mut Player, now: i64) -> (b: Option<Bullet>)
    requires
        old(p).wf(),
        0 <= now <= crate::TIME_BOUND,
    ensures
        fire_ready(*old(p), now as int) ==> {
            &&& b == Some(fired_bullet(*old(p), now as int))
            &&& final(p).vel.x as int == clamp_spec(
                old(p).vel.x - old(p).facing.ux * crate::RECOIL_SPEED,
                -(crate::SPEED_CAP as int),
                crate::SPEED_CAP as int,
            )
            &&& final(p).vel.y as int == clamp_spec(
                old(p).vel.y - old(p).facing.uy * crate::RECOIL_SPEED,
                -(crate::SPEED_CAP as int),
                crate::SPEED_CAP as int,
            )
            &&& final(p).last_shot == now
        },
        !fire_ready(*old(p), now as int) ==> b is None && *final(p) == *old(p),
        final(p).pos == old(p).pos,
        final(p).anchor == old(p).anchor,
        final(p).facing == old(p).facing,
        final(p).health == old(p).health,
        final(p).shielding == old(p).shielding,
        final(p).shooting == old(p).shooting,
        final(p).score == old(p).score,
        final(p).name == old(p).name,
        final(p).last_shield == old(p).last_shield,
        final(p).wf(),
        b matches Some(bl) ==> bullet_wf(bl) && bl.born == now,
{
    if p.shooting && now - p.last_shot > crate::SHOT_COOLDOWN_MS {
        let rx: i64 = p.facing.ux * crate::RECOIL_SPEED;
        let ry: i64 = p.facing.uy * crate::RECOIL_SPEED;
        let bullet = Bullet {
            pos: p.pos,
            vel: Vec2 { x: rx * crate::BULLET_SPEED_MUL, y: ry * crate::BULLET_SPEED_MUL },
            born: now,
        };
        p.vel = Vec2 {
            x: clamp_i64(p.vel.x - rx, -crate::SPEED_CAP, crate::SPEED_CAP),
            y: clamp_i64(p.vel.y - ry, -crate::SPEED_CAP, crate::SPEED_CAP),
        };
        p.last_shot = now;
        Some(bullet)
    } else {
        None
    }
}

/// Unit direction of bullet `i` of a boss volley before orientation:
/// cosine and sine of `i * pi / 30`, scaled by `UNIT`.
pub open spec fn volley_dir_spec(i: int) -> (int, int) {
    if i == 0 {
        (1000, 0)
    } else if i == 1 {
        (995, 105)
    } else if i == 2 {
        (978, 208)
    } else if i == 3 {
        (951, 309)
    } else if i == 4 {
        (914, 407)
    } else if i == 5 {
        (866, 500)
    } else if i == 6 {
        (809, 588)
    } else if i == 7 {
        (743, 669)
    } else if i == 8 {
        (669, 743)
    } else if i == 9 {
        (588, 809)
    } else if i == 10 {
        (500, 866)
    } else if i == 11 {
        (407, 914)
    } else if i == 12 {
        (309, 951)
    } else if i == 13 {
        (208, 978)
    } else if i == 14 {
        (105, 995)
    } else if i == 15 {
        (0, 1000)
    } else if i == 16 {
        (-105, 995)
    } else if i == 17 {
        (-208, 978)
    } else if i == 18 {
        (-309, 951)
    } else if i == 19 {
        (-407, 914)
    } else if i == 20 {
        (-500, 866)
    } else if i == 21 {
        (-588, 809)
    } else if i == 22 {
        (-669, 743)
    } else if i == 23 {
        (-743, 669)
    } else if i == 24 {
        (-809, 588)
    } else if i == 25 {
        (-866, 500)
    } else if i == 26 {
        (-914, 407)
    } else if i == 27 {
        (-951, 309)
    } else if i == 28 {
        (-978, 208)
    } else if i == 29 {
        (-995, 105)
    } else {
        (0, 0)
    }
}

/// Velocity of bullet `i` of a volley: the half-circle of base directions
/// rotated a quarter turn against the boss's direction of travel, scaled by
/// the volley speed.
pub open spec fn volley_vel_spec(i: int, rightward: bool) -> (int, int) {
    let (c, s) = volley_dir_spec(i);
    if rightward {
        (s * crate::VOLLEY_SPEED, -c * crate::VOLLEY_SPEED)
    } else {
        (-s * crate::VOLLEY_SPEED, c * crate::VOLLEY_SPEED)
    }
}

/// Fixed-point direction table for the boss volley.
pub fn volley_dir(i: u64) -> (r: (i64, i64))
    requires
        i < crate::VOLLEY_COUNT,
    ensures
        (r.0 as int, r.1 as int) == volley_dir_spec(i as int),
        mag(r.0 as int) <= crate::UNIT,
        mag(r.1 as int) <= crate::UNIT,
{
    if i == 0 {
        (1000, 0)
    } else if i == 1 {
        (995, 105)
    } else if i == 2 {
        (978, 208)
    } else if i == 3 {
        (951, 309)
    } else if i == 4 {
        (914, 407)
    } else if i == 5 {
        (866, 500)
    } else if i == 6 {
        (809, 588)
    } else if i == 7 {
        (743, 669)
    } else if i == 8 {
        (669, 743)
    } else if i == 9 {
        (588, 809)
    } else if i == 10 {
        (500, 866)
    } else if i == 11 {
        (407, 914)
    } else if i == 12 {
        (309, 951)
    } else if i == 13 {
        (208, 978)
    } else if i == 14 {
        (105, 995)
    } else if i == 15 {
        (0, 1000)
    } else if i == 16 {
        (-105, 995)
    } else if i == 17 {
        (-208, 978)
    } else if i == 18 {
        (-309, 951)
    } else if i == 19 {
        (-407, 914)
    } else if i == 20 {
        (-500, 866)
    } else if i == 21 {
        (-588, 809)
    } else if i == 22 {
        (-669, 743)
    } else if i == 23 {
        (-743, 669)
    } else if i == 24 {
        (-809, 588)
    } else if i == 25 {
        (-866, 500)
    } else if i == 26 {
        (-914, 407)
    } else if i == 27 {
        (-951, 309)
    } else if i == 28 {
        (-978, 208)
    } else {
        (-995, 105)
    }
}

/// Build bullet `i` of a volley emitted by the boss at `now`.
pub fn volley_bullet(d: &Demon, i: u64, now: i64) -> (b: Bullet)
    requires
        d.wf(),
        i < crate::VOLLEY_COUNT,
        0 <= now <= crate::TIME_BOUND,
    ensures
        b.pos == d.pos,
        (b.vel.x as int, b.vel.y as int) == volley_vel_spec(i as int, d.vel.x >= 0),
        b.born == now,
        bullet_wf(b),
{
    let (c, s) = volley_dir(i);
    let vel = if d.vel.x >= 0 {
        Vec2 { x: s * crate::VOLLEY_SPEED, y: -c * crate::VOLLEY_SPEED }
    } else {
        Vec2 { x: -s * crate::VOLLEY_SPEED, y: c * crate::VOLLEY_SPEED }
    };
    Bullet { pos: d.pos, vel, born: now }
}

} // verus!
