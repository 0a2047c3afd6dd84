//! Authoritative simulation engine for a small multiplayer arena game:
//! sessions submit intent (facing, fire, shield), a fixed-step tick advances
//! spring physics, combat between players, their bullets and a shared boss,
//! reaps expired entities, and projects a per-tick snapshot for broadcast.
//!
//! All geometry runs on fixed-point milliunit integers (one game unit is
//! 1000 milliunits) so the whole engine is deterministic and verifiable;
//! transport, timing and serialization live outside the crate and hand in
//! plain values (identities, milliseconds, facing vectors).
use vstd::prelude::*;

pub mod arith;
pub mod geom;
pub mod entities;
pub mod ident;
pub mod laws;
pub mod server;
pub mod snapshot;

verus! {

/// Width of the playfield in milliunits (4000 game units).
pub const PLAY_X: i64 = 4_000_000;

/// Height of the playfield in milliunits (750 game units).
pub const PLAY_Y: i64 = 750_000;

/// Hard cap on any velocity component, in milliunits per tick. Damping keeps
/// real speeds far below this; the cap makes boundedness an invariant.
pub const SPEED_CAP: i64 = 1_000_000;

/// Scale of a unit facing vector: a facing component lies in `[-UNIT, UNIT]`.
pub const UNIT: i64 = 1000;

/// Upper bound accepted for the tick clock, in milliseconds.
pub const TIME_BOUND: i64 = 0x1000_0000_0000_0000;

/// Spring rest length between a player and its shield anchor, milliunits.
pub const SPRING_REST: i64 = 200_000;

/// Numerator of the spring gain (the force is scaled by 4/1000).
pub const SPRING_GAIN_NUM: u64 = 4;

/// Denominator of the spring gain.
pub const SPRING_GAIN_DEN: u64 = 1000;

/// Downward acceleration on players, milliunits per tick squared.
pub const PLAYER_GRAVITY: i64 = 200;

/// Player velocity damping factor numerator (99/100 per tick).
pub const PLAYER_DAMP_NUM: u64 = 99;

/// Player velocity damping factor denominator.
pub const PLAYER_DAMP_DEN: u64 = 100;

/// Downward acceleration on bullets, milliunits per tick squared.
pub const BULLET_GRAVITY: i64 = 50;

/// Bullet velocity damping factor numerator (999/1000 per tick).
pub const BULLET_DAMP_NUM: u64 = 999;

/// Bullet velocity damping factor denominator.
pub const BULLET_DAMP_DEN: u64 = 1000;

/// Horizontal spawn coordinate of the boss, milliunits.
pub const DEMON_START_X: i64 = 50_000;

/// Vertical starting (and respawn) coordinate of the boss, milliunits:
/// the playfield's vertical center.
pub const DEMON_START_Y: i64 = 375_000;

/// Magnitude of the boss's horizontal velocity, milliunits per tick.
pub const DEMON_SPEED: i64 = 8_000;

/// Half-width of the boss hitbox, milliunits.
pub const DEMON_HALF_W: i64 = 25_000;

/// Half-height of the boss hitbox, milliunits.
pub const DEMON_HALF_H: i64 = 50_000;

/// Health regenerated by boss and players every `REGEN_PERIOD` ticks.
pub const REGEN_PERIOD: u64 = 3;

/// The boss emits a radial volley every `VOLLEY_PERIOD` ticks.
pub const VOLLEY_PERIOD: u64 = 100;

/// Number of bullets in one boss volley.
pub const VOLLEY_COUNT: u64 = 30;

/// Speed of a volley bullet in game units per tick (scaled by the facing).
pub const VOLLEY_SPEED: i64 = 16;

/// Recoil speed in game units per tick (scaled by the facing).
pub const RECOIL_SPEED: i64 = 8;

/// A fired bullet leaves at twice the recoil vector.
pub const BULLET_SPEED_MUL: i64 = 2;

/// Minimum milliseconds between two shots of one player.
pub const SHOT_COOLDOWN_MS: i64 = 500;

/// Minimum milliseconds between releasing the shield and re-engaging it.
pub const SHIELD_COOLDOWN_MS: i64 = 100;

/// Natural bullet lifetime in milliseconds.
pub const BULLET_LIFE_MS: i64 = 2000;

/// Distance of the tracked shield anchor ahead of a shielding player,
/// in game units (scaled by the facing vector).
pub const SHIELD_TRACK_DIST: i64 = 200;

/// Distance the anchor is thrown forward to when the shield is released.
pub const SHIELD_RELEASE_DIST: i64 = 400;

/// Contact damage to a shielding player touching the boss.
pub const MELEE_PLAYER_DMG_SHIELDED: u8 = 10;

/// Contact damage to an unshielded player touching the boss.
pub const MELEE_PLAYER_DMG: u8 = 20;

/// Reactive damage to the boss from a shielding player's contact; the
/// shield mitigates both sides, so this is less than the unshielded value.
pub const MELEE_DEMON_DMG_SHIELDED: u8 = 5;

/// Reactive damage to the boss from an unshielded player's contact.
pub const MELEE_DEMON_DMG: u8 = 20;

/// Damage a player bullet deals to the boss.
pub const BULLET_DEMON_DMG: u8 = 50;

/// Damage a boss bullet deals to a shielding player.
pub const BULLET_PLAYER_DMG_SHIELDED: u8 = 25;

/// Damage a boss bullet deals to an unshielded player.
pub const BULLET_PLAYER_DMG: u8 = 50;

/// Radius of the circular player hitbox against boss bullets, milliunits.
pub const PLAYER_HIT_RADIUS: i64 = 20_000;

/// Maximum health of players and boss.
pub const MAX_HEALTH: u8 = 255;

/// Horizontal spawn coordinate of a new player (playfield center).
pub const SPAWN_X: i64 = 2_000_000;

/// Vertical spawn coordinate of a new player (playfield center).
pub const SPAWN_Y: i64 = 375_000;

/// Vertical offset of a new player's shield anchor above the spawn point.
pub const SPAWN_ANCHOR_DY: i64 = 250_000;

/// Owner key reserved for boss-fired bullets.
pub const DEMON_OWNER: u64 = 0;

} // verus!
