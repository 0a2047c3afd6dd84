//! The engine's safety laws, stated and proved once over the
//! specifications that the executable functions are pinned to.
use crate::arith::{sat_add_spec, sat_sub_spec};
use crate::entities::{bullet_expired, fire_ready, stepped_bullet, Bullet, Player};
use crate::geom::{in_demon_box, in_play, reflect_axis_spec, Vec2};
use crate::server::{
    alive_at, combat_bullet, has_player, inc_score_spec, player_phase_spec, shield_applied,
    slot_not_id, GameServer, PlayerSlot,
};
use crate::snapshot::client_player_of;
use vstd::prelude::*;

verus! {

/// Health never leaves `[0, 255]`: the fields are bytes, and every change
/// goes through the saturating operations, which clamp at both ends.
pub proof fn lemma_health_bounded(w: GameServer)
    requires
        w.wf(),
    ensures
        forall|j: int|
            0 <= j < w.players@.len() ==> 0 <= (#[trigger] w.players@[j]).player.health <= 255,
        0 <= w.demon.health <= 255,
{
}

/// The saturating health arithmetic cannot underflow or overflow: from a
/// byte-ranged value it yields a byte-ranged value, whatever the delta.
pub proof fn lemma_health_arith_clamped(a: int, d: int)
    requires
        0 <= a <= 255,
        0 <= d,
    ensures
        0 <= sat_sub_spec(a, d) <= 255,
        0 <= sat_add_spec(a, d) <= 255,
        sat_sub_spec(a, d) == if a < d {
            0int
        } else {
            a - d
        },
{
}

/// Boundary reflection confines a coordinate to `[0, max]`; the velocity
/// component on the reflected axis inverts sign exactly when the position
/// crossed an edge, and is untouched otherwise. Each axis is handled
/// independently, so the other component is always unchanged.
pub proof fn lemma_reflection(p: int, v: int, max: int)
    requires
        max > 0,
    ensures
        0 <= reflect_axis_spec(p, v, max).0 <= max,
        (p > max || p < 0) ==> reflect_axis_spec(p, v, max).1 == -v,
        (0 <= p <= max) ==> reflect_axis_spec(p, v, max) == (p, v),
{
}

/// After a full per-player tick phase the player is inside the playfield.
pub proof fn lemma_player_stays_in_bounds(p: Player, dpos: Vec2, tick: u64, now: int)
    requires
        p.wf(),
    ensures
        in_play(player_phase_spec(p, dpos, tick, now).pos),
{
    let vx = crate::entities::phys_vx(p);
    let vy = crate::entities::phys_vy(p);
    lemma_reflection(p.pos.x + vx, vx, crate::PLAY_X as int);
    lemma_reflection(p.pos.y + vy, vy, crate::PLAY_Y as int);
}

/// A bullet force-expired at `now` has age exactly one lifetime, so the
/// reaping pass of the same tick removes it: it satisfies the expiry
/// predicate and can never be kept by the aliveness filter.
pub proof fn lemma_forced_expiry_reaped(b: Bullet, now: int, bl: Seq<Bullet>)
    requires
        0 <= now <= crate::TIME_BOUND,
        b.born == now - crate::BULLET_LIFE_MS,
    ensures
        bullet_expired(b, now),
        now - b.born >= crate::BULLET_LIFE_MS,
        !bl.filter(alive_at(now)).contains(b),
{
    if bl.filter(alive_at(now)).contains(b) {
        let w = choose|w: int|
            0 <= w < bl.filter(alive_at(now)).len() && bl.filter(alive_at(now))[w] == b;
        bl.lemma_filter_pred(alive_at(now), w);
    }
}

/// Firing is rate-limited: once a shot at `t1` has reset the cooldown
/// clock, no further shot is possible at any `t2` within the cooldown, so
/// two fire intents less than the cooldown apart yield at most one bullet.
pub proof fn lemma_fire_rate_limited(q: Player, t1: int, t2: int)
    requires
        q.last_shot == t1,
        t2 <= t1 + crate::SHOT_COOLDOWN_MS,
    ensures
        !fire_ready(q, t2),
{
}

/// A tick that fires stamps the shot clock with the tick's time.
pub proof fn lemma_fire_stamps_clock(p: Player, dpos: Vec2, tick: u64, now: int)
    requires
        fire_ready(p, now),
    ensures
        player_phase_spec(p, dpos, tick, now).last_shot == now as i64,
{
}

/// Disengaging an engaged shield is never blocked.
pub proof fn lemma_shield_release_never_blocked(p: Player, now: int)
    requires
        p.shielding,
    ensures
        !shield_applied(p, false, now).shielding,
        shield_applied(p, false, now).last_shield == now as i64,
{
}

/// Re-engaging the shield before the cooldown has elapsed since the last
/// release is a no-op: the flag and the whole player are unchanged.
pub proof fn lemma_shield_reengage_rate_limited(p: Player, engage: bool, now: int)
    requires
        now - p.last_shield <= crate::SHIELD_COOLDOWN_MS,
        !(p.shielding && !engage),
    ensures
        shield_applied(p, engage, now) == p,
{
}

/// A world without a player for an identity produces a snapshot without a
/// record for it: snapshot records carry exactly the live players' keys.
pub proof fn lemma_absent_player_absent_from_snapshot(w: GameServer, id: u64)
    requires
        !has_player(w.players@, id),
    ensures
        forall|j: int|
            0 <= j < w.players@.len() ==> client_player_of(#[trigger] w.players@[j]).id != id,
{
    assert forall|j: int| 0 <= j < w.players@.len() implies client_player_of(
        #[trigger] w.players@[j],
    ).id != id by {
        if w.players@[j].id == id {
            assert(has_player(w.players@, id));
        }
    }
}

/// The shield mitigates damage to the player in both combat channels, and
/// a shielding player's contact also deals the boss strictly less reactive
/// damage than an unshielded one: shielded means less damage both ways.
pub proof fn lemma_shield_mitigation_ordering()
    ensures
        crate::MELEE_PLAYER_DMG_SHIELDED < crate::MELEE_PLAYER_DMG,
        crate::MELEE_DEMON_DMG_SHIELDED < crate::MELEE_DEMON_DMG,
        crate::BULLET_PLAYER_DMG_SHIELDED < crate::BULLET_PLAYER_DMG,
{
}

/// The kill credit: a player bullet that ends inside the boss hitbox when
/// the boss's health is below the bullet damage clamps the health to zero
/// instead of underflowing, credits the owner one score point, leaves the
/// other players untouched, and force-expires the bullet so the same
/// tick's reaping pass removes it.
pub proof fn lemma_boss_kill_credit(
    b: Bullet,
    owner: u64,
    h: int,
    ps: Seq<PlayerSlot>,
    dpos: Vec2,
    now: int,
)
    requires
        owner != crate::DEMON_OWNER,
        in_demon_box(stepped_bullet(b).pos, dpos),
        0 <= h < crate::BULLET_DEMON_DMG,
        0 <= now <= crate::TIME_BOUND,
    ensures
        combat_bullet(b, owner, h, ps, dpos, now).1 == 0,
        combat_bullet(b, owner, h, ps, dpos, now).0.born == now - crate::BULLET_LIFE_MS,
        bullet_expired(combat_bullet(b, owner, h, ps, dpos, now).0, now),
        combat_bullet(b, owner, h, ps, dpos, now).2.len() == ps.len(),
        forall|j: int|
            0 <= j < ps.len() && ps[j].id == owner ==> combat_bullet(
                b,
                owner,
                h,
                ps,
                dpos,
                now,
            ).2[j].player == inc_score_spec(#[trigger] ps[j].player),
        forall|j: int|
            0 <= j < ps.len() && ps[j].id != owner ==> combat_bullet(b, owner, h, ps, dpos, now).2[j]
                == #[trigger] ps[j],
{
}

/// Disconnect removal: dropping every slot of one identity leaves no
/// player under that identity, and every other identity's player survives.
pub proof fn lemma_disconnect_removes(ps: Seq<PlayerSlot>, id: u64)
    ensures
        !has_player(ps.filter(slot_not_id(id)), id),
        forall|other: u64|
            other != id && has_player(ps, other) ==> has_player(
                ps.filter(slot_not_id(id)),
                other,
            ),
{
    let kept = ps.filter(slot_not_id(id));
    if has_player(kept, id) {
        let w = choose|w: int| 0 <= w < kept.len() && kept[w].id == id;
        ps.lemma_filter_pred(slot_not_id(id), w);
    }
    assert forall|other: u64| other != id && has_player(ps, other) implies has_player(
        kept,
        other,
    ) by {
        let j = choose|j: int| 0 <= j < ps.len() && ps[j].id == other;
        ps.lemma_filter_contains(slot_not_id(id), j);
        let w = choose|w: int| 0 <= w < kept.len() && kept[w] == ps[j];
    }
}

} // verus!
