//! Fixed-point planar geometry: the playfield rectangle, boundary
//! reflection, hitbox tests, the spring force that tethers a player to its
//! shield anchor, and the boss volley direction table.
use crate::arith::{isqrt, mag, scale_spec, sqrt_floor, with_sign};
use vstd::prelude::*;

verus! {

/// A point or velocity in milliunits.
#[derive(Clone, Copy, PartialEq, Eq, Structural, Debug)]
pub struct Vec2 {
    pub x: i64,
    pub y: i64,
}

/// Widest coordinate range any entity may occupy: the playfield with slack
/// for the boss, which is clamped before it moves and so can overshoot an
/// edge by one step.
pub open spec fn coord_in_range(c: int, max: int) -> bool {
    -crate::DEMON_SPEED <= c <= max + crate::DEMON_SPEED
}

/// Strictly inside the playfield rectangle, boundaries included.
pub open spec fn in_play(p: Vec2) -> bool {
    0 <= p.x <= crate::PLAY_X && 0 <= p.y <= crate::PLAY_Y
}

/// Position as a bullet may hold it: the playfield, with the boss overshoot
/// slack on the horizontal axis (volley bullets spawn at the boss).
pub open spec fn bullet_pos_ok(p: Vec2) -> bool {
    coord_in_range(p.x as int, crate::PLAY_X as int) && 0 <= p.y <= crate::PLAY_Y
}

/// Velocity within the hard speed cap, componentwise.
pub open spec fn vel_ok(v: Vec2) -> bool {
    mag(v.x as int) <= crate::SPEED_CAP && mag(v.y as int) <= crate::SPEED_CAP
}

/// Anchor coordinates: at most one shield-release reach beyond the field.
pub open spec fn anchor_ok(a: Vec2) -> bool {
    -400_000 <= a.x <= crate::PLAY_X + 400_000 && -400_000 <= a.y <= crate::PLAY_Y + 400_000
}

/// Elastic reflection of one axis: past an edge the coordinate is clamped to
/// that edge and the velocity component inverts; otherwise both are kept.
pub open spec fn reflect_axis_spec(p: int, v: int, max: int) -> (int, int) {
    if p > max {
        (max, -v)
    } else if p < 0 {
        (0, -v)
    } else {
        (p, v)
    }
}

/// Reflect one axis off the edges `0` and `max`.
pub fn reflect_axis(p: i64, v: i64, max: i64) -> (r: (i64, i64))
    requires
        max > 0,
        p > i64::MIN,
        v > i64::MIN,
    ensures
        (r.0 as int, r.1 as int) == reflect_axis_spec(p as int, v as int, max as int),
        0 <= r.0 <= max,
        mag(r.1 as int) == mag(v as int),
{
    if p > max {
        (max, -v)
    } else if p < 0 {
        (0, -v)
    } else {
        (p, v)
    }
}

/// The boss hitbox: a rectangle of half-extent 25 by 50 units around the
/// boss position, boundaries excluded.
pub open spec fn in_demon_box(p: Vec2, d: Vec2) -> bool {
    &&& p.x < d.x + crate::DEMON_HALF_W
    &&& p.x > d.x - crate::DEMON_HALF_W
    &&& p.y < d.y + crate::DEMON_HALF_H
    &&& p.y > d.y - crate::DEMON_HALF_H
}

/// Test a point against the boss hitbox.
pub fn demon_box_test(p: Vec2, d: Vec2) -> (r: bool)
    requires
        coord_in_range(p.x as int, crate::PLAY_X as int),
        coord_in_range(p.y as int, crate::PLAY_Y as int),
        coord_in_range(d.x as int, crate::PLAY_X as int),
        coord_in_range(d.y as int, crate::PLAY_Y as int),
    ensures
        r == in_demon_box(p, d),
{
    p.x < d.x + crate::DEMON_HALF_W && p.x > d.x - crate::DEMON_HALF_W && p.y < d.y
        + crate::DEMON_HALF_H && p.y > d.y - crate::DEMON_HALF_H
}

/// Within the circular player hitbox: squared distance below the squared
/// hit radius, so no root is needed.
pub open spec fn in_player_circle(p: Vec2, b: Vec2) -> bool {
    let dx = p.x - b.x;
    let dy = p.y - b.y;
    dx * dx + dy * dy < crate::PLAYER_HIT_RADIUS * crate::PLAYER_HIT_RADIUS
}

/// Test whether a bullet at `b` touches the player hitbox at `p`.
pub fn player_circle_test(p: Vec2, b: Vec2) -> (r: bool)
    requires
        coord_in_range(p.x as int, crate::PLAY_X as int),
        coord_in_range(p.y as int, crate::PLAY_Y as int),
        coord_in_range(b.x as int, crate::PLAY_X as int),
        coord_in_range(b.y as int, crate::PLAY_Y as int),
    ensures
        r == in_player_circle(p, b),
{
    let dx: i64 = p.x - b.x;
    let dy: i64 = p.y - b.y;
    proof {
        assert(dx as int * dx as int <= 4_016_000i64 as int * 4_016_000i64 as int
            && dx as int * dx as int >= 0) by (nonlinear_arith)
            requires
                -4_016_000 <= dx as int <= 4_016_000,
        ;
        assert(dy as int * dy as int <= 4_016_000i64 as int * 4_016_000i64 as int
            && dy as int * dy as int >= 0) by (nonlinear_arith)
            requires
                -4_016_000 <= dy as int <= 4_016_000,
        ;
    }
    dx * dx + dy * dy < crate::PLAYER_HIT_RADIUS * crate::PLAYER_HIT_RADIUS
}

/// The spring force pulling a player toward its anchor, computed from the
/// displacement the player would have after its current velocity: the force
/// is the displacement scaled by `(len - rest) / len` and the spring gain,
/// with the magnitude arithmetic done in integers rounding down. A
/// zero-length displacement yields no force, guarding the division.
pub open spec fn spring_force_spec(pos: Vec2, vel: Vec2, anchor: Vec2) -> (int, int) {
    let dx = anchor.x - pos.x - vel.x;
    let dy = anchor.y - pos.y - vel.y;
    let len = sqrt_floor((mag(dx) * mag(dx) + mag(dy) * mag(dy)) as nat);
    if len == 0 {
        (0, 0)
    } else {
        let stretch = len - crate::SPRING_REST;
        (
            with_sign(
                (dx < 0) != (stretch < 0),
                (mag(dx) * mag(stretch) * (crate::SPRING_GAIN_NUM as nat)) / (len * (
                crate::SPRING_GAIN_DEN as nat)),
            ),
            with_sign(
                (dy < 0) != (stretch < 0),
                (mag(dy) * mag(stretch) * (crate::SPRING_GAIN_NUM as nat)) / (len * (
                crate::SPRING_GAIN_DEN as nat)),
            ),
        )
    }
}

/// Compute the spring force on a player.
pub fn spring_force(pos: Vec2, vel: Vec2, anchor: Vec2) -> (f: (i64, i64))
    requires
        in_play(pos),
        vel_ok(vel),
        anchor_ok(anchor),
    ensures
        (f.0 as int, f.1 as int) == spring_force_spec(pos, vel, anchor),
        mag(f.0 as int) <= 216_000_000_000_000,
        mag(f.1 as int) <= 216_000_000_000_000,
{
    let dx: i64 = anchor.x - pos.x - vel.x;
    let dy: i64 = anchor.y - pos.y - vel.y;
    let dxm: u64 = if dx >= 0 {
        dx as u64
    } else {
        (-dx) as u64
    };
    let dym: u64 = if dy >= 0 {
        dy as u64
    } else {
        (-dy) as u64
    };
    proof {
        assert(dxm as int * dxm as int <= 6_000_000i64 as int * 6_000_000i64 as int)
            by (nonlinear_arith)
            requires
                0 <= dxm as int <= 6_000_000,
        ;
        assert(dym as int * dym as int <= 6_000_000i64 as int * 6_000_000i64 as int)
            by (nonlinear_arith)
            requires
                0 <= dym as int <= 6_000_000,
        ;
    }
    let nsq: u64 = dxm * dxm + dym * dym;
    let len: u64 = isqrt(nsq);
    proof {
        crate::arith::lemma_sqrt_floor(nsq as nat);
        assert(len as int <= 9_000_000) by (nonlinear_arith)
            requires
                len as int * len as int <= 72_000_000_000_000i64 as int,
                len >= 0,
        ;
    }
    if len == 0 {
        return (0, 0);
    }
    let stretch_neg: bool = (len as i64) < crate::SPRING_REST;
    let stretch_m: u64 = if (len as i64) >= crate::SPRING_REST {
        len - (crate::SPRING_REST as u64)
    } else {
        (crate::SPRING_REST as u64) - len
    };
    proof {
        assert(dxm as int * stretch_m as int * 4 <= 6_000_000i64 as int * 9_000_000i64 as int * 4)
            by (nonlinear_arith)
            requires
                0 <= dxm as int <= 6_000_000,
                0 <= stretch_m as int <= 9_000_000,
        ;
        assert(dym as int * stretch_m as int * 4 <= 6_000_000i64 as int * 9_000_000i64 as int * 4)
            by (nonlinear_arith)
            requires
                0 <= dym as int <= 6_000_000,
                0 <= stretch_m as int <= 9_000_000,
        ;
    }
    let den: u64 = len * (crate::SPRING_GAIN_DEN);
    let fxm: u64 = dxm * stretch_m * (crate::SPRING_GAIN_NUM) / den;
    let fym: u64 = dym * stretch_m * (crate::SPRING_GAIN_NUM) / den;
    proof {
        vstd::arithmetic::div_mod::lemma_div_nonincreasing(
            (dxm as int) * (stretch_m as int) * 4,
            den as int,
        );
        vstd::arithmetic::div_mod::lemma_div_nonincreasing(
            (dym as int) * (stretch_m as int) * 4,
            den as int,
        );
    }
    let fx: i64 = if (dx < 0) != stretch_neg {
        -(fxm as i64)
    } else {
        fxm as i64
    };
    let fy: i64 = if (dy < 0) != stretch_neg {
        -(fym as i64)
    } else {
        fym as i64
    };
    (fx, fy)
}

} // verus!
