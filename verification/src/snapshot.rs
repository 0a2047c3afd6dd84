//! Projection of the world into the client-visible snapshot: players and
//! bullets lose their internal bookkeeping (cooldown clocks, bullet ages),
//! the grouping by owner and the boss's public state are kept verbatim.
use crate::entities::{Bullet, Demon};
use crate::geom::Vec2;
use crate::server::{BulletGroup, GameServer, PlayerSlot};
use vstd::prelude::*;

verus! {

/// A player as clients see it.
pub struct ClientPlayer {
    pub id: u64,
    pub pos: Vec2,
    pub anchor: Vec2,
    pub name: String,
    /// The facing angle in milliradians, echoed as received.
    pub angle_mrad: i64,
    pub health: u8,
    pub score: u32,
    pub shooting: bool,
    pub shielding: bool,
}

/// A bullet as clients see it: position and velocity only.
#[derive(Clone, Copy, PartialEq, Eq, Structural, Debug)]
pub struct ClientBullet {
    pub pos: Vec2,
    pub vel: Vec2,
}

/// One owner's bullets, keyed for ownership coloring.
pub struct ClientBulletGroup {
    pub owner: u64,
    pub bullets: Vec<ClientBullet>,
}

/// What one tick hands back to the transport layer: the players that died
/// this tick (one death notification each) and the snapshot to broadcast.
pub struct TickOutcome {
    pub deaths: Vec<u64>,
    pub snapshot: Playfield,
}

/// The full per-tick snapshot.
pub struct Playfield {
    pub players: Vec<ClientPlayer>,
    pub bullets: Vec<ClientBulletGroup>,
    pub demon: Demon,
}

/// The client projection of one player slot.
pub open spec fn client_player_of(s: PlayerSlot) -> ClientPlayer {
    ClientPlayer {
        id: s.id,
        pos: s.player.pos,
        anchor: s.player.anchor,
        name: s.player.name,
        angle_mrad: s.player.facing.mrad,
        health: s.player.health,
        score: s.player.score,
        shooting: s.player.shooting,
        shielding: s.player.shielding,
    }
}

/// The client projection of one bullet.
pub open spec fn client_bullet_of(b: Bullet) -> ClientBullet {
    ClientBullet { pos: b.pos, vel: b.vel }
}

/// Project the world into the snapshot broadcast this tick.
pub fn build_snapshot(w: &GameServer) -> (s: Playfield)
    ensures
        s.players@.len() == w.players@.len(),
        forall|j: int|
            0 <= j < w.players@.len() ==> s.players@[j] == client_player_of(#[trigger] w.players@[j]),
        s.bullets@.len() == w.bullets@.len(),
        forall|g: int|
            0 <= g < w.bullets@.len() ==> (#[trigger] s.bullets@[g]).owner == w.bullets@[g].owner
                && s.bullets@[g].bullets@.len() == w.bullets@[g].bullets@.len(),
        forall|g: int, k: int|
            0 <= g < w.bullets@.len() && 0 <= k < w.bullets@[g].bullets@.len()
                ==> s.bullets@[g].bullets@[k] == client_bullet_of(
                #[trigger] w.bullets@[g].bullets@[k],
            ),
        s.demon == w.demon,
{
    let mut players: Vec<ClientPlayer> = Vec::new();
    let mut j: usize = 0;
    while j < w.players.len()
        invariant
            0 <= j <= w.players@.len(),
            players@.len() == j,
            forall|t: int|
                0 <= t < j ==> players@[t] == client_player_of(#[trigger] w.players@[t]),
        decreases w.players@.len() - j,
    {
        let slot = &w.players[j];
        players.push(
            ClientPlayer {
                id: slot.id,
                pos: slot.player.pos,
                anchor: slot.player.anchor,
                name: slot.player.name.clone(),
                angle_mrad: slot.player.facing.mrad,
                health: slot.player.health,
                score: slot.player.score,
                shooting: slot.player.shooting,
                shielding: slot.player.shielding,
            },
        );
        j = j + 1;
    }
    let mut groups: Vec<ClientBulletGroup> = Vec::new();
    let mut g: usize = 0;
    while g < w.bullets.len()
        invariant
            0 <= g <= w.bullets@.len(),
            groups@.len() == g,
            forall|t: int|
                0 <= t < g ==> (#[trigger] groups@[t]).owner == w.bullets@[t].owner
                    && groups@[t].bullets@.len() == w.bullets@[t].bullets@.len(),
            forall|t: int, k: int|
                0 <= t < g && 0 <= k < w.bullets@[t].bullets@.len() ==> groups@[t].bullets@[k]
                    == client_bullet_of(#[trigger] w.bullets@[t].bullets@[k]),
        decreases w.bullets@.len() - g,
    {
        let src = &w.bullets[g];
        let mut bl: Vec<ClientBullet> = Vec::new();
        let mut k: usize = 0;
        while k < src.bullets.len()
            invariant
                0 <= k <= src.bullets@.len(),
                bl@.len() == k,
                forall|t: int|
                    0 <= t < k ==> bl@[t] == client_bullet_of(#[trigger] src.bullets@[t]),
            decreases src.bullets@.len() - k,
        {
            let b = src.bullets[k];
            bl.push(ClientBullet { pos: b.pos, vel: b.vel });
            k = k + 1;
        }
        groups.push(ClientBulletGroup { owner: src.owner, bullets: bl });
        g = g + 1;
    }
    Playfield { players, bullets: groups, demon: w.demon }
}

} // verus!
