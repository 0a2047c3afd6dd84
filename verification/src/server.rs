//! The authoritative game world: session registry, command intake and the
//! fixed-step simulation tick.
use crate::arith::{clamp_spec, sat_add_spec, sat_inc_u32, sat_sub_spec, sat_sub_u8};
use crate::entities::{
    bullet_expired, bullet_wf, demon_move, demon_prepare, expired, facing_ok,
    fire_ready, fired_bullet, force_expire, melee_contact, regen_player, step_bullet,
    phys_x, phys_y, step_player_physics, stepped_bullet, track_anchor, try_fire, volley_bullet,
    volley_vel_spec, Bullet, Demon, Facing, Player,
};
use crate::geom::{
    demon_box_test, in_demon_box, in_play, in_player_circle, player_circle_test, Vec2,
};
use vstd::prelude::*;

verus! {

/// A live player keyed by its session identity.
pub struct PlayerSlot {
    pub id: u64,
    pub player: Player,
}

/// The bullets fired by one owner; the reserved owner key `DEMON_OWNER`
/// groups boss-fired bullets.
pub struct BulletGroup {
    pub owner: u64,
    pub bullets: Vec<Bullet>,
}

/// A command a session submits, tagged by the session's identity at the
/// transport boundary.
pub enum ClientMessage {
    /// Establish a player under this display name (ignored once named).
    Name(String),
    /// Set the facing direction.
    Angle(Facing),
    /// Set the firing intent flag.
    Shoot(bool),
    /// Set the shielding intent flag (subject to cooldown gating).
    Shield(bool),
}

/// Pairwise-distinct identities.
pub open spec fn distinct_ids(s: Seq<u64>) -> bool {
    forall|i: int, j: int| 0 <= i < j < s.len() ==> s[i] != s[j]
}

/// Pairwise-distinct player keys.
pub open spec fn distinct_slot_ids(ps: Seq<PlayerSlot>) -> bool {
    forall|i: int, j: int| 0 <= i < j < ps.len() ==> ps[i].id != ps[j].id
}

/// Pairwise-distinct bullet group owners.
pub open spec fn distinct_owners(gs: Seq<BulletGroup>) -> bool {
    forall|i: int, j: int| 0 <= i < j < gs.len() ==> gs[i].owner != gs[j].owner
}

/// The sessions kept when identity `id` disconnects.
pub open spec fn not_id(id: u64) -> spec_fn(u64) -> bool {
    |s: u64| s != id
}

/// The player slots kept when identity `id` disconnects.
pub open spec fn slot_not_id(id: u64) -> spec_fn(PlayerSlot) -> bool {
    |s: PlayerSlot| s.id != id
}

/// Whether some slot carries this player key.
pub open spec fn has_player(ps: Seq<PlayerSlot>, id: u64) -> bool {
    exists|j: int| 0 <= j < ps.len() && ps[j].id == id
}

/// A well-formed bullet group: never empty, every bullet well-formed.
pub open spec fn group_wf(g: BulletGroup) -> bool {
    &&& g.bullets@.len() > 0
    &&& forall|k: int| 0 <= k < g.bullets@.len() ==> bullet_wf(#[trigger] g.bullets@[k])
}

/// Every element of a filtered sequence occurs in the original.
proof fn lemma_filter_in_original<A>(s: Seq<A>, p: spec_fn(A) -> bool)
    ensures
        forall|i: int| 0 <= i < s.filter(p).len() ==> s.contains(#[trigger] s.filter(p)[i]),
    decreases s.len(),
{
    reveal(Seq::filter);
    if s.len() > 0 {
        let dl = s.drop_last();
        lemma_filter_in_original(dl, p);
        assert forall|i: int| 0 <= i < s.filter(p).len() implies s.contains(
            #[trigger] s.filter(p)[i],
        ) by {
            if i < dl.filter(p).len() {
                assert(s.filter(p)[i] == dl.filter(p)[i]);
                let j = choose|j: int| 0 <= j < dl.len() && dl[j] == dl.filter(p)[i];
                assert(s[j] == dl.filter(p)[i]);
            } else {
                assert(s.filter(p)[i] == s.last());
                assert(s[s.len() - 1] == s.last());
            }
        }
    }
}

/// Filtering preserves distinctness of player keys.
proof fn lemma_filter_distinct_slots(s: Seq<PlayerSlot>, p: spec_fn(PlayerSlot) -> bool)
    requires
        distinct_slot_ids(s),
    ensures
        distinct_slot_ids(s.filter(p)),
    decreases s.len(),
{
    reveal(Seq::filter);
    if s.len() > 0 {
        let dl = s.drop_last();
        assert(distinct_slot_ids(dl)) by {
            assert(forall|i: int| 0 <= i < dl.len() ==> dl[i] == s[i]);
        }
        lemma_filter_distinct_slots(dl, p);
        lemma_filter_in_original(dl, p);
        if p(s.last()) {
            let f = dl.filter(p);
            assert forall|i: int| 0 <= i < f.len() implies f[i].id != s.last().id by {
                let j = choose|j: int| 0 <= j < dl.len() && dl[j] == f[i];
                assert(s[j] == f[i]);
                assert(s[j].id != s[s.len() - 1].id);
            }
        }
    }
}

/// Filtering preserves distinctness of plain identities.
proof fn lemma_filter_distinct_ids(s: Seq<u64>, p: spec_fn(u64) -> bool)
    requires
        distinct_ids(s),
    ensures
        distinct_ids(s.filter(p)),
    decreases s.len(),
{
    reveal(Seq::filter);
    if s.len() > 0 {
        let dl = s.drop_last();
        assert(distinct_ids(dl)) by {
            assert(forall|i: int| 0 <= i < dl.len() ==> dl[i] == s[i]);
        }
        lemma_filter_distinct_ids(dl, p);
        lemma_filter_in_original(dl, p);
        if p(s.last()) {
            let f = dl.filter(p);
            assert forall|i: int| 0 <= i < f.len() implies f[i] != s.last() by {
                let j = choose|j: int| 0 <= j < dl.len() && dl[j] == f[i];
                assert(s[j] == f[i]);
                assert(s[j] != s[s.len() - 1]);
            }
        }
    }
}

/// Appending one element steps the filter by at most that element.
proof fn lemma_filter_push<A>(s: Seq<A>, p: spec_fn(A) -> bool, x: A)
    ensures
        s.push(x).filter(p) == if p(x) {
            s.filter(p).push(x)
        } else {
            s.filter(p)
        },
{
    reveal(Seq::filter);
    assert(s.push(x).drop_last() =~= s);
    assert(s.push(x).last() == x);
}

/// Membership in a pushed sequence: the old members and the new element.
proof fn lemma_push_contains(s: Seq<u64>, x: u64, y: u64)
    ensures
        s.push(x).contains(y) == (s.contains(y) || x == y),
{
    if s.push(x).contains(y) {
        let w = choose|w: int| 0 <= w < s.push(x).len() && s.push(x)[w] == y;
        if w < s.len() {
            assert(s[w] == y);
        }
    }
    if s.contains(y) {
        let w = choose|w: int| 0 <= w < s.len() && s[w] == y;
        assert(s.push(x)[w] == y);
    }
    if x == y {
        assert(s.push(x)[s.len() as int] == y);
    }
}

/// Pushing a fresh identity keeps the identities distinct.
proof fn lemma_push_distinct(s: Seq<u64>, x: u64)
    requires
        distinct_ids(s),
        !s.contains(x),
    ensures
        distinct_ids(s.push(x)),
{
    assert forall|i: int, j: int| 0 <= i < j < s.push(x).len() implies s.push(x)[i] != s.push(
        x,
    )[j] by {
        if j == s.len() {
            if s.push(x)[i] == x {
                assert(s[i] == x);
            }
        }
    }
}

/// Find the slot index of a player key.
pub fn find_player(ps: &Vec<PlayerSlot>, id: u64) -> (r: Option<usize>)
    ensures
        match r {
            Some(i) => i < ps@.len() && ps@[i as int].id == id,
            None => !has_player(ps@, id),
        },
{
    let mut i: usize = 0;
    while i < ps.len()
        invariant
            0 <= i <= ps@.len(),
            forall|j: int| 0 <= j < i ==> ps@[j].id != id,
        decreases ps@.len() - i,
    {
        if ps[i].id == id {
            return Some(i);
        }
        i = i + 1;
    }
    None
}

/// Find the index of an owner's bullet group.
pub fn find_group(gs: &Vec<BulletGroup>, owner: u64) -> (r: Option<usize>)
    ensures
        match r {
            Some(i) => i < gs@.len() && gs@[i as int].owner == owner,
            None => forall|j: int| 0 <= j < gs@.len() ==> gs@[j].owner != owner,
        },
{
    let mut i: usize = 0;
    while i < gs.len()
        invariant
            0 <= i <= gs@.len(),
            forall|j: int| 0 <= j < i ==> gs@[j].owner != owner,
        decreases gs@.len() - i,
    {
        if gs[i].owner == owner {
            return Some(i);
        }
        i = i + 1;
    }
    None
}

/// Membership test on the session list.
fn contains_id(v: &Vec<u64>, id: u64) -> (r: bool)
    ensures
        r == v@.contains(id),
{
    let mut i: usize = 0;
    while i < v.len()
        invariant
            0 <= i <= v@.len(),
            forall|j: int| 0 <= j < i ==> v@[j] != id,
        decreases v@.len() - i,
    {
        if v[i] == id {
            return true;
        }
        i = i + 1;
    }
    false
}

/// The whole authoritative world: live sessions, their players, all bullet
/// groups, the boss, and the tick counter.
pub struct GameServer {
    /// Identities of live sessions (transport sinks live outside).
    pub sessions: Vec<u64>,
    /// Live players, keyed by session identity.
    pub players: Vec<PlayerSlot>,
    /// Bullet groups, keyed by owner.
    pub bullets: Vec<BulletGroup>,
    /// The boss.
    pub demon: Demon,
    /// Count of completed ticks.
    pub tick: u64,
}

impl GameServer {
    /// World invariant: identities are distinct and never the reserved boss
    /// key, every player belongs to a live session, every entity is
    /// well-formed, and no bullet group persists empty.
    pub open spec fn wf(&self) -> bool {
        &&& distinct_ids(self.sessions@)
        &&& !self.sessions@.contains(crate::DEMON_OWNER)
        &&& distinct_slot_ids(self.players@)
        &&& forall|j: int|
            0 <= j < self.players@.len() ==> self.sessions@.contains(
                #[trigger] self.players@[j].id,
            )
        &&& forall|j: int| 0 <= j < self.players@.len() ==> (#[trigger] self.players@[j]).player.wf()
        &&& distinct_owners(self.bullets@)
        &&& forall|g: int| 0 <= g < self.bullets@.len() ==> group_wf(#[trigger] self.bullets@[g])
        &&& self.demon.wf()
    }

    /// A fresh world: no sessions, no players, no bullets, the boss at its
    /// starting state, tick zero.
    pub fn new() -> (s: GameServer)
        ensures
            s.wf(),
            s.sessions@.len() == 0,
            s.players@.len() == 0,
            s.bullets@.len() == 0,
            s.demon.pos.x == crate::DEMON_START_X,
            s.demon.pos.y == crate::DEMON_START_Y,
            s.demon.vel.x == crate::DEMON_SPEED,
            s.demon.vel.y == 0,
            s.demon.health == crate::MAX_HEALTH,
            s.tick == 0,
    {
        GameServer {
            sessions: Vec::new(),
            players: Vec::new(),
            bullets: Vec::new(),
            demon: Demon::initial(),
            tick: 0,
        }
    }

    /// Install a session under a caller-chosen identity; refused when the
    /// identity is the reserved boss key or already live.
    pub fn register(&mut self, id: u64) -> (r: bool)
        requires
            old(self).wf(),
        ensures
            final(self).wf(),
            r == (id != crate::DEMON_OWNER && !old(self).sessions@.contains(id)),
            r ==> final(self).sessions@ == old(self).sessions@.push(id),
            !r ==> final(self).sessions@ == old(self).sessions@,
            final(self).players@ == old(self).players@,
            final(self).bullets@ == old(self).bullets@,
            final(self).demon == old(self).demon,
            final(self).tick == old(self).tick,
    {
        if id == crate::DEMON_OWNER {
            return false;
        }
        if contains_id(&self.sessions, id) {
            return false;
        }
        let ghost s0 = self.sessions@;
        self.sessions.push(id);
        proof {
            lemma_push_distinct(s0, id);
            lemma_push_contains(s0, id, crate::DEMON_OWNER);
            assert forall|j: int| 0 <= j < self.players@.len() implies self.sessions@.contains(
                #[trigger] self.players@[j].id,
            ) by {
                lemma_push_contains(s0, id, self.players@[j].id);
            }
        }
        true
    }

    /// Open a session under a freshly drawn random identity, retrying on
    /// the rare collision; falls back to one past the largest live identity
    /// when the random source keeps colliding. `None` only in the
    /// unreachable state where the largest possible identity is live.
    pub fn connect(&mut self) -> (r: Option<u64>)
        requires
            old(self).wf(),
        ensures
            final(self).wf(),
            r matches Some(id) ==> id != crate::DEMON_OWNER && !old(self).sessions@.contains(id)
                && final(self).sessions@ == old(self).sessions@.push(id),
            r is None ==> final(self).sessions@ == old(self).sessions@
                && old(self).sessions@.contains(u64::MAX),
            final(self).players@ == old(self).players@,
            final(self).bullets@ == old(self).bullets@,
            final(self).demon == old(self).demon,
            final(self).tick == old(self).tick,
    {
        let mut tries: u64 = 0;
        while tries < 64
            invariant
                self == old(self),
                old(self).wf(),
            decreases 64 - tries,
        {
            let id = crate::ident::random_id();
            if id != crate::DEMON_OWNER && !contains_id(&self.sessions, id) {
                let ghost s0 = self.sessions@;
                self.sessions.push(id);
                proof {
                    lemma_push_distinct(s0, id);
                    lemma_push_contains(s0, id, crate::DEMON_OWNER);
                    assert forall|j: int|
                        0 <= j < self.players@.len() implies self.sessions@.contains(
                        #[trigger] self.players@[j].id,
                    ) by {
                        lemma_push_contains(s0, id, self.players@[j].id);
                    }
                }
                return Some(id);
            }
            tries = tries + 1;
        }
        let mut mx: u64 = 0;
        let mut i: usize = 0;
        while i < self.sessions.len()
            invariant
                self == old(self),
                old(self).wf(),
                0 <= i <= self.sessions@.len(),
                forall|j: int| 0 <= j < i ==> self.sessions@[j] <= mx,
                mx == 0 || self.sessions@.contains(mx),
            decreases self.sessions@.len() - i,
        {
            if self.sessions[i] > mx {
                mx = self.sessions[i];
            }
            i = i + 1;
        }
        if mx == u64::MAX {
            return None;
        }
        let id = mx + 1;
        proof {
            if self.sessions@.contains(id) {
                let w = choose|w: int| 0 <= w < self.sessions@.len() && self.sessions@[w] == id;
            }
        }
        let ghost s0 = self.sessions@;
        self.sessions.push(id);
        proof {
            lemma_push_distinct(s0, id);
            lemma_push_contains(s0, id, crate::DEMON_OWNER);
            assert forall|j: int| 0 <= j < self.players@.len() implies self.sessions@.contains(
                #[trigger] self.players@[j].id,
            ) by {
                lemma_push_contains(s0, id, self.players@[j].id);
            }
        }
        Some(id)
    }

    /// Drop a session: the session and any player it owns disappear; the
    /// caller reports the disconnect to the remaining sessions.
    pub fn unregister(&mut self, id: u64)
        requires
            old(self).wf(),
        ensures
            final(self).wf(),
            final(self).sessions@ == old(self).sessions@.filter(not_id(id)),
            final(self).players@ == old(self).players@.filter(slot_not_id(id)),
            !final(self).sessions@.contains(id),
            !has_player(final(self).players@, id),
            final(self).bullets@ == old(self).bullets@,
            final(self).demon == old(self).demon,
            final(self).tick == old(self).tick,
    {
        let ghost old_sessions = self.sessions@;
        let ghost old_players = self.players@;
        let mut kept: Vec<u64> = Vec::new();
        let mut i: usize = 0;
        while i < self.sessions.len()
            invariant
                self.sessions@ == old_sessions,
                0 <= i <= old_sessions.len(),
                kept@ == old_sessions.take(i as int).filter(not_id(id)),
            decreases old_sessions.len() - i,
        {
            let s = self.sessions[i];
            proof {
                assert(old_sessions.take(i + 1) =~= old_sessions.take(i as int).push(s));
                lemma_filter_push(old_sessions.take(i as int), not_id(id), s);
            }
            if s != id {
                kept.push(s);
            }
            i = i + 1;
        }
        proof {
            assert(old_sessions.take(old_sessions.len() as int) =~= old_sessions);
        }
        self.sessions = kept;

        let ghost p = slot_not_id(id);
        let mut j: usize = 0;
        let ghost mut m: int = 0;
        while j < self.players.len()
            invariant
                self.sessions@ == old_sessions.filter(not_id(id)),
                self.bullets@ == old(self).bullets@,
                p == slot_not_id(id),
                self.demon == old(self).demon,
                self.tick == old(self).tick,
                0 <= m <= old_players.len(),
                self.players@ == old_players.take(m).filter(p) + old_players.skip(m),
                j == old_players.take(m).filter(p).len(),
            decreases old_players.len() - m,
        {
            let ghost f1 = old_players.take(m).filter(p);
            proof {
                assert(old_players.skip(m).len() > 0);
                assert(self.players@[j as int] == old_players.skip(m)[0]);
                assert(old_players.skip(m)[0] == old_players[m]);
                assert(old_players.take(m + 1) =~= old_players.take(m).push(old_players[m]));
                lemma_filter_push(old_players.take(m), p, old_players[m]);
            }
            if self.players[j].id != id {
                proof {
                    assert(p(old_players[m]));
                    assert(old_players.take(m + 1).filter(p) == f1.push(old_players[m]));
                    assert(self.players@ =~= f1.push(old_players[m]) + old_players.skip(m + 1))
                        by {
                        assert(self.players@ == f1 + old_players.skip(m));
                        assert(forall|t: int|
                            0 <= t < old_players.skip(m).len() ==> #[trigger] old_players.skip(
                                m,
                            )[t] == old_players[m + t]);
                        assert(forall|t: int|
                            0 <= t < old_players.skip(m + 1).len() ==> #[trigger] old_players.skip(
                                m + 1,
                            )[t] == old_players[m + 1 + t]);
                    }
                }
                j = j + 1;
            } else {
                let ghost before = self.players@;
                self.players.remove(j);
                proof {
                    assert(!p(old_players[m]));
                    assert(old_players.take(m + 1).filter(p) == f1);
                    assert(self.players@ == before.remove(j as int));
                    assert(self.players@ =~= f1 + old_players.skip(m + 1)) by {
                        assert(before == f1 + old_players.skip(m));
                        assert(forall|t: int|
                            0 <= t < old_players.skip(m).len() ==> #[trigger] old_players.skip(
                                m,
                            )[t] == old_players[m + t]);
                        assert(forall|t: int|
                            0 <= t < old_players.skip(m + 1).len() ==> #[trigger] old_players.skip(
                                m + 1,
                            )[t] == old_players[m + 1 + t]);
                    }
                }
            }
            proof {
                m = m + 1;
            }
        }
        proof {
            assert(old_players.skip(m).len() == 0);
            assert(old_players.take(m) =~= old_players);
            assert(self.players@ =~= old_players.filter(p));
            lemma_filter_distinct_slots(old_players, p);
            lemma_filter_distinct_ids(old_sessions, not_id(id));
            lemma_filter_in_original(old_players, p);
            lemma_filter_in_original(old_sessions, not_id(id));
            assert forall|k: int| 0 <= k < self.players@.len() implies self.sessions@.contains(
                #[trigger] self.players@[k].id,
            ) by {
                old_players.lemma_filter_pred(p, k);
                let slot = self.players@[k];
                assert(old_players.contains(slot));
                let w = choose|w: int| 0 <= w < old_players.len() && old_players[w] == slot;
                assert(old_sessions.contains(slot.id));
                let ws = choose|ws: int| 0 <= ws < old_sessions.len() && old_sessions[ws]
                    == slot.id;
                old_sessions.lemma_filter_contains(not_id(id), ws);
            }
            assert(!self.sessions@.contains(id)) by {
                if self.sessions@.contains(id) {
                    let w = choose|w: int|
                        0 <= w < self.sessions@.len() && self.sessions@[w] == id;
                    old_sessions.lemma_filter_pred(not_id(id), w);
                }
            }
            assert(!has_player(self.players@, id)) by {
                if has_player(self.players@, id) {
                    let w = choose|w: int|
                        0 <= w < self.players@.len() && self.players@[w].id == id;
                    old_players.lemma_filter_pred(p, w);
                }
            }
            assert forall|k: int| 0 <= k < self.players@.len() implies (
            #[trigger] self.players@[k]).player.wf() by {
                old_players.lemma_filter_pred(p, k);
                let slot = self.players@[k];
                assert(old_players.contains(slot));
                let w = choose|w: int| 0 <= w < old_players.len() && old_players[w] == slot;
            }
        }
    }

    /// Apply an inbound command for session `id` at clock `now`: commands
    /// only set intent on the addressed player; a `Name` from a session
    /// without a player creates one; everything else on an unestablished or
    /// unknown session is ignored.
    pub fn handle(&mut self, id: u64, m: ClientMessage, now: i64)
        requires
            old(self).wf(),
            0 <= now <= crate::TIME_BOUND,
        ensures
            final(self).wf(),
            final(self).sessions@ == old(self).sessions@,
            final(self).bullets@ == old(self).bullets@,
            final(self).demon == old(self).demon,
            final(self).tick == old(self).tick,
            has_player(old(self).players@, id) ==> {
                &&& final(self).players@.len() == old(self).players@.len()
                &&& forall|j: int|
                    0 <= j < old(self).players@.len() && old(self).players@[j].id != id
                        ==> final(self).players@[j] == old(self).players@[j]
                &&& forall|j: int|
                    0 <= j < old(self).players@.len() && old(self).players@[j].id == id ==> (
                    #[trigger] final(self).players@[j]).id == id && final(self).players@[j].player
                        == apply_msg_spec(old(self).players@[j].player, m, now as int)
            },
            !has_player(old(self).players@, id) ==> if old(self).sessions@.contains(id) && (
            m matches ClientMessage::Name(_)) {
                &&& final(self).players@.len() == old(self).players@.len() + 1
                &&& forall|j: int|
                    0 <= j < old(self).players@.len() ==> final(self).players@[j]
                        == old(self).players@[j]
                &&& final(self).players@.last().id == id
                &&& is_spawned(
                    final(self).players@.last().player,
                    match m {
                        ClientMessage::Name(n) => n@,
                        _ => Seq::<char>::empty(),
                    },
                    now as int,
                )
            } else {
                final(self).players@ == old(self).players@
            },
    {
        match find_player(&self.players, id) {
            Some(i) => {
                match m {
                    ClientMessage::Shoot(s) => {
                        let pl = &mut self.players[i];
                        pl.player.shooting = s;
                    },
                    ClientMessage::Shield(s) => {
                        let pl = &mut self.players[i];
                        if !s && pl.player.shielding {
                            let ax: i64 = pl.player.pos.x + pl.player.facing.ux
                                * crate::SHIELD_RELEASE_DIST;
                            let ay: i64 = pl.player.pos.y + pl.player.facing.uy
                                * crate::SHIELD_RELEASE_DIST;
                            pl.player.anchor = Vec2 { x: ax, y: ay };
                            pl.player.last_shield = now;
                            pl.player.shielding = false;
                        } else {
                            if now - pl.player.last_shield > crate::SHIELD_COOLDOWN_MS {
                                pl.player.shielding = s;
                            }
                        }
                    },
                    ClientMessage::Angle(f) => {
                        if -crate::UNIT <= f.ux && f.ux <= crate::UNIT && -crate::UNIT <= f.uy
                            && f.uy <= crate::UNIT {
                            let pl = &mut self.players[i];
                            pl.player.facing = f;
                        }
                    },
                    ClientMessage::Name(_) => {},
                }
            },
            None => {
                if contains_id(&self.sessions, id) {
                    match m {
                        ClientMessage::Name(name) => {
                            let p = Player::spawn(name, now);
                            self.players.push(PlayerSlot { id, player: p });
                            proof {
                                assert(id != crate::DEMON_OWNER);
                            }
                        },
                        _ => {},
                    }
                }
            },
        }
    }

    /// The boss's part of a tick: respawn/regeneration, the periodic radial
    /// volley into the boss-owned bullet group, then bounce-and-move.
    pub fn boss_phase(&mut self, now: i64)
        requires
            old(self).wf(),
            0 <= now <= crate::TIME_BOUND,
        ensures
            final(self).wf(),
            final(self).demon == crate::entities::demon_move_spec(
                crate::entities::demon_prepare_spec(old(self).demon, old(self).tick),
            ),
            gview(final(self).bullets@) == if old(self).tick % crate::VOLLEY_PERIOD == 0 {
                add_to_owner(
                    gview(old(self).bullets@),
                    crate::DEMON_OWNER,
                    volley_seq(
                        crate::entities::demon_prepare_spec(old(self).demon, old(self).tick),
                        now as int,
                    ),
                )
            } else {
                gview(old(self).bullets@)
            },
            final(self).players@ == old(self).players@,
            final(self).sessions@ == old(self).sessions@,
            final(self).tick == old(self).tick,
    {
        let t = self.tick;
        demon_prepare(&mut self.demon, t);
        if t % crate::VOLLEY_PERIOD == 0 {
            let d = self.demon;
            let ghost target = volley_seq(d, now as int);
            let mut vs: Vec<Bullet> = Vec::new();
            let mut k: u64 = 0;
            while k < crate::VOLLEY_COUNT
                invariant
                    0 <= k <= crate::VOLLEY_COUNT,
                    d.wf(),
                    0 <= now <= crate::TIME_BOUND,
                    target == volley_seq(d, now as int),
                    vs@.len() == k,
                    forall|t2: int| 0 <= t2 < k ==> vs@[t2] == target[t2],
                    forall|t2: int| 0 <= t2 < k ==> bullet_wf(#[trigger] vs@[t2]),
                decreases crate::VOLLEY_COUNT - k,
            {
                let b = volley_bullet(&d, k, now);
                proof {
                    assert(target[k as int].pos == d.pos);
                    assert((target[k as int].vel.x as int, target[k as int].vel.y as int)
                        == volley_vel_spec(k as int, d.vel.x >= 0));
                    assert(target[k as int].born == now);
                }
                vs.push(b);
                k = k + 1;
            }
            proof {
                assert(vs@ =~= target);
            }
            append_bullets(&mut self.bullets, crate::DEMON_OWNER, vs);
        }
        demon_move(&mut self.demon);
    }

    /// The players' part of a tick, in slot order: physics, regeneration,
    /// anchor tracking, melee contact with the boss (damaging both sides),
    /// and cooldown-gated firing into each player's bullet group.
    pub fn players_phase(&mut self, now: i64)
        requires
            old(self).wf(),
            0 <= now <= crate::TIME_BOUND,
        ensures
            final(self).wf(),
            final(self).sessions@ == old(self).sessions@,
            final(self).tick == old(self).tick,
            final(self).players@.len() == old(self).players@.len(),
            forall|j: int|
                0 <= j < old(self).players@.len() ==> (#[trigger] final(self).players@[j]).id
                    == old(self).players@[j].id && final(self).players@[j].player
                    == player_phase_spec(
                    old(self).players@[j].player,
                    old(self).demon.pos,
                    old(self).tick,
                    now as int,
                ),
            final(self).demon.health as int == melee_health_fold(
                old(self).players@,
                old(self).demon.pos,
                old(self).demon.health as int,
                0,
            ),
            final(self).demon.pos == old(self).demon.pos,
            final(self).demon.vel == old(self).demon.vel,
            gview(final(self).bullets@) == fire_fold(
                gview(old(self).bullets@),
                old(self).players@,
                old(self).demon.pos,
                old(self).tick,
                now as int,
                0,
            ),
    {
        let t = self.tick;
        let mut i: usize = 0;
        while i < self.players.len()
            invariant
                old(self).wf(),
                0 <= now <= crate::TIME_BOUND,
                t == old(self).tick,
                0 <= i <= old(self).players@.len(),
                self.sessions@ == old(self).sessions@,
                self.tick == old(self).tick,
                self.players@.len() == old(self).players@.len(),
                forall|j: int|
                    i <= j < old(self).players@.len() ==> self.players@[j] == old(
                        self,
                    ).players@[j],
                forall|j: int|
                    0 <= j < i ==> (#[trigger] self.players@[j]).id == old(self).players@[j].id
                        && self.players@[j].player == player_phase_spec(
                        old(self).players@[j].player,
                        old(self).demon.pos,
                        old(self).tick,
                        now as int,
                    ),
                forall|j: int| 0 <= j < i ==> (#[trigger] self.players@[j]).player.wf(),
                self.demon.pos == old(self).demon.pos,
                self.demon.vel == old(self).demon.vel,
                self.demon.wf(),
                melee_health_fold(
                    old(self).players@,
                    old(self).demon.pos,
                    old(self).demon.health as int,
                    0,
                ) == melee_health_fold(
                    old(self).players@,
                    old(self).demon.pos,
                    self.demon.health as int,
                    i as int,
                ),
                fire_fold(
                    gview(old(self).bullets@),
                    old(self).players@,
                    old(self).demon.pos,
                    old(self).tick,
                    now as int,
                    0,
                ) == fire_fold(
                    gview(self.bullets@),
                    old(self).players@,
                    old(self).demon.pos,
                    old(self).tick,
                    now as int,
                    i as int,
                ),
                distinct_owners(self.bullets@),
                forall|g: int|
                    0 <= g < self.bullets@.len() ==> group_wf(#[trigger] self.bullets@[g]),
            decreases old(self).players@.len() - i,
        {
            let ghost ops = old(self).players@;
            let ghost dpos = old(self).demon.pos;
            let ghost p0 = self.players@[i as int].player;
            let ghost hb = self.demon.health as int;
            let ghost gvb = gview(self.bullets@);
            proof {
                assert(p0 == ops[i as int].player);
                assert(p0.wf());
            }
            step_player_physics(&mut self.players[i].player);
            let ghost p1 = self.players@[i as int].player;
            regen_player(&mut self.players[i].player, t);
            let ghost p2 = self.players@[i as int].player;
            track_anchor(&mut self.players[i].player);
            let ghost p3 = self.players@[i as int].player;
            melee_contact(&mut self.players[i].player, &mut self.demon);
            let ghost p4 = self.players@[i as int].player;
            let b = try_fire(&mut self.players[i].player, now);
            let ghost p5 = self.players@[i as int].player;
            proof {
                let pa = Player {
                    pos: Vec2 { x: phys_x(p0).0 as i64, y: phys_y(p0).0 as i64 },
                    vel: Vec2 { x: phys_x(p0).1 as i64, y: phys_y(p0).1 as i64 },
                    ..p0
                };
                assert(p1 == pa);
                assert(p5 == player_phase_spec(p0, dpos, t, now as int));
                assert(melee_health_fold(ops, dpos, hb, i as int) == melee_health_fold(
                    ops,
                    dpos,
                    self.demon.health as int,
                    i + 1,
                )) by {
                    assert(p3.pos == pa.pos);
                    assert(p3.shielding == p0.shielding);
                }
            }
            if let Some(bl) = b {
                let oid = self.players[i].id;
                let mut vb: Vec<Bullet> = Vec::new();
                vb.push(bl);
                proof {
                    assert(vb@ =~= seq![bl]);
                    assert(bl == fired_bullet(p4, now as int));
                    assert(fired_bullet(p4, now as int) == fired_bullet(
                        player_phase_spec(p0, dpos, t, now as int),
                        now as int,
                    ));
                }
                append_bullets(&mut self.bullets, oid, vb);
                proof {
                    assert(fire_ready(p0, now as int));
                    assert(fire_fold(gvb, ops, dpos, t, now as int, i as int) == fire_fold(
                        gview(self.bullets@),
                        ops,
                        dpos,
                        t,
                        now as int,
                        i + 1,
                    ));
                }
            } else {
                proof {
                    assert(!fire_ready(p0, now as int));
                    assert(fire_fold(gvb, ops, dpos, t, now as int, i as int) == fire_fold(
                        gview(self.bullets@),
                        ops,
                        dpos,
                        t,
                        now as int,
                        i + 1,
                    ));
                }
            }
            i = i + 1;
        }
        proof {
            assert(melee_health_fold(
                old(self).players@,
                old(self).demon.pos,
                self.demon.health as int,
                old(self).players@.len() as int,
            ) == self.demon.health as int);
            assert(fire_fold(
                gview(self.bullets@),
                old(self).players@,
                old(self).demon.pos,
                old(self).tick,
                now as int,
                old(self).players@.len() as int,
            ) == gview(self.bullets@));
            assert(distinct_slot_ids(self.players@)) by {
                assert forall|a: int, b2: int|
                    0 <= a < b2 < self.players@.len() implies self.players@[a].id
                    != self.players@[b2].id by {
                    assert(self.players@[a].id == old(self).players@[a].id);
                    assert(self.players@[b2].id == old(self).players@[b2].id);
                }
            }
            assert forall|j: int| 0 <= j < self.players@.len() implies self.sessions@.contains(
                #[trigger] self.players@[j].id,
            ) by {
                assert(self.players@[j].id == old(self).players@[j].id);
            }
        }
    }

    /// The bullets' part of a tick: step every bullet of every group,
    /// resolve its combat, reap expired bullets, and drop emptied groups.
    pub fn bullets_phase(&mut self, now: i64)
        requires
            old(self).wf(),
            0 <= now <= crate::TIME_BOUND,
        ensures
            final(self).wf(),
            final(self).sessions@ == old(self).sessions@,
            final(self).tick == old(self).tick,
            final(self).demon.pos == old(self).demon.pos,
            final(self).demon.vel == old(self).demon.vel,
            ({
                let r = groups_combat_fold(
                    gview(old(self).bullets@),
                    old(self).demon.health as int,
                    old(self).players@,
                    old(self).demon.pos,
                    now as int,
                    0,
                );
                &&& gview(final(self).bullets@) == drop_empty(r.0)
                &&& final(self).demon.health as int == r.1
                &&& final(self).players@ == r.2
            }),
            final(self).players@.len() == old(self).players@.len(),
            forall|j: int|
                0 <= j < old(self).players@.len() ==> (#[trigger] final(self).players@[j]).id
                    == old(self).players@[j].id,
    {
        let ghost dpos = old(self).demon.pos;
        let mut w: usize = 0;
        while w < self.bullets.len()
            invariant
                old(self).wf(),
                0 <= now <= crate::TIME_BOUND,
                dpos == old(self).demon.pos,
                0 <= w <= self.bullets@.len(),
                self.bullets@.len() == old(self).bullets@.len(),
                self.sessions@ == old(self).sessions@,
                self.tick == old(self).tick,
                self.demon.pos == old(self).demon.pos,
                self.demon.vel == old(self).demon.vel,
                self.demon.wf(),
                self.players@.len() == old(self).players@.len(),
                forall|j: int|
                    0 <= j < old(self).players@.len() ==> (#[trigger] self.players@[j]).id == old(
                        self,
                    ).players@[j].id,
                forall|j: int|
                    0 <= j < self.players@.len() ==> (#[trigger] self.players@[j]).player.wf(),
                distinct_slot_ids(self.players@),
                forall|t: int|
                    0 <= t < self.bullets@.len() ==> (#[trigger] self.bullets@[t]).owner == old(
                        self,
                    ).bullets@[t].owner,
                forall|t: int|
                    w <= t < self.bullets@.len() ==> self.bullets@[t] == old(self).bullets@[t],
                forall|t: int, k: int|
                    0 <= t < self.bullets@.len() && 0 <= k < self.bullets@[t].bullets@.len()
                        ==> bullet_wf(#[trigger] self.bullets@[t].bullets@[k]),
                groups_combat_fold(
                    gview(old(self).bullets@),
                    old(self).demon.health as int,
                    old(self).players@,
                    dpos,
                    now as int,
                    0,
                ) == groups_combat_fold(
                    gview(self.bullets@),
                    self.demon.health as int,
                    self.players@,
                    dpos,
                    now as int,
                    w as int,
                ),
            decreases self.bullets@.len() - w,
        {
            let owner = self.bullets[w].owner;
            let ghost gsE = self.bullets@;
            let ghost bl0 = self.bullets@[w as int].bullets@;
            let ghost h0g = self.demon.health as int;
            let ghost ps0g = self.players@;
            let mut k: usize = 0;
            while k < self.bullets[w].bullets.len()
                invariant
                    old(self).wf(),
                    0 <= now <= crate::TIME_BOUND,
                    dpos == old(self).demon.pos,
                    w < self.bullets@.len(),
                    self.bullets@.len() == gsE.len(),
                    forall|t: int| 0 <= t < gsE.len() && t != w ==> self.bullets@[t] == gsE[t],
                    self.bullets@[w as int].owner == owner,
                    gsE.len() == old(self).bullets@.len(),
                    owner == gsE[w as int].owner,
                    forall|t: int|
                        0 <= t < gsE.len() ==> (#[trigger] gsE[t]).owner == old(
                            self,
                        ).bullets@[t].owner,
                    0 <= k <= self.bullets@[w as int].bullets@.len(),
                    self.bullets@[w as int].bullets@.len() == bl0.len(),
                    self.sessions@ == old(self).sessions@,
                    self.tick == old(self).tick,
                    self.demon.pos == old(self).demon.pos,
                    self.demon.vel == old(self).demon.vel,
                    self.demon.wf(),
                    self.players@.len() == old(self).players@.len(),
                    forall|j: int|
                        0 <= j < old(self).players@.len() ==> (#[trigger] self.players@[j]).id
                            == old(self).players@[j].id,
                    forall|j: int|
                        0 <= j < self.players@.len() ==> (#[trigger] self.players@[j]).player.wf(),
                    distinct_slot_ids(self.players@),
                    forall|t: int, k2: int|
                        0 <= t < self.bullets@.len() && 0 <= k2 < self.bullets@[t].bullets@.len()
                            ==> bullet_wf(#[trigger] self.bullets@[t].bullets@[k2]),
                    group_combat_fold(bl0, owner, h0g, ps0g, dpos, now as int, 0)
                        == group_combat_fold(
                        self.bullets@[w as int].bullets@,
                        owner,
                        self.demon.health as int,
                        self.players@,
                        dpos,
                        now as int,
                        k as int,
                    ),
                decreases bl0.len() - k,
            {
                let b = self.bullets[w].bullets[k];
                let ghost blPrev = self.bullets@[w as int].bullets@;
                let ghost hA = self.demon.health as int;
                let ghost psA = self.players@;
                let mut bb = b;
                step_bullet(&mut bb);
                let ghost bs = bb;
                if owner != crate::DEMON_OWNER {
                    if demon_box_test(bb.pos, self.demon.pos) {
                        force_expire(&mut bb, now);
                        apply_boss_damage(&mut self.demon, &mut self.players, owner);
                    }
                } else {
                    let hit = damage_players_for_bullet(&mut self.players, bb.pos);
                    if hit {
                        force_expire(&mut bb, now);
                    }
                }
                set_bullet_at(&mut self.bullets, w, k, bb);
                proof {
                    let r = combat_bullet(blPrev[k as int], owner, hA, psA, dpos, now as int);
                    assert(bs == stepped_bullet(blPrev[k as int]));
                    assert(bb == r.0 && self.demon.health as int == r.1 && self.players@ == r.2);
                    assert(group_combat_fold(blPrev, owner, hA, psA, dpos, now as int, k as int)
                        == group_combat_fold(
                        blPrev.update(k as int, r.0),
                        owner,
                        r.1,
                        r.2,
                        dpos,
                        now as int,
                        k + 1,
                    ));
                    assert(self.bullets@[w as int].bullets@ == blPrev.update(k as int, bb));
                }
                k = k + 1;
            }
            let ghost blDone = self.bullets@[w as int].bullets@;
            let ghost hDone = self.demon.health as int;
            let ghost psDone = self.players@;
            proof {
                assert(forall|k2: int|
                    0 <= k2 < blDone.len() ==> bullet_wf(#[trigger] blDone[k2]));
            }
            reap_group(&mut self.bullets[w].bullets, now);
            proof {
                lemma_filter_in_original(blDone, alive_at(now as int));
                assert forall|k2: int|
                    0 <= k2 < self.bullets@[w as int].bullets@.len() implies bullet_wf(
                    #[trigger] self.bullets@[w as int].bullets@[k2],
                ) by {
                    let bx = self.bullets@[w as int].bullets@[k2];
                    assert(blDone.contains(bx));
                    let t2 = choose|t2: int| 0 <= t2 < blDone.len() && blDone[t2] == bx;
                }
                assert forall|t: int|
                    0 <= t < self.bullets@.len() implies (#[trigger] self.bullets@[t]).owner
                    == old(self).bullets@[t].owner by {
                    if t != w {
                        assert(self.bullets@[t] == gsE[t]);
                    }
                }
                let gvE = gview(gsE);
                let r = group_combat_fold(
                    gvE[w as int].1,
                    gvE[w as int].0,
                    h0g,
                    ps0g,
                    dpos,
                    now as int,
                    0,
                );
                assert(gvE[w as int].1 == bl0 && gvE[w as int].0 == owner);
                assert(r == (blDone, hDone, psDone));
                assert(self.bullets@[w as int].bullets@ == blDone.filter(alive_at(now as int)));
                assert(gview(self.bullets@) =~~= gvE.update(
                    w as int,
                    (owner, blDone.filter(alive_at(now as int))),
                ));
                assert(groups_combat_fold(gvE, h0g, ps0g, dpos, now as int, w as int)
                    == groups_combat_fold(
                    gview(self.bullets@),
                    hDone,
                    psDone,
                    dpos,
                    now as int,
                    w + 1,
                ));
            }
            w = w + 1;
        }
        let ghost gsMid = self.bullets@;
        let ghost pMid = nonempty_group();
        let ghost dMid = self.demon;
        let ghost psMid = self.players@;
        let mut u: usize = 0;
        let ghost mut m: int = 0;
        while u < self.bullets.len()
            invariant
                old(self).wf(),
                0 <= now <= crate::TIME_BOUND,
                pMid == nonempty_group(),
                self.sessions@ == old(self).sessions@,
                self.tick == old(self).tick,
                self.demon == dMid,
                self.demon.wf(),
                self.players@ == psMid,
                self.players@.len() == old(self).players@.len(),
                forall|j: int|
                    0 <= j < old(self).players@.len() ==> (#[trigger] self.players@[j]).id == old(
                        self,
                    ).players@[j].id,
                forall|j: int|
                    0 <= j < self.players@.len() ==> (#[trigger] self.players@[j]).player.wf(),
                distinct_slot_ids(self.players@),
                forall|t: int, k2: int|
                    0 <= t < gsMid.len() && 0 <= k2 < gsMid[t].bullets@.len() ==> bullet_wf(
                        #[trigger] gsMid[t].bullets@[k2],
                    ),
                forall|t: int|
                    0 <= t < gsMid.len() ==> (#[trigger] gsMid[t]).owner == old(
                        self,
                    ).bullets@[t].owner,
                gsMid.len() == old(self).bullets@.len(),
                groups_combat_fold(
                    gview(old(self).bullets@),
                    old(self).demon.health as int,
                    old(self).players@,
                    dpos,
                    now as int,
                    0,
                ) == (gview(gsMid), self.demon.health as int, self.players@),
                dpos == old(self).demon.pos,
                self.demon.pos == old(self).demon.pos,
                self.demon.vel == old(self).demon.vel,
                0 <= m <= gsMid.len(),
                self.bullets@ == gsMid.take(m).filter(pMid) + gsMid.skip(m),
                u == gsMid.take(m).filter(pMid).len(),
            decreases gsMid.len() - m,
        {
            proof {
                assert(gsMid.skip(m).len() > 0);
                assert(self.bullets@[u as int] == gsMid.skip(m)[0]);
                assert(gsMid.skip(m)[0] == gsMid[m]);
                assert(gsMid.take(m + 1) =~= gsMid.take(m).push(gsMid[m]));
                lemma_filter_push(gsMid.take(m), pMid, gsMid[m]);
            }
            if self.bullets[u].bullets.len() > 0 {
                proof {
                    assert(self.bullets@ =~= gsMid.take(m + 1).filter(pMid) + gsMid.skip(m + 1))
                        by {
                        assert(forall|t: int|
                            0 <= t < gsMid.skip(m).len() ==> #[trigger] gsMid.skip(m)[t] == gsMid[m
                                + t]);
                        assert(forall|t: int|
                            0 <= t < gsMid.skip(m + 1).len() ==> #[trigger] gsMid.skip(m + 1)[t]
                                == gsMid[m + 1 + t]);
                    }
                }
                u = u + 1;
            } else {
                let ghost before = self.bullets@;
                self.bullets.remove(u);
                proof {
                    assert(self.bullets@ == before.remove(u as int));
                    assert(self.bullets@ =~= gsMid.take(m + 1).filter(pMid) + gsMid.skip(m + 1))
                        by {
                        assert(forall|t: int|
                            0 <= t < gsMid.skip(m).len() ==> #[trigger] gsMid.skip(m)[t] == gsMid[m
                                + t]);
                        assert(forall|t: int|
                            0 <= t < gsMid.skip(m + 1).len() ==> #[trigger] gsMid.skip(m + 1)[t]
                                == gsMid[m + 1 + t]);
                    }
                }
            }
            proof {
                m = m + 1;
            }
        }
        proof {
            assert(gsMid.skip(m).len() == 0);
            assert(gsMid.take(m) =~= gsMid);
            assert(self.bullets@ =~= gsMid.filter(pMid));
            lemma_gview_drop_empty(gsMid);
            assert(distinct_owners(gsMid)) by {
                assert forall|a: int, b: int|
                    0 <= a < b < gsMid.len() implies gsMid[a].owner != gsMid[b].owner by {
                    assert(gsMid[a].owner == old(self).bullets@[a].owner);
                    assert(gsMid[b].owner == old(self).bullets@[b].owner);
                }
            }
            lemma_filter_distinct_owners(gsMid, pMid);
            lemma_filter_in_original(gsMid, pMid);
            assert forall|g2: int| 0 <= g2 < self.bullets@.len() implies group_wf(
                #[trigger] self.bullets@[g2],
            ) by {
                gsMid.lemma_filter_pred(pMid, g2);
                let grp = self.bullets@[g2];
                assert(gsMid.contains(grp));
                let t = choose|t: int| 0 <= t < gsMid.len() && gsMid[t] == grp;
                assert(forall|k2: int|
                    0 <= k2 < gsMid[t].bullets@.len() ==> bullet_wf(
                        #[trigger] gsMid[t].bullets@[k2],
                    ));
            }
            assert forall|j: int| 0 <= j < self.players@.len() implies self.sessions@.contains(
                #[trigger] self.players@[j].id,
            ) by {
                assert(self.players@[j].id == old(self).players@[j].id);
            }
        }
    }

    /// Remove every player whose health has reached zero, reporting their
    /// identities in slot order; the caller broadcasts one death
    /// notification per identity.
    pub fn reap_players(&mut self) -> (deaths: Vec<u64>)
        requires
            old(self).wf(),
        ensures
            final(self).wf(),
            final(self).players@ == old(self).players@.filter(alive_player()),
            deaths@.len() == old(self).players@.filter(dead_player()).len(),
            forall|t: int|
                0 <= t < deaths@.len() ==> deaths@[t] == old(self).players@.filter(
                    dead_player(),
                )[t].id,
            final(self).sessions@ == old(self).sessions@,
            final(self).bullets@ == old(self).bullets@,
            final(self).demon == old(self).demon,
            final(self).tick == old(self).tick,
    {
        let ghost ps0 = self.players@;
        let ghost pa = alive_player();
        let ghost pd = dead_player();
        let mut deaths: Vec<u64> = Vec::new();
        let mut j: usize = 0;
        let ghost mut m: int = 0;
        while j < self.players.len()
            invariant
                old(self).wf(),
                pa == alive_player(),
                pd == dead_player(),
                ps0 == old(self).players@,
                self.sessions@ == old(self).sessions@,
                self.bullets@ == old(self).bullets@,
                self.demon == old(self).demon,
                self.tick == old(self).tick,
                0 <= m <= ps0.len(),
                self.players@ == ps0.take(m).filter(pa) + ps0.skip(m),
                j == ps0.take(m).filter(pa).len(),
                deaths@.len() == ps0.take(m).filter(pd).len(),
                forall|t: int|
                    0 <= t < deaths@.len() ==> deaths@[t] == ps0.take(m).filter(pd)[t].id,
            decreases ps0.len() - m,
        {
            proof {
                assert(ps0.skip(m).len() > 0);
                assert(self.players@[j as int] == ps0.skip(m)[0]);
                assert(ps0.skip(m)[0] == ps0[m]);
                assert(ps0.take(m + 1) =~= ps0.take(m).push(ps0[m]));
                lemma_filter_push(ps0.take(m), pa, ps0[m]);
                lemma_filter_push(ps0.take(m), pd, ps0[m]);
            }
            if self.players[j].player.health == 0 {
                let id = self.players[j].id;
                let ghost before = self.players@;
                self.players.remove(j);
                deaths.push(id);
                proof {
                    assert(self.players@ == before.remove(j as int));
                    assert(self.players@ =~= ps0.take(m + 1).filter(pa) + ps0.skip(m + 1)) by {
                        assert(forall|t: int|
                            0 <= t < ps0.skip(m).len() ==> #[trigger] ps0.skip(m)[t] == ps0[m + t]);
                        assert(forall|t: int|
                            0 <= t < ps0.skip(m + 1).len() ==> #[trigger] ps0.skip(m + 1)[t]
                                == ps0[m + 1 + t]);
                    }
                }
            } else {
                proof {
                    assert(self.players@ =~= ps0.take(m + 1).filter(pa) + ps0.skip(m + 1)) by {
                        assert(forall|t: int|
                            0 <= t < ps0.skip(m).len() ==> #[trigger] ps0.skip(m)[t] == ps0[m + t]);
                        assert(forall|t: int|
                            0 <= t < ps0.skip(m + 1).len() ==> #[trigger] ps0.skip(m + 1)[t]
                                == ps0[m + 1 + t]);
                    }
                }
                j = j + 1;
            }
            proof {
                m = m + 1;
            }
        }
        proof {
            assert(ps0.skip(m).len() == 0);
            assert(ps0.take(m) =~= ps0);
            assert(self.players@ =~= ps0.filter(pa));
            lemma_filter_distinct_slots(ps0, pa);
            lemma_filter_in_original(ps0, pa);
            assert forall|k: int| 0 <= k < self.players@.len() implies self.sessions@.contains(
                #[trigger] self.players@[k].id,
            ) && (#[trigger] self.players@[k]).player.wf() by {
                ps0.lemma_filter_pred(pa, k);
                let slot = self.players@[k];
                assert(ps0.contains(slot));
                let w = choose|w: int| 0 <= w < ps0.len() && ps0[w] == slot;
            }
        }
        deaths
    }

    /// One full simulation tick at clock `now`: the boss phase, the player
    /// phase, bullet combat and reaping, player reaping with death
    /// notifications, the tick counter, and the snapshot of the resulting
    /// world.
    pub fn tick(&mut self, now: i64) -> (out: crate::snapshot::TickOutcome)
        requires
            old(self).wf(),
            0 <= now <= crate::TIME_BOUND,
        ensures
            final(self).wf(),
            final(self).sessions@ == old(self).sessions@,
            final(self).tick == if old(self).tick == u64::MAX {
                0int
            } else {
                old(self).tick + 1
            },
            forall|j: int|
                0 <= j < final(self).players@.len() ==> (
                #[trigger] final(self).players@[j]).player.health > 0,
            forall|t: int|
                0 <= t < out.deaths@.len() ==> has_player(
                    old(self).players@,
                    #[trigger] out.deaths@[t],
                ) && !has_player(final(self).players@, out.deaths@[t]),
            forall|id: u64|
                has_player(old(self).players@, id) && !has_player(final(self).players@, id)
                    ==> out.deaths@.contains(id),
            distinct_ids(out.deaths@),
            out.snapshot.players@.len() == final(self).players@.len(),
            forall|j: int|
                0 <= j < final(self).players@.len() ==> out.snapshot.players@[j]
                    == crate::snapshot::client_player_of(#[trigger] final(self).players@[j]),
            out.snapshot.bullets@.len() == final(self).bullets@.len(),
            forall|g: int|
                0 <= g < final(self).bullets@.len() ==> (#[trigger] out.snapshot.bullets@[g]).owner
                    == final(self).bullets@[g].owner && out.snapshot.bullets@[g].bullets@.len()
                    == final(self).bullets@[g].bullets@.len(),
            forall|g: int, k: int|
                0 <= g < final(self).bullets@.len() && 0 <= k
                    < final(self).bullets@[g].bullets@.len()
                    ==> out.snapshot.bullets@[g].bullets@[k]
                    == crate::snapshot::client_bullet_of(
                    #[trigger] final(self).bullets@[g].bullets@[k],
                ),
            out.snapshot.demon == final(self).demon,
            final(self).demon.pos == demon_after_boss(*old(self)).pos,
            final(self).demon.vel == demon_after_boss(*old(self)).vel,
            final(self).demon.health as int == combat_outcome(*old(self), now as int).1,
            gview(final(self).bullets@) == drop_empty(combat_outcome(*old(self), now as int).0),
            final(self).players@ == combat_outcome(*old(self), now as int).2.filter(
                alive_player(),
            ),
            out.deaths@.len() == combat_outcome(*old(self), now as int).2.filter(
                dead_player(),
            ).len(),
            forall|t: int|
                0 <= t < out.deaths@.len() ==> out.deaths@[t] == combat_outcome(
                    *old(self),
                    now as int,
                ).2.filter(dead_player())[t].id,
    {
        self.boss_phase(now);
        proof {
            assert(self.demon == demon_after_boss(*old(self)));
            assert(gview(self.bullets@) == groups_after_boss(*old(self), now as int));
        }
        let ghost s1p = self.players@;
        let ghost s1d = self.demon;
        let ghost s1b = gview(self.bullets@);
        self.players_phase(now);
        proof {
            assert(self.players@ =~= players_after_phase(*old(self), now as int));
            assert(self.demon.health as int == demon_health_after_melee(*old(self)));
            assert(gview(self.bullets@) == groups_after_fire(*old(self), now as int));
        }
        let ghost s2p = self.players@;
        let ghost s2d = self.demon;
        let ghost s2b = gview(self.bullets@);
        self.bullets_phase(now);
        proof {
            let r = groups_combat_fold(s2b, s2d.health as int, s2p, s2d.pos, now as int, 0);
            assert(r == combat_outcome(*old(self), now as int));
            assert(gview(self.bullets@) == drop_empty(r.0));
            assert(self.demon.health as int == r.1);
            assert(self.players@ == r.2);
        }
        let ghost mid = self.players@;
        proof {
            assert forall|j: int| 0 <= j < mid.len() implies (#[trigger] mid[j]).id == old(
                self,
            ).players@[j].id by {}
        }
        let deaths = self.reap_players();
        if self.tick == u64::MAX {
            self.tick = 0;
        } else {
            self.tick = self.tick + 1;
        }
        let snapshot = crate::snapshot::build_snapshot(&self);
        proof {
            let fa = alive_player();
            let fd = dead_player();
            lemma_filter_in_original(mid, fa);
            lemma_filter_in_original(mid, fd);
            lemma_filter_distinct_slots(mid, fd);
            assert(distinct_slot_ids(mid));
            assert forall|t: int| 0 <= t < deaths@.len() implies has_player(
                old(self).players@,
                #[trigger] deaths@[t],
            ) && !has_player(self.players@, deaths@[t]) by {
                let df = mid.filter(fd);
                assert(deaths@[t] == df[t].id);
                assert(mid.contains(df[t]));
                let v = choose|v: int| 0 <= v < mid.len() && mid[v] == df[t];
                assert(old(self).players@[v].id == deaths@[t]);
                if has_player(self.players@, deaths@[t]) {
                    let w = choose|w: int|
                        0 <= w < self.players@.len() && self.players@[w].id == deaths@[t];
                    let af = mid.filter(fa);
                    assert(self.players@ == af);
                    mid.lemma_filter_pred(fa, w);
                    assert(mid.contains(af[w]));
                    let v2 = choose|v2: int| 0 <= v2 < mid.len() && mid[v2] == af[w];
                    mid.lemma_filter_pred(fd, t);
                    assert(v2 == v);
                }
            }
            assert forall|id: u64|
                has_player(old(self).players@, id) && !has_player(
                    self.players@,
                    id,
                ) implies deaths@.contains(id) by {
                let j = choose|j: int|
                    0 <= j < old(self).players@.len() && old(self).players@[j].id == id;
                assert(mid[j].id == id);
                if mid[j].player.health != 0 {
                    mid.lemma_filter_contains(fa, j);
                    assert(self.players@.contains(mid[j]));
                    let w = choose|w: int|
                        0 <= w < self.players@.len() && self.players@[w] == mid[j];
                } else {
                    mid.lemma_filter_contains(fd, j);
                    let df = mid.filter(fd);
                    let t = choose|t: int| 0 <= t < df.len() && df[t] == mid[j];
                    assert(deaths@[t] == id);
                }
            }
            assert(distinct_ids(deaths@)) by {
                let df = mid.filter(fd);
                assert forall|a: int, b: int|
                    0 <= a < b < deaths@.len() implies deaths@[a] != deaths@[b] by {
                    assert(deaths@[a] == df[a].id && deaths@[b] == df[b].id);
                }
            }
        }
        crate::snapshot::TickOutcome { deaths, snapshot }
    }
}


/// The boss after the boss phase of a tick.
pub open spec fn demon_after_boss(w: GameServer) -> Demon {
    crate::entities::demon_move_spec(crate::entities::demon_prepare_spec(w.demon, w.tick))
}

/// The bullet group views after the boss phase (the periodic volley
/// included).
pub open spec fn groups_after_boss(w: GameServer, now: int) -> Seq<(u64, Seq<Bullet>)> {
    if w.tick % crate::VOLLEY_PERIOD == 0 {
        add_to_owner(
            gview(w.bullets@),
            crate::DEMON_OWNER,
            volley_seq(crate::entities::demon_prepare_spec(w.demon, w.tick), now),
        )
    } else {
        gview(w.bullets@)
    }
}

/// The players after the player phase of a tick, keys unchanged.
pub open spec fn players_after_phase(w: GameServer, now: int) -> Seq<PlayerSlot> {
    Seq::new(
        w.players@.len(),
        |j: int|
            PlayerSlot {
                id: w.players@[j].id,
                player: player_phase_spec(w.players@[j].player, demon_after_boss(w).pos, w.tick, now),
            },
    )
}

/// Boss health after the melee contacts of the player phase.
pub open spec fn demon_health_after_melee(w: GameServer) -> int {
    melee_health_fold(w.players@, demon_after_boss(w).pos, demon_after_boss(w).health as int, 0)
}

/// The bullet group views after the players' cooldown-gated shots.
pub open spec fn groups_after_fire(w: GameServer, now: int) -> Seq<(u64, Seq<Bullet>)> {
    fire_fold(groups_after_boss(w, now), w.players@, demon_after_boss(w).pos, w.tick, now, 0)
}

/// The world after bullet combat and reaping: the surviving group views
/// (empties still present), the final boss health, and the players as they
/// stand before the player reaping pass.
pub open spec fn combat_outcome(w: GameServer, now: int) -> (Seq<(u64, Seq<Bullet>)>, int, Seq<
    PlayerSlot,
>) {
    groups_combat_fold(
        groups_after_fire(w, now),
        demon_health_after_melee(w),
        players_after_phase(w, now),
        demon_after_boss(w).pos,
        now,
        0,
    )
}

/// Players that survive the reaping pass.
pub open spec fn alive_player() -> spec_fn(PlayerSlot) -> bool {
    |s: PlayerSlot| s.player.health != 0
}

/// Players removed by the reaping pass.
pub open spec fn dead_player() -> spec_fn(PlayerSlot) -> bool {
    |s: PlayerSlot| s.player.health == 0
}

/// Abstract view of the bullet groups: owner and bullet sequence per group.
pub open spec fn gview(gs: Seq<BulletGroup>) -> Seq<(u64, Seq<Bullet>)> {
    gs.map_values(|g: BulletGroup| (g.owner, g.bullets@))
}

/// Whether some group belongs to this owner.
pub open spec fn has_owner(gv: Seq<(u64, Seq<Bullet>)>, owner: u64) -> bool {
    exists|j: int| 0 <= j < gv.len() && gv[j].0 == owner
}

/// Append bullets to an owner's group, creating the group on first fire.
pub open spec fn add_to_owner(gv: Seq<(u64, Seq<Bullet>)>, owner: u64, bs: Seq<Bullet>) -> Seq<
    (u64, Seq<Bullet>),
> {
    if has_owner(gv, owner) {
        gv.map_values(
            |e: (u64, Seq<Bullet>)|
                if e.0 == owner {
                    (e.0, e.1 + bs)
                } else {
                    e
                },
        )
    } else {
        gv.push((owner, bs))
    }
}

/// Append a batch of bullets to an owner's group in place.
fn append_bullets(gs: &mut Vec<BulletGroup>, owner: u64, bs: Vec<Bullet>)
    requires
        distinct_owners(old(gs)@),
        forall|g: int| 0 <= g < old(gs)@.len() ==> group_wf(#[trigger] old(gs)@[g]),
        bs@.len() > 0,
        forall|k: int| 0 <= k < bs@.len() ==> bullet_wf(#[trigger] bs@[k]),
    ensures
        gview(final(gs)@) =~~= add_to_owner(gview(old(gs)@), owner, bs@),
        distinct_owners(final(gs)@),
        forall|g: int| 0 <= g < final(gs)@.len() ==> group_wf(#[trigger] final(gs)@[g]),
{
    let ghost gv0 = gview(gs@);
    match find_group(gs, owner) {
        Some(i) => {
            proof {
                assert(gv0[i as int].0 == owner);
                assert(has_owner(gv0, owner));
            }
            let mut k: usize = 0;
            while k < bs.len()
                invariant
                    0 <= k <= bs@.len(),
                    i < gs@.len(),
                    gs@.len() == old(gs)@.len(),
                    forall|t: int| 0 <= t < gs@.len() && t != i ==> gs@[t] == old(gs)@[t],
                    gs@[i as int].owner == owner,
                    gs@[i as int].bullets@ == old(gs)@[i as int].bullets@ + bs@.take(k as int),
                    forall|t: int|
                        0 <= t < bs@.len() ==> bullet_wf(#[trigger] bs@[t]),
                    forall|g: int| 0 <= g < old(gs)@.len() ==> group_wf(#[trigger] old(gs)@[g]),
                    distinct_owners(old(gs)@),
                decreases bs@.len() - k,
            {
                let b = bs[k];
                let g = &mut gs[i];
                g.bullets.push(b);
                proof {
                    assert(gs@[i as int].bullets@ =~= old(gs)@[i as int].bullets@ + bs@.take(
                        k + 1,
                    ));
                }
                k = k + 1;
            }
            proof {
                assert(bs@.take(bs@.len() as int) =~= bs@);
                assert(gview(gs@) =~~= add_to_owner(gv0, owner, bs@)) by {
                    assert forall|t: int| 0 <= t < gs@.len() && t != i implies gv0[t].0 != owner by {
                        assert(old(gs)@[t].owner != old(gs)@[i as int].owner);
                    }
                }
                assert forall|g: int| 0 <= g < gs@.len() implies group_wf(#[trigger] gs@[g]) by {
                    if g == i {
                        assert(forall|t: int|
                            0 <= t < gs@[g].bullets@.len() ==> bullet_wf(
                                #[trigger] gs@[g].bullets@[t],
                            ));
                    }
                }
                assert(distinct_owners(gs@));
            }
        },
        None => {
            proof {
                if has_owner(gv0, owner) {
                    let w = choose|w: int| 0 <= w < gv0.len() && gv0[w].0 == owner;
                    assert(gs@[w].owner == owner);
                }
            }
            let ghost old_gs = gs@;
            gs.push(BulletGroup { owner, bullets: bs });
            proof {
                assert(gview(gs@) =~~= add_to_owner(gv0, owner, bs@));
                assert forall|i: int, j: int|
                    0 <= i < j < gs@.len() implies gs@[i].owner != gs@[j].owner by {
                    if j == old_gs.len() {
                        assert(old_gs[i].owner != owner);
                    }
                }
                assert forall|g: int| 0 <= g < gs@.len() implies group_wf(#[trigger] gs@[g]) by {}
            }
        },
    }
}

/// The ring of bullets one boss volley emits at `now`.
pub open spec fn volley_seq(d: Demon, now: int) -> Seq<Bullet> {
    Seq::new(
        crate::VOLLEY_COUNT as nat,
        |i: int|
            Bullet {
                pos: d.pos,
                vel: Vec2 {
                    x: volley_vel_spec(i, d.vel.x >= 0).0 as i64,
                    y: volley_vel_spec(i, d.vel.x >= 0).1 as i64,
                },
                born: now as i64,
            },
    )
}

/// Everything a tick does to one player before bullet combat: physics,
/// regeneration, shield anchor tracking, melee contact with the boss at
/// `dpos`, and the cooldown-gated shot.
pub open spec fn player_phase_spec(p: Player, dpos: Vec2, tick: u64, now: int) -> Player {
    let pa = Player {
        pos: Vec2 { x: phys_x(p).0 as i64, y: phys_y(p).0 as i64 },
        vel: Vec2 { x: phys_x(p).1 as i64, y: phys_y(p).1 as i64 },
        ..p
    };
    let pb = Player {
        health: (if tick % crate::REGEN_PERIOD == 0 {
            sat_add_spec(pa.health as int, 1)
        } else {
            pa.health as int
        }) as u8,
        ..pa
    };
    let pc = if pb.shielding {
        Player {
            anchor: Vec2 {
                x: (pb.pos.x + pb.facing.ux * crate::SHIELD_TRACK_DIST) as i64,
                y: (pb.pos.y + pb.facing.uy * crate::SHIELD_TRACK_DIST) as i64,
            },
            ..pb
        }
    } else {
        pb
    };
    let pd = if in_demon_box(pc.pos, dpos) {
        Player {
            health: sat_sub_spec(
                pc.health as int,
                if pc.shielding {
                    crate::MELEE_PLAYER_DMG_SHIELDED as int
                } else {
                    crate::MELEE_PLAYER_DMG as int
                },
            ) as u8,
            ..pc
        }
    } else {
        pc
    };
    if fire_ready(pd, now) {
        Player {
            vel: Vec2 {
                x: clamp_spec(
                    pd.vel.x - pd.facing.ux * crate::RECOIL_SPEED,
                    -(crate::SPEED_CAP as int),
                    crate::SPEED_CAP as int,
                ) as i64,
                y: clamp_spec(
                    pd.vel.y - pd.facing.uy * crate::RECOIL_SPEED,
                    -(crate::SPEED_CAP as int),
                    crate::SPEED_CAP as int,
                ) as i64,
            },
            last_shot: now as i64,
            ..pd
        }
    } else {
        pd
    }
}

/// Boss health after the melee contacts of players `i..`, applied in slot
/// order; each contact is tested at the player's post-physics position.
pub open spec fn melee_health_fold(ps: Seq<PlayerSlot>, dpos: Vec2, h: int, i: int) -> int
    decreases ps.len() - i,
{
    if i < 0 || i >= ps.len() {
        h
    } else {
        let p = ps[i].player;
        let mpos = Vec2 { x: phys_x(p).0 as i64, y: phys_y(p).0 as i64 };
        let h2 = if in_demon_box(mpos, dpos) {
            sat_sub_spec(
                h,
                if p.shielding {
                    crate::MELEE_DEMON_DMG_SHIELDED as int
                } else {
                    crate::MELEE_DEMON_DMG as int
                },
            )
        } else {
            h
        };
        melee_health_fold(ps, dpos, h2, i + 1)
    }
}

/// Bullet groups after the cooldown-gated shots of players `i..`, applied
/// in slot order.
pub open spec fn fire_fold(
    gv: Seq<(u64, Seq<Bullet>)>,
    ps: Seq<PlayerSlot>,
    dpos: Vec2,
    tick: u64,
    now: int,
    i: int,
) -> Seq<(u64, Seq<Bullet>)>
    decreases ps.len() - i,
{
    if i < 0 || i >= ps.len() {
        gv
    } else {
        let p = ps[i].player;
        let gv2 = if fire_ready(p, now) {
            add_to_owner(
                gv,
                ps[i].id,
                seq![fired_bullet(player_phase_spec(p, dpos, tick, now), now)],
            )
        } else {
            gv
        };
        fire_fold(gv2, ps, dpos, tick, now, i + 1)
    }
}

/// One more score point, saturating.
pub open spec fn inc_score_spec(p: Player) -> Player {
    Player {
        score: (if p.score == u32::MAX {
            p.score as int
        } else {
            p.score + 1
        }) as u32,
        ..p
    }
}

/// Credit a boss kill to the owning player, if it is still present.
pub open spec fn bump_score(ps: Seq<PlayerSlot>, owner: u64) -> Seq<PlayerSlot> {
    ps.map_values(
        |s: PlayerSlot|
            if s.id == owner {
                PlayerSlot { id: s.id, player: inc_score_spec(s.player) }
            } else {
                s
            },
    )
}

/// Whether a boss bullet at `bpos` touches any player.
pub open spec fn hit_any(ps: Seq<PlayerSlot>, bpos: Vec2) -> bool {
    exists|j: int| 0 <= j < ps.len() && in_player_circle(ps[j].player.pos, bpos)
}

/// Damage one player takes from a boss bullet at `bpos`, shield-reduced.
pub open spec fn boss_bullet_damage(p: Player, bpos: Vec2) -> Player {
    if in_player_circle(p.pos, bpos) {
        Player {
            health: sat_sub_spec(
                p.health as int,
                if p.shielding {
                    crate::BULLET_PLAYER_DMG_SHIELDED as int
                } else {
                    crate::BULLET_PLAYER_DMG as int
                },
            ) as u8,
            ..p
        }
    } else {
        p
    }
}

/// All players after a boss bullet at `bpos` is resolved.
pub open spec fn damaged_players(ps: Seq<PlayerSlot>, bpos: Vec2) -> Seq<PlayerSlot> {
    ps.map_values(|s: PlayerSlot| PlayerSlot { id: s.id, player: boss_bullet_damage(s.player, bpos) })
}

/// One bullet's step and combat resolution: a player bullet that ends in
/// the boss hitbox damages the boss — or, if that would drop the health
/// below zero, clamps it to zero and credits the owner — and expires; a
/// boss bullet damages every player it touches and expires on any hit.
pub open spec fn combat_bullet(
    b: Bullet,
    owner: u64,
    h: int,
    ps: Seq<PlayerSlot>,
    dpos: Vec2,
    now: int,
) -> (Bullet, int, Seq<PlayerSlot>) {
    let bs = stepped_bullet(b);
    if owner != crate::DEMON_OWNER {
        if in_demon_box(bs.pos, dpos) {
            let bx = Bullet { born: (now - crate::BULLET_LIFE_MS) as i64, ..bs };
            if h >= crate::BULLET_DEMON_DMG as int {
                (bx, h - crate::BULLET_DEMON_DMG, ps)
            } else {
                (bx, 0, bump_score(ps, owner))
            }
        } else {
            (bs, h, ps)
        }
    } else {
        let bx = if hit_any(ps, bs.pos) {
            Bullet { born: (now - crate::BULLET_LIFE_MS) as i64, ..bs }
        } else {
            bs
        };
        (bx, h, damaged_players(ps, bs.pos))
    }
}

/// Combat over the bullets `k..` of one group, threading boss health and
/// the player set in bullet order.
pub open spec fn group_combat_fold(
    bl: Seq<Bullet>,
    owner: u64,
    h: int,
    ps: Seq<PlayerSlot>,
    dpos: Vec2,
    now: int,
    k: int,
) -> (Seq<Bullet>, int, Seq<PlayerSlot>)
    decreases bl.len() - k,
{
    if k < 0 || k >= bl.len() {
        (bl, h, ps)
    } else {
        let r = combat_bullet(bl[k], owner, h, ps, dpos, now);
        group_combat_fold(bl.update(k, r.0), owner, r.1, r.2, dpos, now, k + 1)
    }
}

/// Bullets that outlive this tick's reaping pass.
pub open spec fn alive_at(now: int) -> spec_fn(Bullet) -> bool {
    |b: Bullet| !bullet_expired(b, now)
}

/// Groups whose bullet list survived reaping.
pub open spec fn nonempty_group() -> spec_fn(BulletGroup) -> bool {
    |g: BulletGroup| g.bullets@.len() > 0
}

/// The group views kept when empty groups are dropped.
pub open spec fn drop_empty(gv: Seq<(u64, Seq<Bullet>)>) -> Seq<(u64, Seq<Bullet>)> {
    gv.filter(|e: (u64, Seq<Bullet>)| e.1.len() > 0)
}

/// Combat and reaping over the groups `g..`, each group's bullets stepped,
/// resolved and reaped in order, threading boss health and players.
pub open spec fn groups_combat_fold(
    gv: Seq<(u64, Seq<Bullet>)>,
    h: int,
    ps: Seq<PlayerSlot>,
    dpos: Vec2,
    now: int,
    g: int,
) -> (Seq<(u64, Seq<Bullet>)>, int, Seq<PlayerSlot>)
    decreases gv.len() - g,
{
    if g < 0 || g >= gv.len() {
        (gv, h, ps)
    } else {
        let r = group_combat_fold(gv[g].1, gv[g].0, h, ps, dpos, now, 0);
        let kept = r.0.filter(alive_at(now));
        groups_combat_fold(gv.update(g, (gv[g].0, kept)), r.1, r.2, dpos, now, g + 1)
    }
}

/// Dropping empty groups commutes with taking the group view.
proof fn lemma_gview_drop_empty(s: Seq<BulletGroup>)
    ensures
        gview(s.filter(nonempty_group())) =~~= drop_empty(gview(s)),
    decreases s.len(),
{
    reveal(Seq::filter);
    if s.len() > 0 {
        let dl = s.drop_last();
        lemma_gview_drop_empty(dl);
        assert(gview(s).drop_last() =~~= gview(dl));
        assert(gview(s).last() == (s.last().owner, s.last().bullets@));
        if s.last().bullets@.len() > 0 {
            assert(gview(s.filter(nonempty_group())) =~~= gview(dl.filter(nonempty_group())).push(
                (s.last().owner, s.last().bullets@),
            ));
        }
    }
}

/// Filtering preserves distinctness of group owners.
proof fn lemma_filter_distinct_owners(s: Seq<BulletGroup>, p: spec_fn(BulletGroup) -> bool)
    requires
        distinct_owners(s),
    ensures
        distinct_owners(s.filter(p)),
    decreases s.len(),
{
    reveal(Seq::filter);
    if s.len() > 0 {
        let dl = s.drop_last();
        assert(distinct_owners(dl)) by {
            assert(forall|i: int| 0 <= i < dl.len() ==> dl[i] == s[i]);
        }
        lemma_filter_distinct_owners(dl, p);
        lemma_filter_in_original(dl, p);
        if p(s.last()) {
            let f = dl.filter(p);
            assert forall|i: int| 0 <= i < f.len() implies f[i].owner != s.last().owner by {
                let j = choose|j: int| 0 <= j < dl.len() && dl[j] == f[i];
                assert(s[j] == f[i]);
                assert(s[j].owner != s[s.len() - 1].owner);
            }
        }
    }
}

/// Overwrite one bullet of one group.
fn set_bullet_at(gs: &mut Vec<BulletGroup>, w: usize, k: usize, b: Bullet)
    requires
        w < old(gs)@.len(),
        k < old(gs)@[w as int].bullets@.len(),
    ensures
        final(gs)@.len() == old(gs)@.len(),
        forall|t: int| 0 <= t < old(gs)@.len() && t != w ==> final(gs)@[t] == old(gs)@[t],
        final(gs)@[w as int].owner == old(gs)@[w as int].owner,
        final(gs)@[w as int].bullets@ == old(gs)@[w as int].bullets@.update(k as int, b),
{
    let g = &mut gs[w];
    let cell = &mut g.bullets[k];
    *cell = b;
}

/// Resolve a boss bullet at `bpos` against every player: each player it
/// touches takes shield-reduced damage; reports whether anyone was hit.
fn damage_players_for_bullet(ps: &mut Vec<PlayerSlot>, bpos: Vec2) -> (hit: bool)
    requires
        in_play(bpos),
        forall|j: int| 0 <= j < old(ps)@.len() ==> (#[trigger] old(ps)@[j]).player.wf(),
    ensures
        final(ps)@ == damaged_players(old(ps)@, bpos),
        hit == hit_any(old(ps)@, bpos),
        forall|j: int| 0 <= j < final(ps)@.len() ==> (#[trigger] final(ps)@[j]).player.wf(),
{
    let mut hit: bool = false;
    let mut j: usize = 0;
    while j < ps.len()
        invariant
            in_play(bpos),
            0 <= j <= old(ps)@.len(),
            ps@.len() == old(ps)@.len(),
            forall|t: int| j <= t < old(ps)@.len() ==> ps@[t] == old(ps)@[t],
            forall|t: int|
                0 <= t < j ==> ps@[t] == (PlayerSlot {
                    id: old(ps)@[t].id,
                    player: boss_bullet_damage(old(ps)@[t].player, bpos),
                }),
            forall|t: int| 0 <= t < old(ps)@.len() ==> (#[trigger] old(ps)@[t]).player.wf(),
            forall|t: int| 0 <= t < j ==> (#[trigger] ps@[t]).player.wf(),
            hit == exists|t: int| 0 <= t < j && in_player_circle(old(ps)@[t].player.pos, bpos),
        decreases old(ps)@.len() - j,
    {
        if player_circle_test(ps[j].player.pos, bpos) {
            let pl = &mut ps[j];
            let dmg = if pl.player.shielding {
                crate::BULLET_PLAYER_DMG_SHIELDED
            } else {
                crate::BULLET_PLAYER_DMG
            };
            pl.player.health = sat_sub_u8(pl.player.health, dmg);
            hit = true;
        }
        j = j + 1;
    }
    proof {
        assert(ps@ =~= damaged_players(old(ps)@, bpos));
        if hit {
            assert(hit_any(old(ps)@, bpos));
        }
        if hit_any(old(ps)@, bpos) {
            assert(hit);
        }
    }
    hit
}

/// Apply one player bullet's damage to the boss: subtract the bullet
/// damage, or clamp at zero and credit the owner's score when the hit
/// would drop the health below zero.
fn apply_boss_damage(d: &mut Demon, ps: &mut Vec<PlayerSlot>, owner: u64)
    requires
        distinct_slot_ids(old(ps)@),
    ensures
        old(d).health >= crate::BULLET_DEMON_DMG ==> final(d).health == old(d).health
            - crate::BULLET_DEMON_DMG && final(ps)@ == old(ps)@,
        old(d).health < crate::BULLET_DEMON_DMG ==> final(d).health == 0 && final(ps)@
            == bump_score(old(ps)@, owner),
        final(d).pos == old(d).pos,
        final(d).vel == old(d).vel,
        final(ps)@.len() == old(ps)@.len(),
        forall|j: int|
            0 <= j < old(ps)@.len() ==> (#[trigger] final(ps)@[j]).id == old(ps)@[j].id
                && final(ps)@[j].player.wf() == old(ps)@[j].player.wf(),
{
    if d.health >= crate::BULLET_DEMON_DMG {
        d.health = d.health - crate::BULLET_DEMON_DMG;
    } else {
        d.health = 0;
        match find_player(ps, owner) {
            Some(i) => {
                let pl = &mut ps[i];
                pl.player.score = sat_inc_u32(pl.player.score);
                proof {
                    assert forall|j: int|
                        0 <= j < old(ps)@.len() && j != i implies old(ps)@[j].id != owner by {}
                    assert(ps@ =~= bump_score(old(ps)@, owner));
                }
            },
            None => {
                proof {
                    assert(ps@ =~= bump_score(old(ps)@, owner));
                }
            },
        }
    }
}

/// Remove the bullets whose age has reached the lifetime.
fn reap_group(v: &mut Vec<Bullet>, now: i64)
    requires
        0 <= now <= crate::TIME_BOUND,
        forall|k: int| 0 <= k < old(v)@.len() ==> bullet_wf(#[trigger] old(v)@[k]),
    ensures
        final(v)@ == old(v)@.filter(alive_at(now as int)),
{
    let ghost src = v@;
    let mut kept: Vec<Bullet> = Vec::new();
    let mut i: usize = 0;
    while i < v.len()
        invariant
            0 <= now <= crate::TIME_BOUND,
            v@ == src,
            0 <= i <= src.len(),
            forall|k: int| 0 <= k < src.len() ==> bullet_wf(#[trigger] src[k]),
            kept@ == src.take(i as int).filter(alive_at(now as int)),
        decreases src.len() - i,
    {
        let b = v[i];
        proof {
            assert(src.take(i + 1) =~= src.take(i as int).push(b));
            lemma_filter_push(src.take(i as int), alive_at(now as int), b);
        }
        if !expired(&b, now) {
            kept.push(b);
        }
        i = i + 1;
    }
    proof {
        assert(src.take(src.len() as int) =~= src);
    }
    *v = kept;
}

/// What a command does to an established player.
pub open spec fn apply_msg_spec(p: Player, m: ClientMessage, now: int) -> Player {
    match m {
        ClientMessage::Name(_) => p,
        ClientMessage::Angle(f) => if facing_ok(f) {
            Player { facing: f, ..p }
        } else {
            p
        },
        ClientMessage::Shoot(s) => Player { shooting: s, ..p },
        ClientMessage::Shield(s) => shield_applied(p, s, now),
    }
}

/// The asymmetric shield rule: releasing an engaged shield always works
/// and throws the anchor forward while restarting the cooldown clock; any
/// other request only takes effect once the cooldown has elapsed.
pub open spec fn shield_applied(p: Player, engage: bool, now: int) -> Player {
    if !engage && p.shielding {
        Player {
            anchor: Vec2 {
                x: (p.pos.x + p.facing.ux * crate::SHIELD_RELEASE_DIST) as i64,
                y: (p.pos.y + p.facing.uy * crate::SHIELD_RELEASE_DIST) as i64,
            },
            last_shield: now as i64,
            shielding: false,
            ..p
        }
    } else if now - p.last_shield > crate::SHIELD_COOLDOWN_MS {
        Player { shielding: engage, ..p }
    } else {
        p
    }
}

/// The state `Player::spawn` leaves a new player in.
pub open spec fn is_spawned(p: Player, name: Seq<char>, now: int) -> bool {
    &&& p.pos.x == crate::SPAWN_X
    &&& p.pos.y == crate::SPAWN_Y
    &&& p.vel.x == 0 && p.vel.y == 0
    &&& p.anchor.x == crate::SPAWN_X
    &&& p.anchor.y == crate::SPAWN_Y - crate::SPAWN_ANCHOR_DY
    &&& p.facing == (Facing { mrad: 0, ux: crate::UNIT, uy: 0 })
    &&& p.health == crate::MAX_HEALTH
    &&& !p.shielding
    &&& !p.shooting
    &&& p.score == 0
    &&& p.name@ == name
    &&& p.last_shield == now
    &&& p.last_shot == now
}

} // verus!
