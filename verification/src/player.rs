//! The player ship, its exhaust effect, and its lasers, with the systems
//! that move them, fire, confine the player, cull lasers, and resolve the
//! player-versus-meteor collision.

use crate::math::{
    circles_collide, circles_collide_spec, clamp, clamp_spec, heading_dir, heading_x, heading_y,
    moved_x, moved_y, scaled, wrap_add, Vec2,
};
use crate::meteor::{meteor_radius, Meteor};
use crate::world::{lasers_wf, pos_ok, FrameInput, GameEvent, World, MOVE_SLACK, POS_LIMIT};
use vstd::prelude::*;

verus! {

/// The player sprite's extent, in milli-units (74 world units).
pub const PLAYER_SIZE: i64 = 74_000;

/// Half the player sprite, the inset and collision radius used for the
/// player and (as an inherited quirk) for the laser hit test.
pub const PLAYER_HALF: i64 = 37_000;

/// The player's speed while thrust is held, in units per second.
pub const PLAYER_SPEED: i64 = 500;

/// The player's angular rate, in degrees per second.
pub const PLAYER_ROTATION_SPEED: i64 = 90;

/// The laser sprite's extent, in milli-units (50 world units).
pub const LASER_SIZE: i64 = 50_000;

/// Half the laser sprite, the boundary-cull inset of a laser.
pub const LASER_HALF: i64 = 25_000;

/// The laser's speed, in units per second.
pub const LASER_SPEED: i64 = 500;

/// The player ship: a position, and a heading angle in milli-degrees kept
/// in `[0, 360_000)`.
#[derive(Clone, Copy, PartialEq, Eq, Structural, Debug)]
pub struct Player {
    pub id: u64,
    pub pos: Vec2,
    pub angle: i64,
}

/// The exhaust-effect child of the player: a fixed visual offset, so only
/// its visibility is state.
#[derive(Clone, Copy, PartialEq, Eq, Structural, Debug)]
pub struct Fire {
    pub visible: bool,
}

/// A laser shot: a position and a unit-length direction in milli-units.
#[derive(Clone, Copy, PartialEq, Eq, Structural, Debug)]
pub struct Laser {
    pub id: u64,
    pub pos: Vec2,
    pub direction: Vec2,
}

/// A well-formed player keeps its heading angle folded into one turn.
pub open spec fn player_wf(p: Player) -> bool {
    0 <= p.angle < 360_000
}

/// A well-formed laser carries a direction no longer than one unit on
/// either axis, as normalization produces.
pub open spec fn laser_wf(l: Laser) -> bool {
    &&& -1000 <= l.direction.x <= 1000
    &&& -1000 <= l.direction.y <= 1000
}

/// The near-unit direction vector read off a heading angle.
pub open spec fn heading_vec(a: int) -> Vec2 {
    Vec2 { x: heading_x(a) as i64, y: heading_y(a) as i64 }
}

/// The heading after this frame's rotation input: holding rotate-left
/// turns at 90 degrees per second, rotate-right the same the other way,
/// the result folded into one turn.
pub open spec fn rotated_angle(a: int, input: FrameInput, dt: int) -> int {
    let a1 = if input.rotate_left {
        (a + 90 * dt) % 360_000
    } else {
        a
    };
    if input.rotate_right {
        (a1 - 90 * dt) % 360_000
    } else {
        a1
    }
}

/// Create the player at the viewport centre, heading straight up, with
/// its hidden exhaust-effect child.
pub fn spawn_player(world: &mut World, w: u64, h: u64)
    requires
        old(world).wf(),
        old(world).next_id < u64::MAX,
        84_000 <= w <= 1_000_000_000,
        84_000 <= h <= 1_000_000_000,
    ensures
        final(world).wf(),
        final(world).player matches Some(p) && p.id == old(world).next_id && p.pos.x == w as int
            / 2 && p.pos.y == h as int / 2 && p.angle == 90_000,
        final(world).fire == (Some(Fire { visible: false })),
        final(world).next_id == old(world).next_id + 1,
        final(world).meteors == old(world).meteors,
        final(world).lasers == old(world).lasers,
{
    let px: u64 = w / 2;
    let py: u64 = h / 2;
    world.player = Some(
        Player { id: world.next_id, pos: Vec2 { x: px as i64, y: py as i64 }, angle: 90_000 },
    );
    world.fire = Some(Fire { visible: false });
    world.next_id = world.next_id + 1;
}

/// Destroy the player on leaving the `Game` state; the exhaust effect
/// cascades with it.
pub fn despawn_player(world: &mut World)
    requires
        old(world).wf(),
    ensures
        final(world).wf(),
        final(world).player.is_none(),
        final(world).fire.is_none(),
        final(world).meteors == old(world).meteors,
        final(world).lasers == old(world).lasers,
        final(world).next_id == old(world).next_id,
{
    world.destroy_player();
}

/// What the player-movement pass does: the heading turns by the held
/// rotation keys, thrust advances the position along the new heading and
/// shows the exhaust, releasing thrust hides it, and nothing else is
/// touched.  Without a player the frame input changes nothing.
pub open spec fn player_movement_rel(w0: World, w1: World, input: FrameInput, dt: int) -> bool {
    &&& (w0.player.is_none() ==> w1 == w0)
    &&& (w0.player matches Some(p) ==> {
        &&& w1.player matches Some(q)
        &&& q.id == p.id
        &&& q.angle == rotated_angle(p.angle as int, input, dt)
        &&& (input.thrust ==> q.pos.x == moved_x(p.pos, heading_vec(q.angle as int), 500, dt)
            && q.pos.y == moved_y(p.pos, heading_vec(q.angle as int), 500, dt))
        &&& (!input.thrust ==> q.pos == p.pos)
        &&& w1.fire == (if input.thrust_released {
            Some(Fire { visible: false })
        } else if input.thrust {
            Some(Fire { visible: true })
        } else {
            w0.fire
        })
    })
    &&& w1.meteors == w0.meteors
    &&& w1.lasers == w0.lasers
    &&& w1.next_id == w0.next_id
}

/// Rotate the player by the held rotation keys, move it along its heading
/// while thrust is held, and show the exhaust effect exactly while thrust
/// is held.  Without a player the frame input changes nothing.
pub fn player_movement(world: &mut World, input: FrameInput, dt: i64)
    requires
        old(world).wf(),
        0 <= dt <= 1_000_000,
        old(world).player_within(POS_LIMIT as int),
    ensures
        final(world).wf(),
        player_movement_rel(*old(world), *final(world), input, dt as int),
        final(world).player_within(POS_LIMIT + MOVE_SLACK),
{
    match world.player {
        None => {},
        Some(p0) => {
            let mut p = p0;
            if input.rotate_left {
                p.angle = wrap_add(p.angle, 90 * dt);
            }
            if input.rotate_right {
                p.angle = wrap_add(p.angle, -(90 * dt));
            }
            if input.thrust {
                let d = heading_dir(p.angle);
                let dx = scaled(d.x, PLAYER_SPEED, dt);
                let dy = scaled(d.y, PLAYER_SPEED, dt);
                p.pos = Vec2 { x: p.pos.x + dx, y: p.pos.y + dy };
                world.fire = Some(Fire { visible: true });
            }
            if input.thrust_released {
                world.fire = Some(Fire { visible: false });
            }
            world.player = Some(p);
        },
    }
}

/// `e` is a one-shot sound request for the key `k`.
pub open spec fn is_sound(e: GameEvent, k: Seq<char>) -> bool {
    e matches GameEvent::Sound { key } && key@ == k
}

/// What the weapon system does: on the fire key's release edge, and only
/// then, one laser appears at the player's position along its heading,
/// under the next free handle, with the one-shot laser sound requested;
/// nothing else is touched.
pub open spec fn fire_laser_rel(w0: World, w1: World, input: FrameInput, ev: Seq<GameEvent>) -> bool {
    &&& ((w0.player.is_none() || !input.fire_released) ==> w1 == w0 && ev.len() == 0)
    &&& (w0.player matches Some(p) ==> input.fire_released ==> {
        &&& w1.lasers@.len() == w0.lasers@.len() + 1
        &&& w1.lasers@.subrange(0, w0.lasers@.len() as int) == w0.lasers@
        &&& w1.lasers@.last().id == w0.next_id
        &&& w1.lasers@.last().pos == p.pos
        &&& w1.lasers@.last().direction == heading_vec(p.angle as int)
        &&& crate::math::near_unit(w1.lasers@.last().direction)
        &&& w1.next_id == w0.next_id + 1
        &&& ev.len() == 1
        &&& is_sound(ev[0], "audio/laserLarge_000.ogg"@)
    })
    &&& w1.player == w0.player
    &&& w1.fire == w0.fire
    &&& w1.meteors == w0.meteors
}

/// On the fire key's release edge — not its press — create one laser at
/// the player's position along its heading, and request the laser sound.
pub fn handle_fire_laser(world: &mut World, input: FrameInput) -> (ev: Vec<GameEvent>)
    requires
        old(world).wf(),
        old(world).next_id < u64::MAX,
    ensures
        final(world).wf(),
        fire_laser_rel(*old(world), *final(world), input, ev@),
        (old(world).lasers_within(1_000_000_000) && old(world).player_within(1_000_000_000))
            ==> final(world).lasers_within(1_000_000_000),
{
    let mut ev: Vec<GameEvent> = Vec::new();
    match world.player {
        None => {},
        Some(p) => {
            if input.fire_released {
                let d = heading_dir(p.angle);
                proof {
                    crate::math::lemma_heading_near_unit(p.angle as int);
                }
                let l = Laser { id: world.next_id, pos: p.pos, direction: d };
                let ghost prev = world.lasers@;
                world.lasers.push(l);
                world.next_id = world.next_id + 1;
                ev.push(GameEvent::Sound { key: "audio/laserLarge_000.ogg" });
                proof {
                    assert(world.lasers@.subrange(0, prev.len() as int) =~= prev);
                    assert forall|j: int|
                        0 <= j < world.lasers@.len() implies laser_wf(#[trigger] world.lasers@[j])
                        && world.lasers@[j].id < world.next_id by {
                        if j < prev.len() {
                            assert(world.lasers@[j] == prev[j]);
                        } else {
                            assert(world.lasers@[j] == l);
                        }
                    }
                    if old(world).lasers_within(1_000_000_000) && old(world).player_within(
                        1_000_000_000,
                    ) {
                        assert forall|j: int|
                            0 <= j < world.lasers@.len() implies pos_ok(
                            (#[trigger] world.lasers@[j]).pos,
                            1_000_000_000,
                        ) by {
                            if j < prev.len() {
                                assert(world.lasers@[j] == prev[j]);
                            } else {
                                assert(world.lasers@[j] == l);
                            }
                        }
                    }
                }
            }
        },
    }
    ev
}

/// The new laser a movement pass leaves behind: same identity and
/// direction, position advanced at the fixed laser speed.
pub open spec fn laser_moved_ok(new: Laser, l: Laser, dt: int) -> bool {
    &&& new.id == l.id
    &&& new.direction == l.direction
    &&& new.pos.x == moved_x(l.pos, l.direction, 500, dt)
    &&& new.pos.y == moved_y(l.pos, l.direction, 500, dt)
}

/// What the movement pass does to the lasers: every one advanced along
/// its direction at the fixed laser speed, nothing else touched.
pub open spec fn laser_movement_rel(w0: World, w1: World, dt: int) -> bool {
    &&& w1.lasers@.len() == w0.lasers@.len()
    &&& forall|i: int|
        0 <= i < w0.lasers@.len() ==> laser_moved_ok(#[trigger] w1.lasers@[i], w0.lasers@[i], dt)
    &&& w1.player == w0.player
    &&& w1.fire == w0.fire
    &&& w1.meteors == w0.meteors
    &&& w1.next_id == w0.next_id
}

/// Advance every laser along its direction at the fixed laser speed.
#[verifier::loop_isolation(false)]
pub fn laser_movement(world: &mut World, dt: i64)
    requires
        old(world).wf(),
        0 <= dt <= 1_000_000,
        old(world).lasers_within(POS_LIMIT as int),
    ensures
        final(world).wf(),
        laser_movement_rel(*old(world), *final(world), dt as int),
        final(world).lasers_within(POS_LIMIT + MOVE_SLACK),
{
    let ghost s = world.lasers@;
    let n = world.lasers.len();
    let mut out: Vec<Laser> = Vec::new();
    let mut i: usize = 0;
    while i < n
        invariant
            0 <= i <= n,
            n == s.len(),
            world.lasers@ == s,
            out@.len() == i,
            forall|j: int| 0 <= j < i ==> laser_moved_ok(#[trigger] out@[j], s[j], dt as int),
            forall|j: int| 0 <= j < i ==> pos_ok((#[trigger] out@[j]).pos, POS_LIMIT + MOVE_SLACK),
        decreases n - i,
    {
        let l = world.lasers[i];
        let dx = scaled(l.direction.x, LASER_SPEED, dt);
        let dy = scaled(l.direction.y, LASER_SPEED, dt);
        let moved = Laser {
            id: l.id,
            pos: Vec2 { x: l.pos.x + dx, y: l.pos.y + dy },
            direction: l.direction,
        };
        out.push(moved);
        i = i + 1;
    }
    world.lasers = out;
}

/// After movement, the player's position is clamped into the viewport on
/// both axes, its half-size used as the inset.
/// What the boundary clamp does: the player's position is constrained
/// into the viewport on both axes with its half-size as the inset, the
/// heading and everything else untouched.
pub open spec fn confine_player_rel(w0: World, w1: World, vw: int, vh: int) -> bool {
    &&& (w0.player.is_none() ==> w1 == w0)
    &&& (w0.player matches Some(p) ==> {
        &&& w1.player matches Some(q)
        &&& q.id == p.id
        &&& q.angle == p.angle
        &&& q.pos.x == clamp_spec(p.pos.x as int, 37_000, vw - 37_000)
        &&& q.pos.y == clamp_spec(p.pos.y as int, 37_000, vh - 37_000)
    })
    &&& w1.fire == w0.fire
    &&& w1.meteors == w0.meteors
    &&& w1.lasers == w0.lasers
    &&& w1.next_id == w0.next_id
}

pub fn confine_player_movement(world: &mut World, w: u64, h: u64)
    requires
        old(world).wf(),
        84_000 <= w <= 1_000_000_000,
        84_000 <= h <= 1_000_000_000,
    ensures
        final(world).wf(),
        confine_player_rel(*old(world), *final(world), w as int, h as int),
        old(world).player.is_some() ==> final(world).player_within(1_000_000_000),
{
    match world.player {
        None => {},
        Some(p0) => {
            let mut p = p0;
            p.pos = Vec2 {
                x: clamp(p.pos.x, PLAYER_HALF, (w as i64) - PLAYER_HALF),
                y: clamp(p.pos.y, PLAYER_HALF, (h as i64) - PLAYER_HALF),
            };
            world.player = Some(p);
        },
    }
}

/// A laser sits inside the viewport, its half-size used as the inset.
pub open spec fn laser_in_bounds(l: Laser, w: int, h: int) -> bool {
    &&& 25_000 <= l.pos.x <= w - 25_000
    &&& 25_000 <= l.pos.y <= h - 25_000
}

/// What the boundary cull does to the lasers: exactly those inside the
/// viewport survive, in order, and nothing else is touched.
pub open spec fn cull_lasers_rel(w0: World, w1: World, vw: int, vh: int) -> bool {
    &&& w1.lasers@ == w0.lasers@.filter((|l: Laser| laser_in_bounds(l, vw, vh)))
    &&& w1.player == w0.player
    &&& w1.fire == w0.fire
    &&& w1.meteors == w0.meteors
    &&& w1.next_id == w0.next_id
}

/// Destroy every laser that has left the viewport on either axis.
#[verifier::loop_isolation(false)]
pub fn despawn_laser(world: &mut World, w: u64, h: u64)
    requires
        old(world).wf(),
        84_000 <= w <= 1_000_000_000,
        84_000 <= h <= 1_000_000_000,
    ensures
        final(world).wf(),
        cull_lasers_rel(*old(world), *final(world), w as int, h as int),
        final(world).lasers_within(1_000_000_000),
{
    let ghost s = world.lasers@;
    let ghost pred = (|l: Laser| laser_in_bounds(l, w as int, h as int));
    let n = world.lasers.len();
    let mut out: Vec<Laser> = Vec::new();
    let mut i: usize = 0;
    while i < n
        invariant
            0 <= i <= n,
            n == s.len(),
            world.lasers@ == s,
            out@ == s.take(i as int).filter(pred),
        decreases n - i,
    {
        let l = world.lasers[i];
        let keep = LASER_HALF <= l.pos.x && l.pos.x <= (w as i64) - LASER_HALF && LASER_HALF
            <= l.pos.y && l.pos.y <= (h as i64) - LASER_HALF;
        proof {
            reveal(Seq::filter);
            assert(s.take(i as int + 1).drop_last() =~= s.take(i as int));
            assert(s.take(i as int + 1).last() == s[i as int]);
            assert(keep == pred(l));
        }
        if keep {
            out.push(l);
        }
        i = i + 1;
    }
    proof {
        assert(s.take(n as int) =~= s);
    }
    world.lasers = out;
    proof {
        let f = world.lasers@;
        assert forall|j: int|
            0 <= j < f.len() implies laser_wf(#[trigger] f[j]) && f[j].id < world.next_id
            && pos_ok(f[j].pos, 1_000_000_000) by {
            s.lemma_filter_pred(pred, j);
            assert(f.contains(f[j]));
            s.lemma_filter_contains_rev(pred, f[j]);
            let k = choose|k: int| 0 <= k < s.len() && s[k] == f[j];
            assert(laser_wf(s[k]));
        }
    }
}

/// The laser hits the meteor.  The hit radius reuses the player's
/// half-size rather than the laser's own, an inherited quirk kept on
/// purpose.
pub open spec fn laser_hits_meteor(l: Laser, m: Meteor) -> bool {
    circles_collide_spec(l.pos, m.pos, 37_000, meteor_radius(m.size))
}

/// The first still-live meteor at index `from` or later that `l` hits.
pub open spec fn first_live_hit(l: Laser, ms: Seq<Meteor>, alive: Seq<bool>, from: int) -> Option<
    int,
>
    decreases ms.len() - from,
{
    if from < 0 || from >= ms.len() {
        None
    } else if alive[from] && laser_hits_meteor(l, ms[from]) {
        Some(from)
    } else {
        first_live_hit(l, ms, alive, from + 1)
    }
}

/// The laser-versus-meteor pass, lasers in order from index `k`: each
/// laser is spent on the first still-live meteor it hits, and a destroyed
/// meteor is never matched again.  The result is the lasers' survive
/// flags (from `k` on) and the meteors' final survive flags.
pub open spec fn greedy_from(ls: Seq<Laser>, ms: Seq<Meteor>, k: int, alive: Seq<bool>) -> (
    Seq<bool>,
    Seq<bool>,
)
    decreases ls.len() - k,
{
    if k < 0 || k >= ls.len() {
        (Seq::empty(), alive)
    } else {
        match first_live_hit(ls[k], ms, alive, 0) {
            None => {
                let r = greedy_from(ls, ms, k + 1, alive);
                (seq![true] + r.0, r.1)
            },
            Some(i) => {
                let r = greedy_from(ls, ms, k + 1, alive.update(i, false));
                (seq![false] + r.0, r.1)
            },
        }
    }
}

/// The elements of `s` whose flag in `keep` is set, in order.
pub open spec fn mask_seq<T>(s: Seq<T>, keep: Seq<bool>) -> Seq<T>
    recommends
        s.len() == keep.len(),
    decreases s.len(),
{
    if s.len() == 0 || keep.len() == 0 {
        Seq::empty()
    } else {
        let rest = mask_seq(s.drop_last(), keep.drop_last());
        if keep.last() {
            rest.push(s.last())
        } else {
            rest
        }
    }
}

/// Whatever `mask_seq` keeps was in the sequence it filtered.
pub proof fn lemma_mask_contains<T>(s: Seq<T>, b: Seq<bool>, e: T)
    requires
        mask_seq(s, b).contains(e),
    ensures
        s.contains(e),
    decreases s.len(),
{
    if s.len() == 0 || b.len() == 0 {
    } else {
        let rest = mask_seq(s.drop_last(), b.drop_last());
        if b.last() && e == s.last() {
            assert(s[s.len() - 1] == e);
        } else {
            assert(rest.contains(e));
            lemma_mask_contains(s.drop_last(), b.drop_last(), e);
            let k = choose|k: int| 0 <= k < s.drop_last().len() && s.drop_last()[k] == e;
            assert(s[k] == e);
        }
    }
}

/// The laser flags of `greedy_from` cover the lasers from `k` on, and the
/// meteor flags keep their length.
pub proof fn lemma_greedy_len(ls: Seq<Laser>, ms: Seq<Meteor>, k: int, alive: Seq<bool>)
    requires
        0 <= k <= ls.len(),
        alive.len() == ms.len(),
    ensures
        greedy_from(ls, ms, k, alive).0.len() == ls.len() - k,
        greedy_from(ls, ms, k, alive).1.len() == alive.len(),
    decreases ls.len() - k,
{
    if k < ls.len() {
        lemma_first_live_hit(ls[k], ms, alive, 0);
        match first_live_hit(ls[k], ms, alive, 0) {
            None => {
                lemma_greedy_len(ls, ms, k + 1, alive);
                let r = greedy_from(ls, ms, k + 1, alive);
                assert(greedy_from(ls, ms, k, alive) == (seq![true] + r.0, r.1));
            },
            Some(i) => {
                lemma_greedy_len(ls, ms, k + 1, alive.update(i, false));
                let r = greedy_from(ls, ms, k + 1, alive.update(i, false));
                assert(greedy_from(ls, ms, k, alive) == (seq![false] + r.0, r.1));
                assert(alive.update(i, false).len() == alive.len());
            },
        }
    } else {
        assert(greedy_from(ls, ms, k, alive) == (Seq::<bool>::empty(), alive));
    }
}

/// What a found hit means: the index is live and in range and really hit.
pub proof fn lemma_first_live_hit(l: Laser, ms: Seq<Meteor>, alive: Seq<bool>, from: int)
    ensures
        first_live_hit(l, ms, alive, from) matches Some(i) ==> from <= i < ms.len() && 0 <= i
            && alive[i] && laser_hits_meteor(l, ms[i]),
    decreases ms.len() - from,
{
    if from < 0 || from >= ms.len() {
    } else if alive[from] && laser_hits_meteor(l, ms[from]) {
    } else {
        lemma_first_live_hit(l, ms, alive, from + 1);
    }
}

/// Laser-meteor destruction is mutual and single-use per pair: with one
/// laser overlapping two live meteors, the pass destroys the laser and
/// exactly the first meteor, and the second meteor survives the frame.
pub proof fn lemma_one_laser_two_meteors(ls: Seq<Laser>, ms: Seq<Meteor>)
    requires
        ls.len() == 1,
        ms.len() == 2,
        laser_hits_meteor(ls[0], ms[0]),
        laser_hits_meteor(ls[0], ms[1]),
    ensures
        greedy_from(ls, ms, 0, Seq::new(2, |i: int| true)).0 =~= seq![false],
        greedy_from(ls, ms, 0, Seq::new(2, |i: int| true)).1 =~= seq![false, true],
        mask_seq(ls, greedy_from(ls, ms, 0, Seq::new(2, |i: int| true)).0) =~= Seq::<
            Laser,
        >::empty(),
        mask_seq(ms, greedy_from(ls, ms, 0, Seq::new(2, |i: int| true)).1) =~= seq![ms[1]],
{
    let init = Seq::new(2, |i: int| true);
    assert(init[0] == true);
    assert(first_live_hit(ls[0], ms, init, 0) == Some(0int));
    let up = init.update(0, false);
    assert(greedy_from(ls, ms, 1, up) == (Seq::<bool>::empty(), up));
    assert(greedy_from(ls, ms, 0, init) == (seq![false] + Seq::<bool>::empty(), up));
    let lf = greedy_from(ls, ms, 0, init).0;
    assert(lf =~= seq![false]);
    assert(up =~= seq![false, true]);
    let s1 = ms.drop_last();
    let b1 = up.drop_last();
    assert(s1.len() == 1 && b1.len() == 1 && b1.last() == false);
    assert(mask_seq(s1.drop_last(), b1.drop_last()) =~= Seq::<Meteor>::empty());
    assert(mask_seq(s1, b1) =~= Seq::<Meteor>::empty());
    assert(up.last() == true && ms.last() == ms[1]);
    assert(mask_seq(ms, up) =~= seq![ms[1]]);
    assert(lf.len() == 1 && lf.last() == false);
    assert(mask_seq(ls.drop_last(), lf.drop_last()) =~= Seq::<Laser>::empty());
    assert(mask_seq(ls, lf) =~= Seq::<Laser>::empty());
}

/// `e` is an explosion request for sprite `img` at `p`.
pub open spec fn is_explosion(e: GameEvent, img: Seq<char>, p: Vec2) -> bool {
    e matches GameEvent::Explosion { image, pos } && image@ == img && pos == p
}

/// `ev` holds, for each destroyed meteor in order, its size-appropriate
/// explosion sprite at its position followed by the one-shot crunch sound.
pub open spec fn events_match(ev: Seq<GameEvent>, dead: Seq<Meteor>) -> bool {
    &&& ev.len() == 2 * dead.len()
    &&& forall|j: int|
        0 <= j < dead.len() ==> is_explosion(
            ev[2 * j],
            crate::meteor::explosion_image((#[trigger] dead[j]).size),
            dead[j].pos,
        ) && is_sound(ev[2 * j + 1], "audio/explosionCrunch_000.ogg"@)
}

/// A copy of `v` with entry `i` replaced.
fn vec_bool_update(v: &Vec<bool>, i: usize, val: bool) -> (out: Vec<bool>)
    requires
        i < v@.len(),
    ensures
        out@ == v@.update(i as int, val),
{
    let n = v.len();
    let mut out: Vec<bool> = Vec::new();
    let mut j: usize = 0;
    while j < n
        invariant
            0 <= j <= n,
            n == v@.len(),
            i < n,
            out@.len() == j,
            forall|t: int|
                0 <= t < j ==> out@[t] == (if t == i {
                    val
                } else {
                    v@[t]
                }),
        decreases n - j,
    {
        if j == i {
            out.push(val);
        } else {
            out.push(v[j]);
        }
        j = j + 1;
    }
    proof {
        assert(out@ =~= v@.update(i as int, val));
    }
    out
}

/// The first still-live meteor this laser hits, scanning in index order.
fn find_first_live_hit(l: Laser, ms: &Vec<Meteor>, alive: &Vec<bool>) -> (r: Option<usize>)
    requires
        alive@.len() == ms@.len(),
        pos_ok(l.pos, POS_LIMIT + MOVE_SLACK),
        forall|i: int|
            0 <= i < ms@.len() ==> crate::meteor::meteor_wf(#[trigger] ms@[i]) && pos_ok(
                ms@[i].pos,
                POS_LIMIT + MOVE_SLACK,
            ),
    ensures
        r matches Some(u) ==> first_live_hit(l, ms@, alive@, 0) == Some(u as int),
        r.is_none() ==> first_live_hit(l, ms@, alive@, 0).is_none(),
{
    let n = ms.len();
    let mut i: usize = 0;
    while i < n
        invariant
            0 <= i <= n,
            n == ms@.len(),
            alive@.len() == ms@.len(),
            pos_ok(l.pos, POS_LIMIT + MOVE_SLACK),
            forall|t: int|
                0 <= t < ms@.len() ==> crate::meteor::meteor_wf(#[trigger] ms@[t]) && pos_ok(
                    ms@[t].pos,
                    POS_LIMIT + MOVE_SLACK,
                ),
            first_live_hit(l, ms@, alive@, 0) == first_live_hit(l, ms@, alive@, i as int),
        decreases n - i,
    {
        let m = ms[i];
        let mr: i64 = ((m.size / 2) as i64) * 1000;
        if alive[i] && circles_collide(l.pos, m.pos, PLAYER_HALF, mr) {
            return Some(i);
        }
        i = i + 1;
    }
    None
}

/// What the laser-collision pass does: the survivors on both sides are
/// fixed by the greedy pairing (each laser spent on the first still-live
/// meteor it hits, each destroyed meteor matched once), and each destroyed
/// meteor leaves its explosion sprite and the crunch sound.
pub open spec fn laser_hit_rel(w0: World, w1: World, ev: Seq<GameEvent>) -> bool {
    let r = greedy_from(w0.lasers@, w0.meteors@, 0, Seq::new(w0.meteors@.len(), |i: int| true));
    &&& w1.lasers@ == mask_seq(w0.lasers@, r.0)
    &&& w1.meteors@ == mask_seq(w0.meteors@, r.1)
    &&& events_match(ev, mask_seq(w0.meteors@, r.1.map_values(|x: bool| !x)))
    &&& w1.player == w0.player
    &&& w1.fire == w0.fire
    &&& w1.next_id == w0.next_id
}

/// Each frame, test every (laser, meteor) pair in order.  A hit destroys
/// both: the laser is spent and matches no further meteor, the meteor is
/// gone and matches no further laser.  Each destroyed meteor leaves its
/// size-appropriate explosion sprite and a one-shot sound; the requests
/// are handed back grouped by meteor.
#[verifier::loop_isolation(false)]
#[verifier::rlimit(60)]
pub fn laser_hit_meteor(world: &mut World) -> (ev: Vec<GameEvent>)
    requires
        old(world).wf(),
        old(world).lasers_within(POS_LIMIT + MOVE_SLACK),
        old(world).meteors_within(POS_LIMIT + MOVE_SLACK),
    ensures
        final(world).wf(),
        laser_hit_rel(*old(world), *final(world), ev@),
{
    let ghost ls = world.lasers@;
    let ghost ms = world.meteors@;
    let ghost init = Seq::new(world.meteors@.len(), |i: int| true);
    let n = world.lasers.len();
    let m = world.meteors.len();

    let mut alive: Vec<bool> = Vec::new();
    let mut j: usize = 0;
    while j < m
        invariant
            0 <= j <= m,
            alive@.len() == j,
            forall|t: int| 0 <= t < j ==> alive@[t] == true,
        decreases m - j,
    {
        alive.push(true);
        j = j + 1;
    }
    proof {
        assert(alive@ =~= init);
    }

    let mut lkeep: Vec<bool> = Vec::new();
    let mut k: usize = 0;
    while k < n
        invariant
            0 <= k <= n,
            lkeep@.len() == k,
            alive@.len() == m,
            greedy_from(ls, ms, 0, init) == (
                lkeep@ + greedy_from(ls, ms, k as int, alive@).0,
                greedy_from(ls, ms, k as int, alive@).1,
            ),
        decreases n - k,
    {
        let l = world.lasers[k];
        let found = find_first_live_hit(l, &world.meteors, &alive);
        let ghost pre = alive@;
        match found {
            None => {
                lkeep.push(true);
                proof {
                    let r = greedy_from(ls, ms, k as int + 1, pre);
                    assert(greedy_from(ls, ms, k as int, pre) == (seq![true] + r.0, r.1));
                    assert(lkeep@ + r.0 =~= lkeep@.drop_last() + (seq![true] + r.0));
                }
            },
            Some(i) => {
                proof {
                    lemma_first_live_hit(l, ms, pre, 0);
                }
                alive = vec_bool_update(&alive, i, false);
                lkeep.push(false);
                proof {
                    let r = greedy_from(ls, ms, k as int + 1, pre.update(i as int, false));
                    assert(greedy_from(ls, ms, k as int, pre) == (seq![false] + r.0, r.1));
                    assert(lkeep@ + r.0 =~= lkeep@.drop_last() + (seq![false] + r.0));
                }
            },
        }
        k = k + 1;
    }
    let ghost gfin = greedy_from(ls, ms, 0, init);
    proof {
        assert(greedy_from(ls, ms, n as int, alive@) == (Seq::<bool>::empty(), alive@));
        assert(lkeep@ + Seq::<bool>::empty() =~= lkeep@);
        assert(gfin.0 == lkeep@ && gfin.1 == alive@);
    }

    let mut ev: Vec<GameEvent> = Vec::new();
    let ghost nb = alive@.map_values(|x: bool| !x);
    let mut t: usize = 0;
    while t < m
        invariant
            0 <= t <= m,
            alive@.len() == m,
            ms.len() == m,
            world.meteors@ == ms,
            nb == alive@.map_values(|x: bool| !x),
            events_match(ev@, mask_seq(ms.take(t as int), nb.take(t as int))),
        decreases m - t,
    {
        proof {
            assert(ms.take(t as int + 1).drop_last() =~= ms.take(t as int));
            assert(nb.take(t as int + 1).drop_last() =~= nb.take(t as int));
            assert(nb.take(t as int + 1).last() == !alive@[t as int]);
            assert(ms.take(t as int + 1).last() == ms[t as int]);
        }
        let ghost dead0 = mask_seq(ms.take(t as int), nb.take(t as int));
        let ghost dead1 = mask_seq(ms.take(t as int + 1), nb.take(t as int + 1));
        if !alive[t] {
            let mt = world.meteors[t];
            let img = mt.explosion();
            let ghost ev0 = ev@;
            ev.push(GameEvent::Explosion { image: img, pos: mt.pos });
            ev.push(GameEvent::Sound { key: "audio/explosionCrunch_000.ogg" });
            proof {
                assert(dead1 =~= dead0.push(mt));
                assert forall|j: int|
                    0 <= j < dead1.len() implies is_explosion(
                    ev@[2 * j],
                    crate::meteor::explosion_image((#[trigger] dead1[j]).size),
                    dead1[j].pos,
                ) && is_sound(ev@[2 * j + 1], "audio/explosionCrunch_000.ogg"@) by {
                    if j < dead0.len() {
                        assert(dead1[j] == dead0[j]);
                        assert(ev@[2 * j] == ev0[2 * j]);
                        assert(ev@[2 * j + 1] == ev0[2 * j + 1]);
                    } else {
                        assert(dead1[j] == mt);
                        assert(ev@[2 * j] == ev@[ev@.len() - 2]);
                        assert(ev@[2 * j + 1] == ev@[ev@.len() - 1]);
                    }
                }
            }
        } else {
            proof {
                assert(dead1 =~= dead0);
            }
        }
        t = t + 1;
    }
    proof {
        assert(ms.take(m as int) =~= ms);
        assert(nb.take(m as int) =~= nb);
    }

    let mut new_lasers: Vec<Laser> = Vec::new();
    let mut a: usize = 0;
    while a < n
        invariant
            0 <= a <= n,
            n == ls.len(),
            world.lasers@ == ls,
            lkeep@.len() == n,
            new_lasers@ == mask_seq(ls.take(a as int), lkeep@.take(a as int)),
        decreases n - a,
    {
        proof {
            assert(ls.take(a as int + 1).drop_last() =~= ls.take(a as int));
            assert(lkeep@.take(a as int + 1).drop_last() =~= lkeep@.take(a as int));
        }
        if lkeep[a] {
            new_lasers.push(world.lasers[a]);
        }
        a = a + 1;
    }
    proof {
        assert(ls.take(n as int) =~= ls);
        assert(lkeep@.take(n as int) =~= lkeep@);
    }

    let mut new_meteors: Vec<Meteor> = Vec::new();
    let mut b: usize = 0;
    while b < m
        invariant
            0 <= b <= m,
            m == ms.len(),
            world.meteors@ == ms,
            alive@.len() == m,
            new_meteors@ == mask_seq(ms.take(b as int), alive@.take(b as int)),
        decreases m - b,
    {
        proof {
            assert(ms.take(b as int + 1).drop_last() =~= ms.take(b as int));
            assert(alive@.take(b as int + 1).drop_last() =~= alive@.take(b as int));
        }
        if alive[b] {
            new_meteors.push(world.meteors[b]);
        }
        b = b + 1;
    }
    proof {
        assert(ms.take(m as int) =~= ms);
        assert(alive@.take(m as int) =~= alive@);
    }

    world.lasers = new_lasers;
    world.meteors = new_meteors;
    proof {
        assert forall|q: int|
            0 <= q < world.meteors@.len() implies crate::meteor::meteor_wf(
            #[trigger] world.meteors@[q],
        ) && world.meteors@[q].id < world.next_id by {
            assert(world.meteors@.contains(world.meteors@[q]));
            lemma_mask_contains(ms, alive@, world.meteors@[q]);
            let x = choose|x: int| 0 <= x < ms.len() && ms[x] == world.meteors@[q];
            assert(crate::meteor::meteor_wf(ms[x]));
        }
        assert forall|q: int|
            0 <= q < world.lasers@.len() implies laser_wf(#[trigger] world.lasers@[q])
            && world.lasers@[q].id < world.next_id by {
            assert(world.lasers@.contains(world.lasers@[q]));
            lemma_mask_contains(ls, lkeep@, world.lasers@[q]);
            let x = choose|x: int| 0 <= x < ls.len() && ls[x] == world.lasers@[q];
            assert(laser_wf(ls[x]));
        }
    }
    ev
}

/// The meteor collides with the player: their centres are closer than the
/// sum of the player's and the meteor's collision radii.
pub open spec fn meteor_hits_player(p: Player, m: Meteor) -> bool {
    circles_collide_spec(p.pos, m.pos, 37_000, meteor_radius(m.size))
}

/// Some live meteor collides with the player.
pub open spec fn player_hit(p: Player, s: Seq<Meteor>) -> bool {
    exists|i: int| 0 <= i < s.len() && meteor_hits_player(p, #[trigger] s[i])
}

/// What the player-collision pass does: if any live meteor overlaps the
/// player, the player and its exhaust are destroyed and one explosion
/// sound is requested; otherwise nothing changes.  Meteors and lasers are
/// never touched here.
pub open spec fn hit_player_rel(w0: World, w1: World, ev: Seq<GameEvent>) -> bool {
    &&& (w0.player.is_none() ==> w1 == w0 && ev.len() == 0)
    &&& (w0.player matches Some(p) ==> {
        &&& (player_hit(p, w0.meteors@) ==> w1.player.is_none() && w1.fire.is_none() && ev.len()
            == 1 && is_sound(ev[0], "audio/explosionCrunch_000.ogg"@))
        &&& (!player_hit(p, w0.meteors@) ==> w1 == w0 && ev.len() == 0)
    })
    &&& w1.meteors == w0.meteors
    &&& w1.lasers == w0.lasers
    &&& w1.next_id == w0.next_id
}

/// Each frame, test the player against every meteor; on the first hit,
/// destroy the player (the exhaust effect cascading with it), request the
/// explosion sound, and stop scanning.
#[verifier::loop_isolation(false)]
pub fn meteor_hit_player(world: &mut World) -> (ev: Vec<GameEvent>)
    requires
        old(world).wf(),
        old(world).player_within(POS_LIMIT + MOVE_SLACK),
        old(world).meteors_within(POS_LIMIT + MOVE_SLACK),
    ensures
        final(world).wf(),
        hit_player_rel(*old(world), *final(world), ev@),
{
    let mut ev: Vec<GameEvent> = Vec::new();
    match world.player {
        None => {},
        Some(p) => {
            let n = world.meteors.len();
            let mut hit: bool = false;
            let mut i: usize = 0;
            while i < n && !hit
                invariant
                    0 <= i <= n,
                    !hit ==> forall|j: int|
                        0 <= j < i ==> !meteor_hits_player(p, #[trigger] world.meteors@[j]),
                    hit ==> player_hit(p, world.meteors@),
                    world == old(world),
                decreases n - i + (if hit {
                    0int
                } else {
                    1int
                }),
            {
                let m = world.meteors[i];
                let mr: i64 = ((m.size / 2) as i64) * 1000;
                if circles_collide(p.pos, m.pos, PLAYER_HALF, mr) {
                    hit = true;
                } else {
                    i = i + 1;
                }
            }
            if hit {
                world.destroy_player();
                ev.push(GameEvent::Sound { key: "audio/explosionCrunch_000.ogg" });
            }
        },
    }
    ev
}

} // verus!
