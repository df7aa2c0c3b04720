//! Meteors: the fixed archetype catalog, the live meteor entity, the
//! repeating spawn timer, and the meteor systems (spawning, movement and
//! boundary cull).

use crate::math::{norm_x, norm_y, normalize, Vec2};
use crate::world::{meteors_wf, pos_ok, World};
use vstd::prelude::*;

verus! {

/// The largest meteor sprite's extent in world units; the four size
/// classes are 84, 43, 28 and 18.
pub const METEOR_SIZE: u16 = 84;

/// How many meteors the initial batch spawns on game entry.
pub const NUMBER_OF_METEORS: usize = 4;

/// An immutable catalog entry: a size class, its sprite, and the speed
/// that is always drawn together with that size.
#[derive(Clone, Copy, Debug)]
pub struct MeteorType {
    pub size: u16,
    pub image: &'static str,
    pub speed: i64,
}

/// A live meteor: position and direction in milli-units, the size class
/// in world units, the speed in units per second, and the sprite the
/// render collaborator shows for it — all three drawn together from one
/// archetype.
#[derive(Clone, Copy, PartialEq, Eq, Debug)]
pub struct Meteor {
    pub id: u64,
    pub pos: Vec2,
    pub direction: Vec2,
    pub size: u16,
    pub speed: i64,
    pub image: &'static str,
}

/// The four size classes.
pub open spec fn is_meteor_size(size: u16) -> bool {
    size == 84 || size == 43 || size == 28 || size == 18
}

/// The speed tier drawn together with each size class: bigger is slower.
pub open spec fn size_speed(size: u16) -> int {
    if size == 84 {
        60
    } else if size == 43 {
        80
    } else if size == 28 {
        120
    } else if size == 18 {
        180
    } else {
        0
    }
}

/// A meteor's collision radius in milli-units: half its size, the halving
/// done on whole world units.
pub open spec fn meteor_radius(size: u16) -> int {
    (size as int / 2) * 1000
}

/// A meteor's boundary inset in milli-units: half its extent.
pub open spec fn meteor_half(size: u16) -> int {
    (size as int) * 500
}

/// A well-formed meteor: a catalog size with its paired speed, and a
/// direction no longer than one unit on either axis.
pub open spec fn meteor_wf(m: Meteor) -> bool {
    &&& is_meteor_size(m.size)
    &&& m.speed == size_speed(m.size)
    &&& -1000 <= m.direction.x <= 1000
    &&& -1000 <= m.direction.y <= 1000
}

/// The size class of catalog entry `i`: two color variants share each of
/// the four classes.
pub open spec fn archetype_size(i: int) -> u16 {
    if i < 2 {
        84
    } else if i < 4 {
        43
    } else if i < 6 {
        28
    } else {
        18
    }
}

/// The sprite of catalog entry `i`.
pub open spec fn archetype_image(i: int) -> Seq<char> {
    if i == 0 {
        "sprites/meteors/meteorGrey_big1.png"@
    } else if i == 1 {
        "sprites/meteors/meteorBrown_big1.png"@
    } else if i == 2 {
        "sprites/meteors/meteorGrey_med1.png"@
    } else if i == 3 {
        "sprites/meteors/meteorBrown_med1.png"@
    } else if i == 4 {
        "sprites/meteors/meteorGrey_small1.png"@
    } else if i == 5 {
        "sprites/meteors/meteorBrown_small1.png"@
    } else if i == 6 {
        "sprites/meteors/meteorGrey_tiny1.png"@
    } else {
        "sprites/meteors/meteorBrown_tiny1.png"@
    }
}

/// `t` is one of the eight fixed archetypes.
pub open spec fn is_archetype(t: MeteorType) -> bool {
    exists|i: int|
        0 <= i < 8 && t.size == #[trigger] archetype_size(i) && t.speed == size_speed(
            archetype_size(i),
        ) && t.image@ == archetype_image(i)
}

/// The fixed eight-entry archetype catalog: four size classes, each in two
/// color variants, each size sharing one speed.
pub fn meteor_catalog() -> (v: Vec<MeteorType>)
    ensures
        v@.len() == 8,
        forall|i: int|
            0 <= i < 8 ==> (#[trigger] v@[i]).size == archetype_size(i) && v@[i].speed
                == size_speed(archetype_size(i)) && v@[i].image@ == archetype_image(i),
{
    let mut v: Vec<MeteorType> = Vec::new();
    v.push(MeteorType { size: 84, image: "sprites/meteors/meteorGrey_big1.png", speed: 60 });
    v.push(MeteorType { size: 84, image: "sprites/meteors/meteorBrown_big1.png", speed: 60 });
    v.push(MeteorType { size: 43, image: "sprites/meteors/meteorGrey_med1.png", speed: 80 });
    v.push(MeteorType { size: 43, image: "sprites/meteors/meteorBrown_med1.png", speed: 80 });
    v.push(MeteorType { size: 28, image: "sprites/meteors/meteorGrey_small1.png", speed: 120 });
    v.push(MeteorType { size: 28, image: "sprites/meteors/meteorBrown_small1.png", speed: 120 });
    v.push(MeteorType { size: 18, image: "sprites/meteors/meteorGrey_tiny1.png", speed: 180 });
    v.push(MeteorType { size: 18, image: "sprites/meteors/meteorBrown_tiny1.png", speed: 180 });
    v
}

/// One archetype, picked uniformly at random from the catalog.
pub fn random_type() -> (t: MeteorType)
    ensures
        is_archetype(t),
{
    let types = meteor_catalog();
    let x: u64 = crate::rng::random_u64() % 8;
    let t = types[x as usize].clone();
    proof {
        assert(t.size == archetype_size(x as int) && t.speed == size_speed(
            archetype_size(x as int),
        ) && t.image@ == archetype_image(x as int));
    }
    t
}

impl Meteor {
    /// The explosion sprite a meteor of this size leaves behind: the three
    /// larger classes each have their own, the smallest shares the default.
    pub fn explosion(&self) -> (r: &'static str)
        ensures
            r@ == explosion_image(self.size),
    {
        match self.size {
            84 => "sprites/effects/explosion01.png",
            43 => "sprites/effects/explosion02.png",
            28 => "sprites/effects/explosion03.png",
            _ => "sprites/effects/explosion04.png",
        }
    }
}

/// The explosion sprite for each size class; anything unrecognized shares
/// the default.
pub open spec fn explosion_image(size: u16) -> Seq<char> {
    if size == 84 {
        "sprites/effects/explosion01.png"@
    } else if size == 43 {
        "sprites/effects/explosion02.png"@
    } else if size == 28 {
        "sprites/effects/explosion03.png"@
    } else {
        "sprites/effects/explosion04.png"@
    }
}

/// Every archetype carries one of exactly the four sizes with that size's
/// paired speed, and its collision radius is half its size.
pub proof fn lemma_archetype_sizes(t: MeteorType)
    requires
        is_archetype(t),
    ensures
        t.size == 84 || t.size == 43 || t.size == 28 || t.size == 18,
        t.speed == size_speed(t.size),
        meteor_radius(t.size) == (t.size as int / 2) * 1000,
{
    let i = choose|i: int|
        0 <= i < 8 && t.size == #[trigger] archetype_size(i) && t.speed == size_speed(
            archetype_size(i),
        ) && t.image@ == archetype_image(i);
}

/// Every well-formed meteor carries one of exactly the four sizes, with
/// the speed paired to it, and its collision radius is half its size.
pub proof fn lemma_meteor_sizes(m: Meteor)
    requires
        meteor_wf(m),
    ensures
        m.size == 84 || m.size == 43 || m.size == 28 || m.size == 18,
        m.speed == size_speed(m.size),
        meteor_radius(m.size) == (m.size as int / 2) * 1000,
{
}

/// What holds of every freshly spawned meteor: the next free handle; a
/// catalog archetype, whose size, speed and sprite were drawn together; a
/// random horizontal position inside the viewport; the top edge inset by
/// its own half-size; and a direction made of two unit draws, normalized,
/// with the vertical component negated so the motion is biased downward.
/// The direction has near-unit length unless both draws were zero, the
/// defensive case that yields no movement.
pub open spec fn spawned_meteor_ok(m: Meteor, id: int, w: int, h: int) -> bool {
    &&& m.id == id
    &&& meteor_wf(m)
    &&& is_archetype((MeteorType { size: m.size, image: m.image, speed: m.speed }))
    &&& 0 <= m.pos.x < w
    &&& m.pos.y == h - meteor_half(m.size)
    &&& m.direction.x >= 0
    &&& m.direction.y <= 0
    &&& ((m.direction.x == 0 && m.direction.y == 0) || crate::math::near_unit(m.direction))
    &&& exists|ux: int, uy: int|
        0 <= ux < 1000 && 0 <= uy < 1000 && m.direction.x == #[trigger] norm_x(ux, uy)
            && m.direction.y == -norm_y(ux, uy)
}

/// Create one meteor with a fresh handle, a random archetype, a random
/// horizontal position at the top of the viewport, and a randomized
/// downward-biased direction.  `w` and `h` are the viewport extents in
/// milli-units.
pub fn spawn_one_meteor(world: &mut World, w: u64, h: u64)
    requires
        old(world).wf(),
        old(world).next_id < u64::MAX,
        84_000 <= w <= 1_000_000_000,
        84_000 <= h <= 1_000_000_000,
    ensures
        final(world).wf(),
        final(world).meteors@.len() == old(world).meteors@.len() + 1,
        final(world).meteors@.subrange(0, old(world).meteors@.len() as int) == old(
            world,
        ).meteors@,
        spawned_meteor_ok(
            final(world).meteors@.last(),
            old(world).next_id as int,
            w as int,
            h as int,
        ),
        final(world).next_id == old(world).next_id + 1,
        final(world).player == old(world).player,
        final(world).fire == old(world).fire,
        final(world).lasers == old(world).lasers,
        pos_ok(final(world).meteors@.last().pos, 1_000_000_000),
        old(world).meteors_within(1_000_000_000) ==> final(world).meteors_within(1_000_000_000),
{
    let t = random_type();
    let mut ux = crate::rng::uniform_scalar();
    let mut uy = crate::rng::uniform_scalar();
    // A tiny nonzero draw pair is scaled up before normalization, so the
    // rounding of the integer normalize stays within the unit-length
    // tolerance; scaling changes nothing about the drawn vector's angle.
    if !(ux == 0 && uy == 0) {
        while ux < 100 && uy < 100
            invariant
                0 <= ux < 1000,
                0 <= uy < 1000,
                !(ux == 0 && uy == 0),
            decreases 2000 - ux - uy,
        {
            ux = ux * 10;
            uy = uy * 10;
        }
    }
    proof {
        assert((ux == 0 && uy == 0) || ux >= 100 || uy >= 100);
    }
    let d = normalize(ux, uy);
    let dir = Vec2 { x: d.x, y: -d.y };
    let sx = crate::rng::uniform_scalar();
    proof {
        assert((sx as u64) * w <= 999 * 1_000_000_000) by (nonlinear_arith)
            requires
                0 <= sx <= 999,
                w <= 1_000_000_000,
        ;
        vstd::arithmetic::div_mod::lemma_fundamental_div_mod(((sx as u64) * w) as int, 1000);
        let wi = w as int;
        let sxi = sx as int;
        assert(sxi * wi < 1000 * wi) by (nonlinear_arith)
            requires
                0 <= sxi <= 999,
                0 < wi,
        ;
    }
    let x: u64 = (sx as u64) * w / 1000;
    let half: u64 = (t.size as u64) * 500;
    proof {
        let i = choose|i: int|
            0 <= i < 8 && t.size == #[trigger] archetype_size(i) && t.speed == size_speed(
                archetype_size(i),
            ) && t.image@ == archetype_image(i);
        assert(is_meteor_size(t.size) && t.speed == size_speed(t.size));
    }
    let y: u64 = h - half;
    let m = Meteor {
        id: world.next_id,
        pos: Vec2 { x: x as i64, y: y as i64 },
        direction: dir,
        size: t.size,
        speed: t.speed,
        image: t.image,
    };
    let ghost prev = world.meteors@;
    world.meteors.push(m);
    world.next_id = world.next_id + 1;
    proof {
        assert(world.meteors@.subrange(0, prev.len() as int) =~= prev);
        assert(meteor_wf(m));
        assert forall|j: int|
            0 <= j < world.meteors@.len() implies meteor_wf(#[trigger] world.meteors@[j])
            && world.meteors@[j].id < world.next_id by {
            if j < prev.len() {
                assert(world.meteors@[j] == prev[j]);
            } else {
                assert(world.meteors@[j] == m);
            }
        }
        if ux == 0 && uy == 0 {
            assert(m.direction.x == 0 && m.direction.y == 0);
        } else {
            assert(ux * ux + uy * uy >= 10_000) by (nonlinear_arith)
                requires
                    ux >= 100 || uy >= 100,
                    ux >= 0,
                    uy >= 0,
            ;
            crate::math::lemma_normalize_near_unit(ux as int, uy as int);
            assert(m.direction.y * m.direction.y == d.y * d.y) by (nonlinear_arith)
                requires
                    m.direction.y as int == -(d.y as int),
            ;
            assert(crate::math::near_unit(m.direction));
        }
        assert(t == MeteorType { size: m.size, image: m.image, speed: m.speed });
        assert(spawned_meteor_ok(m, old(world).next_id as int, w as int, h as int));
        if old(world).meteors_within(1_000_000_000) {
            assert forall|j: int|
                0 <= j < world.meteors@.len() implies pos_ok(
                (#[trigger] world.meteors@[j]).pos,
                1_000_000_000,
            ) by {
                if j < prev.len() {
                    assert(world.meteors@[j] == prev[j]);
                } else {
                    assert(world.meteors@[j] == m);
                }
            }
        }
    }
}

/// The initial batch: four meteors spawned on game entry, each with its
/// own random archetype, position and direction, under consecutive fresh
/// handles.
#[verifier::loop_isolation(false)]
pub fn spawn_meteors(world: &mut World, w: u64, h: u64)
    requires
        old(world).wf(),
        old(world).next_id <= u64::MAX - 4,
        84_000 <= w <= 1_000_000_000,
        84_000 <= h <= 1_000_000_000,
    ensures
        final(world).wf(),
        final(world).meteors@.len() == old(world).meteors@.len() + 4,
        final(world).meteors@.subrange(0, old(world).meteors@.len() as int) == old(
            world,
        ).meteors@,
        forall|k: int|
            old(world).meteors@.len() <= k < final(world).meteors@.len()
                ==> spawned_meteor_ok(
                #[trigger] final(world).meteors@[k],
                old(world).next_id + k - old(world).meteors@.len(),
                w as int,
                h as int,
            ),
        final(world).next_id == old(world).next_id + 4,
        final(world).player == old(world).player,
        final(world).fire == old(world).fire,
        final(world).lasers == old(world).lasers,
        old(world).meteors_within(1_000_000_000) ==> final(world).meteors_within(1_000_000_000),
{
    let ghost base = world.meteors@;
    let ghost id0 = world.next_id;
    let mut j: usize = 0;
    while j < NUMBER_OF_METEORS
        invariant
            0 <= j <= 4,
            world.wf(),
            world.meteors@.len() == base.len() + j,
            world.meteors@.subrange(0, base.len() as int) == base,
            forall|k: int|
                base.len() <= k < world.meteors@.len() ==> spawned_meteor_ok(
                    #[trigger] world.meteors@[k],
                    id0 + k - base.len(),
                    w as int,
                    h as int,
                ),
            world.next_id == id0 + j,
            world.player == old(world).player,
            world.fire == old(world).fire,
            world.lasers == old(world).lasers,
            old(world).meteors_within(1_000_000_000) ==> world.meteors_within(1_000_000_000),
        decreases 4 - j,
    {
        let ghost prev = world.meteors@;
        spawn_one_meteor(world, w, h);
        proof {
            assert forall|k: int|
                base.len() <= k < world.meteors@.len() implies spawned_meteor_ok(
                #[trigger] world.meteors@[k],
                id0 + k - base.len(),
                w as int,
                h as int,
            ) by {
                if k < prev.len() {
                    assert(world.meteors@[k] == world.meteors@.subrange(
                        0,
                        prev.len() as int,
                    )[k]);
                    assert(world.meteors@[k] == prev[k]);
                } else {
                    assert(world.meteors@[k] == world.meteors@.last());
                }
            }
            assert(world.meteors@.subrange(0, base.len() as int) =~= prev.subrange(
                0,
                base.len() as int,
            ));
        }
        j = j + 1;
    }
}

/// What the spawn controller does to the world in one frame, given the
/// already-ticked timer: exactly one freshly spawned meteor when the timer
/// reports a finished period, nothing otherwise.
pub open spec fn spawn_over_time_rel(w0: World, w1: World, t: SpawnTimer, vw: int, vh: int) -> bool {
    &&& (t.finished ==> {
        &&& w1.meteors@.len() == w0.meteors@.len() + 1
        &&& w1.meteors@.subrange(0, w0.meteors@.len() as int) == w0.meteors@
        &&& spawned_meteor_ok(w1.meteors@.last(), w0.next_id as int, vw, vh)
        &&& w1.next_id == w0.next_id + 1
    })
    &&& (!t.finished ==> w1 == w0)
    &&& w1.player == w0.player
    &&& w1.fire == w0.fire
    &&& w1.lasers == w0.lasers
}

/// One more meteor each time the repeating spawn timer reports a finished
/// period; otherwise the world is left untouched.
pub fn spawn_meteors_over_time(world: &mut World, timer: &SpawnTimer, w: u64, h: u64)
    requires
        old(world).wf(),
        old(world).next_id < u64::MAX,
        84_000 <= w <= 1_000_000_000,
        84_000 <= h <= 1_000_000_000,
    ensures
        final(world).wf(),
        spawn_over_time_rel(*old(world), *final(world), *timer, w as int, h as int),
        old(world).meteors_within(1_000_000_000) ==> final(world).meteors_within(1_000_000_000),
{
    if timer.finished {
        spawn_one_meteor(world, w, h);
    }
}

/// Destroy every meteor, as happens on leaving the `Game` state.
pub fn despawn_meteors(world: &mut World)
    requires
        old(world).wf(),
    ensures
        final(world).wf(),
        final(world).meteors@.len() == 0,
        final(world).player == old(world).player,
        final(world).fire == old(world).fire,
        final(world).lasers == old(world).lasers,
        final(world).next_id == old(world).next_id,
{
    world.meteors = Vec::new();
}

/// The new meteor a movement pass leaves behind: the same identity,
/// archetype and direction, with the position advanced by direction times
/// speed times elapsed time.
pub open spec fn meteor_moved_ok(new: Meteor, m: Meteor, dt: int) -> bool {
    &&& new.id == m.id
    &&& new.size == m.size
    &&& new.speed == m.speed
    &&& new.image == m.image
    &&& new.direction == m.direction
    &&& new.pos.x == crate::math::moved_x(m.pos, m.direction, m.speed as int, dt)
    &&& new.pos.y == crate::math::moved_y(m.pos, m.direction, m.speed as int, dt)
}

/// Advance every meteor along its own direction at its own speed over the
/// frame's `dt` milliseconds.
/// What the movement pass does to the meteors: every one advanced along
/// its own direction at its own speed, nothing else touched.
pub open spec fn meteor_movement_rel(w0: World, w1: World, dt: int) -> bool {
    &&& w1.meteors@.len() == w0.meteors@.len()
    &&& forall|i: int|
        0 <= i < w0.meteors@.len() ==> meteor_moved_ok(
            #[trigger] w1.meteors@[i],
            w0.meteors@[i],
            dt,
        )
    &&& w1.player == w0.player
    &&& w1.fire == w0.fire
    &&& w1.lasers == w0.lasers
    &&& w1.next_id == w0.next_id
}

#[verifier::loop_isolation(false)]
pub fn meteor_movement(world: &mut World, dt: i64)
    requires
        old(world).wf(),
        0 <= dt <= 1_000_000,
        old(world).meteors_within(crate::world::POS_LIMIT as int),
    ensures
        final(world).wf(),
        meteor_movement_rel(*old(world), *final(world), dt as int),
        final(world).meteors_within(crate::world::POS_LIMIT + crate::world::MOVE_SLACK),
{
    let ghost s = world.meteors@;
    let n = world.meteors.len();
    let mut out: Vec<Meteor> = Vec::new();
    let mut i: usize = 0;
    while i < n
        invariant
            0 <= i <= n,
            n == s.len(),
            world.meteors@ == s,
            out@.len() == i,
            forall|j: int| 0 <= j < i ==> meteor_moved_ok(#[trigger] out@[j], s[j], dt as int),
            forall|j: int|
                0 <= j < i ==> pos_ok(
                    (#[trigger] out@[j]).pos,
                    crate::world::POS_LIMIT + crate::world::MOVE_SLACK,
                ),
        decreases n - i,
    {
        let m = world.meteors[i];
        let dx = crate::math::scaled(m.direction.x, m.speed, dt);
        let dy = crate::math::scaled(m.direction.y, m.speed, dt);
        let moved = Meteor {
            id: m.id,
            pos: Vec2 { x: m.pos.x + dx, y: m.pos.y + dy },
            direction: m.direction,
            size: m.size,
            speed: m.speed,
            image: m.image,
        };
        out.push(moved);
        i = i + 1;
    }
    world.meteors = out;
}

/// A meteor sits inside the viewport, its own half-size used as the inset
/// on every edge.
pub open spec fn meteor_in_bounds(m: Meteor, w: int, h: int) -> bool {
    &&& meteor_half(m.size) <= m.pos.x <= w - meteor_half(m.size)
    &&& meteor_half(m.size) <= m.pos.y <= h - meteor_half(m.size)
}

/// Destroy every meteor that has left the viewport on either axis; the
/// survivors keep their order.
/// What the boundary cull does to the meteors: exactly those inside the
/// viewport survive, in order, and nothing else is touched.
pub open spec fn cull_meteors_rel(w0: World, w1: World, vw: int, vh: int) -> bool {
    &&& w1.meteors@ == w0.meteors@.filter((|m: Meteor| meteor_in_bounds(m, vw, vh)))
    &&& w1.player == w0.player
    &&& w1.fire == w0.fire
    &&& w1.lasers == w0.lasers
    &&& w1.next_id == w0.next_id
}

#[verifier::loop_isolation(false)]
pub fn despawn_meteor(world: &mut World, w: u64, h: u64)
    requires
        old(world).wf(),
        84_000 <= w <= 1_000_000_000,
        84_000 <= h <= 1_000_000_000,
    ensures
        final(world).wf(),
        cull_meteors_rel(*old(world), *final(world), w as int, h as int),
        final(world).meteors_within(1_000_000_000),
{
    let ghost s = world.meteors@;
    let ghost pred = (|m: Meteor| meteor_in_bounds(m, w as int, h as int));
    let n = world.meteors.len();
    let mut out: Vec<Meteor> = Vec::new();
    let mut i: usize = 0;
    while i < n
        invariant
            0 <= i <= n,
            n == s.len(),
            world.meteors@ == s,
            out@ == s.take(i as int).filter(pred),
        decreases n - i,
    {
        let m = world.meteors[i];
        let half: i64 = (m.size as i64) * 500;
        let keep = half <= m.pos.x && m.pos.x <= (w as i64) - half && half <= m.pos.y && m.pos.y
            <= (h as i64) - half;
        proof {
            reveal(Seq::filter);
            assert(s.take(i as int + 1).drop_last() =~= s.take(i as int));
            assert(s.take(i as int + 1).last() == s[i as int]);
            assert(keep == pred(m));
        }
        if keep {
            out.push(m);
        }
        i = i + 1;
    }
    proof {
        assert(s.take(n as int) =~= s);
    }
    world.meteors = out;
    proof {
        lemma_cull_survivors(s, world.meteors@, w as int, h as int, world.next_id as int);
    }
}

/// What boundary culling keeps: every survivor is one of the old meteors
/// and sits inside the viewport, so the survivors inherit well-formedness,
/// issued handles, and in-viewport positions.
proof fn lemma_cull_survivors(s: Seq<Meteor>, f: Seq<Meteor>, w: int, h: int, next_id: int)
    requires
        meteors_wf(s, next_id),
        f == s.filter((|m: Meteor| meteor_in_bounds(m, w, h))),
        84_000 <= w <= 1_000_000_000,
        84_000 <= h <= 1_000_000_000,
    ensures
        meteors_wf(f, next_id),
        forall|i: int|
            0 <= i < f.len() ==> pos_ok((#[trigger] f[i]).pos, 1_000_000_000),
{
    let pred = (|m: Meteor| meteor_in_bounds(m, w, h));
    assert forall|i: int|
        0 <= i < f.len() implies meteor_wf(#[trigger] f[i]) && f[i].id < next_id && pos_ok(
        f[i].pos,
        1_000_000_000,
    ) by {
        s.lemma_filter_pred(pred, i);
        assert(f.contains(f[i]));
        s.lemma_filter_contains_rev(pred, f[i]);
        let k = choose|k: int| 0 <= k < s.len() && s[k] == f[i];
        assert(meteor_wf(s[k]));
        assert(meteor_in_bounds(f[i], w, h));
        assert(meteor_half(f[i].size) >= 0);
    }
}

/// Boundary cull destroys exactly the meteors outside the viewport: a
/// meteor is among the survivors if and only if it was live and in bounds.
pub proof fn lemma_cull_keeps(s: Seq<Meteor>, w: int, h: int, m: Meteor)
    ensures
        s.filter((|x: Meteor| meteor_in_bounds(x, w, h))).contains(m) <==> (s.contains(m)
            && meteor_in_bounds(m, w, h)),
{
    let pred = (|x: Meteor| meteor_in_bounds(x, w, h));
    let f = s.filter(pred);
    if f.contains(m) {
        s.lemma_filter_contains_rev(pred, m);
        let i = choose|i: int| 0 <= i < f.len() && f[i] == m;
        s.lemma_filter_pred(pred, i);
    }
    if s.contains(m) && meteor_in_bounds(m, w, h) {
        let i = choose|i: int| 0 <= i < s.len() && s[i] == m;
        s.lemma_filter_contains(pred, i);
    }
}

/// The repeating spawn countdown: reports `finished` exactly on the ticks
/// where a period elapses, and carries the remainder over.
#[derive(Clone, Copy, PartialEq, Eq, Structural, Debug)]
pub struct SpawnTimer {
    pub period_ms: u64,
    pub elapsed_ms: u64,
    pub finished: bool,
}

/// A well-formed timer has a positive, bounded period and never stores a
/// full period of elapsed time.
pub open spec fn timer_wf(t: SpawnTimer) -> bool {
    0 < t.period_ms <= 1_000_000_000 && t.elapsed_ms < t.period_ms
}

/// A fresh repeating timer with the default one-second spawn period.
pub fn new_spawn_timer() -> (t: SpawnTimer)
    ensures
        timer_wf(t),
        t.period_ms == 1000,
        t.elapsed_ms == 0,
        !t.finished,
{
    SpawnTimer { period_ms: 1000, elapsed_ms: 0, finished: false }
}

/// What one tick does to the repeating timer: it keeps its period,
/// reports `finished` exactly when a period boundary was crossed, and
/// carries the remainder over.
pub open spec fn timer_tick_rel(t0: SpawnTimer, t1: SpawnTimer, dt: int) -> bool {
    &&& t1.period_ms == t0.period_ms
    &&& t1.finished == (t0.elapsed_ms + dt >= t0.period_ms)
    &&& t1.elapsed_ms == (t0.elapsed_ms + dt) % (t0.period_ms as int)
}

/// Advance the spawn timer by the frame's elapsed time.  It reports
/// `finished` exactly when a period boundary was crossed, and restarts
/// itself with the remainder, so it fires once per period.
pub fn tick_meteor_spawn_timer(timer: &mut SpawnTimer, dt: i64)
    requires
        timer_wf(*old(timer)),
        0 <= dt <= 1_000_000,
    ensures
        timer_wf(*final(timer)),
        timer_tick_rel(*old(timer), *final(timer), dt as int),
{
    let sum: u64 = timer.elapsed_ms + (dt as u64);
    if sum >= timer.period_ms {
        timer.finished = true;
        timer.elapsed_ms = sum % timer.period_ms;
        proof {
            vstd::arithmetic::div_mod::lemma_mod_bound(sum as int, timer.period_ms as int);
        }
    } else {
        timer.finished = false;
        timer.elapsed_ms = sum;
        proof {
            vstd::arithmetic::div_mod::lemma_small_mod(sum as nat, timer.period_ms as nat);
        }
    }
}

} // verus!
